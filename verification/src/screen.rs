//! What the main screen shows: the text of each line and the row it goes to.
use vstd::prelude::*;
use crate::client::{TaskRow, TodoRow};
use crate::layout::{adjust_scroll, blank_fallback, or_dash, scroll_for, truncate_text, truncated};
use crate::numbers::{decimal, push_decimal};
use crate::state::{is_archived, AppState, Screen, TodoScope};
use crate::text::is_blank;

verus! {

/// The figures of a todo as the caller formats them: the rounded progress,
/// the two budgets with two decimals, and the progress with no decimals.
#[derive(Debug)]
pub struct TodoFigures {
    pub progress: String,
    pub spent: String,
    pub planned: String,
    pub progress_detail: String,
}

/// The amount of a task as the caller formats it, with two decimals, and
/// whether it differs from zero.
#[derive(Debug)]
pub struct TaskFigures {
    pub amount: String,
    pub nonzero: bool,
}

/// One line of the screen: its row and its text.
#[derive(Debug)]
pub struct ScreenLine {
    pub row: i32,
    pub text: String,
}

/// The views of screen lines.
pub open spec fn lines_view(v: Seq<ScreenLine>) -> Seq<(int, Seq<char>)> {
    v.map_values(|l: ScreenLine| (l.row as int, l.text@))
}

/// The first line of the todo list screen.
pub open spec fn todos_header(s: AppState) -> Seq<char> {
    "BlueTodo TUI "@ + s.host@ + ":"@ + decimal(s.port as nat) + "  "@ + (if is_archived(s.scope) {
        "Archiv"@
    } else {
        "Aktiv"@
    }) + ": "@ + decimal(s.todos@.len())
}

/// The key help of the todo list screen.
pub open spec fn todos_help(archived: bool) -> Seq<char> {
    if archived {
        "Enter: tasks  u: restore  v: aktiv  r: refresh  q: quit"@
    } else {
        "Enter: tasks  n: neu  e: edit  x: archiv  v: archiv  r: refresh  q: quit"@
    }
}

/// The middle column of a todo's list line: order number and purchaser,
/// else the description, else `-`.
pub open spec fn todo_meta(t: TodoRow) -> Seq<char> {
    if t.order_number@.len() > 0 {
        t.order_number@ + " | "@ + or_dash(t.purchaser@)
    } else if t.description@.len() > 0 {
        t.description@
    } else {
        "-"@
    }
}

/// A todo's list line, before it is cut to the screen width.
pub open spec fn todo_line(t: TodoRow, f: TodoFigures, selected: bool, archived: bool) -> Seq<char> {
    (if selected { ">"@ } else { " "@ }) + " "@ + t.title@ + " | "@ + todo_meta(t) + " | "@
        + f.progress@ + "% | "@ + f.spent@ + "/"@ + f.planned@ + " | "@ + (if t.deadline@.len() == 0 {
        "-"@
    } else {
        t.deadline@
    }) + (if archived && t.archived_at@.len() > 0 {
        " | archiv "@ + t.archived_at@
    } else {
        Seq::empty()
    })
}

/// The three detail lines of the selected todo.
pub open spec fn todo_details(t: TodoRow, f: TodoFigures) -> Seq<Seq<char>> {
    seq![
        if t.order_number@.len() > 0 || t.purchaser@.len() > 0 || t.order_date@.len() > 0 {
            "Order: "@ + or_dash(t.order_number@) + " | "@ + or_dash(t.purchaser@) + " | "@ + or_dash(
                t.order_date@,
            )
        } else {
            "Desc: "@ + or_dash(t.description@)
        },
        "Deadline: "@ + or_dash(t.deadline@) + " | Archiv: "@ + or_dash(t.archived_at@),
        "Budget: "@ + f.spent@ + "/"@ + f.planned@ + " | Progress: "@ + f.progress_detail@ + "%"@,
    ]
}

/// A task's list line, before it is cut to the screen width.
pub open spec fn task_line(t: TaskRow, f: TaskFigures, selected: bool) -> Seq<char> {
    (if selected { ">"@ } else { " "@ }) + " "@ + (if t.done { "[x]"@ } else { "[ ]"@ }) + " "@
        + t.title@ + (if f.nonzero { " | "@ + f.amount@ } else { Seq::empty() }) + (if t.description@.len()
        > 0 {
        " - "@ + t.description@
    } else {
        Seq::empty()
    })
}

/// The three detail lines of the selected task.
pub open spec fn task_details(t: TaskRow, f: TaskFigures) -> Seq<Seq<char>> {
    seq![
        "Task: "@ + t.title@ + " | Status: "@ + (if t.done { "done"@ } else { "open"@ }),
        "Desc: "@ + or_dash(t.description@),
        "Amount: "@ + f.amount@,
    ]
}

/// The first line of the task screen.
pub open spec fn tasks_header(s: AppState) -> Seq<char> {
    "BlueTodo TUI "@ + s.host@ + ":"@ + decimal(s.port as nat) + "  Tasks: "@ + decimal(s.tasks@.len())
}

/// The key help of the task screen.
pub open spec fn tasks_help(archived: bool) -> Seq<char> {
    if archived {
        "Archiv (read-only)  b: back  r: refresh  q: quit"@
    } else {
        "a: add  e: edit  t: toggle  b: back  r: refresh  q: quit"@
    }
}

/// The rows a list gets on a screen of `max_y` rows, below `top` rows of
/// headings and above the detail lines and the status line.
pub open spec fn list_height(max_y: int, top: int) -> int {
    if max_y - (3 + top) > 0 {
        max_y - (3 + top)
    } else {
        0
    }
}

/// How many rows of a list of `len` rows are shown from `scroll` on.
pub open spec fn shown(len: int, scroll: int, height: int) -> int {
    if len - scroll < height {
        if len - scroll > 0 { len - scroll } else { 0 }
    } else {
        height
    }
}

/// The lines of the todo list screen after scrolling to `scroll`.
pub open spec fn todos_screen(s: AppState, figs: Seq<TodoFigures>, max_y: int, max_x: nat, scroll: int) -> Seq<(int, Seq<char>)> {
    let archived = is_archived(s.scope);
    let len = s.todos@.len() as int;
    let h = list_height(max_y, 3);
    seq![(0, truncated(todos_header(s), max_x)), (1, truncated(todos_help(archived), max_x))] + (if len
        == 0 {
        seq![(2, "No todos. Press r to refresh."@)]
    } else {
        Seq::new(
            shown(len, scroll, h) as nat,
            |k: int|
                (
                    2 + k,
                    truncated(
                        todo_line(s.todos@[scroll + k], figs[scroll + k], scroll + k == s.todo_selected, archived),
                        max_x,
                    ),
                ),
        )
    }) + (if s.todo_selected < len {
        let d = todo_details(s.todos@[s.todo_selected as int], figs[s.todo_selected as int]);
        seq![(max_y - 4, truncated(d[0], max_x)), (max_y - 3, truncated(d[1], max_x)), (max_y - 2, truncated(d[2], max_x))]
    } else {
        Seq::empty()
    }) + seq![(max_y - 1, truncated(s.status@, max_x))]
}

/// The lines of the task screen after scrolling to `scroll`.
pub open spec fn tasks_screen(s: AppState, figs: Seq<TaskFigures>, title: Seq<char>, archived: bool, max_y: int, max_x: nat, scroll: int) -> Seq<(int, Seq<char>)> {
    let len = s.tasks@.len() as int;
    let h = list_height(max_y, 4);
    seq![
        (0, truncated(tasks_header(s), max_x)),
        (1, truncated("Todo: "@ + title, max_x)),
        (2, truncated(tasks_help(archived), max_x)),
    ] + (if len == 0 {
        seq![(3, "No tasks. Press r to refresh."@)]
    } else {
        Seq::new(
            shown(len, scroll, h) as nat,
            |k: int| (3 + k, truncated(task_line(s.tasks@[scroll + k], figs[scroll + k], scroll + k == s.task_selected), max_x)),
        )
    }) + (if s.task_selected < len {
        let d = task_details(s.tasks@[s.task_selected as int], figs[s.task_selected as int]);
        seq![(max_y - 4, truncated(d[0], max_x)), (max_y - 3, truncated(d[1], max_x)), (max_y - 2, truncated(d[2], max_x))]
    } else {
        Seq::empty()
    }) + seq![(max_y - 1, truncated(s.status@, max_x))]
}

fn line(row: i32, text: String) -> (r: ScreenLine)
    ensures
        r.row == row,
        r.text@ == text@,
{
    ScreenLine { row, text }
}

fn todo_line_text(t: &TodoRow, f: &TodoFigures, selected: bool, archived: bool) -> (r: String)
    ensures
        r@ == todo_line(*t, *f, selected, archived),
{
    let mut s = String::from_str(if selected { ">" } else { " " });
    s.append(" ");
    s.append(t.title.as_str());
    s.append(" | ");
    if !t.order_number.as_str().is_empty() {
        s.append(t.order_number.as_str());
        s.append(" | ");
        s.append(blank_fallback(t.purchaser.as_str()));
    } else if !t.description.as_str().is_empty() {
        s.append(t.description.as_str());
    } else {
        s.append("-");
    }
    s.append(" | ");
    s.append(f.progress.as_str());
    s.append("% | ");
    s.append(f.spent.as_str());
    s.append("/");
    s.append(f.planned.as_str());
    s.append(" | ");
    if t.deadline.as_str().is_empty() {
        s.append("-");
    } else {
        s.append(t.deadline.as_str());
    }
    if archived && !t.archived_at.as_str().is_empty() {
        s.append(" | archiv ");
        s.append(t.archived_at.as_str());
    }
    assert(s@ =~= todo_line(*t, *f, selected, archived));
    s
}

fn task_line_text(t: &TaskRow, f: &TaskFigures, selected: bool) -> (r: String)
    ensures
        r@ == task_line(*t, *f, selected),
{
    let mut s = String::from_str(if selected { ">" } else { " " });
    s.append(" ");
    s.append(if t.done { "[x]" } else { "[ ]" });
    s.append(" ");
    s.append(t.title.as_str());
    if f.nonzero {
        s.append(" | ");
        s.append(f.amount.as_str());
    }
    if !t.description.as_str().is_empty() {
        s.append(" - ");
        s.append(t.description.as_str());
    }
    assert(s@ =~= task_line(*t, *f, selected));
    s
}

fn push_details(out: &mut Vec<ScreenLine>, max_y: i32, max_x: usize, d0: String, d1: String, d2: String)
    requires
        max_y >= 3,
    ensures
        lines_view(final(out)@) == lines_view(old(out)@) + seq![
            (max_y - 4, truncated(d0@, max_x as nat)),
            (max_y - 3, truncated(d1@, max_x as nat)),
            (max_y - 2, truncated(d2@, max_x as nat)),
        ],
{
    let ghost before = out@;
    out.push(line(max_y - 4, truncate_text(d0.as_str(), max_x)));
    out.push(line(max_y - 3, truncate_text(d1.as_str(), max_x)));
    out.push(line(max_y - 2, truncate_text(d2.as_str(), max_x)));
    assert(lines_view(out@) =~= lines_view(before) + seq![
        (max_y - 4, truncated(d0@, max_x as nat)),
        (max_y - 3, truncated(d1@, max_x as nat)),
        (max_y - 2, truncated(d2@, max_x as nat)),
    ]);
}

fn todo_detail_texts(t: &TodoRow, f: &TodoFigures) -> (r: (String, String, String))
    ensures
        seq![r.0@, r.1@, r.2@] == todo_details(*t, *f),
{
    let order = if !t.order_number.as_str().is_empty() || !t.purchaser.as_str().is_empty()
        || !t.order_date.as_str().is_empty() {
        let mut s = String::from_str("Order: ");
        s.append(blank_fallback(t.order_number.as_str()));
        s.append(" | ");
        s.append(blank_fallback(t.purchaser.as_str()));
        s.append(" | ");
        s.append(blank_fallback(t.order_date.as_str()));
        s
    } else {
        let mut s = String::from_str("Desc: ");
        s.append(blank_fallback(t.description.as_str()));
        s
    };
    let mut timing = String::from_str("Deadline: ");
    timing.append(blank_fallback(t.deadline.as_str()));
    timing.append(" | Archiv: ");
    timing.append(blank_fallback(t.archived_at.as_str()));
    let mut budget = String::from_str("Budget: ");
    budget.append(f.spent.as_str());
    budget.append("/");
    budget.append(f.planned.as_str());
    budget.append(" | Progress: ");
    budget.append(f.progress_detail.as_str());
    budget.append("%");
    assert(seq![order@, timing@, budget@] =~= todo_details(*t, *f));
    (order, timing, budget)
}

fn task_detail_texts(t: &TaskRow, f: &TaskFigures) -> (r: (String, String, String))
    ensures
        seq![r.0@, r.1@, r.2@] == task_details(*t, *f),
{
    let mut state = String::from_str("Task: ");
    state.append(t.title.as_str());
    state.append(" | Status: ");
    state.append(if t.done { "done" } else { "open" });
    let mut desc = String::from_str("Desc: ");
    desc.append(blank_fallback(t.description.as_str()));
    let mut amount = String::from_str("Amount: ");
    amount.append(f.amount.as_str());
    assert(seq![state@, desc@, amount@] =~= task_details(*t, *f));
    (state, desc, amount)
}

/// The list lines for rows `scroll..scroll + count` of the todos.
pub open spec fn todo_rows(todos: Seq<TodoRow>, figs: Seq<TodoFigures>, scroll: int, count: nat, selected: int, archived: bool, width: nat) -> Seq<(int, Seq<char>)> {
    Seq::new(
        count,
        |k: int| (2 + k, truncated(todo_line(todos[scroll + k], figs[scroll + k], scroll + k == selected, archived), width)),
    )
}

/// The list lines for rows `scroll..scroll + count` of the tasks.
pub open spec fn task_rows(tasks: Seq<TaskRow>, figs: Seq<TaskFigures>, scroll: int, count: nat, selected: int, width: nat) -> Seq<(int, Seq<char>)> {
    Seq::new(
        count,
        |k: int| (3 + k, truncated(task_line(tasks[scroll + k], figs[scroll + k], scroll + k == selected), width)),
    )
}

/// A task's list line starts with `>` where the task is selected and a blank
/// where it is not, then a blank, `[x]` or `[ ]` as the task is done or open,
/// a blank, and the task's title.
pub proof fn lemma_task_line_start(t: TaskRow, f: TaskFigures, selected: bool)
    ensures
        task_line(t, f, selected).len() >= 6 + t.title@.len(),
        task_line(t, f, selected)[0] == (if selected { '>' } else { ' ' }),
        task_line(t, f, selected)[1] == ' ',
        task_line(t, f, selected).subrange(2, 5) == (if t.done { "[x]"@ } else { "[ ]"@ }),
        task_line(t, f, selected)[5] == ' ',
        task_line(t, f, selected).subrange(6, 6 + t.title@.len() as int) == t.title@,
{
    reveal_strlit(">");
    reveal_strlit(" ");
    reveal_strlit("[x]");
    reveal_strlit("[ ]");
    let line = task_line(t, f, selected);
    assert(line.subrange(2, 5) =~= (if t.done { "[x]"@ } else { "[ ]"@ }));
    assert(line.subrange(6, 6 + t.title@.len() as int) =~= t.title@);
}

/// A todo's list line starts with `>` where the todo is selected and a blank
/// where it is not, then a blank, the todo's title and ` | `.
pub proof fn lemma_todo_line_start(t: TodoRow, f: TodoFigures, selected: bool, archived: bool)
    ensures
        todo_line(t, f, selected, archived).len() >= 5 + t.title@.len(),
        todo_line(t, f, selected, archived)[0] == (if selected { '>' } else { ' ' }),
        todo_line(t, f, selected, archived)[1] == ' ',
        todo_line(t, f, selected, archived).subrange(2, 5 + t.title@.len() as int) == t.title@ + " | "@,
{
    reveal_strlit(">");
    reveal_strlit(" ");
    reveal_strlit(" | ");
    let line = todo_line(t, f, selected, archived);
    assert(line.subrange(2, 5 + t.title@.len() as int) =~= t.title@ + " | "@);
}

/// The first detail line of the selected task starts with `Task: ` and its
/// title, and ends with `done` where the task is done and `open` where it is open.
pub proof fn lemma_task_details_status(t: TaskRow, f: TaskFigures)
    ensures
        task_details(t, f)[0].len() >= 6 + t.title@.len(),
        task_details(t, f)[0].subrange(0, 6 + t.title@.len() as int) == "Task: "@ + t.title@,
        ends_with(task_details(t, f)[0], if t.done { "done"@ } else { "open"@ }),
{
    reveal_strlit("Task: ");
    reveal_strlit("done");
    reveal_strlit("open");
    let d = task_details(t, f)[0];
    let st = if t.done { "done"@ } else { "open"@ };
    assert(d.subrange(0, 6 + t.title@.len() as int) =~= "Task: "@ + t.title@);
    assert(d.subrange(d.len() - st.len(), d.len() as int) =~= st);
}

/// The second detail line of the selected todo shows its deadline, or `-`
/// where the deadline is blank.
pub proof fn lemma_todo_details_deadline(t: TodoRow, f: TodoFigures)
    ensures
        todo_details(t, f)[1].subrange(0, 10) == "Deadline: "@,
        todo_details(t, f)[1].subrange(10, 10 + (if is_blank(t.deadline@) { 1int } else { t.deadline@.len() as int }))
            == (if is_blank(t.deadline@) { "-"@ } else { t.deadline@ }),
{
    reveal_strlit("Deadline: ");
    reveal_strlit("-");
    let d = todo_details(t, f)[1];
    let col = if is_blank(t.deadline@) { "-"@ } else { t.deadline@ };
    assert(d.subrange(0, 10) =~= "Deadline: "@);
    assert(d.subrange(10, 10 + col.len() as int) =~= col);
}

/// Whether `s` ends with `tail`.
pub open spec fn ends_with(s: Seq<char>, tail: Seq<char>) -> bool {
    s.len() >= tail.len() && s.subrange(s.len() - tail.len(), s.len() as int) == tail
}

/// On the task screen, the list line of each shown task holds `[x]` in its
/// third to fifth columns where the task is done, and `[ ]` where it is open.
pub proof fn lemma_tasks_screen_marker(
    s: AppState,
    figs: Seq<TaskFigures>,
    title: Seq<char>,
    archived: bool,
    max_y: int,
    max_x: nat,
    scroll: int,
    k: int,
)
    requires
        max_x >= 10,
        scroll >= 0,
        0 <= k < shown(s.tasks@.len() as int, scroll, list_height(max_y, 4)),
    ensures
        3 + k < tasks_screen(s, figs, title, archived, max_y, max_x, scroll).len(),
        tasks_screen(s, figs, title, archived, max_y, max_x, scroll)[3 + k].0 == 3 + k,
        tasks_screen(s, figs, title, archived, max_y, max_x, scroll)[3 + k].1.len() >= 5,
        tasks_screen(s, figs, title, archived, max_y, max_x, scroll)[3 + k].1.subrange(2, 5) == (if s.tasks@[scroll
            + k].done {
            "[x]"@
        } else {
            "[ ]"@
        }),
{
    reveal_strlit(">");
    reveal_strlit(" ");
    reveal_strlit("[x]");
    reveal_strlit("[ ]");
    let len = s.tasks@.len() as int;
    let t = s.tasks@[scroll + k];
    let line = task_line(t, figs[scroll + k], scroll + k == s.task_selected);
    let mark = if t.done { "[x]"@ } else { "[ ]"@ };
    assert(line.subrange(2, 5) =~= mark);
    let text = truncated(line, max_x);
    if line.len() > max_x {
        assert(text.subrange(2, 5) =~= line.subrange(2, 5));
    }
    assert(len > 0);
    let scr = tasks_screen(s, figs, title, archived, max_y, max_x, scroll);
    assert(scr[3 + k] == (3 + k, text));
}

/// On the todo list, the list line of each shown todo ends with ` | ` and the
/// todo's deadline, or `-` where it has none, followed on the archive by
/// ` | archiv ` and the archive date where there is one; a line cut to the
/// width of the screen ends with `...` instead.
pub proof fn lemma_todos_screen_deadline(
    s: AppState,
    figs: Seq<TodoFigures>,
    max_y: int,
    max_x: nat,
    scroll: int,
    k: int,
)
    requires
        max_x >= 10,
        scroll >= 0,
        0 <= k < shown(s.todos@.len() as int, scroll, list_height(max_y, 3)),
    ensures
        2 + k < todos_screen(s, figs, max_y, max_x, scroll).len(),
        todos_screen(s, figs, max_y, max_x, scroll)[2 + k].0 == 2 + k,
        ends_with(
            todos_screen(s, figs, max_y, max_x, scroll)[2 + k].1,
            " | "@ + (if s.todos@[scroll + k].deadline@.len() == 0 {
                "-"@
            } else {
                s.todos@[scroll + k].deadline@
            }) + (if is_archived(s.scope) && s.todos@[scroll + k].archived_at@.len() > 0 {
                " | archiv "@ + s.todos@[scroll + k].archived_at@
            } else {
                Seq::empty()
            }),
        ) || (todos_screen(s, figs, max_y, max_x, scroll)[2 + k].1.len() == max_x && ends_with(
            todos_screen(s, figs, max_y, max_x, scroll)[2 + k].1,
            "..."@,
        )),
{
    reveal_strlit("...");
    let len = s.todos@.len() as int;
    let t = s.todos@[scroll + k];
    let archived = is_archived(s.scope);
    let line = todo_line(t, figs[scroll + k], scroll + k == s.todo_selected, archived);
    let tail = " | "@ + (if t.deadline@.len() == 0 {
        "-"@
    } else {
        t.deadline@
    }) + (if archived && t.archived_at@.len() > 0 {
        " | archiv "@ + t.archived_at@
    } else {
        Seq::empty()
    });
    let f = figs[scroll + k];
    let front = (if scroll + k == s.todo_selected { ">"@ } else { " "@ }) + " "@ + t.title@ + " | "@
        + todo_meta(t) + " | "@ + f.progress@ + "% | "@ + f.spent@ + "/"@ + f.planned@;
    assert(line =~= front + tail);
    assert(line.subrange(line.len() - tail.len(), line.len() as int) =~= tail);
    let text = truncated(line, max_x);
    if line.len() > max_x {
        assert(text.len() == max_x);
        assert(text.subrange(text.len() - 3, text.len() as int) =~= "..."@);
    }
    assert(len > 0);
    let scr = todos_screen(s, figs, max_y, max_x, scroll);
    assert(scr[2 + k] == (2 + k, text));
}

fn push_todo_rows(
    out: &mut Vec<ScreenLine>,
    todos: &Vec<TodoRow>,
    figs: &Vec<TodoFigures>,
    scroll: usize,
    count: usize,
    selected: usize,
    archived: bool,
    width: usize,
)
    requires
        scroll + count <= todos@.len(),
        todos@.len() == figs@.len(),
        count < i32::MAX - 3,
    ensures
        lines_view(final(out)@) == lines_view(old(out)@) + todo_rows(todos@, figs@, scroll as int, count as nat, selected as int, archived, width as nat),
{
    let ghost head = lines_view(out@);
    let ghost rows = todo_rows(todos@, figs@, scroll as int, count as nat, selected as int, archived, width as nat);
    let n = todos.len();
    let mut k: usize = 0;
    while k < count
        invariant
            k <= count,
            count < i32::MAX - 3,
            n == todos@.len(),
            scroll + count <= todos@.len(),
            todos@.len() == figs@.len(),
            rows == todo_rows(todos@, figs@, scroll as int, count as nat, selected as int, archived, width as nat),
            lines_view(out@) == head + rows.take(k as int),
        decreases count - k,
    {
        let idx = scroll + k;
        let text = todo_line_text(&todos[idx], &figs[idx], idx == selected, archived);
        let l = line((2 + k) as i32, truncate_text(text.as_str(), width));
        assert(rows[k as int] == (l.row as int, l.text@));
        let ghost before = out@;
        out.push(l);
        assert(lines_view(out@) =~= lines_view(before).push((l.row as int, l.text@)));
        assert(lines_view(out@) =~= head + rows.take(k + 1));
        k = k + 1;
    }
    assert(rows.take(count as int) =~= rows);
}

fn push_task_rows(
    out: &mut Vec<ScreenLine>,
    tasks: &Vec<TaskRow>,
    figs: &Vec<TaskFigures>,
    scroll: usize,
    count: usize,
    selected: usize,
    width: usize,
)
    requires
        scroll + count <= tasks@.len(),
        tasks@.len() == figs@.len(),
        count < i32::MAX - 3,
    ensures
        lines_view(final(out)@) == lines_view(old(out)@) + task_rows(tasks@, figs@, scroll as int, count as nat, selected as int, width as nat),
{
    let ghost head = lines_view(out@);
    let ghost rows = task_rows(tasks@, figs@, scroll as int, count as nat, selected as int, width as nat);
    let n = tasks.len();
    let mut k: usize = 0;
    while k < count
        invariant
            k <= count,
            count < i32::MAX - 3,
            n == tasks@.len(),
            scroll + count <= tasks@.len(),
            tasks@.len() == figs@.len(),
            rows == task_rows(tasks@, figs@, scroll as int, count as nat, selected as int, width as nat),
            lines_view(out@) == head + rows.take(k as int),
        decreases count - k,
    {
        let idx = scroll + k;
        let text = task_line_text(&tasks[idx], &figs[idx], idx == selected);
        let l = line((3 + k) as i32, truncate_text(text.as_str(), width));
        assert(rows[k as int] == (l.row as int, l.text@));
        let ghost before = out@;
        out.push(l);
        assert(lines_view(out@) =~= lines_view(before).push((l.row as int, l.text@)));
        assert(lines_view(out@) =~= head + rows.take(k + 1));
        k = k + 1;
    }
    assert(rows.take(count as int) =~= rows);
}

fn push_line(out: &mut Vec<ScreenLine>, row: i32, text: String)
    ensures
        lines_view(final(out)@) == lines_view(old(out)@).push((row as int, text@)),
{
    let ghost before = out@;
    out.push(line(row, text));
    assert(lines_view(out@) =~= lines_view(before).push((row as int, text@)));
}

impl AppState {
    #[verifier::spinoff_prover]
    fn render_todos(&mut self, max_y: i32, width: usize, figs: &Vec<TodoFigures>) -> (r: Vec<ScreenLine>)
        requires
            old(self).wf(),
            old(self).view is Todos,
            figs@.len() == old(self).todos@.len(),
            max_y >= 3,
            width >= 10,
            width <= i32::MAX,
        ensures
            *final(self) == (AppState {
                todo_scroll: scroll_for(
                    old(self).todo_selected as int,
                    old(self).todo_scroll as int,
                    list_height(max_y as int, 3),
                    old(self).todos@.len() as int,
                ) as usize,
                ..*old(self)
            }),
            lines_view(r@) == todos_screen(*final(self), figs@, max_y as int, width as nat, final(self).todo_scroll as int),
    {
        let mut out: Vec<ScreenLine> = Vec::new();
        let archived = match self.scope {
            TodoScope::Active => false,
            TodoScope::Archived => true,
        };
        let mut header = String::from_str("BlueTodo TUI ");
        header.append(self.host.as_str());
        header.append(":");
        push_decimal(&mut header, self.port as u64);
        header.append("  ");
        header.append(if archived { "Archiv" } else { "Aktiv" });
        header.append(": ");
        push_decimal(&mut header, self.todos.len() as u64);
        assert(header@ =~= todos_header(*self));
        push_line(&mut out, 0, truncate_text(header.as_str(), width));
        let help = if archived {
            "Enter: tasks  u: restore  v: aktiv  r: refresh  q: quit"
        } else {
            "Enter: tasks  n: neu  e: edit  x: archiv  v: archiv  r: refresh  q: quit"
        };
        push_line(&mut out, 1, truncate_text(help, width));
        let height: usize = if max_y - 6 > 0 { (max_y - 6) as usize } else { 0 };
        let len = self.todos.len();
        let scroll = adjust_scroll(self.todo_selected, self.todo_scroll, height, len);
        self.todo_scroll = scroll;
        let ghost head = lines_view(out@);
        if len == 0 {
            push_line(&mut out, 2, String::from_str("No todos. Press r to refresh."));
        } else {
            let count: usize = if len - scroll < height { len - scroll } else { height };
            push_todo_rows(&mut out, &self.todos, figs, scroll, count, self.todo_selected, archived, width);
        }
        if self.todo_selected < len {
            let (d0, d1, d2) = todo_detail_texts(&self.todos[self.todo_selected], &figs[self.todo_selected]);
            push_details(&mut out, max_y, width, d0, d1, d2);
        }
        push_line(&mut out, max_y - 1, truncate_text(self.status.as_str(), width));
        assert(lines_view(out@) =~= todos_screen(*self, figs@, max_y as int, width as nat, self.todo_scroll as int));
        out
    }

    #[verifier::spinoff_prover]
    fn render_tasks(&mut self, max_y: i32, width: usize, figs: &Vec<TaskFigures>) -> (r: Vec<ScreenLine>)
        requires
            old(self).wf(),
            old(self).view is Tasks,
            figs@.len() == old(self).tasks@.len(),
            max_y >= 3,
            width >= 10,
            width <= i32::MAX,
        ensures
            *final(self) == (AppState {
                task_scroll: scroll_for(
                    old(self).task_selected as int,
                    old(self).task_scroll as int,
                    list_height(max_y as int, 4),
                    old(self).tasks@.len() as int,
                ) as usize,
                ..*old(self)
            }),
            old(self).view matches Screen::Tasks { title, archived, .. } && lines_view(r@) == tasks_screen(
                *final(self),
                figs@,
                title@,
                archived,
                max_y as int,
                width as nat,
                final(self).task_scroll as int,
            ),
    {
        let mut out: Vec<ScreenLine> = Vec::new();
        let (title_line, archived) = match &self.view {
            Screen::Tasks { title, archived, .. } => {
                let mut t = String::from_str("Todo: ");
                t.append(title.as_str());
                (t, *archived)
            },
            Screen::Todos => (String::new(), false),
        };
        let mut header = String::from_str("BlueTodo TUI ");
        header.append(self.host.as_str());
        header.append(":");
        push_decimal(&mut header, self.port as u64);
        header.append("  Tasks: ");
        push_decimal(&mut header, self.tasks.len() as u64);
        assert(header@ =~= tasks_header(*self));
        push_line(&mut out, 0, truncate_text(header.as_str(), width));
        push_line(&mut out, 1, truncate_text(title_line.as_str(), width));
        let help = if archived {
            "Archiv (read-only)  b: back  r: refresh  q: quit"
        } else {
            "a: add  e: edit  t: toggle  b: back  r: refresh  q: quit"
        };
        push_line(&mut out, 2, truncate_text(help, width));
        let height: usize = if max_y - 7 > 0 { (max_y - 7) as usize } else { 0 };
        let len = self.tasks.len();
        let scroll = adjust_scroll(self.task_selected, self.task_scroll, height, len);
        self.task_scroll = scroll;
        if len == 0 {
            push_line(&mut out, 3, String::from_str("No tasks. Press r to refresh."));
        } else {
            let count: usize = if len - scroll < height { len - scroll } else { height };
            push_task_rows(&mut out, &self.tasks, figs, scroll, count, self.task_selected, width);
        }
        if self.task_selected < len {
            let (d0, d1, d2) = task_detail_texts(&self.tasks[self.task_selected], &figs[self.task_selected]);
            push_details(&mut out, max_y, width, d0, d1, d2);
        }
        push_line(&mut out, max_y - 1, truncate_text(self.status.as_str(), width));
        proof {
            match &self.view {
                Screen::Tasks { title, archived, .. } => {
                    assert(lines_view(out@) =~= tasks_screen(*self, figs@, title@, *archived, max_y as int, width as nat, self.task_scroll as int));
                },
                Screen::Todos => {},
            }
        }
        out
    }

    /// The lines of the screen for a terminal of `max_y` rows and `max_x`
    /// columns; first the list scrolls so that its selected row shows. A
    /// terminal smaller than 3 rows or 10 columns gets no lines.
    pub fn render(
        &mut self,
        max_y: i32,
        max_x: i32,
        todo_figs: &Vec<TodoFigures>,
        task_figs: &Vec<TaskFigures>,
    ) -> (r: Vec<ScreenLine>)
        requires
            old(self).wf(),
            todo_figs@.len() == old(self).todos@.len(),
            task_figs@.len() == old(self).tasks@.len(),
        ensures
            final(self).wf(),
            max_y < 3 || max_x < 10 ==> r@.len() == 0 && *final(self) == *old(self),
            max_y >= 3 && max_x >= 10 ==> match old(self).view {
                Screen::Todos => {
                    &&& *final(self) == (AppState {
                        todo_scroll: scroll_for(
                            old(self).todo_selected as int,
                            old(self).todo_scroll as int,
                            list_height(max_y as int, 3),
                            old(self).todos@.len() as int,
                        ) as usize,
                        ..*old(self)
                    })
                    &&& lines_view(r@) == todos_screen(
                        *final(self),
                        todo_figs@,
                        max_y as int,
                        max_x as nat,
                        final(self).todo_scroll as int,
                    )
                    &&& forall|k: int|
                        0 <= k < shown(old(self).todos@.len() as int, final(self).todo_scroll as int, list_height(max_y as int, 3))
                            ==> ends_with(
                            #[trigger] r@[2 + k].text@,
                            " | "@ + (if old(self).todos@[final(self).todo_scroll + k].deadline@.len() == 0 {
                                "-"@
                            } else {
                                old(self).todos@[final(self).todo_scroll + k].deadline@
                            }) + (if is_archived(old(self).scope)
                                && old(self).todos@[final(self).todo_scroll + k].archived_at@.len() > 0 {
                                " | archiv "@ + old(self).todos@[final(self).todo_scroll + k].archived_at@
                            } else {
                                Seq::empty()
                            }),
                        ) || (r@[2 + k].text@.len() == max_x && ends_with(r@[2 + k].text@, "..."@))
                },
                Screen::Tasks { title, archived, .. } => {
                    &&& *final(self) == (AppState {
                        task_scroll: scroll_for(
                            old(self).task_selected as int,
                            old(self).task_scroll as int,
                            list_height(max_y as int, 4),
                            old(self).tasks@.len() as int,
                        ) as usize,
                        ..*old(self)
                    })
                    &&& lines_view(r@) == tasks_screen(
                        *final(self),
                        task_figs@,
                        title@,
                        archived,
                        max_y as int,
                        max_x as nat,
                        final(self).task_scroll as int,
                    )
                    &&& forall|k: int|
                        0 <= k < shown(old(self).tasks@.len() as int, final(self).task_scroll as int, list_height(max_y as int, 4))
                            ==> (#[trigger] r@[3 + k].text@).len() >= 5 && r@[3 + k].text@.subrange(2, 5) == (if old(
                            self,
                        ).tasks@[final(self).task_scroll + k].done {
                            "[x]"@
                        } else {
                            "[ ]"@
                        })
                },
            },
    {
        if max_y < 3 || max_x < 10 {
            return Vec::new();
        }
        let width = max_x as usize;
        let on_todos = match self.view {
            Screen::Todos => true,
            Screen::Tasks { .. } => false,
        };
        if on_todos {
            let r = self.render_todos(max_y, width, todo_figs);
            proof {
                let scroll = self.todo_scroll as int;
                let h = list_height(max_y as int, 3);
                assert forall|k: int| 0 <= k < shown(self.todos@.len() as int, scroll, h) implies ends_with(
                    #[trigger] r@[2 + k].text@,
                    " | "@ + (if self.todos@[scroll + k].deadline@.len() == 0 {
                        "-"@
                    } else {
                        self.todos@[scroll + k].deadline@
                    }) + (if is_archived(self.scope) && self.todos@[scroll + k].archived_at@.len() > 0 {
                        " | archiv "@ + self.todos@[scroll + k].archived_at@
                    } else {
                        Seq::empty()
                    }),
                ) || (r@[2 + k].text@.len() == max_x && ends_with(r@[2 + k].text@, "..."@)) by {
                    lemma_todos_screen_deadline(*self, todo_figs@, max_y as int, max_x as nat, scroll, k);
                    assert(lines_view(r@).len() == r@.len());
                    assert(lines_view(r@)[2 + k] == (r@[2 + k].row as int, r@[2 + k].text@));
                }
            }
            r
        } else {
            let r = self.render_tasks(max_y, width, task_figs);
            proof {
                let scroll = self.task_scroll as int;
                let h = list_height(max_y as int, 4);
                match &self.view {
                    Screen::Tasks { title, archived, .. } => {
                        assert forall|k: int| 0 <= k < shown(self.tasks@.len() as int, scroll, h) implies (
                        #[trigger] r@[3 + k].text@).len() >= 5 && r@[3 + k].text@.subrange(2, 5) == (if self.tasks@[scroll
                            + k].done {
                            "[x]"@
                        } else {
                            "[ ]"@
                        }) by {
                            lemma_tasks_screen_marker(*self, task_figs@, title@, *archived, max_y as int, max_x as nat, scroll, k);
                            assert(lines_view(r@).len() == r@.len());
                            assert(lines_view(r@)[3 + k] == (r@[3 + k].row as int, r@[3 + k].text@));
                        }
                    },
                    Screen::Todos => {},
                }
            }
            r
        }
    }
}

} // verus!

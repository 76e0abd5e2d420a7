//! The state of the client screen and how keys and server replies change it.
//! The state decides; the caller performs what an [`Effect`] asks for and
//! hands the outcome back.
use vstd::prelude::*;
use crate::client::{TaskDraft, TaskRow, TodoDraft, TodoRow};
use crate::error::{error_text, ProtoError};
use crate::layout::{clamp_index, clamped};
use crate::numbers::{decimal, int_text, push_decimal, push_int};

verus! {

/// Which todos are listed.
#[derive(Debug)]
pub enum TodoScope {
    Active,
    Archived,
}

/// What the screen shows.
#[derive(Debug)]
pub enum Screen {
    /// The list of todos.
    Todos,
    /// The tasks of one todo.
    Tasks { todo_id: i64, title: String, archived: bool },
}

/// A key press, as far as the client tells keys apart.
#[derive(Clone, Copy, Debug)]
pub enum Key {
    Char(char),
    Enter,
    Backspace,
    Up,
    Down,
    Left,
    Right,
    Other,
}

/// Work for the caller to do, and report back on.
#[allow(inconsistent_fields)]
#[derive(Debug)]
pub enum Effect {
    /// Nothing to do.
    Nothing,
    /// Leave the program.
    Quit,
    /// Load the todos (the archived ones where `archived`), hand them to
    /// `apply_todos`, and show `then` afterwards where there is one.
    LoadTodos { archived: bool, then: Option<String> },
    /// Load the tasks of `todo_id`, hand them to `apply_tasks`, and show
    /// `then` afterwards where there is one.
    LoadTasks { todo_id: i64, then: Option<String> },
    /// Ask for a new todo; report with `after_todo_form`.
    NewTodoForm,
    /// Ask for changes to the selected todo; report with `after_todo_form`.
    EditTodoForm { todo_id: i64 },
    /// Ask for a new task of `todo_id`; report with `after_task_form`.
    NewTaskForm { todo_id: i64 },
    /// Ask for changes to the selected task; report with `after_task_form`.
    EditTaskForm { task_id: i64, todo_id: i64 },
    /// Flip a task; report with `after_toggle`.
    ToggleTask { task_id: i64 },
    /// Archive a todo; report with `after_archive`.
    ArchiveTodo { todo_id: i64 },
    /// Restore a todo; report with `after_unarchive`.
    UnarchiveTodo { todo_id: i64 },
    /// Send a new todo; report with `after_create_todo`.
    CreateTodo { draft: TodoDraft },
    /// Send changes to a todo; report with `after_update_todo`.
    UpdateTodo { todo_id: i64, draft: TodoDraft },
    /// Send a new task; report with `after_create_task`.
    CreateTask { todo_id: i64, draft: TaskDraft },
    /// Send changes to a task; report with `after_update_task`.
    UpdateTask { task_id: i64, todo_id: i64, draft: TaskDraft },
}

/// Everything the screen shows, and where the selections stand.
#[derive(Debug)]
pub struct AppState {
    pub host: String,
    pub port: u16,
    pub todos: Vec<TodoRow>,
    pub tasks: Vec<TaskRow>,
    pub view: Screen,
    pub scope: TodoScope,
    pub todo_selected: usize,
    pub todo_scroll: usize,
    pub task_selected: usize,
    pub task_scroll: usize,
    pub status: String,
}

/// The status line after a failure.
pub open spec fn error_status(e: ProtoError) -> Seq<char> {
    "Error: "@ + error_text(e)
}

/// The status line after loading `n` todos.
pub open spec fn todos_loaded_status(n: nat, archived: bool) -> Seq<char> {
    "Loaded "@ + decimal(n) + " "@ + (if archived {
        "Archiv-Einträge"@
    } else {
        "aktive Todos"@
    })
}

/// The status line after loading `n` tasks.
pub open spec fn tasks_loaded_status(n: nat) -> Seq<char> {
    "Loaded "@ + decimal(n) + " tasks"@
}

/// The status line after a todo was saved under `id`.
pub open spec fn todo_saved_status(id: i64) -> Seq<char> {
    "Todo gespeichert (id="@ + int_text(id as int) + ")"@
}

/// The status line after a task was saved under `id`.
pub open spec fn task_saved_status(id: i64) -> Seq<char> {
    "Task gespeichert (id="@ + int_text(id as int) + ")"@
}

/// Whether `k` is the character key `c`.
pub open spec fn key_is(k: Key, c: char) -> bool {
    k matches Key::Char(x) && x == c
}

/// Whether `k` opens the selected todo: Enter (either form) or Right.
pub open spec fn is_open_key(k: Key) -> bool {
    key_is(k, '\n') || k is Enter || k is Right
}

/// Whether `k` goes back to the todo list: `b` or Left.
pub open spec fn is_back_key(k: Key) -> bool {
    key_is(k, 'b') || k is Left
}

/// Whether `k` does anything on the main screen.
pub open spec fn is_command_key(k: Key) -> bool {
    key_is(k, 'q') || key_is(k, 'r') || key_is(k, 'v') || key_is(k, 'n') || key_is(k, 'e')
        || is_back_key(k) || key_is(k, 'a') || key_is(k, 't') || key_is(k, 'x') || key_is(k, 'u')
        || k is Up || k is Down || is_open_key(k)
}

/// `b` is `a` with only the status line changed, to `msg`.
pub open spec fn only_status(a: AppState, b: AppState, msg: Seq<char>) -> bool {
    &&& b.status@ == msg
    &&& b.host == a.host && b.port == a.port
    &&& b.todos == a.todos && b.tasks == a.tasks
    &&& b.view == a.view && b.scope == a.scope
    &&& b.todo_selected == a.todo_selected && b.todo_scroll == a.todo_scroll
    &&& b.task_selected == a.task_selected && b.task_scroll == a.task_scroll
}

/// The message for a change that the archive does not allow.
pub open spec fn read_only_status() -> Seq<char> {
    "Archiv ist read-only"@
}

/// Whether an effect would change what the server stores, or ask for a form
/// that would.
pub open spec fn is_write_effect(e: Effect) -> bool {
    ||| e is NewTodoForm
    ||| e is EditTodoForm
    ||| e is NewTaskForm
    ||| e is EditTaskForm
    ||| e is ToggleTask
    ||| e is ArchiveTodo
}

/// Whether the screen shows the archive: its list, or the tasks of an archived todo.
pub open spec fn shows_archive(s: AppState) -> bool {
    ||| (s.view is Todos && is_archived(s.scope))
    ||| (s.view matches Screen::Tasks { archived, .. } && archived)
}

/// Whether the archive is listed.
pub open spec fn is_archived(s: TodoScope) -> bool {
    s is Archived
}

impl AppState {
    /// Every selection points at a row of its list, or is 0 where the list is empty.
    pub open spec fn wf(&self) -> bool {
        &&& (self.todos@.len() == 0 ==> self.todo_selected == 0)
        &&& (self.todos@.len() > 0 ==> self.todo_selected < self.todos@.len())
        &&& (self.tasks@.len() == 0 ==> self.task_selected == 0)
        &&& (self.tasks@.len() > 0 ==> self.task_selected < self.tasks@.len())
    }

    /// The start: no rows, the active todos, status `Ready`.
    pub fn new(host: &str, port: u16) -> (r: AppState)
        ensures
            r.wf(),
            r.host@ == host@,
            r.port == port,
            r.todos@.len() == 0,
            r.tasks@.len() == 0,
            r.view is Todos,
            r.scope is Active,
            r.todo_selected == 0 && r.todo_scroll == 0,
            r.task_selected == 0 && r.task_scroll == 0,
            r.status@ == "Ready"@,
    {
        AppState {
            host: String::from_str(host),
            port,
            todos: Vec::new(),
            tasks: Vec::new(),
            view: Screen::Todos,
            scope: TodoScope::Active,
            todo_selected: 0,
            todo_scroll: 0,
            task_selected: 0,
            task_scroll: 0,
            status: String::from_str("Ready"),
        }
    }

    /// The selected todo, if the list has one.
    pub fn selected_todo(&self) -> (r: Option<&TodoRow>)
        ensures
            self.todo_selected < self.todos@.len() ==> r == Some(&self.todos@[self.todo_selected as int]),
            self.todo_selected >= self.todos@.len() ==> r is None,
    {
        if self.todo_selected < self.todos.len() {
            Some(&self.todos[self.todo_selected])
        } else {
            None
        }
    }

    /// The selected task, if the list has one.
    pub fn selected_task(&self) -> (r: Option<&TaskRow>)
        ensures
            self.task_selected < self.tasks@.len() ==> r == Some(&self.tasks@[self.task_selected as int]),
            self.task_selected >= self.tasks@.len() ==> r is None,
    {
        if self.task_selected < self.tasks.len() {
            Some(&self.tasks[self.task_selected])
        } else {
            None
        }
    }

    /// Shows a failure in the status line.
    pub fn report_error(&mut self, e: &ProtoError)
        ensures
            final(self).status@ == error_status(*e),
            final(self).todos == old(self).todos && final(self).tasks == old(self).tasks,
            final(self).view == old(self).view && final(self).scope == old(self).scope,
            final(self).todo_selected == old(self).todo_selected,
            final(self).todo_scroll == old(self).todo_scroll,
            final(self).task_selected == old(self).task_selected,
            final(self).task_scroll == old(self).task_scroll,
            final(self).host == old(self).host && final(self).port == old(self).port,
    {
        let mut s = String::from_str("Error: ");
        s.append(e.describe().as_str());
        self.status = s;
    }

    /// Takes the outcome of loading the todos: the new list with the selection
    /// kept inside it, or the failure; then shows `then` where there is one.
    pub fn apply_todos(&mut self, result: Result<Vec<TodoRow>, ProtoError>, then: Option<String>)
        requires
            old(self).wf(),
        ensures
            final(self).wf(),
            match result {
                Ok(rows) => {
                    &&& final(self).todos == rows
                    &&& final(self).todo_selected == clamped(old(self).todo_selected as int, rows@.len() as int)
                    &&& then is None ==> final(self).status@ == todos_loaded_status(rows@.len(), is_archived(old(self).scope))
                },
                Err(e) => {
                    &&& final(self).todos == old(self).todos
                    &&& final(self).todo_selected == old(self).todo_selected
                    &&& then is None ==> final(self).status@ == error_status(e)
                },
            },
            then matches Some(msg) ==> final(self).status@ == msg@,
            final(self).tasks == old(self).tasks && final(self).task_selected == old(self).task_selected,
            final(self).view == old(self).view && final(self).scope == old(self).scope,
            final(self).todo_scroll == old(self).todo_scroll && final(self).task_scroll == old(self).task_scroll,
            final(self).host == old(self).host && final(self).port == old(self).port,
    {
        match result {
            Ok(todos) => {
                let n = todos.len();
                self.todos = todos;
                self.todo_selected = clamp_index(self.todo_selected, n);
                let mut s = String::from_str("Loaded ");
                push_decimal(&mut s, n as u64);
                s.append(" ");
                match self.scope {
                    TodoScope::Active => s.append("aktive Todos"),
                    TodoScope::Archived => s.append("Archiv-Einträge"),
                }
                self.status = s;
            },
            Err(e) => {
                self.report_error(&e);
            },
        }
        if let Some(msg) = then {
            self.status = msg;
        }
    }

    /// Takes the outcome of loading the tasks: the new list with the selection
    /// kept inside it, or the failure; then shows `then` where there is one.
    pub fn apply_tasks(&mut self, result: Result<Vec<TaskRow>, ProtoError>, then: Option<String>)
        requires
            old(self).wf(),
        ensures
            final(self).wf(),
            match result {
                Ok(rows) => {
                    &&& final(self).tasks == rows
                    &&& final(self).task_selected == clamped(old(self).task_selected as int, rows@.len() as int)
                    &&& then is None ==> final(self).status@ == tasks_loaded_status(rows@.len())
                },
                Err(e) => {
                    &&& final(self).tasks == old(self).tasks
                    &&& final(self).task_selected == old(self).task_selected
                    &&& then is None ==> final(self).status@ == error_status(e)
                },
            },
            then matches Some(msg) ==> final(self).status@ == msg@,
            final(self).todos == old(self).todos && final(self).todo_selected == old(self).todo_selected,
            final(self).view == old(self).view && final(self).scope == old(self).scope,
            final(self).todo_scroll == old(self).todo_scroll && final(self).task_scroll == old(self).task_scroll,
            final(self).host == old(self).host && final(self).port == old(self).port,
    {
        match result {
            Ok(tasks) => {
                let n = tasks.len();
                self.tasks = tasks;
                self.task_selected = clamp_index(self.task_selected, n);
                let mut s = String::from_str("Loaded ");
                push_decimal(&mut s, n as u64);
                s.append(" tasks");
                self.status = s;
            },
            Err(e) => {
                self.report_error(&e);
            },
        }
        if let Some(msg) = then {
            self.status = msg;
        }
    }

    /// Shows `msg` in the status line.
    fn set_status(&mut self, msg: &str)
        ensures
            only_status(*old(self), *final(self), msg@),
    {
        self.status = String::from_str(msg);
    }

    /// Reacts to a key on the main screen.
    #[verifier::spinoff_prover]
    pub fn handle_key(&mut self, key: Key) -> (r: Effect)
        requires
            old(self).wf(),
        ensures
            final(self).wf(),
            shows_archive(*old(self)) ==> !is_write_effect(r),
            !shows_archive(*old(self)) ==> !(r is UnarchiveTodo),
            !is_command_key(key) ==> r is Nothing && *final(self) == *old(self),
            key_is(key, 'q') ==> r is Quit && *final(self) == *old(self),
            key_is(key, 'r') ==> *final(self) == *old(self) && match old(self).view {
                Screen::Todos => r == Effect::LoadTodos { archived: is_archived(old(self).scope), then: None },
                Screen::Tasks { todo_id, .. } => r == Effect::LoadTasks { todo_id, then: None },
            },
            key_is(key, 'v') ==> match old(self).view {
                Screen::Todos => {
                    &&& is_archived(final(self).scope) == !is_archived(old(self).scope)
                    &&& final(self).todo_selected == 0 && final(self).todo_scroll == 0
                    &&& final(self).status == old(self).status && final(self).view == old(self).view
                    &&& final(self).todos == old(self).todos && final(self).tasks == old(self).tasks
                    &&& final(self).task_selected == old(self).task_selected
                    &&& final(self).task_scroll == old(self).task_scroll
                    &&& final(self).host == old(self).host && final(self).port == old(self).port
                    &&& r == Effect::LoadTodos { archived: !is_archived(old(self).scope), then: None }
                },
                Screen::Tasks { .. } => r is Nothing && *final(self) == *old(self),
            },
            key_is(key, 'n') ==> match old(self).view {
                Screen::Todos => if is_archived(old(self).scope) {
                    r is Nothing && only_status(*old(self), *final(self), read_only_status())
                } else {
                    r is NewTodoForm && *final(self) == *old(self)
                },
                Screen::Tasks { .. } => r is Nothing && *final(self) == *old(self),
            },
            key_is(key, 'e') ==> match old(self).view {
                Screen::Todos => if is_archived(old(self).scope) {
                    r is Nothing && only_status(*old(self), *final(self), read_only_status())
                } else if old(self).todo_selected < old(self).todos@.len() {
                    r == Effect::EditTodoForm { todo_id: old(self).todos@[old(self).todo_selected as int].id }
                        && *final(self) == *old(self)
                } else {
                    r is Nothing && only_status(*old(self), *final(self), "No todo selected"@)
                },
                Screen::Tasks { todo_id, archived, .. } => if archived {
                    r is Nothing && only_status(*old(self), *final(self), read_only_status())
                } else if old(self).task_selected < old(self).tasks@.len() {
                    r == Effect::EditTaskForm {
                        task_id: old(self).tasks@[old(self).task_selected as int].id,
                        todo_id,
                    } && *final(self) == *old(self)
                } else {
                    r is Nothing && only_status(*old(self), *final(self), "No task selected"@)
                },
            },
            is_back_key(key) ==> r is Nothing && match old(self).view {
                Screen::Todos => *final(self) == *old(self),
                Screen::Tasks { .. } => {
                    &&& final(self).view is Todos
                    &&& final(self).status@ == "Back to todos"@
                    &&& final(self).todos == old(self).todos && final(self).tasks == old(self).tasks
                    &&& final(self).scope == old(self).scope
                    &&& final(self).todo_selected == old(self).todo_selected
                    &&& final(self).todo_scroll == old(self).todo_scroll
                    &&& final(self).task_selected == old(self).task_selected
                    &&& final(self).task_scroll == old(self).task_scroll
                    &&& final(self).host == old(self).host && final(self).port == old(self).port
                },
            },
            key_is(key, 'a') ==> match old(self).view {
                Screen::Todos => r is Nothing && *final(self) == *old(self),
                Screen::Tasks { todo_id, archived, .. } => if archived {
                    r is Nothing && only_status(*old(self), *final(self), read_only_status())
                } else {
                    r == Effect::NewTaskForm { todo_id } && *final(self) == *old(self)
                },
            },
            key_is(key, 't') ==> match old(self).view {
                Screen::Todos => r is Nothing && *final(self) == *old(self),
                Screen::Tasks { archived, .. } => if archived {
                    r is Nothing && only_status(*old(self), *final(self), read_only_status())
                } else if old(self).task_selected < old(self).tasks@.len() {
                    r == Effect::ToggleTask { task_id: old(self).tasks@[old(self).task_selected as int].id }
                        && *final(self) == *old(self)
                } else {
                    r is Nothing && only_status(*old(self), *final(self), "No task selected"@)
                },
            },
            key_is(key, 'x') ==> if old(self).view is Todos && !is_archived(old(self).scope) {
                if old(self).todo_selected < old(self).todos@.len() {
                    r == Effect::ArchiveTodo { todo_id: old(self).todos@[old(self).todo_selected as int].id }
                        && *final(self) == *old(self)
                } else {
                    r is Nothing && only_status(*old(self), *final(self), "No todo selected"@)
                }
            } else {
                r is Nothing && *final(self) == *old(self)
            },
            key_is(key, 'u') ==> if old(self).view is Todos && is_archived(old(self).scope) {
                if old(self).todo_selected < old(self).todos@.len() {
                    r == Effect::UnarchiveTodo { todo_id: old(self).todos@[old(self).todo_selected as int].id }
                        && *final(self) == *old(self)
                } else {
                    r is Nothing && only_status(*old(self), *final(self), "No todo selected"@)
                }
            } else {
                r is Nothing && *final(self) == *old(self)
            },
            key is Up ==> r is Nothing && match old(self).view {
                Screen::Todos => *final(self) == (AppState {
                    todo_selected: if old(self).todo_selected > 0 { (old(self).todo_selected - 1) as usize } else { 0 },
                    ..*old(self)
                }),
                Screen::Tasks { .. } => *final(self) == (AppState {
                    task_selected: if old(self).task_selected > 0 { (old(self).task_selected - 1) as usize } else { 0 },
                    ..*old(self)
                }),
            },
            key is Down ==> r is Nothing && match old(self).view {
                Screen::Todos => *final(self) == (AppState {
                    todo_selected: if old(self).todo_selected + 1 < old(self).todos@.len() {
                        (old(self).todo_selected + 1) as usize
                    } else {
                        old(self).todo_selected
                    },
                    ..*old(self)
                }),
                Screen::Tasks { .. } => *final(self) == (AppState {
                    task_selected: if old(self).task_selected + 1 < old(self).tasks@.len() {
                        (old(self).task_selected + 1) as usize
                    } else {
                        old(self).task_selected
                    },
                    ..*old(self)
                }),
            },
            is_open_key(key) ==> match old(self).view {
                Screen::Todos => if old(self).todo_selected < old(self).todos@.len() {
                    let t = old(self).todos@[old(self).todo_selected as int];
                    &&& final(self).view == Screen::Tasks {
                        todo_id: t.id,
                        title: t.title,
                        archived: is_archived(old(self).scope),
                    }
                    &&& final(self).tasks@.len() == 0
                    &&& final(self).task_selected == 0 && final(self).task_scroll == 0
                    &&& final(self).todos == old(self).todos && final(self).scope == old(self).scope
                    &&& final(self).todo_selected == old(self).todo_selected
                    &&& final(self).todo_scroll == old(self).todo_scroll
                    &&& final(self).status == old(self).status
                    &&& final(self).host == old(self).host && final(self).port == old(self).port
                    &&& r == Effect::LoadTasks { todo_id: t.id, then: None }
                } else {
                    r is Nothing && only_status(*old(self), *final(self), "No todo selected"@)
                },
                Screen::Tasks { .. } => r is Nothing && *final(self) == *old(self),
            },
    {
        let on_todos = match self.view {
            Screen::Todos => true,
            Screen::Tasks { .. } => false,
        };
        let archived_scope = match self.scope {
            TodoScope::Active => false,
            TodoScope::Archived => true,
        };
        match key {
            Key::Char('q') => Effect::Quit,
            Key::Char('r') => match self.view {
                Screen::Todos => Effect::LoadTodos { archived: archived_scope, then: None },
                Screen::Tasks { todo_id, .. } => Effect::LoadTasks { todo_id, then: None },
            },
            Key::Char('v') => {
                if on_todos {
                    self.scope = if archived_scope {
                        TodoScope::Active
                    } else {
                        TodoScope::Archived
                    };
                    self.todo_selected = 0;
                    self.todo_scroll = 0;
                    Effect::LoadTodos { archived: !archived_scope, then: None }
                } else {
                    Effect::Nothing
                }
            },
            Key::Char('n') => {
                if !on_todos {
                    Effect::Nothing
                } else if archived_scope {
                    self.set_status("Archiv ist read-only");
                    Effect::Nothing
                } else {
                    Effect::NewTodoForm
                }
            },
            Key::Char('e') => match self.view {
                Screen::Todos => {
                    if archived_scope {
                        self.set_status("Archiv ist read-only");
                        Effect::Nothing
                    } else if self.todo_selected < self.todos.len() {
                        Effect::EditTodoForm { todo_id: self.todos[self.todo_selected].id }
                    } else {
                        self.set_status("No todo selected");
                        Effect::Nothing
                    }
                },
                Screen::Tasks { todo_id, archived, .. } => {
                    if archived {
                        self.set_status("Archiv ist read-only");
                        Effect::Nothing
                    } else if self.task_selected < self.tasks.len() {
                        Effect::EditTaskForm { task_id: self.tasks[self.task_selected].id, todo_id }
                    } else {
                        self.set_status("No task selected");
                        Effect::Nothing
                    }
                },
            },
            Key::Char('b') | Key::Left => {
                if !on_todos {
                    self.view = Screen::Todos;
                    self.status = String::from_str("Back to todos");
                }
                Effect::Nothing
            },
            Key::Char('a') => match self.view {
                Screen::Todos => Effect::Nothing,
                Screen::Tasks { todo_id, archived, .. } => {
                    if archived {
                        self.set_status("Archiv ist read-only");
                        Effect::Nothing
                    } else {
                        Effect::NewTaskForm { todo_id }
                    }
                },
            },
            Key::Char('t') => match self.view {
                Screen::Todos => Effect::Nothing,
                Screen::Tasks { archived, .. } => {
                    if archived {
                        self.set_status("Archiv ist read-only");
                        Effect::Nothing
                    } else if self.task_selected < self.tasks.len() {
                        Effect::ToggleTask { task_id: self.tasks[self.task_selected].id }
                    } else {
                        self.set_status("No task selected");
                        Effect::Nothing
                    }
                },
            },
            Key::Char('x') => {
                if on_todos && !archived_scope {
                    if self.todo_selected < self.todos.len() {
                        Effect::ArchiveTodo { todo_id: self.todos[self.todo_selected].id }
                    } else {
                        self.set_status("No todo selected");
                        Effect::Nothing
                    }
                } else {
                    Effect::Nothing
                }
            },
            Key::Char('u') => {
                if on_todos && archived_scope {
                    if self.todo_selected < self.todos.len() {
                        Effect::UnarchiveTodo { todo_id: self.todos[self.todo_selected].id }
                    } else {
                        self.set_status("No todo selected");
                        Effect::Nothing
                    }
                } else {
                    Effect::Nothing
                }
            },
            Key::Up => {
                if on_todos {
                    if self.todo_selected > 0 {
                        self.todo_selected = self.todo_selected - 1;
                    }
                } else {
                    if self.task_selected > 0 {
                        self.task_selected = self.task_selected - 1;
                    }
                }
                Effect::Nothing
            },
            Key::Down => {
                if on_todos {
                    if self.todo_selected < self.todos.len() && self.todo_selected + 1 < self.todos.len() {
                        self.todo_selected = self.todo_selected + 1;
                    }
                } else {
                    if self.task_selected < self.tasks.len() && self.task_selected + 1 < self.tasks.len() {
                        self.task_selected = self.task_selected + 1;
                    }
                }
                Effect::Nothing
            },
            Key::Char('\n') | Key::Enter | Key::Right => {
                if !on_todos {
                    Effect::Nothing
                } else if self.todo_selected < self.todos.len() {
                    let todo_id = self.todos[self.todo_selected].id;
                    let title = self.todos[self.todo_selected].title.clone();
                    self.view = Screen::Tasks { todo_id, title, archived: archived_scope };
                    self.tasks = Vec::new();
                    self.task_selected = 0;
                    self.task_scroll = 0;
                    Effect::LoadTasks { todo_id, then: None }
                } else {
                    self.set_status("No todo selected");
                    Effect::Nothing
                }
            },
            _ => Effect::Nothing,
        }
    }

    /// Takes the outcome of the todo form: cancelled (`Ok(None)`), refused
    /// with a message, or filled in; a filled-in form is sent as a new todo, or
    /// as changes to `editing` where that is set.
    pub fn after_todo_form(&mut self, form: Result<Option<TodoDraft>, String>, editing: Option<i64>) -> (r: Effect)
        requires
            old(self).wf(),
        ensures
            final(self).wf(),
            match form {
                Ok(None) => r is Nothing && only_status(*old(self), *final(self), "Abgebrochen"@),
                Err(msg) => r is Nothing && only_status(*old(self), *final(self), msg@),
                Ok(Some(d)) => *final(self) == *old(self) && match editing {
                    None => r == Effect::CreateTodo { draft: d },
                    Some(id) => r == Effect::UpdateTodo { todo_id: id, draft: d },
                },
            },
    {
        match form {
            Ok(None) => {
                self.set_status("Abgebrochen");
                Effect::Nothing
            },
            Err(msg) => {
                self.status = msg;
                Effect::Nothing
            },
            Ok(Some(draft)) => match editing {
                None => Effect::CreateTodo { draft },
                Some(todo_id) => Effect::UpdateTodo { todo_id, draft },
            },
        }
    }

    /// Takes the outcome of the task form for a task of `todo_id`; a filled-in
    /// form is sent as a new task, or as changes to `editing` where that is set.
    pub fn after_task_form(
        &mut self,
        form: Result<Option<TaskDraft>, String>,
        todo_id: i64,
        editing: Option<i64>,
    ) -> (r: Effect)
        requires
            old(self).wf(),
        ensures
            final(self).wf(),
            match form {
                Ok(None) => r is Nothing && only_status(*old(self), *final(self), "Abgebrochen"@),
                Err(msg) => r is Nothing && only_status(*old(self), *final(self), msg@),
                Ok(Some(d)) => *final(self) == *old(self) && match editing {
                    None => r == Effect::CreateTask { todo_id, draft: d },
                    Some(id) => r == Effect::UpdateTask { task_id: id, todo_id, draft: d },
                },
            },
    {
        match form {
            Ok(None) => {
                self.set_status("Abgebrochen");
                Effect::Nothing
            },
            Err(msg) => {
                self.status = msg;
                Effect::Nothing
            },
            Ok(Some(draft)) => match editing {
                None => Effect::CreateTask { todo_id, draft },
                Some(task_id) => Effect::UpdateTask { task_id, todo_id, draft },
            },
        }
    }

    fn reload_todos_then(&self, msg: String) -> (r: Effect)
        ensures
            r == (Effect::LoadTodos { archived: is_archived(self.scope), then: Some(msg) }),
    {
        let archived = match self.scope {
            TodoScope::Active => false,
            TodoScope::Archived => true,
        };
        Effect::LoadTodos { archived, then: Some(msg) }
    }

    /// Takes the outcome of sending a new todo: on success the list is loaded
    /// again and the new id shown.
    pub fn after_create_todo(&mut self, result: Result<i64, ProtoError>) -> (r: Effect)
        requires
            old(self).wf(),
        ensures
            final(self).wf(),
            match result {
                Ok(id) => *final(self) == *old(self) && (r matches Effect::LoadTodos { archived, then: Some(m) }
                    && archived == is_archived(old(self).scope) && m@ == todo_saved_status(id)),
                Err(e) => r is Nothing && only_status(*old(self), *final(self), error_status(e)),
            },
    {
        match result {
            Ok(id) => {
                let mut msg = String::from_str("Todo gespeichert (id=");
                push_int(&mut msg, id);
                msg.append(")");
                self.reload_todos_then(msg)
            },
            Err(e) => {
                self.report_error(&e);
                Effect::Nothing
            },
        }
    }

    fn after_todo_change(&mut self, result: Result<(), ProtoError>, done: &str) -> (r: Effect)
        requires
            old(self).wf(),
        ensures
            final(self).wf(),
            match result {
                Ok(()) => *final(self) == *old(self) && (r matches Effect::LoadTodos { archived, then: Some(m) }
                    && archived == is_archived(old(self).scope) && m@ == done@),
                Err(e) => r is Nothing && only_status(*old(self), *final(self), error_status(e)),
            },
    {
        match result {
            Ok(()) => self.reload_todos_then(String::from_str(done)),
            Err(e) => {
                self.report_error(&e);
                Effect::Nothing
            },
        }
    }

    /// Takes the outcome of sending changes to a todo.
    pub fn after_update_todo(&mut self, result: Result<(), ProtoError>) -> (r: Effect)
        requires
            old(self).wf(),
        ensures
            final(self).wf(),
            match result {
                Ok(()) => *final(self) == *old(self) && (r matches Effect::LoadTodos { archived, then: Some(m) }
                    && archived == is_archived(old(self).scope) && m@ == "Todo aktualisiert"@),
                Err(e) => r is Nothing && only_status(*old(self), *final(self), error_status(e)),
            },
    {
        self.after_todo_change(result, "Todo aktualisiert")
    }

    /// Takes the outcome of archiving a todo.
    pub fn after_archive(&mut self, result: Result<(), ProtoError>) -> (r: Effect)
        requires
            old(self).wf(),
        ensures
            final(self).wf(),
            match result {
                Ok(()) => *final(self) == *old(self) && (r matches Effect::LoadTodos { archived, then: Some(m) }
                    && archived == is_archived(old(self).scope) && m@ == "Todo archiviert"@),
                Err(e) => r is Nothing && only_status(*old(self), *final(self), error_status(e)),
            },
    {
        self.after_todo_change(result, "Todo archiviert")
    }

    /// Takes the outcome of restoring a todo from the archive.
    pub fn after_unarchive(&mut self, result: Result<(), ProtoError>) -> (r: Effect)
        requires
            old(self).wf(),
        ensures
            final(self).wf(),
            match result {
                Ok(()) => *final(self) == *old(self) && (r matches Effect::LoadTodos { archived, then: Some(m) }
                    && archived == is_archived(old(self).scope) && m@ == "Todo wiederhergestellt"@),
                Err(e) => r is Nothing && only_status(*old(self), *final(self), error_status(e)),
            },
    {
        self.after_todo_change(result, "Todo wiederhergestellt")
    }

    /// Takes the outcome of sending a new task of `todo_id`.
    pub fn after_create_task(&mut self, result: Result<i64, ProtoError>, todo_id: i64) -> (r: Effect)
        requires
            old(self).wf(),
        ensures
            final(self).wf(),
            match result {
                Ok(id) => *final(self) == *old(self) && (r matches Effect::LoadTasks { todo_id: t, then: Some(m) }
                    && t == todo_id && m@ == task_saved_status(id)),
                Err(e) => r is Nothing && only_status(*old(self), *final(self), error_status(e)),
            },
    {
        match result {
            Ok(id) => {
                let mut msg = String::from_str("Task gespeichert (id=");
                push_int(&mut msg, id);
                msg.append(")");
                Effect::LoadTasks { todo_id, then: Some(msg) }
            },
            Err(e) => {
                self.report_error(&e);
                Effect::Nothing
            },
        }
    }

    /// Takes the outcome of sending changes to a task of `todo_id`.
    pub fn after_update_task(&mut self, result: Result<(), ProtoError>, todo_id: i64) -> (r: Effect)
        requires
            old(self).wf(),
        ensures
            final(self).wf(),
            match result {
                Ok(()) => *final(self) == *old(self) && (r matches Effect::LoadTasks { todo_id: t, then: Some(m) }
                    && t == todo_id && m@ == "Task aktualisiert"@),
                Err(e) => r is Nothing && only_status(*old(self), *final(self), error_status(e)),
            },
    {
        match result {
            Ok(()) => Effect::LoadTasks { todo_id, then: Some(String::from_str("Task aktualisiert")) },
            Err(e) => {
                self.report_error(&e);
                Effect::Nothing
            },
        }
    }

    /// Takes the outcome of flipping a task: the tasks shown are loaded again.
    pub fn after_toggle(&mut self, result: Result<bool, ProtoError>) -> (r: Effect)
        requires
            old(self).wf(),
        ensures
            final(self).wf(),
            match result {
                Ok(_) => match old(self).view {
                    Screen::Tasks { todo_id, .. } => *final(self) == *old(self)
                        && (r matches Effect::LoadTasks { todo_id: t, then: Some(m) } && t == todo_id
                        && m@ == "Task toggled"@),
                    Screen::Todos => r is Nothing && only_status(*old(self), *final(self), "Task toggled"@),
                },
                Err(e) => r is Nothing && only_status(*old(self), *final(self), error_status(e)),
            },
    {
        match result {
            Ok(_) => match self.view {
                Screen::Tasks { todo_id, .. } => Effect::LoadTasks {
                    todo_id,
                    then: Some(String::from_str("Task toggled")),
                },
                Screen::Todos => {
                    self.set_status("Task toggled");
                    Effect::Nothing
                },
            },
            Err(e) => {
                self.report_error(&e);
                Effect::Nothing
            },
        }
    }
}

} // verus!

use bluetodo_tui::client::{TaskDraft, TaskRow, TodoDraft, TodoRow};
use bluetodo_tui::error::ProtoError;
use bluetodo_tui::form::{check_todo_form, task_form_fields, todo_form_fields, EditStep, LineEditor};
use bluetodo_tui::screen::{TaskFigures, TodoFigures};
use bluetodo_tui::state::{AppState, Effect, Key, Screen, TodoScope};

fn todo(id: i64, title: &str) -> TodoRow {
    TodoRow {
        id,
        title: title.to_string(),
        description: String::new(),
        order_number: String::new(),
        purchaser: String::new(),
        order_date: String::new(),
        progress: String::new(),
        budget_spent: String::new(),
        budget_planned: String::new(),
        deadline: String::new(),
        archived_at: String::new(),
    }
}

fn task(id: i64, title: &str, done: bool) -> TaskRow {
    TaskRow { id, title: title.to_string(), description: String::new(), amount: String::new(), done }
}

fn loaded() -> AppState {
    let mut app = AppState::new("localhost", 5877);
    app.apply_todos(Ok(vec![todo(1, "Eins"), todo(2, "Zwei"), todo(3, "Drei")]), None);
    app
}

#[test]
fn new_state() {
    let app = AppState::new("h", 1);
    assert_eq!(app.status, "Ready");
    assert!(matches!(app.view, Screen::Todos));
    assert!(matches!(app.scope, TodoScope::Active));
}

#[test]
fn loading_todos_sets_status_and_clamps() {
    let mut app = loaded();
    assert_eq!(app.status, "Loaded 3 aktive Todos");
    app.handle_key(Key::Down);
    app.handle_key(Key::Down);
    app.handle_key(Key::Down);
    assert_eq!(app.todo_selected, 2);
    app.apply_todos(Ok(vec![todo(9, "x")]), None);
    assert_eq!(app.todo_selected, 0);
    app.apply_todos(Err(ProtoError::ConnectionClosed), None);
    assert_eq!(app.status, "Error: Connection closed");
    assert_eq!(app.todos.len(), 1);
    app.apply_todos(Ok(vec![]), Some("Todo archiviert".to_string()));
    assert_eq!(app.status, "Todo archiviert");
}

#[test]
fn arrows_move_selection_within_list() {
    let mut app = loaded();
    assert!(matches!(app.handle_key(Key::Up), Effect::Nothing));
    assert_eq!(app.todo_selected, 0);
    app.handle_key(Key::Down);
    assert_eq!(app.todo_selected, 1);
    app.handle_key(Key::Up);
    assert_eq!(app.todo_selected, 0);
}

#[test]
fn quit_and_refresh() {
    let mut app = loaded();
    assert!(matches!(app.handle_key(Key::Char('q')), Effect::Quit));
    assert!(matches!(app.handle_key(Key::Char('r')), Effect::LoadTodos { archived: false, then: None }));
    assert!(matches!(app.handle_key(Key::Other), Effect::Nothing));
}

#[test]
fn scope_toggle_resets_selection() {
    let mut app = loaded();
    app.handle_key(Key::Down);
    let e = app.handle_key(Key::Char('v'));
    assert!(matches!(e, Effect::LoadTodos { archived: true, then: None }));
    assert!(matches!(app.scope, TodoScope::Archived));
    assert_eq!(app.todo_selected, 0);
    app.apply_todos(Ok(vec![todo(4, "alt")]), None);
    assert_eq!(app.status, "Loaded 1 Archiv-Eintr\u{e4}ge");
    assert!(matches!(app.handle_key(Key::Char('n')), Effect::Nothing));
    assert_eq!(app.status, "Archiv ist read-only");
    assert!(matches!(app.handle_key(Key::Char('x')), Effect::Nothing));
    assert!(matches!(app.handle_key(Key::Char('u')), Effect::UnarchiveTodo { todo_id: 4 }));
}

#[test]
fn open_todo_and_go_back() {
    let mut app = loaded();
    app.handle_key(Key::Down);
    let e = app.handle_key(Key::Enter);
    assert!(matches!(e, Effect::LoadTasks { todo_id: 2, then: None }));
    match &app.view {
        Screen::Tasks { todo_id, title, archived } => {
            assert_eq!(*todo_id, 2);
            assert_eq!(title, "Zwei");
            assert!(!archived);
        }
        Screen::Todos => panic!("still on todos"),
    }
    app.apply_tasks(Ok(vec![task(10, "a", false), task(11, "b", true)]), None);
    assert_eq!(app.status, "Loaded 2 tasks");
    assert!(matches!(app.handle_key(Key::Char('t')), Effect::ToggleTask { task_id: 10 }));
    assert!(matches!(app.handle_key(Key::Char('e')), Effect::EditTaskForm { task_id: 10, todo_id: 2 }));
    assert!(matches!(app.handle_key(Key::Char('a')), Effect::NewTaskForm { todo_id: 2 }));
    assert!(matches!(app.after_toggle(Ok(true)), Effect::LoadTasks { todo_id: 2, then: Some(_) }));
    app.handle_key(Key::Left);
    assert!(matches!(app.view, Screen::Todos));
    assert_eq!(app.status, "Back to todos");
}

#[test]
fn no_selection_messages() {
    let mut app = AppState::new("h", 1);
    assert!(matches!(app.handle_key(Key::Char('\n')), Effect::Nothing));
    assert_eq!(app.status, "No todo selected");
    assert!(matches!(app.handle_key(Key::Char('x')), Effect::Nothing));
    assert_eq!(app.status, "No todo selected");
    assert!(matches!(app.handle_key(Key::Char('e')), Effect::Nothing));
    assert_eq!(app.status, "No todo selected");
}

#[test]
fn after_results_set_status() {
    let mut app = loaded();
    match app.after_create_todo(Ok(12)) {
        Effect::LoadTodos { archived: false, then: Some(m) } => assert_eq!(m, "Todo gespeichert (id=12)"),
        other => panic!("{:?}", other),
    }
    match app.after_create_task(Ok(-5), 3) {
        Effect::LoadTasks { todo_id: 3, then: Some(m) } => assert_eq!(m, "Task gespeichert (id=-5)"),
        other => panic!("{:?}", other),
    }
    assert!(matches!(app.after_update_todo(Err(ProtoError::BadCrc)), Effect::Nothing));
    assert_eq!(app.status, "Error: BadCRC");
    match app.after_unarchive(Ok(())) {
        Effect::LoadTodos { then: Some(m), .. } => assert_eq!(m, "Todo wiederhergestellt"),
        other => panic!("{:?}", other),
    }
    match app.after_update_task(Ok(()), 8) {
        Effect::LoadTasks { todo_id: 8, then: Some(m) } => assert_eq!(m, "Task aktualisiert"),
        other => panic!("{:?}", other),
    }
    assert!(matches!(app.after_toggle(Ok(false)), Effect::Nothing));
    assert_eq!(app.status, "Task toggled");
}

#[test]
fn form_outcomes() {
    let mut app = loaded();
    assert!(matches!(app.after_todo_form(Ok(None), None), Effect::Nothing));
    assert_eq!(app.status, "Abgebrochen");
    assert!(matches!(app.after_todo_form(Err("Order-Metadaten nur komplett".to_string()), None), Effect::Nothing));
    assert_eq!(app.status, "Order-Metadaten nur komplett");
    let d = TaskDraft { title: "t".to_string(), description: String::new(), amount: String::new() };
    assert!(matches!(app.after_task_form(Ok(Some(d)), 3, Some(7)), Effect::UpdateTask { task_id: 7, todo_id: 3, .. }));
    let d = TodoDraft {
        title: "t".to_string(),
        description: String::new(),
        order_number: String::new(),
        purchaser: String::new(),
        order_date: String::new(),
        budget_spent: String::new(),
        budget_planned: String::new(),
        deadline: String::new(),
    };
    assert!(matches!(app.after_todo_form(Ok(Some(d)), None), Effect::CreateTodo { .. }));
}

#[test]
fn editor_keys() {
    let mut ed = LineEditor::new("ab");
    assert!(matches!(ed.handle_key(Key::Char('c')), EditStep::Continue));
    assert_eq!(ed.text(), "abc");
    ed.handle_key(Key::Backspace);
    ed.handle_key(Key::Char('\u{7f}'));
    assert_eq!(ed.text(), "a");
    ed.handle_key(Key::Char('\u{1}'));
    ed.handle_key(Key::Up);
    assert_eq!(ed.text(), "a");
    assert!(matches!(ed.handle_key(Key::Char('\u{1b}')), EditStep::Cancel));
    assert!(matches!(ed.handle_key(Key::Enter), EditStep::Submit));
    assert!(matches!(ed.handle_key(Key::Char('\n')), EditStep::Submit));
    assert_eq!(ed.prompt_line("Titel: ", 80), "Titel: a");
    assert_eq!(ed.prompt_line("Titel: ", 5), "Ti...");
}

#[test]
fn editor_finish_trims() {
    let ed = LineEditor::new("  x y  ");
    assert_eq!(ed.finish(false).unwrap(), "x y");
    let blank = LineEditor::new("   ");
    assert!(blank.finish(false).is_none());
    assert_eq!(blank.finish(true).unwrap(), "");
}

#[test]
fn form_fields_and_drafts() {
    let fields = todo_form_fields(None, "1.00", "2.00");
    assert_eq!(fields.len(), 8);
    assert_eq!(fields[0].label, "Titel: ");
    assert!(!fields[0].allow_empty);
    assert_eq!(fields[5].initial, "");
    let t = todo(1, "Alt");
    let fields = todo_form_fields(Some(&t), "1.00", "2.00");
    assert_eq!(fields[0].initial, "Alt");
    assert_eq!(fields[5].initial, "1.00");
    assert_eq!(fields[6].initial, "2.00");
    assert_eq!(fields[7].label, "Deadline YYYY-MM-DD: ");
    let tf = task_form_fields(Some(&task(1, "x", false)), "0.50");
    assert_eq!(tf[2].initial, "0.50");
    assert_eq!(tf[0].label, "Task-Titel: ");

    let check = |o: &str, p: &str, d: &str| {
        check_todo_form(
            "T".to_string(),
            "D".to_string(),
            o.to_string(),
            p.to_string(),
            d.to_string(),
            "1".to_string(),
            "2".to_string(),
            "2024-01-01".to_string(),
        )
    };
    assert_eq!(check("", "P", "").unwrap_err(), "Order-Metadaten nur komplett");
    assert_eq!(check("A", "P", "").unwrap_err(), "Order-Metadaten nur komplett");
    let ok = check("A", "P", "2024-01-01").unwrap();
    assert_eq!(ok.order_number, "A");
    assert_eq!(ok.deadline, "2024-01-01");
    assert_eq!(ok.budget_planned, "2");
    assert!(check("", "", "").is_ok());
}

#[test]
fn render_todo_screen() {
    let mut app = AppState::new("srv", 5877);
    let mut t = todo(1, "Milch");
    t.order_number = "A1".to_string();
    t.archived_at = "x".to_string();
    app.apply_todos(Ok(vec![t, todo(2, "Brot")]), None);
    let figs = vec![
        TodoFigures { progress: "50".to_string(), spent: "1.00".to_string(), planned: "2.00".to_string(), progress_detail: "50".to_string() },
        TodoFigures { progress: "0".to_string(), spent: "0.00".to_string(), planned: "0.00".to_string(), progress_detail: "0".to_string() },
    ];
    let lines = app.render(20, 80, &figs, &vec![]);
    let text: Vec<(i32, String)> = lines.into_iter().map(|l| (l.row, l.text)).collect();
    assert_eq!(text[0], (0, "BlueTodo TUI srv:5877  Aktiv: 2".to_string()));
    assert_eq!(text[2], (2, "> Milch | A1 | - | 50% | 1.00/2.00 | -".to_string()));
    assert_eq!(text[3], (3, "  Brot | - | 0% | 0.00/0.00 | -".to_string()));
    assert_eq!(text[4], (16, "Order: A1 | - | -".to_string()));
    assert_eq!(text[5], (17, "Deadline: - | Archiv: x".to_string()));
    assert_eq!(text[6], (18, "Budget: 1.00/2.00 | Progress: 50%".to_string()));
    assert_eq!(text[7], (19, "Loaded 2 aktive Todos".to_string()));
    assert!(app.render(2, 80, &figs, &vec![]).is_empty());
}

#[test]
fn render_task_screen() {
    let mut app = AppState::new("srv", 1);
    app.apply_todos(Ok(vec![todo(1, "Milch")]), None);
    app.handle_key(Key::Enter);
    let mut t = task(5, "kaufen", true);
    t.description = "2 Liter".to_string();
    app.apply_tasks(Ok(vec![t]), None);
    let figs = vec![TaskFigures { amount: "1.50".to_string(), nonzero: true }];
    let lines = app.render(12, 40, &vec![TodoFigures { progress: String::new(), spent: String::new(), planned: String::new(), progress_detail: String::new() }], &figs);
    let text: Vec<(i32, String)> = lines.into_iter().map(|l| (l.row, l.text)).collect();
    assert_eq!(text[0], (0, "BlueTodo TUI srv:1  Tasks: 1".to_string()));
    assert_eq!(text[1], (1, "Todo: Milch".to_string()));
    assert_eq!(text[3], (3, "> [x] kaufen | 1.50 - 2 Liter".to_string()));
    assert_eq!(text[4], (8, "Task: kaufen | Status: done".to_string()));
    assert_eq!(text[6], (10, "Amount: 1.50".to_string()));
    assert_eq!(text[7], (11, "Loaded 1 tasks".to_string()));
}

#[test]
fn keys_on_active_list() {
    let mut app = loaded();
    assert!(matches!(app.handle_key(Key::Char('n')), Effect::NewTodoForm));
    assert!(matches!(app.handle_key(Key::Char('e')), Effect::EditTodoForm { todo_id: 1 }));
    assert!(matches!(app.handle_key(Key::Char('x')), Effect::ArchiveTodo { todo_id: 1 }));
    assert!(matches!(app.handle_key(Key::Char('u')), Effect::Nothing));
    assert!(matches!(app.handle_key(Key::Char('a')), Effect::Nothing));
    assert!(matches!(app.handle_key(Key::Char('t')), Effect::Nothing));
    assert!(matches!(app.handle_key(Key::Right), Effect::LoadTasks { todo_id: 1, then: None }));
}

#[test]
fn keys_on_archived_tasks() {
    let mut app = loaded();
    app.handle_key(Key::Char('v'));
    app.apply_todos(Ok(vec![todo(4, "alt")]), None);
    assert!(matches!(app.handle_key(Key::Char('\n')), Effect::LoadTasks { todo_id: 4, then: None }));
    app.apply_tasks(Ok(vec![task(1, "x", false)]), None);
    assert!(matches!(app.handle_key(Key::Char('a')), Effect::Nothing));
    assert_eq!(app.status, "Archiv ist read-only");
    assert!(matches!(app.handle_key(Key::Char('t')), Effect::Nothing));
    assert!(matches!(app.handle_key(Key::Char('e')), Effect::Nothing));
    assert!(matches!(app.handle_key(Key::Char('r')), Effect::LoadTasks { todo_id: 4, then: None }));
    app.handle_key(Key::Char('b'));
    assert!(matches!(app.view, Screen::Todos));
    assert!(matches!(app.handle_key(Key::Char('v')), Effect::LoadTodos { archived: false, then: None }));
}

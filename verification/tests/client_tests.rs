use bluetodo_tui::client::{
    accept_reply, check_hello, parse_i64, parse_id_from_ok, tasks_from_lines, todos_from_lines,
    toggle_result, ReplyStep, Request, Session, TaskDraft, TodoDraft,
};
use bluetodo_tui::error::ProtoError;
use bluetodo_tui::line::{build_proto_line, parse_proto_line, ProtoLine};

fn line(base: &str) -> ProtoLine {
    parse_proto_line(&build_proto_line(base)).unwrap()
}

fn raw(base: &str) -> String {
    format!("{}\r\n", build_proto_line(base))
}

fn names(req: &Request) -> Vec<(String, String)> {
    req.params.clone()
}

fn todo_draft(desc: &str, order: &str, purchaser: &str, date: &str) -> TodoDraft {
    TodoDraft {
        title: "T".to_string(),
        description: desc.to_string(),
        order_number: order.to_string(),
        purchaser: purchaser.to_string(),
        order_date: date.to_string(),
        budget_spent: "".to_string(),
        budget_planned: "10".to_string(),
        deadline: "  ".to_string(),
    }
}

#[test]
fn parse_i64_reports_missing_and_bad() {
    let l = line("OK id=12 done=x seq=1");
    assert_eq!(parse_i64(&l.params, "id").unwrap(), 12);
    assert!(matches!(parse_i64(&l.params, "done"), Err(ProtoError::Bad(k)) if k == "done"));
    assert!(matches!(parse_i64(&l.params, "nope"), Err(ProtoError::Missing(k)) if k == "nope"));
}

#[test]
fn id_from_first_ok_line() {
    let lines = vec![line("INFO id=1 seq=2"), line("OK id=5 seq=2"), line("OK id=6 seq=2")];
    assert_eq!(parse_id_from_ok(&lines).unwrap(), 5);
    let none = vec![line("INFO id=1 seq=2")];
    let err = parse_id_from_ok(&none).unwrap_err();
    assert_eq!(err.describe(), "Missing id");
    let bad = vec![line("OK id=x seq=2")];
    assert_eq!(parse_id_from_ok(&bad).unwrap_err().describe(), "Missing id");
}

#[test]
fn hello_checks_version() {
    assert!(check_hello(&vec![line("OK proto=2 seq=1")]).is_ok());
    assert!(matches!(check_hello(&vec![line("HI seq=1")]), Err(ProtoError::MissingOk)));
    assert!(matches!(check_hello(&vec![line("OK seq=1")]), Err(ProtoError::MissingProto)));
    let err = check_hello(&vec![line("OK proto=3 seq=1")]).unwrap_err();
    assert!(matches!(err, ProtoError::ProtoMismatch { server: 3 }));
    assert_eq!(err.describe(), "Proto mismatch (server 3 vs client 2)");
}

#[test]
fn toggle_reads_done() {
    assert!(toggle_result(&vec![line("OK done=1 seq=4")]));
    assert!(!toggle_result(&vec![line("OK done=0 seq=4")]));
    assert!(!toggle_result(&vec![line("OK seq=4")]));
    assert!(!toggle_result(&vec![]));
}

#[test]
fn todos_read_from_list_reply() {
    let lines = vec![
        line("TODO id=7 title=Einkauf%20Markt progress=50 seq=3"),
        line("INFO x=1 seq=3"),
        line("TODO id=8 desc=abc order_number=A1 purchaser=P order_date=2024-01-02 budget_spent=1.5 budget_planned=3 deadline=2024-02-01 archived_at=x seq=3"),
        line("END seq=3"),
    ];
    let rows = todos_from_lines(&lines).unwrap();
    assert_eq!(rows.len(), 2);
    assert_eq!(rows[0].id, 7);
    assert_eq!(rows[0].title, "Einkauf Markt");
    assert_eq!(rows[0].progress, "50");
    assert_eq!(rows[0].description, "");
    assert_eq!(rows[1].order_number, "A1");
    assert_eq!(rows[1].purchaser, "P");
    assert_eq!(rows[1].order_date, "2024-01-02");
    assert_eq!(rows[1].budget_spent, "1.5");
    assert_eq!(rows[1].budget_planned, "3");
    assert_eq!(rows[1].deadline, "2024-02-01");
    assert_eq!(rows[1].archived_at, "x");
}

#[test]
fn todos_fail_on_bad_id() {
    let lines = vec![line("TODO id=1 seq=3"), line("TODO title=x seq=3"), line("TODO id=x seq=3")];
    assert!(matches!(todos_from_lines(&lines), Err(ProtoError::Missing(k)) if k == "id"));
    let lines = vec![line("TODO id=z seq=3"), line("TODO title=x seq=3")];
    assert!(matches!(todos_from_lines(&lines), Err(ProtoError::Bad(k)) if k == "id"));
}

#[test]
fn tasks_read_from_list_reply() {
    let lines = vec![
        line("TASK id=1 title=a done=1 amount=2.5 seq=4"),
        line("TASK id=2 title=b done=0 desc=d seq=4"),
        line("TASK id=3 title=c done=zz seq=4"),
        line("END seq=4"),
    ];
    let rows = tasks_from_lines(&lines).unwrap();
    assert_eq!(rows.len(), 3);
    assert!(rows[0].done);
    assert_eq!(rows[0].amount, "2.5");
    assert!(!rows[1].done);
    assert_eq!(rows[1].description, "d");
    assert!(!rows[2].done);
}

#[test]
fn reply_collection_until_ok() {
    let mut lines = Vec::new();
    assert!(matches!(accept_reply(Some("\r\n"), 7, false, &mut lines), ReplyStep::Skip));
    assert!(matches!(accept_reply(Some(&raw("INFO a=1 seq=7")), 7, false, &mut lines), ReplyStep::More));
    assert!(matches!(accept_reply(Some(&raw("OK id=3 seq=7")), 7, false, &mut lines), ReplyStep::Done));
    assert_eq!(lines.len(), 2);
    assert_eq!(lines[1].kind, "OK");
}

#[test]
fn reply_collection_until_end() {
    let mut lines = Vec::new();
    assert!(matches!(accept_reply(Some(&raw("OK seq=9")), 9, true, &mut lines), ReplyStep::More));
    assert!(matches!(accept_reply(Some(&raw("END seq=9")), 9, true, &mut lines), ReplyStep::Done));
    assert_eq!(lines.len(), 2);
}

#[test]
fn reply_failures() {
    let mut lines = Vec::new();
    assert!(matches!(accept_reply(None, 1, false, &mut lines), ReplyStep::Fail(ProtoError::ConnectionClosed)));
    match accept_reply(Some(&raw("OK seq=2")), 1, false, &mut lines) {
        ReplyStep::Fail(e) => assert_eq!(e.describe(), "SeqMismatch expected=1 got=2"),
        other => panic!("{:?}", other),
    }
    match accept_reply(Some(&raw("ERR code=NotFound msg=no%20such%20todo seq=1")), 1, false, &mut lines) {
        ReplyStep::Fail(e) => assert_eq!(e.describe(), "NotFound: no such todo"),
        other => panic!("{:?}", other),
    }
    match accept_reply(Some(&raw("ERR msg=x seq=1")), 1, false, &mut lines) {
        ReplyStep::Fail(e) => assert_eq!(e.describe(), "ERR: x"),
        other => panic!("{:?}", other),
    }
    match accept_reply(Some("OK seq=1 crc32=00000000\n"), 1, false, &mut lines) {
        ReplyStep::Fail(e) => assert_eq!(e.describe(), "BadCRC"),
        other => panic!("{:?}", other),
    }
    assert!(lines.is_empty());
}

#[test]
fn session_numbers_requests() {
    let mut s = Session::new();
    let (line1, seq1) = s.begin(&Request::hello());
    let (line2, seq2) = s.begin(&Request::list_todos());
    assert_eq!(seq1, 1);
    assert_eq!(seq2, 2);
    assert_eq!(line1, "HELLO seq=1 crc32=506B7578");
    assert!(line2.starts_with("LIST_TODOS seq=2 crc32="));
}

#[test]
fn request_shapes() {
    let r = Request::auth("");
    assert_eq!(r.command, "AUTH");
    assert_eq!(names(&r), vec![("client".to_string(), "BTTUI".to_string())]);
    assert!(!r.expect_end);
    let r = Request::auth("tok");
    assert_eq!(names(&r)[1], ("token".to_string(), "tok".to_string()));
    let r = Request::list_archived_todos();
    assert_eq!(r.command, "LIST_ARCHIVED");
    assert!(r.expect_end);
    let r = Request::list_tasks(-3);
    assert_eq!(names(&r), vec![("todo_id".to_string(), "-3".to_string())]);
    let r = Request::toggle_task(9);
    assert_eq!(r.command, "TOGGLE_TASK");
    assert_eq!(Request::archive_todo(1).command, "ARCHIVE_TODO");
    assert_eq!(Request::unarchive_todo(1).command, "UNARCHIVE_TODO");
}

#[test]
fn todo_requests_skip_blank_fields() {
    let r = Request::add_todo(&todo_draft(" ", "A1", "P", "2024-01-01"));
    assert_eq!(r.command, "ADD_TODO");
    assert_eq!(
        names(&r),
        vec![
            ("title".to_string(), "T".to_string()),
            ("order_number".to_string(), "A1".to_string()),
            ("purchaser".to_string(), "P".to_string()),
            ("order_date".to_string(), "2024-01-01".to_string()),
            ("budget_planned".to_string(), "10".to_string()),
        ]
    );
    let r = Request::update_todo(4, &todo_draft("d", "", "", ""));
    assert_eq!(r.command, "UPDATE_TODO");
    assert_eq!(names(&r)[0], ("id".to_string(), "4".to_string()));
    assert_eq!(names(&r)[2], ("desc".to_string(), "d".to_string()));
    assert_eq!(names(&r).len(), 4);
}

#[test]
fn task_requests_skip_blank_fields() {
    let d = TaskDraft { title: "t".to_string(), description: "".to_string(), amount: "1.25".to_string() };
    let r = Request::add_task(2, &d);
    assert_eq!(
        names(&r),
        vec![
            ("todo_id".to_string(), "2".to_string()),
            ("title".to_string(), "t".to_string()),
            ("amount".to_string(), "1.25".to_string()),
        ]
    );
    let r = Request::update_task(5, &d);
    assert_eq!(r.command, "UPDATE_TASK");
    assert_eq!(names(&r)[0], ("id".to_string(), "5".to_string()));
}

#[test]
fn error_texts() {
    assert_eq!(ProtoError::MissingCrc.describe(), "MissingCRC");
    assert_eq!(ProtoError::BadCrc.describe(), "BadCRC");
    assert_eq!(ProtoError::MissingCommand.describe(), "MissingCommand");
    assert_eq!(ProtoError::BadParam.describe(), "BadParam");
    assert_eq!(ProtoError::BadEscape.describe(), "BadEscape");
    assert_eq!(ProtoError::BadUtf8.describe(), "BadUtf8");
    assert_eq!(ProtoError::MissingSeq.describe(), "MissingSeq");
    assert_eq!(ProtoError::MissingOk.describe(), "Missing OK response");
    assert_eq!(ProtoError::MissingProto.describe(), "Missing proto version");
    assert_eq!(ProtoError::ConnectionClosed.describe(), "Connection closed");
    assert_eq!(ProtoError::Io("boom".to_string()).describe(), "boom");
    assert_eq!(ProtoError::Bad("id".to_string()).describe(), "Bad id");
    assert_eq!(ProtoError::ProtoMismatch { server: -1 }.describe(), "Proto mismatch (server -1 vs client 2)");
}

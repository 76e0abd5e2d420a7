//! What the client sends for each operation, how it collects the reply lines
//! of one request, and what it reads out of them.
use vstd::prelude::*;
use crate::error::{ProtoError, SUPPORTED_PROTO_VERSION};
use crate::line::{line_text, parse_line_text, parse_proto_chars, ProtoLine};
use crate::numbers::{decimal, i64_text_value, int_text, i64_to_text, parse_i64_text, u64_to_text};
use crate::params::Params;
use crate::request::{build_request_line, pairs_map, pairs_view, request_base};
use crate::strings::{chars_of, str_eq};
use crate::text::{is_blank, is_blank_chars};

verus! {

/// What the client says about itself when it authenticates.
pub open spec fn client_label() -> Seq<char> {
    "BTTUI"@
}

/// The view of a received line: command word, parameters, sequence number.
pub type LineView = (Seq<char>, Map<Seq<char>, Seq<char>>, Seq<char>);

/// The views of received lines.
pub open spec fn lines_view(v: Seq<ProtoLine>) -> Seq<LineView> {
    v.map_values(|l: ProtoLine| l@)
}

/// Whether some line has the command word `k`.
pub open spec fn has_kind(ls: Seq<LineView>, k: Seq<char>) -> bool {
    exists|i: int| 0 <= i < ls.len() && ls[i].0 == k
}

/// The first line with the command word `k`.
pub open spec fn first_kind(ls: Seq<LineView>, k: Seq<char>) -> int {
    choose|i: int| 0 <= i < ls.len() && ls[i].0 == k && forall|j: int| 0 <= j < i ==> ls[j].0 != k
}

/// The number a parameter holds: `None` where it is absent or not a number.
pub open spec fn param_number(m: Map<Seq<char>, Seq<char>>, key: Seq<char>) -> Option<i64> {
    if m.contains_key(key) {
        i64_text_value(m[key])
    } else {
        None
    }
}

/// The value of a parameter, empty where it is absent.
pub open spec fn param_text(m: Map<Seq<char>, Seq<char>>, key: Seq<char>) -> Seq<char> {
    if m.contains_key(key) {
        m[key]
    } else {
        Seq::empty()
    }
}

/// Whether `e` is the error for the parameter `key`: absent where `missing`,
/// not a number otherwise.
pub open spec fn is_param_error(e: ProtoError, key: Seq<char>, missing: bool) -> bool {
    if missing {
        e matches ProtoError::Missing(k) && k@ == key
    } else {
        e matches ProtoError::Bad(k) && k@ == key
    }
}

/// Reads a required number parameter.
pub fn parse_i64(params: &Params, key: &str) -> (r: Result<i64, ProtoError>)
    ensures
        match param_number(params@, key@) {
            Some(v) => r == Ok::<i64, ProtoError>(v),
            None => r matches Err(e) && is_param_error(e, key@, !params@.contains_key(key@)),
        },
{
    match params.get(key) {
        None => Err(ProtoError::Missing(String::from_str(key))),
        Some(text) => match parse_i64_text(text.as_str()) {
            Some(v) => Ok(v),
            None => Err(ProtoError::Bad(String::from_str(key))),
        },
    }
}

/// Finds the first line with the command word `kind`.
pub fn find_kind(lines: &Vec<ProtoLine>, kind: &str) -> (r: Option<usize>)
    ensures
        match r {
            Some(i) => has_kind(lines_view(lines@), kind@) && i == first_kind(lines_view(lines@), kind@)
                && i < lines@.len() && lines@[i as int].kind@ == kind@,
            None => !has_kind(lines_view(lines@), kind@),
        },
{
    let ghost ls = lines_view(lines@);
    let n = lines.len();
    for i in 0..n
        invariant
            n == lines@.len(),
            ls == lines_view(lines@),
            forall|j: int| 0 <= j < i ==> ls[j].0 != kind@,
    {
        assert(ls[i as int].0 == lines@[i as int].kind@);
        if str_eq(lines[i].kind.as_str(), kind) {
            proof {
                assert(has_kind(ls, kind@));
                let f = first_kind(ls, kind@);
                assert(f == i);
            }
            return Some(i);
        }
    }
    None
}

/// The id in the first `OK` line, as `parse_id_from_ok` reads it.
pub open spec fn ok_id(ls: Seq<LineView>) -> Option<i64> {
    if has_kind(ls, "OK"@) {
        param_number(ls[first_kind(ls, "OK"@)].1, "id"@)
    } else {
        None
    }
}

/// The id that the server assigned, read from the first `OK` line.
pub fn parse_id_from_ok(lines: &Vec<ProtoLine>) -> (r: Result<i64, ProtoError>)
    ensures
        match ok_id(lines_view(lines@)) {
            Some(v) => r == Ok::<i64, ProtoError>(v),
            None => r matches Err(e) && is_param_error(e, "id"@, true),
        },
{
    match find_kind(lines, "OK") {
        Some(i) => {
            assert(lines_view(lines@)[i as int] == lines@[i as int]@);
            match parse_i64(&lines[i].params, "id") {
                Ok(v) => Ok(v),
                Err(_) => Err(ProtoError::Missing(String::from_str("id"))),
            }
        },
        None => Err(ProtoError::Missing(String::from_str("id"))),
    }
}

/// What the greeting reply says: `Ok` where the server speaks this client's
/// protocol version.
pub open spec fn hello_outcome(ls: Seq<LineView>) -> Result<(), Option<i64>> {
    if !has_kind(ls, "OK"@) {
        Err(None)
    } else {
        match param_number(ls[first_kind(ls, "OK"@)].1, "proto"@) {
            None => Err(None),
            Some(v) => if v == SUPPORTED_PROTO_VERSION {
                Ok(())
            } else {
                Err(Some(v))
            },
        }
    }
}

/// Checks the greeting reply: an `OK` line naming protocol version 2.
pub fn check_hello(lines: &Vec<ProtoLine>) -> (r: Result<(), ProtoError>)
    ensures
        !has_kind(lines_view(lines@), "OK"@) ==> r matches Err(ProtoError::MissingOk),
        has_kind(lines_view(lines@), "OK"@) ==> match hello_outcome(lines_view(lines@)) {
            Ok(()) => r is Ok,
            Err(None) => r matches Err(ProtoError::MissingProto),
            Err(Some(v)) => r matches Err(ProtoError::ProtoMismatch { server }) && server == v,
        },
{
    let i = match find_kind(lines, "OK") {
        Some(i) => i,
        None => {
            return Err(ProtoError::MissingOk);
        },
    };
    assert(lines_view(lines@)[i as int] == lines@[i as int]@);
    let proto = match parse_i64(&lines[i].params, "proto") {
        Ok(v) => v,
        Err(_) => {
            return Err(ProtoError::MissingProto);
        },
    };
    if proto != SUPPORTED_PROTO_VERSION {
        return Err(ProtoError::ProtoMismatch { server: proto });
    }
    Ok(())
}

/// The `done` flag of the first `OK` line; false where there is none.
pub open spec fn ok_done(ls: Seq<LineView>) -> bool {
    if has_kind(ls, "OK"@) {
        match param_number(ls[first_kind(ls, "OK"@)].1, "done"@) {
            Some(v) => v != 0,
            None => false,
        }
    } else {
        false
    }
}

/// Reads whether a toggled task is now done.
pub fn toggle_result(lines: &Vec<ProtoLine>) -> (r: bool)
    ensures
        r == ok_done(lines_view(lines@)),
{
    match find_kind(lines, "OK") {
        Some(i) => {
            assert(lines_view(lines@)[i as int] == lines@[i as int]@);
            match parse_i64(&lines[i].params, "done") {
                Ok(v) => v != 0,
                Err(_) => false,
            }
        },
        None => false,
    }
}

/// One request: command word, parameters, and whether its reply ends with
/// an `END` line (lists) rather than an `OK` line.
#[derive(Debug)]
pub struct Request {
    pub command: String,
    pub params: Vec<(String, String)>,
    pub expect_end: bool,
}

/// The view of a request: command, parameters, and how its reply ends.
pub open spec fn request_view(r: Request) -> (Seq<char>, Seq<(Seq<char>, Seq<char>)>, bool) {
    (r.command@, pairs_view(r.params@), r.expect_end)
}

/// The parameter `(name, value)` where `value` is not blank; nothing otherwise.
pub open spec fn opt_param(name: Seq<char>, value: Seq<char>) -> Seq<(Seq<char>, Seq<char>)> {
    if is_blank(value) {
        Seq::empty()
    } else {
        seq![(name, value)]
    }
}

fn pair(name: &str, value: String) -> (r: (String, String))
    ensures
        r.0@ == name@,
        r.1@ == value@,
{
    (String::from_str(name), value)
}

fn push_opt(params: &mut Vec<(String, String)>, name: &str, value: &String)
    ensures
        pairs_view(final(params)@) == pairs_view(old(params)@) + opt_param(name@, value@),
{
    let blank = is_blank_chars(&chars_of(value.as_str()));
    if !blank {
        let ghost before = params@;
        params.push(pair(name, value.clone()));
        assert(pairs_view(params@) =~= pairs_view(before) + opt_param(name@, value@));
    } else {
        assert(pairs_view(params@) =~= pairs_view(params@) + opt_param(name@, value@));
    }
}

/// The fields of a todo form, as typed.
#[derive(Debug)]
pub struct TodoDraft {
    pub title: String,
    pub description: String,
    pub order_number: String,
    pub purchaser: String,
    pub order_date: String,
    pub budget_spent: String,
    pub budget_planned: String,
    pub deadline: String,
}

/// The fields of a task form, as typed.
#[derive(Debug)]
pub struct TaskDraft {
    pub title: String,
    pub description: String,
    pub amount: String,
}

/// The optional parameters of a todo form: each field that is not blank.
pub open spec fn todo_fields(d: TodoDraft) -> Seq<(Seq<char>, Seq<char>)> {
    opt_param("desc"@, d.description@) + opt_param("order_number"@, d.order_number@) + opt_param(
        "purchaser"@,
        d.purchaser@,
    ) + opt_param("order_date"@, d.order_date@) + opt_param("budget_spent"@, d.budget_spent@)
        + opt_param("budget_planned"@, d.budget_planned@) + opt_param("deadline"@, d.deadline@)
}

/// The optional parameters of a task form.
pub open spec fn task_fields(d: TaskDraft) -> Seq<(Seq<char>, Seq<char>)> {
    opt_param("desc"@, d.description@) + opt_param("amount"@, d.amount@)
}

fn push_todo_fields(params: &mut Vec<(String, String)>, d: &TodoDraft)
    ensures
        pairs_view(final(params)@) == pairs_view(old(params)@) + todo_fields(*d),
{
    let ghost p0 = pairs_view(params@);
    push_opt(params, "desc", &d.description);
    push_opt(params, "order_number", &d.order_number);
    push_opt(params, "purchaser", &d.purchaser);
    push_opt(params, "order_date", &d.order_date);
    push_opt(params, "budget_spent", &d.budget_spent);
    push_opt(params, "budget_planned", &d.budget_planned);
    push_opt(params, "deadline", &d.deadline);
    assert(pairs_view(params@) =~= p0 + todo_fields(*d));
}

fn push_task_fields(params: &mut Vec<(String, String)>, d: &TaskDraft)
    ensures
        pairs_view(final(params)@) == pairs_view(old(params)@) + task_fields(*d),
{
    let ghost p0 = pairs_view(params@);
    push_opt(params, "desc", &d.description);
    push_opt(params, "amount", &d.amount);
    assert(pairs_view(params@) =~= p0 + task_fields(*d));
}

/// Whether the parameters `ps` carry `name` with `value` where `value` is not
/// blank, and carry no parameter `name` where it is.
pub open spec fn sends_filled(ps: Seq<(Seq<char>, Seq<char>)>, name: Seq<char>, value: Seq<char>) -> bool {
    &&& pairs_map(ps).contains_key(name) == !is_blank(value)
    &&& !is_blank(value) ==> pairs_map(ps)[name] == value
}

proof fn lemma_pairs_map_concat(a: Seq<(Seq<char>, Seq<char>)>, b: Seq<(Seq<char>, Seq<char>)>)
    ensures
        pairs_map(a + b) == pairs_map(a).union_prefer_right(pairs_map(b)),
    decreases b.len(),
{
    if b.len() == 0 {
        assert(a + b =~= a);
        assert(pairs_map(a).union_prefer_right(pairs_map(b)) =~= pairs_map(a));
    } else {
        lemma_pairs_map_concat(a, b.drop_last());
        assert((a + b).drop_last() =~= a + b.drop_last());
        assert((a + b).last() == b.last());
        assert(pairs_map(a + b) =~= pairs_map(a).union_prefer_right(pairs_map(b)));
    }
}

proof fn lemma_opt_param_map(name: Seq<char>, value: Seq<char>)
    ensures
        pairs_map(opt_param(name, value)) == (if is_blank(value) {
            Map::<Seq<char>, Seq<char>>::empty()
        } else {
            Map::<Seq<char>, Seq<char>>::empty().insert(name, value)
        }),
{
    let e = opt_param(name, value);
    let none = Seq::<(Seq<char>, Seq<char>)>::empty();
    assert(pairs_map(none) == Map::<Seq<char>, Seq<char>>::empty());
    if !is_blank(value) {
        assert(e.drop_last() =~= none);
        assert(e.last() == (name, value));
    } else {
        assert(e =~= none);
    }
}

proof fn lemma_todo_fields_map(d: TodoDraft)
    ensures
        sends_filled(todo_fields(d), "desc"@, d.description@),
        sends_filled(todo_fields(d), "order_number"@, d.order_number@),
        sends_filled(todo_fields(d), "purchaser"@, d.purchaser@),
        sends_filled(todo_fields(d), "order_date"@, d.order_date@),
        sends_filled(todo_fields(d), "budget_spent"@, d.budget_spent@),
        sends_filled(todo_fields(d), "budget_planned"@, d.budget_planned@),
        sends_filled(todo_fields(d), "deadline"@, d.deadline@),
        forall|k: Seq<char>| #[trigger] pairs_map(todo_fields(d)).contains_key(k) ==> k == "desc"@
            || k == "order_number"@ || k == "purchaser"@ || k == "order_date"@ || k == "budget_spent"@
            || k == "budget_planned"@ || k == "deadline"@,
{
    reveal_strlit("desc");
    reveal_strlit("order_number");
    reveal_strlit("purchaser");
    reveal_strlit("order_date");
    reveal_strlit("budget_spent");
    reveal_strlit("budget_planned");
    reveal_strlit("deadline");
    let p1 = opt_param("desc"@, d.description@);
    let p2 = opt_param("order_number"@, d.order_number@);
    let p3 = opt_param("purchaser"@, d.purchaser@);
    let p4 = opt_param("order_date"@, d.order_date@);
    let p5 = opt_param("budget_spent"@, d.budget_spent@);
    let p6 = opt_param("budget_planned"@, d.budget_planned@);
    let p7 = opt_param("deadline"@, d.deadline@);
    lemma_opt_param_map("desc"@, d.description@);
    lemma_opt_param_map("order_number"@, d.order_number@);
    lemma_opt_param_map("purchaser"@, d.purchaser@);
    lemma_opt_param_map("order_date"@, d.order_date@);
    lemma_opt_param_map("budget_spent"@, d.budget_spent@);
    lemma_opt_param_map("budget_planned"@, d.budget_planned@);
    lemma_opt_param_map("deadline"@, d.deadline@);
    lemma_pairs_map_concat(p1, p2);
    lemma_pairs_map_concat(p1 + p2, p3);
    lemma_pairs_map_concat(p1 + p2 + p3, p4);
    lemma_pairs_map_concat(p1 + p2 + p3 + p4, p5);
    lemma_pairs_map_concat(p1 + p2 + p3 + p4 + p5, p6);
    lemma_pairs_map_concat(p1 + p2 + p3 + p4 + p5 + p6, p7);
    assert(todo_fields(d) == p1 + p2 + p3 + p4 + p5 + p6 + p7);
    assert("order_number"@[0] != "budget_spent"@[0]);
    assert("desc"@.len() == 4 && "order_number"@.len() == 12 && "purchaser"@.len() == 9);
    assert("order_date"@.len() == 10 && "budget_spent"@.len() == 12 && "budget_planned"@.len() == 14);
    assert("deadline"@.len() == 8);
}

proof fn lemma_task_fields_map(d: TaskDraft)
    ensures
        sends_filled(task_fields(d), "desc"@, d.description@),
        sends_filled(task_fields(d), "amount"@, d.amount@),
        forall|k: Seq<char>| #[trigger] pairs_map(task_fields(d)).contains_key(k) ==> k == "desc"@
            || k == "amount"@,
{
    reveal_strlit("desc");
    reveal_strlit("amount");
    let p1 = opt_param("desc"@, d.description@);
    let p2 = opt_param("amount"@, d.amount@);
    lemma_opt_param_map("desc"@, d.description@);
    lemma_opt_param_map("amount"@, d.amount@);
    lemma_pairs_map_concat(p1, p2);
    assert("desc"@.len() == 4 && "amount"@.len() == 6);
}

/// The map of the parameters that stand before a form's fields.
proof fn lemma_head_map(k1: Seq<char>, v1: Seq<char>, k2: Seq<char>, v2: Seq<char>)
    ensures
        pairs_map(seq![(k1, v1)]) == Map::<Seq<char>, Seq<char>>::empty().insert(k1, v1),
        pairs_map(seq![(k1, v1), (k2, v2)]) == Map::<Seq<char>, Seq<char>>::empty().insert(k1, v1).insert(k2, v2),
{
    let none = Seq::<(Seq<char>, Seq<char>)>::empty();
    assert(pairs_map(none) == Map::<Seq<char>, Seq<char>>::empty());
    let one = seq![(k1, v1)];
    let two = seq![(k1, v1), (k2, v2)];
    assert(one.drop_last() =~= none);
    assert(pairs_map(one) == Map::<Seq<char>, Seq<char>>::empty().insert(k1, v1));
    assert(two.drop_last() =~= one);
    assert(two.last() == (k2, v2));
    assert(pairs_map(two) == pairs_map(one).insert(k2, v2));
}

/// A todo form's request, after its `id` and `title`, carries each of the
/// seven optional fields under its protocol name exactly when the field is not
/// blank, with the field's text as value, and no parameter of any other name.
pub proof fn lemma_todo_request_map(head: Seq<(Seq<char>, Seq<char>)>, d: TodoDraft)
    requires
        forall|k: Seq<char>| #[trigger] pairs_map(head).contains_key(k) ==> k == "id"@ || k == "title"@,
    ensures
        forall|k: Seq<char>| (k == "id"@ || k == "title"@) ==> {
            &&& #[trigger] pairs_map(head + todo_fields(d)).contains_key(k) == pairs_map(head).contains_key(k)
            &&& pairs_map(head).contains_key(k) ==> pairs_map(head + todo_fields(d))[k] == pairs_map(head)[k]
        },
        sends_filled(head + todo_fields(d), "desc"@, d.description@),
        sends_filled(head + todo_fields(d), "order_number"@, d.order_number@),
        sends_filled(head + todo_fields(d), "purchaser"@, d.purchaser@),
        sends_filled(head + todo_fields(d), "order_date"@, d.order_date@),
        sends_filled(head + todo_fields(d), "budget_spent"@, d.budget_spent@),
        sends_filled(head + todo_fields(d), "budget_planned"@, d.budget_planned@),
        sends_filled(head + todo_fields(d), "deadline"@, d.deadline@),
        forall|k: Seq<char>| #[trigger] pairs_map(head + todo_fields(d)).contains_key(k) ==> k == "id"@
            || k == "title"@ || k == "desc"@ || k == "order_number"@ || k == "purchaser"@
            || k == "order_date"@ || k == "budget_spent"@ || k == "budget_planned"@ || k == "deadline"@,
{
    lemma_todo_fields_map(d);
    lemma_pairs_map_concat(head, todo_fields(d));
    reveal_strlit("id");
    reveal_strlit("title");
    reveal_strlit("desc");
    reveal_strlit("order_number");
    reveal_strlit("purchaser");
    reveal_strlit("order_date");
    reveal_strlit("budget_spent");
    reveal_strlit("budget_planned");
    reveal_strlit("deadline");
    assert("id"@.len() == 2 && "title"@.len() == 5 && "desc"@.len() == 4 && "order_number"@.len() == 12);
    assert("purchaser"@.len() == 9 && "order_date"@.len() == 10 && "budget_spent"@.len() == 12);
    assert("budget_planned"@.len() == 14 && "deadline"@.len() == 8);
}

/// A task form's request, after its `id` or `todo_id` and `title`, carries
/// `desc` and `amount` exactly when they are not blank, with the field's text
/// as value, and no parameter of any other name.
pub proof fn lemma_task_request_map(head: Seq<(Seq<char>, Seq<char>)>, d: TaskDraft)
    requires
        forall|k: Seq<char>| #[trigger] pairs_map(head).contains_key(k) ==> k == "id"@ || k == "todo_id"@
            || k == "title"@,
    ensures
        forall|k: Seq<char>| (k == "id"@ || k == "todo_id"@ || k == "title"@) ==> {
            &&& #[trigger] pairs_map(head + task_fields(d)).contains_key(k) == pairs_map(head).contains_key(k)
            &&& pairs_map(head).contains_key(k) ==> pairs_map(head + task_fields(d))[k] == pairs_map(head)[k]
        },
        sends_filled(head + task_fields(d), "desc"@, d.description@),
        sends_filled(head + task_fields(d), "amount"@, d.amount@),
        forall|k: Seq<char>| #[trigger] pairs_map(head + task_fields(d)).contains_key(k) ==> k == "id"@
            || k == "todo_id"@ || k == "title"@ || k == "desc"@ || k == "amount"@,
{
    lemma_task_fields_map(d);
    lemma_pairs_map_concat(head, task_fields(d));
    reveal_strlit("id");
    reveal_strlit("todo_id");
    reveal_strlit("title");
    reveal_strlit("desc");
    reveal_strlit("amount");
    assert("id"@.len() == 2 && "todo_id"@.len() == 7 && "title"@.len() == 5);
    assert("desc"@.len() == 4 && "amount"@.len() == 6);
}

fn request(command: &str, params: Vec<(String, String)>, expect_end: bool) -> (r: Request)
    ensures
        request_view(r) == (command@, pairs_view(params@), expect_end),
{
    Request { command: String::from_str(command), params, expect_end }
}

fn id_request(command: &str, name: &str, id: i64) -> (r: Request)
    ensures
        request_view(r) == (command@, seq![(name@, int_text(id as int))], false),
{
    let mut params: Vec<(String, String)> = Vec::new();
    params.push(pair(name, i64_to_text(id)));
    assert(pairs_view(params@) =~= seq![(name@, int_text(id as int))]);
    request(command, params, false)
}

impl Request {
    /// The greeting: `HELLO`.
    pub fn hello() -> (r: Request)
        ensures
            request_view(r) == ("HELLO"@, Seq::<(Seq<char>, Seq<char>)>::empty(), false),
    {
        let params: Vec<(String, String)> = Vec::new();
        assert(pairs_view(params@) =~= Seq::<(Seq<char>, Seq<char>)>::empty());
        request("HELLO", params, false)
    }

    /// Authentication: the client label, and the token where there is one.
    pub fn auth(token: &str) -> (r: Request)
        ensures
            request_view(r) == ("AUTH"@, seq![(("client"@, client_label()))] + (if token@.len() == 0 {
                Seq::<(Seq<char>, Seq<char>)>::empty()
            } else {
                seq![("token"@, token@)]
            }), false),
    {
        let mut params: Vec<(String, String)> = Vec::new();
        params.push(pair("client", String::from_str("BTTUI")));
        if !token.is_empty() {
            params.push(pair("token", String::from_str(token)));
        }
        assert(pairs_view(params@) =~= seq![(("client"@, client_label()))] + (if token@.len() == 0 {
            Seq::<(Seq<char>, Seq<char>)>::empty()
        } else {
            seq![("token"@, token@)]
        }));
        request("AUTH", params, false)
    }

    /// The list of active todos.
    pub fn list_todos() -> (r: Request)
        ensures
            request_view(r) == ("LIST_TODOS"@, Seq::<(Seq<char>, Seq<char>)>::empty(), true),
    {
        let params: Vec<(String, String)> = Vec::new();
        assert(pairs_view(params@) =~= Seq::<(Seq<char>, Seq<char>)>::empty());
        request("LIST_TODOS", params, true)
    }

    /// The list of archived todos.
    pub fn list_archived_todos() -> (r: Request)
        ensures
            request_view(r) == ("LIST_ARCHIVED"@, Seq::<(Seq<char>, Seq<char>)>::empty(), true),
    {
        let params: Vec<(String, String)> = Vec::new();
        assert(pairs_view(params@) =~= Seq::<(Seq<char>, Seq<char>)>::empty());
        request("LIST_ARCHIVED", params, true)
    }

    /// The tasks of one todo.
    pub fn list_tasks(todo_id: i64) -> (r: Request)
        ensures
            request_view(r) == ("LIST_TASKS"@, seq![("todo_id"@, int_text(todo_id as int))], true),
    {
        let mut params: Vec<(String, String)> = Vec::new();
        params.push(pair("todo_id", i64_to_text(todo_id)));
        assert(pairs_view(params@) =~= seq![("todo_id"@, int_text(todo_id as int))]);
        request("LIST_TASKS", params, true)
    }

    /// A new todo from a form.
    pub fn add_todo(draft: &TodoDraft) -> (r: Request)
        ensures
            request_view(r) == ("ADD_TODO"@, seq![("title"@, draft.title@)] + todo_fields(*draft), false),
            pairs_map(request_view(r).1).contains_key("title"@),
            pairs_map(request_view(r).1)["title"@] == draft.title@,
            sends_filled(request_view(r).1, "desc"@, draft.description@),
            sends_filled(request_view(r).1, "order_number"@, draft.order_number@),
            sends_filled(request_view(r).1, "purchaser"@, draft.purchaser@),
            sends_filled(request_view(r).1, "order_date"@, draft.order_date@),
            sends_filled(request_view(r).1, "budget_spent"@, draft.budget_spent@),
            sends_filled(request_view(r).1, "budget_planned"@, draft.budget_planned@),
            sends_filled(request_view(r).1, "deadline"@, draft.deadline@),
            forall|k: Seq<char>| #[trigger] pairs_map(request_view(r).1).contains_key(k) ==> k == "title"@
                || k == "desc"@ || k == "order_number"@ || k == "purchaser"@ || k == "order_date"@
                || k == "budget_spent"@ || k == "budget_planned"@ || k == "deadline"@,
    {
        proof {
            lemma_head_map("title"@, draft.title@, "title"@, draft.title@);
            let head = seq![("title"@, draft.title@)];
            lemma_todo_request_map(head, *draft);
            assert(pairs_map(head + todo_fields(*draft)).contains_key("title"@));
        }
        let mut params: Vec<(String, String)> = Vec::new();
        params.push(pair("title", draft.title.clone()));
        let ghost p1 = pairs_view(params@);
        assert(p1 =~= seq![("title"@, draft.title@)]);
        push_todo_fields(&mut params, draft);
        request("ADD_TODO", params, false)
    }

    /// Changes to a todo from a form.
    pub fn update_todo(todo_id: i64, draft: &TodoDraft) -> (r: Request)
        ensures
            request_view(r) == (
                "UPDATE_TODO"@,
                seq![("id"@, int_text(todo_id as int)), ("title"@, draft.title@)] + todo_fields(*draft),
                false,
            ),
            pairs_map(request_view(r).1).contains_key("id"@),
            pairs_map(request_view(r).1)["id"@] == int_text(todo_id as int),
            pairs_map(request_view(r).1).contains_key("title"@),
            pairs_map(request_view(r).1)["title"@] == draft.title@,
            sends_filled(request_view(r).1, "desc"@, draft.description@),
            sends_filled(request_view(r).1, "order_number"@, draft.order_number@),
            sends_filled(request_view(r).1, "purchaser"@, draft.purchaser@),
            sends_filled(request_view(r).1, "order_date"@, draft.order_date@),
            sends_filled(request_view(r).1, "budget_spent"@, draft.budget_spent@),
            sends_filled(request_view(r).1, "budget_planned"@, draft.budget_planned@),
            sends_filled(request_view(r).1, "deadline"@, draft.deadline@),
            forall|k: Seq<char>| #[trigger] pairs_map(request_view(r).1).contains_key(k) ==> k == "id"@
                || k == "title"@ || k == "desc"@ || k == "order_number"@ || k == "purchaser"@
                || k == "order_date"@ || k == "budget_spent"@ || k == "budget_planned"@ || k == "deadline"@,
    {
        proof {
            reveal_strlit("id");
            reveal_strlit("title");
            assert("id"@.len() == 2 && "title"@.len() == 5);
            lemma_head_map("id"@, int_text(todo_id as int), "title"@, draft.title@);
            let head = seq![("id"@, int_text(todo_id as int)), ("title"@, draft.title@)];
            lemma_todo_request_map(head, *draft);
            assert(pairs_map(head + todo_fields(*draft)).contains_key("id"@));
            assert(pairs_map(head + todo_fields(*draft)).contains_key("title"@));
        }
        let mut params: Vec<(String, String)> = Vec::new();
        params.push(pair("id", i64_to_text(todo_id)));
        params.push(pair("title", draft.title.clone()));
        let ghost p1 = pairs_view(params@);
        assert(p1 =~= seq![("id"@, int_text(todo_id as int)), ("title"@, draft.title@)]);
        push_todo_fields(&mut params, draft);
        request("UPDATE_TODO", params, false)
    }

    /// A new task of a todo from a form.
    pub fn add_task(todo_id: i64, draft: &TaskDraft) -> (r: Request)
        ensures
            request_view(r) == (
                "ADD_TASK"@,
                seq![("todo_id"@, int_text(todo_id as int)), ("title"@, draft.title@)] + task_fields(
                    *draft,
                ),
                false,
            ),
            pairs_map(request_view(r).1).contains_key("todo_id"@),
            pairs_map(request_view(r).1)["todo_id"@] == int_text(todo_id as int),
            pairs_map(request_view(r).1).contains_key("title"@),
            pairs_map(request_view(r).1)["title"@] == draft.title@,
            sends_filled(request_view(r).1, "desc"@, draft.description@),
            sends_filled(request_view(r).1, "amount"@, draft.amount@),
            forall|k: Seq<char>| #[trigger] pairs_map(request_view(r).1).contains_key(k) ==> k == "todo_id"@
                || k == "title"@ || k == "desc"@ || k == "amount"@,
    {
        proof {
            reveal_strlit("todo_id");
            reveal_strlit("title");
            assert("todo_id"@.len() == 7 && "title"@.len() == 5);
            lemma_head_map("todo_id"@, int_text(todo_id as int), "title"@, draft.title@);
            let head = seq![("todo_id"@, int_text(todo_id as int)), ("title"@, draft.title@)];
            lemma_task_request_map(head, *draft);
            assert(pairs_map(head + task_fields(*draft)).contains_key("todo_id"@));
            assert(pairs_map(head + task_fields(*draft)).contains_key("title"@));
        }
        let mut params: Vec<(String, String)> = Vec::new();
        params.push(pair("todo_id", i64_to_text(todo_id)));
        params.push(pair("title", draft.title.clone()));
        let ghost p1 = pairs_view(params@);
        assert(p1 =~= seq![("todo_id"@, int_text(todo_id as int)), ("title"@, draft.title@)]);
        push_task_fields(&mut params, draft);
        request("ADD_TASK", params, false)
    }

    /// Changes to a task from a form.
    pub fn update_task(task_id: i64, draft: &TaskDraft) -> (r: Request)
        ensures
            request_view(r) == (
                "UPDATE_TASK"@,
                seq![("id"@, int_text(task_id as int)), ("title"@, draft.title@)] + task_fields(*draft),
                false,
            ),
            pairs_map(request_view(r).1).contains_key("id"@),
            pairs_map(request_view(r).1)["id"@] == int_text(task_id as int),
            pairs_map(request_view(r).1).contains_key("title"@),
            pairs_map(request_view(r).1)["title"@] == draft.title@,
            sends_filled(request_view(r).1, "desc"@, draft.description@),
            sends_filled(request_view(r).1, "amount"@, draft.amount@),
            forall|k: Seq<char>| #[trigger] pairs_map(request_view(r).1).contains_key(k) ==> k == "id"@
                || k == "title"@ || k == "desc"@ || k == "amount"@,
    {
        proof {
            reveal_strlit("id");
            reveal_strlit("title");
            assert("id"@.len() == 2 && "title"@.len() == 5);
            lemma_head_map("id"@, int_text(task_id as int), "title"@, draft.title@);
            let head = seq![("id"@, int_text(task_id as int)), ("title"@, draft.title@)];
            lemma_task_request_map(head, *draft);
            assert(pairs_map(head + task_fields(*draft)).contains_key("id"@));
            assert(pairs_map(head + task_fields(*draft)).contains_key("title"@));
        }
        let mut params: Vec<(String, String)> = Vec::new();
        params.push(pair("id", i64_to_text(task_id)));
        params.push(pair("title", draft.title.clone()));
        let ghost p1 = pairs_view(params@);
        assert(p1 =~= seq![("id"@, int_text(task_id as int)), ("title"@, draft.title@)]);
        push_task_fields(&mut params, draft);
        request("UPDATE_TASK", params, false)
    }

    /// Flips a task between open and done.
    pub fn toggle_task(task_id: i64) -> (r: Request)
        ensures
            request_view(r) == ("TOGGLE_TASK"@, seq![("id"@, int_text(task_id as int))], false),
    {
        id_request("TOGGLE_TASK", "id", task_id)
    }

    /// Moves a todo into the archive.
    pub fn archive_todo(todo_id: i64) -> (r: Request)
        ensures
            request_view(r) == ("ARCHIVE_TODO"@, seq![("id"@, int_text(todo_id as int))], false),
    {
        id_request("ARCHIVE_TODO", "id", todo_id)
    }

    /// Brings a todo back from the archive.
    pub fn unarchive_todo(todo_id: i64) -> (r: Request)
        ensures
            request_view(r) == ("UNARCHIVE_TODO"@, seq![("id"@, int_text(todo_id as int))], false),
    {
        id_request("UNARCHIVE_TODO", "id", todo_id)
    }
}

/// Numbers the requests of one connection, starting from 1.
pub struct Session {
    next_seq: u64,
}

impl Session {
    /// The number the next request gets.
    pub closed spec fn next(&self) -> u64 {
        self.next_seq
    }

    /// A fresh connection: the first request gets number 1.
    pub fn new() -> (r: Session)
        ensures
            r.next() == 1,
    {
        Session { next_seq: 1 }
    }

    /// The number the next request gets.
    pub fn peek(&self) -> (r: u64)
        ensures
            r == self.next(),
    {
        self.next_seq
    }

    /// Numbers a request and writes its line, checksum included; every
    /// request gets a number one above the one before.
    pub fn begin(&mut self, req: &Request) -> (r: (String, u64))
        requires
            old(self).next() < u64::MAX,
        ensures
            r.1 == old(self).next(),
            final(self).next() == old(self).next() + 1,
            r.0@ == line_text(request_base(req.command@, pairs_view(req.params@), r.1)),
    {
        let seq = self.next_seq;
        self.next_seq = self.next_seq + 1;
        (build_request_line(req.command.as_str(), &req.params, seq), seq)
    }
}

/// `s` without the carriage returns and line feeds at its end.
pub open spec fn strip_line_end(s: Seq<char>) -> Seq<char>
    decreases s.len(),
{
    if s.len() > 0 && (s.last() == '\r' || s.last() == '\n') {
        strip_line_end(s.drop_last())
    } else {
        s
    }
}

/// What to do after one more line of a reply has been read.
#[derive(Debug)]
pub enum ReplyStep {
    /// The line was empty; read the next one.
    Skip,
    /// The line was kept; the reply goes on.
    More,
    /// The line was kept and ends the reply.
    Done,
    /// The exchange failed.
    Fail(ProtoError),
}

/// How a kept line of command word `k` moves the reply on.
pub open spec fn reply_continues(k: Seq<char>, expect_end: bool) -> bool {
    if expect_end {
        k != "END"@
    } else {
        k != "OK"@
    }
}

/// Takes one line read from the connection (`None` where the connection was
/// closed) while waiting for the reply to request `seq`.
#[verifier::spinoff_prover]
pub fn accept_reply(raw: Option<&str>, seq: u64, expect_end: bool, lines: &mut Vec<ProtoLine>) -> (r: ReplyStep)
    ensures
        raw is None ==> (r matches ReplyStep::Fail(ProtoError::ConnectionClosed) && final(lines)@ == old(lines)@),
        raw matches Some(text) ==> {
            let t = strip_line_end(text@);
            if t.len() == 0 {
                r is Skip && final(lines)@ == old(lines)@
            } else {
                match parse_line_text(t) {
                    Err(e) => r matches ReplyStep::Fail(x) && x == e && final(lines)@ == old(lines)@,
                    Ok((k, m, s)) => if s != decimal(seq as nat) {
                        &&& r matches ReplyStep::Fail(ProtoError::SeqMismatch { expected, got })
                        &&& expected == seq && got@ == s
                        &&& final(lines)@ == old(lines)@
                    } else if k == "ERR"@ {
                        &&& r matches ReplyStep::Fail(ProtoError::Server { code, msg })
                        &&& code@ == param_text(m, "code"@) && msg@ == param_text(m, "msg"@)
                        &&& final(lines)@ == old(lines)@
                    } else {
                        &&& lines_view(final(lines)@) == lines_view(old(lines)@).push((k, m, s))
                        &&& if reply_continues(k, expect_end) {
                            r is More
                        } else {
                            r is Done
                        }
                    },
                }
            }
        },
{
    let text = match raw {
        None => {
            return ReplyStep::Fail(ProtoError::ConnectionClosed);
        },
        Some(t) => t,
    };
    let chars = chars_of(text);
    let mut end = chars.len();
    assert(chars@.take(end as int) =~= chars@);
    while end > 0 && (chars[end - 1] == '\r' || chars[end - 1] == '\n')
        invariant
            end <= chars@.len(),
            strip_line_end(chars@) == strip_line_end(chars@.take(end as int)),
        decreases end,
    {
        assert(chars@.take(end as int).drop_last() =~= chars@.take(end - 1));
        end = end - 1;
    }
    assert(chars@.take(end as int) == strip_line_end(chars@)) by {
        assert(chars@.take(chars@.len() as int) =~= chars@);
    }
    if end == 0 {
        return ReplyStep::Skip;
    }
    let mut trimmed: Vec<char> = Vec::new();
    for i in 0..end
        invariant
            end <= chars@.len(),
            trimmed@ == chars@.take(i as int),
    {
        trimmed.push(chars[i]);
        assert(trimmed@ =~= chars@.take(i + 1));
    }
    let parsed = match parse_proto_chars(&trimmed) {
        Ok(l) => l,
        Err(e) => {
            return ReplyStep::Fail(e);
        },
    };
    let expected = u64_to_text(seq);
    if !(parsed.seq == expected) {
        return ReplyStep::Fail(ProtoError::SeqMismatch { expected: seq, got: parsed.seq });
    }
    if str_eq(parsed.kind.as_str(), "ERR") {
        let code = parsed.params.get_or_empty("code");
        let msg = parsed.params.get_or_empty("msg");
        return ReplyStep::Fail(ProtoError::Server { code, msg });
    }
    let continues = if expect_end {
        !str_eq(parsed.kind.as_str(), "END")
    } else {
        !str_eq(parsed.kind.as_str(), "OK")
    };
    let ghost before = lines@;
    lines.push(parsed);
    assert(lines_view(lines@) =~= lines_view(before).push(lines@.last()@));
    if continues {
        ReplyStep::More
    } else {
        ReplyStep::Done
    }
}

/// The parameters of the lines whose command word is `k`, in order.
pub open spec fn kind_maps(ls: Seq<LineView>, k: Seq<char>) -> Seq<Map<Seq<char>, Seq<char>>>
    decreases ls.len(),
{
    if ls.len() == 0 {
        Seq::empty()
    } else {
        kind_maps(ls.drop_last(), k) + (if ls.last().0 == k {
            seq![ls.last().1]
        } else {
            Seq::empty()
        })
    }
}

/// Whether every map has a numeric `id`; where one has not, whether the first
/// such map lacks it (`Err(true)`) or holds a non-number (`Err(false)`).
pub open spec fn ids_outcome(ms: Seq<Map<Seq<char>, Seq<char>>>) -> Result<(), bool>
    decreases ms.len(),
{
    if ms.len() == 0 {
        Ok(())
    } else {
        match ids_outcome(ms.drop_last()) {
            Err(b) => Err(b),
            Ok(()) => match param_number(ms.last(), "id"@) {
                Some(_) => Ok(()),
                None => Err(!ms.last().contains_key("id"@)),
            },
        }
    }
}

proof fn lemma_kind_maps_prefix(ls: Seq<LineView>, k: Seq<char>, n: int)
    requires
        0 <= n <= ls.len(),
    ensures
        kind_maps(ls, k) == kind_maps(ls.take(n), k) + kind_maps(ls.skip(n), k),
    decreases ls.len(),
{
    if n == ls.len() {
        assert(ls.take(n) =~= ls);
        assert(ls.skip(n) =~= Seq::<LineView>::empty());
        assert(kind_maps(ls, k) + Seq::<Map<Seq<char>, Seq<char>>>::empty() =~= kind_maps(ls, k));
    } else {
        let init = ls.drop_last();
        lemma_kind_maps_prefix(init, k, n);
        assert(init.take(n) =~= ls.take(n));
        assert(ls.skip(n).drop_last() =~= init.skip(n));
        assert(ls.skip(n).last() == ls.last());
        assert(kind_maps(ls, k) =~= kind_maps(ls.take(n), k) + kind_maps(ls.skip(n), k));
    }
}

proof fn lemma_ids_err_stays(a: Seq<Map<Seq<char>, Seq<char>>>, b: Seq<Map<Seq<char>, Seq<char>>>, e: bool)
    requires
        ids_outcome(a) == Err::<(), bool>(e),
    ensures
        ids_outcome(a + b) == Err::<(), bool>(e),
    decreases b.len(),
{
    if b.len() == 0 {
        assert(a + b =~= a);
    } else {
        lemma_ids_err_stays(a, b.drop_last(), e);
        assert((a + b).drop_last() =~= a + b.drop_last());
    }
}

/// One todo as listed by the server. The numbers are kept as sent, for the
/// caller to read as it needs.
#[derive(Debug)]
pub struct TodoRow {
    pub id: i64,
    pub title: String,
    pub description: String,
    pub order_number: String,
    pub purchaser: String,
    pub order_date: String,
    pub progress: String,
    pub budget_spent: String,
    pub budget_planned: String,
    pub deadline: String,
    pub archived_at: String,
}

/// One task as listed by the server.
#[derive(Debug)]
pub struct TaskRow {
    pub id: i64,
    pub title: String,
    pub description: String,
    pub amount: String,
    pub done: bool,
}

/// Whether `t` is the todo that the parameters `m` describe.
pub open spec fn todo_matches(t: TodoRow, m: Map<Seq<char>, Seq<char>>) -> bool {
    &&& param_number(m, "id"@) == Some(t.id)
    &&& t.title@ == param_text(m, "title"@)
    &&& t.description@ == param_text(m, "desc"@)
    &&& t.order_number@ == param_text(m, "order_number"@)
    &&& t.purchaser@ == param_text(m, "purchaser"@)
    &&& t.order_date@ == param_text(m, "order_date"@)
    &&& t.progress@ == param_text(m, "progress"@)
    &&& t.budget_spent@ == param_text(m, "budget_spent"@)
    &&& t.budget_planned@ == param_text(m, "budget_planned"@)
    &&& t.deadline@ == param_text(m, "deadline"@)
    &&& t.archived_at@ == param_text(m, "archived_at"@)
}

/// Whether `t` is the task that the parameters `m` describe; `done` is set
/// where the `done` parameter is a non-zero number.
pub open spec fn task_matches(t: TaskRow, m: Map<Seq<char>, Seq<char>>) -> bool {
    &&& param_number(m, "id"@) == Some(t.id)
    &&& t.title@ == param_text(m, "title"@)
    &&& t.description@ == param_text(m, "desc"@)
    &&& t.amount@ == param_text(m, "amount"@)
    &&& t.done == (match param_number(m, "done"@) {
        Some(v) => v != 0,
        None => false,
    })
}

/// Reads one todo from its parameters.
pub fn todo_from_params(p: &Params) -> (r: Result<TodoRow, ProtoError>)
    ensures
        match param_number(p@, "id"@) {
            Some(_) => r matches Ok(t) && todo_matches(t, p@),
            None => r matches Err(e) && is_param_error(e, "id"@, !p@.contains_key("id"@)),
        },
{
    let id = match parse_i64(p, "id") {
        Ok(v) => v,
        Err(e) => {
            return Err(e);
        },
    };
    Ok(TodoRow {
        id,
        title: p.get_or_empty("title"),
        description: p.get_or_empty("desc"),
        order_number: p.get_or_empty("order_number"),
        purchaser: p.get_or_empty("purchaser"),
        order_date: p.get_or_empty("order_date"),
        progress: p.get_or_empty("progress"),
        budget_spent: p.get_or_empty("budget_spent"),
        budget_planned: p.get_or_empty("budget_planned"),
        deadline: p.get_or_empty("deadline"),
        archived_at: p.get_or_empty("archived_at"),
    })
}

/// Reads one task from its parameters.
pub fn task_from_params(p: &Params) -> (r: Result<TaskRow, ProtoError>)
    ensures
        match param_number(p@, "id"@) {
            Some(_) => r matches Ok(t) && task_matches(t, p@),
            None => r matches Err(e) && is_param_error(e, "id"@, !p@.contains_key("id"@)),
        },
{
    let id = match parse_i64(p, "id") {
        Ok(v) => v,
        Err(e) => {
            return Err(e);
        },
    };
    let done = match parse_i64(p, "done") {
        Ok(v) => v != 0,
        Err(_) => false,
    };
    Ok(TaskRow {
        id,
        title: p.get_or_empty("title"),
        description: p.get_or_empty("desc"),
        amount: p.get_or_empty("amount"),
        done,
    })
}

/// Reads the todos out of a list reply: one per `TODO` line, in order; the
/// first such line without a numeric `id` fails the whole list.
#[verifier::spinoff_prover]
pub fn todos_from_lines(lines: &Vec<ProtoLine>) -> (r: Result<Vec<TodoRow>, ProtoError>)
    ensures
        match ids_outcome(kind_maps(lines_view(lines@), "TODO"@)) {
            Ok(()) => r matches Ok(rows) && rows@.len() == kind_maps(lines_view(lines@), "TODO"@).len()
                && forall|i: int| 0 <= i < rows@.len() ==> todo_matches(
                #[trigger] rows@[i],
                kind_maps(lines_view(lines@), "TODO"@)[i],
            ),
            Err(missing) => r matches Err(e) && is_param_error(e, "id"@, missing),
        },
        r matches Ok(rows) ==> forall|i: int| 0 <= i < rows@.len() ==> {
            let m = kind_maps(lines_view(lines@), "TODO"@)[i];
            &&& m.contains_key("id"@) && i64_text_value(m["id"@]) == Some(#[trigger] rows@[i].id)
            &&& rows@[i].title@ == param_text(m, "title"@)
            &&& rows@[i].description@ == param_text(m, "desc"@)
            &&& rows@[i].order_number@ == param_text(m, "order_number"@)
            &&& rows@[i].purchaser@ == param_text(m, "purchaser"@)
            &&& rows@[i].order_date@ == param_text(m, "order_date"@)
            &&& rows@[i].progress@ == param_text(m, "progress"@)
            &&& rows@[i].budget_spent@ == param_text(m, "budget_spent"@)
            &&& rows@[i].budget_planned@ == param_text(m, "budget_planned"@)
            &&& rows@[i].deadline@ == param_text(m, "deadline"@)
            &&& rows@[i].archived_at@ == param_text(m, "archived_at"@)
        },
{
    let ghost ls = lines_view(lines@);
    let mut rows: Vec<TodoRow> = Vec::new();
    let n = lines.len();
    for i in 0..n
        invariant
            n == lines@.len(),
            ls == lines_view(lines@),
            ids_outcome(kind_maps(ls.take(i as int), "TODO"@)) == Ok::<(), bool>(()),
            rows@.len() == kind_maps(ls.take(i as int), "TODO"@).len(),
            forall|j: int| 0 <= j < rows@.len() ==> todo_matches(
                #[trigger] rows@[j],
                kind_maps(ls.take(i as int), "TODO"@)[j],
            ),
    {
        let ghost pre = ls.take(i as int);
        let ghost next = ls.take(i + 1);
        assert(next.drop_last() =~= pre);
        assert(next.last() == lines@[i as int]@);
        if str_eq(lines[i].kind.as_str(), "TODO") {
            let ghost km = kind_maps(next, "TODO"@);
            assert(km =~= kind_maps(pre, "TODO"@).push(lines@[i as int].params@));
            assert(km.drop_last() =~= kind_maps(pre, "TODO"@));
            match todo_from_params(&lines[i].params) {
                Ok(t) => {
                    rows.push(t);
                },
                Err(e) => {
                    proof {
                        lemma_kind_maps_prefix(ls, "TODO"@, i + 1);
                        let missing = !lines@[i as int].params@.contains_key("id"@);
                        lemma_ids_err_stays(kind_maps(next, "TODO"@), kind_maps(ls.skip(i + 1), "TODO"@), missing);
                    }
                    return Err(e);
                },
            }
        } else {
            assert(kind_maps(next, "TODO"@) =~= kind_maps(pre, "TODO"@));
        }
    }
    assert(ls.take(n as int) =~= ls);
    assert forall|i: int| 0 <= i < rows@.len() implies kind_maps(lines_view(lines@), "TODO"@)[i].contains_key("id"@) by {
        assert(todo_matches(rows@[i], kind_maps(lines_view(lines@), "TODO"@)[i]));
    }
    Ok(rows)
}

/// Reads the tasks out of a list reply: one per `TASK` line, in order; the
/// first such line without a numeric `id` fails the whole list.
#[verifier::spinoff_prover]
pub fn tasks_from_lines(lines: &Vec<ProtoLine>) -> (r: Result<Vec<TaskRow>, ProtoError>)
    ensures
        match ids_outcome(kind_maps(lines_view(lines@), "TASK"@)) {
            Ok(()) => r matches Ok(rows) && rows@.len() == kind_maps(lines_view(lines@), "TASK"@).len()
                && forall|i: int| 0 <= i < rows@.len() ==> task_matches(
                #[trigger] rows@[i],
                kind_maps(lines_view(lines@), "TASK"@)[i],
            ),
            Err(missing) => r matches Err(e) && is_param_error(e, "id"@, missing),
        },
        r matches Ok(rows) ==> forall|i: int| 0 <= i < rows@.len() ==> {
            let m = kind_maps(lines_view(lines@), "TASK"@)[i];
            &&& m.contains_key("id"@) && i64_text_value(m["id"@]) == Some(#[trigger] rows@[i].id)
            &&& rows@[i].title@ == param_text(m, "title"@)
            &&& rows@[i].description@ == param_text(m, "desc"@)
            &&& rows@[i].amount@ == param_text(m, "amount"@)
            &&& rows@[i].done == (m.contains_key("done"@) && i64_text_value(m["done"@]) is Some
                && i64_text_value(m["done"@]).unwrap() != 0)
        },
{
    let ghost ls = lines_view(lines@);
    let mut rows: Vec<TaskRow> = Vec::new();
    let n = lines.len();
    for i in 0..n
        invariant
            n == lines@.len(),
            ls == lines_view(lines@),
            ids_outcome(kind_maps(ls.take(i as int), "TASK"@)) == Ok::<(), bool>(()),
            rows@.len() == kind_maps(ls.take(i as int), "TASK"@).len(),
            forall|j: int| 0 <= j < rows@.len() ==> task_matches(
                #[trigger] rows@[j],
                kind_maps(ls.take(i as int), "TASK"@)[j],
            ),
    {
        let ghost pre = ls.take(i as int);
        let ghost next = ls.take(i + 1);
        assert(next.drop_last() =~= pre);
        assert(next.last() == lines@[i as int]@);
        if str_eq(lines[i].kind.as_str(), "TASK") {
            let ghost km = kind_maps(next, "TASK"@);
            assert(km =~= kind_maps(pre, "TASK"@).push(lines@[i as int].params@));
            assert(km.drop_last() =~= kind_maps(pre, "TASK"@));
            match task_from_params(&lines[i].params) {
                Ok(t) => {
                    rows.push(t);
                },
                Err(e) => {
                    proof {
                        lemma_kind_maps_prefix(ls, "TASK"@, i + 1);
                        let missing = !lines@[i as int].params@.contains_key("id"@);
                        lemma_ids_err_stays(kind_maps(next, "TASK"@), kind_maps(ls.skip(i + 1), "TASK"@), missing);
                    }
                    return Err(e);
                },
            }
        } else {
            assert(kind_maps(next, "TASK"@) =~= kind_maps(pre, "TASK"@));
        }
    }
    assert(ls.take(n as int) =~= ls);
    assert forall|i: int| 0 <= i < rows@.len() implies kind_maps(lines_view(lines@), "TASK"@)[i].contains_key("id"@) by {
        assert(task_matches(rows@[i], kind_maps(lines_view(lines@), "TASK"@)[i]));
    }
    Ok(rows)
}

} // verus!

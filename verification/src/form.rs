//! Editing one line of input, and the fields of the todo and task forms.
use vstd::prelude::*;
use crate::chars::{is_control, is_control_char};
use crate::client::{TaskRow, TodoDraft, TodoRow};
use crate::layout::{truncate_text, truncated};
use crate::state::{key_is, Key};
use crate::strings::{chars_of, string_from_chars};
use crate::text::{trim, trim_bounds};

verus! {

/// What the editor does after a key.
#[derive(Debug)]
pub enum EditStep {
    /// Keep editing.
    Continue,
    /// The input is complete.
    Submit,
    /// The input was abandoned.
    Cancel,
}

/// Whether `k` deletes the last character: Backspace, or the characters
/// U+0008 and U+007F.
pub open spec fn is_erase_key(k: Key) -> bool {
    k is Backspace || key_is(k, '\u{8}') || key_is(k, '\u{7f}')
}

/// A line of input being typed.
#[derive(Debug)]
pub struct LineEditor {
    text: Vec<char>,
}

impl View for LineEditor {
    type V = Seq<char>;

    closed spec fn view(&self) -> Seq<char> {
        self.text@
    }
}

impl LineEditor {
    /// Starts editing with `initial` already typed.
    pub fn new(initial: &str) -> (r: LineEditor)
        ensures
            r@ == initial@,
    {
        LineEditor { text: chars_of(initial) }
    }

    /// Reacts to a key: Enter submits, Escape cancels, the erase keys remove
    /// the last character, and any other character that is not a control
    /// character is added at the end.
    pub fn handle_key(&mut self, key: Key) -> (r: EditStep)
        ensures
            key is Enter || key_is(key, '\n') ==> r is Submit && final(self)@ == old(self)@,
            key_is(key, '\u{1b}') ==> r is Cancel && final(self)@ == old(self)@,
            is_erase_key(key) ==> r is Continue && final(self)@ == (if old(self)@.len() > 0 {
                old(self)@.drop_last()
            } else {
                old(self)@
            }),
            !(key is Enter || key is Backspace || key is Char) ==> r is Continue && final(self)@ == old(self)@,
            match key {
                Key::Char(c) => if !is_control_char(c) {
                    r is Continue && final(self)@ == old(self)@.push(c)
                } else if c != '\n' && c != '\u{1b}' && c != '\u{8}' && c != '\u{7f}' {
                    r is Continue && final(self)@ == old(self)@
                } else {
                    true
                },
                _ => true,
            },
    {
        match key {
            Key::Enter | Key::Char('\n') => EditStep::Submit,
            Key::Char('\u{1b}') => EditStep::Cancel,
            Key::Backspace | Key::Char('\u{8}') | Key::Char('\u{7f}') => {
                if self.text.len() > 0 {
                    self.text.pop();
                }
                EditStep::Continue
            },
            Key::Char(c) => {
                if !is_control(c) {
                    self.text.push(c);
                }
                EditStep::Continue
            },
            _ => EditStep::Continue,
        }
    }

    /// The input so far.
    pub fn text(&self) -> (r: String)
        ensures
            r@ == self@,
    {
        string_from_chars(&self.text)
    }

    /// The prompt and the input, cut to fit a line of `max` columns.
    pub fn prompt_line(&self, prompt: &str, max: usize) -> (r: String)
        ensures
            r@ == truncated(prompt@ + self@, max as nat),
    {
        let mut line = String::from_str(prompt);
        line.append(self.text().as_str());
        truncate_text(line.as_str(), max)
    }

    /// The submitted input, trimmed; `None` where it is empty and empty
    /// input is not allowed.
    pub fn finish(&self, allow_empty: bool) -> (r: Option<String>)
        ensures
            trim(self@).len() == 0 && !allow_empty ==> r is None,
            !(trim(self@).len() == 0 && !allow_empty) ==> (r matches Some(s) && s@ == trim(self@)),
    {
        let (a, b) = trim_bounds(&self.text);
        let mut out: Vec<char> = Vec::new();
        let mut i = a;
        while i < b
            invariant
                a <= i <= b <= self.text@.len(),
                out@ == self.text@.subrange(a as int, i as int),
            decreases b - i,
        {
            out.push(self.text[i]);
            i = i + 1;
            assert(out@ =~= self.text@.subrange(a as int, i as int));
        }
        if out.len() == 0 && !allow_empty {
            None
        } else {
            Some(string_from_chars(&out))
        }
    }
}

/// One field of a form: its prompt, the text it starts with, and whether it
/// may be left empty.
#[derive(Debug)]
pub struct FormField {
    pub label: String,
    pub initial: String,
    pub allow_empty: bool,
}

fn field(label: &str, initial: String, allow_empty: bool) -> (r: FormField)
    ensures
        r.label@ == label@,
        r.initial@ == initial@,
        r.allow_empty == allow_empty,
{
    FormField { label: String::from_str(label), initial, allow_empty }
}

/// The view of a form: label, starting text and whether empty is allowed, per field.
pub open spec fn fields_view(v: Seq<FormField>) -> Seq<(Seq<char>, Seq<char>, bool)> {
    v.map_values(|f: FormField| (f.label@, f.initial@, f.allow_empty))
}

/// The fields of the todo form; where an existing todo is edited they start
/// with its values, the two budgets with `spent` and `planned`.
pub fn todo_form_fields(initial: Option<&TodoRow>, spent: &str, planned: &str) -> (r: Vec<FormField>)
    ensures
        fields_view(r@) == seq![
            ("Titel: "@, (match initial { Some(t) => t.title@, None => Seq::empty() }), false),
            ("Beschreibung: "@, (match initial { Some(t) => t.description@, None => Seq::empty() }), true),
            ("Bestellnummer: "@, (match initial { Some(t) => t.order_number@, None => Seq::empty() }), true),
            ("Kaeufer: "@, (match initial { Some(t) => t.purchaser@, None => Seq::empty() }), true),
            ("Bestelldatum YYYY-MM-DD: "@, (match initial { Some(t) => t.order_date@, None => Seq::empty() }), true),
            ("Budget Ist: "@, (match initial { Some(_) => spent@, None => Seq::empty() }), true),
            ("Budget Plan: "@, (match initial { Some(_) => planned@, None => Seq::empty() }), true),
            ("Deadline YYYY-MM-DD: "@, (match initial { Some(t) => t.deadline@, None => Seq::empty() }), true),
        ],
{
    let mut v: Vec<FormField> = Vec::new();
    v.push(field("Titel: ", match initial { Some(t) => t.title.clone(), None => String::new() }, false));
    v.push(field("Beschreibung: ", match initial { Some(t) => t.description.clone(), None => String::new() }, true));
    v.push(field("Bestellnummer: ", match initial { Some(t) => t.order_number.clone(), None => String::new() }, true));
    v.push(field("Kaeufer: ", match initial { Some(t) => t.purchaser.clone(), None => String::new() }, true));
    v.push(field("Bestelldatum YYYY-MM-DD: ", match initial { Some(t) => t.order_date.clone(), None => String::new() }, true));
    let (s, p) = match initial {
        Some(_) => (String::from_str(spent), String::from_str(planned)),
        None => (String::new(), String::new()),
    };
    v.push(field("Budget Ist: ", s, true));
    v.push(field("Budget Plan: ", p, true));
    v.push(field("Deadline YYYY-MM-DD: ", match initial { Some(t) => t.deadline.clone(), None => String::new() }, true));
    assert(fields_view(v@) =~= seq![
        ("Titel: "@, (match initial { Some(t) => t.title@, None => Seq::empty() }), false),
        ("Beschreibung: "@, (match initial { Some(t) => t.description@, None => Seq::empty() }), true),
        ("Bestellnummer: "@, (match initial { Some(t) => t.order_number@, None => Seq::empty() }), true),
        ("Kaeufer: "@, (match initial { Some(t) => t.purchaser@, None => Seq::empty() }), true),
        ("Bestelldatum YYYY-MM-DD: "@, (match initial { Some(t) => t.order_date@, None => Seq::empty() }), true),
        ("Budget Ist: "@, (match initial { Some(_) => spent@, None => Seq::empty() }), true),
        ("Budget Plan: "@, (match initial { Some(_) => planned@, None => Seq::empty() }), true),
        ("Deadline YYYY-MM-DD: "@, (match initial { Some(t) => t.deadline@, None => Seq::empty() }), true),
    ]);
    v
}

/// The fields of the task form; where an existing task is edited they start
/// with its values, the amount with `amount`.
pub fn task_form_fields(initial: Option<&TaskRow>, amount: &str) -> (r: Vec<FormField>)
    ensures
        fields_view(r@) == seq![
            ("Task-Titel: "@, (match initial { Some(t) => t.title@, None => Seq::empty() }), false),
            ("Beschreibung: "@, (match initial { Some(t) => t.description@, None => Seq::empty() }), true),
            ("Betrag: "@, (match initial { Some(_) => amount@, None => Seq::empty() }), true),
        ],
{
    let mut v: Vec<FormField> = Vec::new();
    v.push(field("Task-Titel: ", match initial { Some(t) => t.title.clone(), None => String::new() }, false));
    v.push(field("Beschreibung: ", match initial { Some(t) => t.description.clone(), None => String::new() }, true));
    let a = match initial {
        Some(_) => String::from_str(amount),
        None => String::new(),
    };
    v.push(field("Betrag: ", a, true));
    assert(fields_view(v@) =~= seq![
        ("Task-Titel: "@, (match initial { Some(t) => t.title@, None => Seq::empty() }), false),
        ("Beschreibung: "@, (match initial { Some(t) => t.description@, None => Seq::empty() }), true),
        ("Betrag: "@, (match initial { Some(_) => amount@, None => Seq::empty() }), true),
    ]);
    v
}

/// Whether some but not all of the order fields are filled in.
pub open spec fn partial_order(order_number: Seq<char>, purchaser: Seq<char>, order_date: Seq<char>) -> bool {
    (order_number.len() > 0 || purchaser.len() > 0 || order_date.len() > 0) && (order_number.len() == 0
        || purchaser.len() == 0 || order_date.len() == 0)
}

/// The todo that the answers of the todo form describe. The order number,
/// purchaser and order date are given all together or not at all.
pub fn check_todo_form(
    title: String,
    description: String,
    order_number: String,
    purchaser: String,
    order_date: String,
    budget_spent: String,
    budget_planned: String,
    deadline: String,
) -> (r: Result<TodoDraft, String>)
    ensures
        partial_order(order_number@, purchaser@, order_date@) ==> (r matches Err(msg) && msg@
            == "Order-Metadaten nur komplett"@),
        !partial_order(order_number@, purchaser@, order_date@) ==> (r matches Ok(d) && d.title@
            == title@ && d.description@ == description@ && d.order_number@ == order_number@
            && d.purchaser@ == purchaser@ && d.order_date@ == order_date@ && d.budget_spent@
            == budget_spent@ && d.budget_planned@ == budget_planned@ && d.deadline@ == deadline@),
{
    let has_order = !order_number.as_str().is_empty() || !purchaser.as_str().is_empty()
        || !order_date.as_str().is_empty();
    if has_order && (order_number.as_str().is_empty() || purchaser.as_str().is_empty()
        || order_date.as_str().is_empty()) {
        return Err(String::from_str("Order-Metadaten nur komplett"));
    }
    Ok(TodoDraft {
        title,
        description,
        order_number,
        purchaser,
        order_date,
        budget_spent,
        budget_planned,
        deadline,
    })
}

} // verus!

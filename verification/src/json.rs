//! The shape of a resource: a tree of JSON values.

use vstd::prelude::*;
use vstd::string::StringExecFns;
use crate::decimal::{view_of, Decimal, DecimalView};
use crate::text::{eq_ignore_case, same_ignoring_case};

verus! {

/// A JSON number: its text as the resource has it and, where a decimal can hold the
/// number without loss, that decimal.
#[derive(Debug, Clone, PartialEq)]
pub struct Number {
    pub text: String,
    pub decimal: Option<Decimal>,
}

/// A JSON number, its text taken as a sequence of characters.
pub struct NumberView {
    pub text: Seq<char>,
    pub decimal: Option<DecimalView>,
}

impl View for Number {
    type V = NumberView;

    open spec fn view(&self) -> NumberView {
        NumberView { text: self.text@, decimal: view_of(self.decimal) }
    }
}

/// A JSON value. The members of an object keep the order in which they were given.
#[derive(Debug, PartialEq)]
pub enum Json {
    Null,
    Bool(bool),
    Number(Number),
    String(String),
    Array(Vec<Json>),
    Object(Vec<(String, Json)>),
}

/// A JSON value as a tree of sequences.
pub enum JsonView {
    Null,
    Bool(bool),
    Number(NumberView),
    String(Seq<char>),
    Array(Seq<JsonView>),
    Object(Seq<(Seq<char>, JsonView)>),
}

/// The tree that a JSON value stands for.
pub open spec fn tree_of(value: Json) -> JsonView
    decreases value,
{
    match value {
        Json::Null => JsonView::Null,
        Json::Bool(b) => JsonView::Bool(b),
        Json::Number(n) => JsonView::Number(n@),
        Json::String(s) => JsonView::String(s@),
        Json::Array(items) => JsonView::Array(
            Seq::new(
                items@.len(),
                |i: int|
                    if 0 <= i < items@.len() {
                        tree_of(items@[i])
                    } else {
                        JsonView::Null
                    },
            ),
        ),
        Json::Object(members) => JsonView::Object(
            Seq::new(
                members@.len(),
                |i: int|
                    if 0 <= i < members@.len() {
                        (members@[i].0@, tree_of(members@[i].1))
                    } else {
                        (Seq::empty(), JsonView::Null)
                    },
            ),
        ),
    }
}

impl View for Json {
    type V = JsonView;

    open spec fn view(&self) -> JsonView {
        tree_of(*self)
    }
}

/// The value of the first of `members`, from index `from` on, whose key is `key` but
/// for the case of its letters.
pub open spec fn member_from(
    members: Seq<(Seq<char>, JsonView)>,
    key: Seq<char>,
    from: int,
) -> Option<JsonView>
    decreases members.len() - from,
{
    if from < 0 || from >= members.len() {
        None
    } else if same_ignoring_case(members[from].0, key) {
        Some(members[from].1)
    } else {
        member_from(members, key, from + 1)
    }
}

impl JsonView {
    /// The member of an object that `key` names, whatever the case of its letters:
    /// the first such member, where there are several. Nothing but an object has
    /// members.
    pub open spec fn member(self, key: Seq<char>) -> Option<JsonView> {
        match self {
            JsonView::Object(members) => member_from(members, key, 0),
            _ => None,
        }
    }

    /// The member that `key` names, or null where there is none.
    pub open spec fn member_or_null(self, key: Seq<char>) -> JsonView {
        match self.member(key) {
            Some(v) => v,
            None => JsonView::Null,
        }
    }

    /// The value written out: `null`, `true`, `false`, a number as the resource has it,
    /// a string between double quotes as it is, the items of an array between square
    /// brackets, the members of an object between braces.
    pub open spec fn text(self) -> Seq<char>
        decreases self, 0nat,
    {
        match self {
            JsonView::Null => "null"@,
            JsonView::Bool(b) => if b {
                "true"@
            } else {
                "false"@
            },
            JsonView::Number(n) => n.text,
            JsonView::String(s) => "\""@ + s + "\""@,
            JsonView::Array(items) => "["@ + items_text(items, items.len()) + "]"@,
            JsonView::Object(members) => "{"@ + members_text(members, members.len()) + "}"@,
        }
    }
}

/// The first `n` of `items` written out, with a comma between neighbours.
pub open spec fn items_text(items: Seq<JsonView>, n: nat) -> Seq<char>
    decreases items, n,
{
    if n == 0 || n > items.len() {
        Seq::empty()
    } else if n == 1 {
        items[0].text()
    } else {
        items_text(items, (n - 1) as nat) + ","@ + items[n - 1].text()
    }
}

/// One member written out: the key between double quotes, a colon, the value.
pub open spec fn member_text(members: Seq<(Seq<char>, JsonView)>, i: int) -> Seq<char>
    decreases members, 0nat,
{
    if 0 <= i < members.len() {
        "\""@ + members[i].0 + "\":"@ + members[i].1.text()
    } else {
        Seq::empty()
    }
}

/// The first `n` of `members` written out, with a comma between neighbours.
pub open spec fn members_text(members: Seq<(Seq<char>, JsonView)>, n: nat) -> Seq<char>
    decreases members, n + 1,
{
    if n == 0 || n > members.len() {
        Seq::empty()
    } else if n == 1 {
        member_text(members, 0)
    } else {
        members_text(members, (n - 1) as nat) + ","@ + member_text(members, n - 1)
    }
}

impl Number {
    /// The number with this text and this decimal.
    pub fn new(text: String, decimal: Option<Decimal>) -> (r: Number)
        ensures
            r.text == text,
            r.decimal == decimal,
    {
        Number { text, decimal }
    }
}

impl Clone for Json {
    fn clone(&self) -> (r: Json)
        ensures
            r@ == self@,
        decreases self,
    {
        match self {
            Json::Null => Json::Null,
            Json::Bool(b) => Json::Bool(*b),
            Json::Number(n) => Json::Number(
                Number { text: n.text.clone(), decimal: n.decimal },
            ),
            Json::String(s) => Json::String(s.clone()),
            Json::Array(items) => {
                let mut out: Vec<Json> = Vec::new();
                let mut i: usize = 0;
                while i < items.len()
                    invariant
                        i <= items.len(),
                        out@.len() == i,
                        forall|j: int| 0 <= j < i ==> out@[j]@ == items@[j]@,
                        *self == Json::Array(*items),
                    decreases items.len() - i,
                {
                    assert(decreases_to!(self => self->Array_0));
                    assert(decreases_to!(self->Array_0 => self->Array_0[i as int]));
                    out.push(items[i].clone());
                    i += 1;
                }
                let r = Json::Array(out);
                assert(r@->Array_0 =~= self@->Array_0);
                r
            },
            Json::Object(members) => {
                let mut out: Vec<(String, Json)> = Vec::new();
                let mut i: usize = 0;
                while i < members.len()
                    invariant
                        i <= members.len(),
                        out@.len() == i,
                        forall|j: int|
                            0 <= j < i ==> out@[j].0@ == members@[j].0@ && out@[j].1@
                                == members@[j].1@,
                        *self == Json::Object(*members),
                    decreases members.len() - i,
                {
                    assert(decreases_to!(self => self->Object_0));
                    assert(decreases_to!(self->Object_0 => self->Object_0[i as int]));
                    assert(decreases_to!(self->Object_0[i as int] => self->Object_0[i as int].1));
                    out.push((members[i].0.clone(), members[i].1.clone()));
                    i += 1;
                }
                let r = Json::Object(out);
                assert(r@->Object_0 =~= self@->Object_0);
                r
            },
        }
    }
}

impl Json {
    /// Whether the value is null.
    pub fn is_null(&self) -> (r: bool)
        ensures
            r == (self@ is Null),
    {
        match self {
            Json::Null => true,
            _ => false,
        }
    }

    /// The member of an object that `key` names, whatever the case of its letters.
    pub fn get_insensitive(&self, key: &str) -> (r: Option<&Json>)
        ensures
            match r {
                Some(v) => self@.member(key@) == Some(v@),
                None => self@.member(key@) is None,
            },
    {
        match self {
            Json::Object(members) => {
                let mut i: usize = 0;
                while i < members.len()
                    invariant
                        i <= members.len(),
                        *self == Json::Object(*members),
                        self@.member(key@) == member_from(self@->Object_0, key@, i as int),
                    decreases members.len() - i,
                {
                    assert(self@->Object_0[i as int] == (
                        members@[i as int].0@, members@[i as int].1@
                    ));
                    if eq_ignore_case(members[i].0.as_str(), key) {
                        return Some(&members[i].1);
                    }
                    i += 1;
                }
                None
            },
            _ => None,
        }
    }

    /// The value written out.
    pub fn to_text(&self) -> (r: String)
        ensures
            r@ == self@.text(),
        decreases self,
    {
        match self {
            Json::Null => String::from_str("null"),
            Json::Bool(b) => if *b {
                String::from_str("true")
            } else {
                String::from_str("false")
            },
            Json::Number(n) => n.text.clone(),
            Json::String(s) => {
                let mut out = String::from_str("\"");
                out.append(s.as_str());
                out.append("\"");
                out
            },
            Json::Array(items) => {
                let mut out = String::from_str("[");
                let mut i: usize = 0;
                while i < items.len()
                    invariant
                        i <= items.len(),
                        *self == Json::Array(*items),
                        out@ == "["@ + items_text(self@->Array_0, i as nat),
                    decreases items.len() - i,
                {
                    assert(decreases_to!(self => self->Array_0));
                    assert(decreases_to!(self->Array_0 => self->Array_0[i as int]));
                    if i > 0 {
                        out.append(",");
                    }
                    let item = items[i].to_text();
                    out.append(item.as_str());
                    assert(self@->Array_0[i as int] == items@[i as int]@);
                    i += 1;
                    assert(out@ =~= "["@ + items_text(self@->Array_0, i as nat));
                }
                out.append("]");
                out
            },
            Json::Object(members) => {
                let mut out = String::from_str("{");
                let mut i: usize = 0;
                while i < members.len()
                    invariant
                        i <= members.len(),
                        *self == Json::Object(*members),
                        out@ == "{"@ + members_text(self@->Object_0, i as nat),
                    decreases members.len() - i,
                {
                    assert(decreases_to!(self => self->Object_0));
                    assert(decreases_to!(self->Object_0 => self->Object_0[i as int]));
                    assert(decreases_to!(self->Object_0[i as int] => self->Object_0[i as int].1));
                    if i > 0 {
                        out.append(",");
                    }
                    out.append("\"");
                    out.append(members[i].0.as_str());
                    out.append("\":");
                    let value = members[i].1.to_text();
                    out.append(value.as_str());
                    assert(self@->Object_0[i as int] == (
                        members@[i as int].0@, members@[i as int].1@
                    ));
                    assert(member_text(self@->Object_0, i as int) == "\""@ + members@[i as int].0@
                        + "\":"@ + members@[i as int].1@.text());
                    i += 1;
                    assert(out@ =~= "{"@ + members_text(self@->Object_0, i as nat));
                }
                out.append("}");
                out
            },
        }
    }
}

} // verus!

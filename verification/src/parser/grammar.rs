//! The grammar of filters, and the parser that follows it.
//!
//! The grammar is stated over the characters of the text and a place in it: each
//! rule says what stands at a place, and where what it found ends.
//!
//! ```text
//! FILTER      := LOG-EXP | ATTR-EXP | VALUE-PATH | GROUP
//! LOG-EXP     := (ATTR-EXP | VALUE-PATH | GROUP) WS ("and" | "or") WS FILTER
//! GROUP       := ["not" WS] "(" FILTER ")"
//! ATTR-EXP    := ATTR-PATH WS "pr" | ATTR-PATH WS CMP-OP WS COMP-VALUE
//! VALUE-PATH  := ATTR-PATH "[" VAL-FILTER "]"
//! VAL-FILTER  := a FILTER without VALUE-PATH
//! ATTR-PATH   := [URI ":"] NAME ["." NAME]
//! URI         := (ALPHA | DIGIT | ".")+ (":" (ALPHA | DIGIT | ".")+)*
//! NAME        := ALPHA (ALPHA | DIGIT | "_" | "-")*
//! CMP-OP      := "eq" | "ne" | "co" | "sw" | "ew" | "gt" | "ge" | "lt" | "le"
//! COMP-VALUE  := "false" | "null" | "true" | (DIGIT | ".")+ | '"' (any but '"')+ '"'
//! WS          := (" " | TAB)*
//! ```
//!
//! Of alternatives the first that fits is taken, and every repetition takes as much
//! as it can. `and`, `or`, `not`, `pr` and the operators are read in any case.
//! Parentheses and square brackets may stand within one another up to
//! [`MAX_NESTING_DEPTH`] deep.

use vstd::prelude::*;
use vstd::string::{StrSliceExecFns, StringExecFns};
use crate::decimal::{accepted, decimal_from_str, Decimal};
use crate::error::{Error, ErrorView};
use crate::parser::model::{
    compare_op_named,
    compare_op_of,
    pieces_joined,
    AttrExpData,
    AttrExpView,
    AttrName,
    AttrPath,
    AttrPathView,
    CompValue,
    CompValueView,
    CompareOp,
    Filter,
    FilterView,
    LogExpData,
    LogExpOperator,
    LogExpView,
    SubAttr,
    Uri,
    ValFilter,
    ValFilterView,
    ValuePathData,
    ValuePathView,
};
use crate::text::{fold, lower, same_ignoring_case, to_chars, to_lower};

verus! {

/// How deep parentheses and square brackets may stand within one another. What is
/// nested deeper is no filter.
pub const MAX_NESTING_DEPTH: usize = 128;

/// The kinds of character of which the grammar takes runs.
#[derive(Debug, Clone, Copy, PartialEq, Eq, Structural)]
pub enum CharClass {
    /// A space or a tab.
    Space,
    /// What a name holds: an ASCII letter or digit, `_` or `-`.
    Name,
    /// What a URI holds between its colons: an ASCII letter or digit, or `.`.
    Uri,
    /// What a number holds: an ASCII digit or `.`.
    Number,
    /// What a quoted text holds: anything but `"`.
    Unquoted,
}

/// An ASCII letter.
pub open spec fn is_alpha(c: char) -> bool {
    ('a' <= c && c <= 'z') || ('A' <= c && c <= 'Z')
}

/// An ASCII digit.
pub open spec fn is_digit(c: char) -> bool {
    '0' <= c && c <= '9'
}

impl CharClass {
    /// Whether a character is of the class.
    pub open spec fn holds(self, c: char) -> bool {
        match self {
            CharClass::Space => c == ' ' || c == '\t',
            CharClass::Name => is_alpha(c) || is_digit(c) || c == '_' || c == '-',
            CharClass::Uri => is_alpha(c) || is_digit(c) || c == '.',
            CharClass::Number => is_digit(c) || c == '.',
            CharClass::Unquoted => c != '"',
        }
    }
}

/// The character `c` stands at place `p`.
pub open spec fn char_at(s: Seq<char>, p: int, c: char) -> bool {
    0 <= p < s.len() && s[p] == c
}

/// The lower-case letter `c` stands at place `p`, in either case.
pub open spec fn letter_at(s: Seq<char>, p: int, c: char) -> bool {
    0 <= p < s.len() && lower(s[p]) == c
}

/// How many characters of a class stand at place `p` in a row.
pub open spec fn run_len(s: Seq<char>, p: int, class: CharClass) -> nat
    decreases s.len() - p,
{
    if 0 <= p < s.len() && class.holds(s[p]) {
        1 + run_len(s, p + 1, class)
    } else {
        0
    }
}

/// The place behind the spaces and tabs at place `p`.
pub open spec fn skip_ws(s: Seq<char>, p: int) -> int {
    p + run_len(s, p, CharClass::Space)
}

/// How long the URI at place `p` is, its last colon counted; 0 where none stands.
pub open spec fn uri_len(s: Seq<char>, p: int) -> nat
    decreases s.len() - p,
{
    let n = run_len(s, p, CharClass::Uri);
    if 0 <= p && n > 0 && char_at(s, p + n, ':') {
        n + 1 + uri_len(s, p + n + 1)
    } else {
        0
    }
}

/// The URI at place `p`, without its last colon, and the place behind that colon.
pub open spec fn uri_at(s: Seq<char>, p: int) -> Option<(Seq<char>, int)> {
    let n = uri_len(s, p);
    if n > 0 {
        Some((s.subrange(p, p + n - 1), p + n))
    } else {
        None
    }
}

/// The name at place `p`, and the place behind it.
pub open spec fn attr_name_at(s: Seq<char>, p: int) -> Option<(Seq<char>, int)> {
    if 0 <= p < s.len() && is_alpha(s[p]) {
        let end = p + 1 + run_len(s, p + 1, CharClass::Name);
        Some((s.subrange(p, end), end))
    } else {
        None
    }
}

/// The name of a sub-attribute at place `p`, behind its dot.
pub open spec fn sub_attr_at(s: Seq<char>, p: int) -> Option<(Seq<char>, int)> {
    if char_at(s, p, '.') {
        attr_name_at(s, p + 1)
    } else {
        None
    }
}

/// The path at place `p`.
pub open spec fn attr_path_at(s: Seq<char>, p: int) -> Option<(AttrPathView, int)> {
    let (uri, q1) = match uri_at(s, p) {
        Some((uri, end)) => (Some(uri), end),
        None => (None, p),
    };
    match attr_name_at(s, q1) {
        None => None,
        Some((attr_name, q2)) => {
            let (sub_attr, q3) = match sub_attr_at(s, q2) {
                Some((name, end)) => (Some(name), end),
                None => (None, q2),
            };
            Some((AttrPathView { uri, attr_name, sub_attr }, q3))
        },
    }
}

/// The operator at place `p`: it is two letters long.
pub open spec fn compare_op_at(s: Seq<char>, p: int) -> Option<(CompareOp, int)> {
    if 0 <= p && p + 2 <= s.len() {
        match compare_op_of(lower(s[p]), lower(s[p + 1])) {
            Some(op) => Some((op, p + 2)),
            None => None,
        }
    } else {
        None
    }
}

/// `false` stands at place `p`, in lower case.
pub open spec fn false_at(s: Seq<char>, p: int) -> bool {
    char_at(s, p, 'f') && char_at(s, p + 1, 'a') && char_at(s, p + 2, 'l') && char_at(s, p + 3, 's')
        && char_at(s, p + 4, 'e')
}

/// `null` stands at place `p`, in lower case.
pub open spec fn null_at(s: Seq<char>, p: int) -> bool {
    char_at(s, p, 'n') && char_at(s, p + 1, 'u') && char_at(s, p + 2, 'l') && char_at(s, p + 3, 'l')
}

/// `true` stands at place `p`, in lower case.
pub open spec fn true_at(s: Seq<char>, p: int) -> bool {
    char_at(s, p, 't') && char_at(s, p + 1, 'r') && char_at(s, p + 2, 'u') && char_at(s, p + 3, 'e')
}

/// The number at place `p`: the whole run of digits and dots, where it reads as a
/// decimal.
pub open spec fn number_at(s: Seq<char>, p: int) -> Option<(CompValueView, int)> {
    let n = run_len(s, p, CharClass::Number);
    if n > 0 {
        match accepted(decimal_from_str(s.subrange(p, p + n))) {
            Some(d) => Some((CompValueView::Number(d), p + n)),
            None => None,
        }
    } else {
        None
    }
}

/// The quoted text at place `p`: it holds at least one character and no `"`.
pub open spec fn quoted_at(s: Seq<char>, p: int) -> Option<(CompValueView, int)> {
    let n = run_len(s, p + 1, CharClass::Unquoted);
    if char_at(s, p, '"') && n > 0 && char_at(s, p + 1 + n, '"') {
        Some((CompValueView::String(s.subrange(p + 1, p + 1 + n)), p + n + 2))
    } else {
        None
    }
}

/// The comparison value at place `p`.
pub open spec fn comp_value_at(s: Seq<char>, p: int) -> Option<(CompValueView, int)> {
    if false_at(s, p) {
        Some((CompValueView::False, p + 5))
    } else if null_at(s, p) {
        Some((CompValueView::Null, p + 4))
    } else if true_at(s, p) {
        Some((CompValueView::True, p + 4))
    } else if number_at(s, p) is Some {
        number_at(s, p)
    } else {
        quoted_at(s, p)
    }
}

/// `pr` stands at place `p`, in any case.
pub open spec fn present_at(s: Seq<char>, p: int) -> bool {
    letter_at(s, p, 'p') && letter_at(s, p + 1, 'r')
}

/// The test of one attribute at place `p`.
pub open spec fn attr_exp_at(s: Seq<char>, p: int) -> Option<(AttrExpView, int)> {
    match attr_path_at(s, p) {
        None => None,
        Some((path, q1)) => {
            let q2 = skip_ws(s, q1);
            if present_at(s, q2) {
                Some((AttrExpView::Present(path), q2 + 2))
            } else {
                match compare_op_at(s, q2) {
                    None => None,
                    Some((op, q3)) => match comp_value_at(s, skip_ws(s, q3)) {
                        None => None,
                        Some((value, end)) => Some((AttrExpView::Compare(path, op, value), end)),
                    },
                }
            }
        },
    }
}

/// `and` stands at place `p`, in any case.
pub open spec fn and_at(s: Seq<char>, p: int) -> bool {
    letter_at(s, p, 'a') && letter_at(s, p + 1, 'n') && letter_at(s, p + 2, 'd')
}

/// `or` stands at place `p`, in any case.
pub open spec fn or_at(s: Seq<char>, p: int) -> bool {
    letter_at(s, p, 'o') && letter_at(s, p + 1, 'r')
}

/// `not` stands at place `p`, in any case.
pub open spec fn not_at(s: Seq<char>, p: int) -> bool {
    letter_at(s, p, 'n') && letter_at(s, p + 1, 'o') && letter_at(s, p + 2, 't')
}

/// `and` or `or` at place `p`.
pub open spec fn log_exp_operator_at(s: Seq<char>, p: int) -> Option<(LogExpOperator, int)> {
    if and_at(s, p) {
        Some((LogExpOperator::And, p + 3))
    } else if or_at(s, p) {
        Some((LogExpOperator::Or, p + 2))
    } else {
        None
    }
}

/// The place of the opening parenthesis of a group at place `p`, and whether `not`
/// stands before it.
pub open spec fn group_opening(s: Seq<char>, p: int) -> (bool, int) {
    if not_at(s, p) {
        (true, skip_ws(s, p + 3))
    } else {
        (false, p)
    }
}

/// A filter in square brackets, as it was read: what stood in parentheses stays in
/// parentheses.
pub open spec fn as_val_filter(f: FilterView) -> ValFilterView
    decreases f,
{
    match f {
        FilterView::AttrExp(e) => ValFilterView::AttrExp(e),
        FilterView::LogExp(d) => ValFilterView::LogExp(d),
        FilterView::ValuePath(d) => d.val_filter,
        FilterView::Sub(not, inner) => ValFilterView::SubFilter(
            not,
            Box::new(as_val_filter(*inner)),
        ),
    }
}

/// The filter at place `p`: two filters joined, else a filter that is no such pair.
/// Where `brackets` is not set, no square brackets are read. `depth` says how deep
/// parentheses and square brackets may still nest.
pub open spec fn filter_at(
    s: Seq<char>,
    p: int,
    brackets: bool,
    depth: nat,
) -> Option<(FilterView, int)>
    decreases s.len() - p, 4nat,
{
    match log_exp_data_at(s, p, brackets, depth) {
        Some((d, end)) => Some((FilterView::LogExp(d), end)),
        None => operand_at(s, p, brackets, depth),
    }
}

/// Two filters joined at place `p`: the left one is no such pair itself, the right one
/// is any filter, and so a chain leans to the right. The right one stands behind
/// the place `p` and within the text: so it always is
/// (`lemma_joined_filters_are_a_pair`), and so the rule comes to an end.
pub open spec fn log_exp_data_at(s: Seq<char>, p: int, brackets: bool, depth: nat) -> Option<
    (LogExpView, int),
>
    decreases s.len() - p, 3nat,
{
    match operand_at(s, p, brackets, depth) {
        None => None,
        Some((left, q1)) => match log_exp_operator_at(s, skip_ws(s, q1)) {
            None => None,
            Some((log_exp_operator, q2)) => {
                let q3 = skip_ws(s, q2);
                if p < q3 <= s.len() {
                    match filter_at(s, q3, brackets, depth) {
                        None => None,
                        Some((right, end)) => Some(
                            (
                                LogExpView {
                                    left: Box::new(left),
                                    log_exp_operator,
                                    right: Box::new(right),
                                },
                                end,
                            ),
                        ),
                    }
                } else {
                    None
                }
            },
        },
    }
}

/// A filter that is no pair joined by `and` or `or`, at place `p`: the test of one
/// attribute, else a filter in square brackets behind a path, else a group.
pub open spec fn operand_at(
    s: Seq<char>,
    p: int,
    brackets: bool,
    depth: nat,
) -> Option<(FilterView, int)>
    decreases s.len() - p, 2nat,
{
    match attr_exp_at(s, p) {
        Some((e, end)) => Some((FilterView::AttrExp(e), end)),
        None => match (if brackets {
            value_path_data_at(s, p, depth)
        } else {
            None
        }) {
            Some((d, end)) => Some((FilterView::ValuePath(d), end)),
            None => group_at(s, p, brackets, depth),
        },
    }
}

/// A filter in square brackets behind a path, at place `p`.
pub open spec fn value_path_data_at(
    s: Seq<char>,
    p: int,
    depth: nat,
) -> Option<(ValuePathView, int)>
    decreases s.len() - p, 1nat,
{
    match attr_path_at(s, p) {
        None => None,
        Some((attr_path, q1)) => if char_at(s, q1, '[') && depth > 0 {
            match filter_at(s, q1 + 1, false, (depth - 1) as nat) {
                None => None,
                Some((f, q2)) => if char_at(s, q2, ']') {
                    Some((ValuePathView { attr_path, val_filter: as_val_filter(f) }, q2 + 1))
                } else {
                    None
                },
            }
        } else {
            None
        },
    }
}

/// A filter in parentheses at place `p`, with `not` before it or without.
pub open spec fn group_at(
    s: Seq<char>,
    p: int,
    brackets: bool,
    depth: nat,
) -> Option<(FilterView, int)>
    decreases s.len() - p, 1nat,
{
    let (not, q1) = group_opening(s, p);
    if char_at(s, q1, '(') && depth > 0 {
        match filter_at(s, q1 + 1, brackets, (depth - 1) as nat) {
            None => None,
            Some((f, q2)) => if char_at(s, q2, ')') {
                Some((FilterView::Sub(not, Box::new(f)), q2 + 1))
            } else {
                None
            },
        }
    } else {
        None
    }
}

/// The filter that stands in square brackets, at place `p`.
pub open spec fn value_filter_at(s: Seq<char>, p: int) -> Option<(ValFilterView, int)> {
    match filter_at(s, p, false, MAX_NESTING_DEPTH as nat) {
        Some((f, end)) => Some((as_val_filter(f), end)),
        None => None,
    }
}

/// What reading a whole text as a filter gives: the filter, where the text is one
/// from its first character to its last; a failure that holds the text, where no
/// beginning of it is a filter; and else a failure that holds the text and what
/// follows the filter at its beginning.
pub open spec fn parse_outcome(s: Seq<char>) -> Result<FilterView, ErrorView> {
    match filter_at(s, 0, true, MAX_NESTING_DEPTH as nat) {
        None => Err(ErrorView::Parser(s)),
        Some((f, end)) => if end == s.len() {
            Ok(f)
        } else {
            Err(ErrorView::WrongFilterFormat(s, s.subrange(end, s.len() as int)))
        },
    }
}

/// A run of characters of one class does not pass the end of the text.
pub proof fn lemma_run_within(s: Seq<char>, p: int, class: CharClass)
    requires
        0 <= p <= s.len(),
    ensures
        p + run_len(s, p, class) <= s.len(),
    decreases s.len() - p,
{
    if p < s.len() && class.holds(s[p]) {
        lemma_run_within(s, p + 1, class);
    }
}

impl CharClass {
    /// Whether a character is of the class.
    pub fn test(self, c: char) -> (r: bool)
        ensures
            r == self.holds(c),
    {
        let alpha = ('a' <= c && c <= 'z') || ('A' <= c && c <= 'Z');
        let digit = '0' <= c && c <= '9';
        match self {
            CharClass::Space => c == ' ' || c == '\t',
            CharClass::Name => alpha || digit || c == '_' || c == '-',
            CharClass::Uri => alpha || digit || c == '.',
            CharClass::Number => digit || c == '.',
            CharClass::Unquoted => c != '"',
        }
    }
}

/// The place behind the run of characters of a class at place `from`.
pub fn scan(chars: &Vec<char>, from: usize, class: CharClass) -> (end: usize)
    requires
        from <= chars.len(),
    ensures
        end == from + run_len(chars@, from as int, class),
        end <= chars.len(),
{
    let mut end = from;
    while end < chars.len() && class.test(chars[end])
        invariant
            from <= end <= chars.len(),
            run_len(chars@, from as int, class) == (end - from) + run_len(
                chars@,
                end as int,
                class,
            ),
        decreases chars.len() - end,
    {
        end += 1;
    }
    end
}

fn char_is(chars: &Vec<char>, at: usize, c: char) -> (r: bool)
    ensures
        r == char_at(chars@, at as int, c),
{
    at < chars.len() && chars[at] == c
}

fn letter_is(chars: &Vec<char>, at: usize, c: char) -> (r: bool)
    ensures
        r == letter_at(chars@, at as int, c),
{
    at < chars.len() && to_lower(chars[at]) == c
}

/// How many characters stand from place `pos` on.
fn left(chars: &Vec<char>, pos: usize) -> (r: usize)
    requires
        pos <= chars.len(),
    ensures
        r == chars.len() - pos,
{
    chars.len() - pos
}

fn parse_uri(text: &str, chars: &Vec<char>, pos: usize) -> (r: Option<(String, usize)>)
    requires
        chars@ == text@,
        pos <= chars.len(),
    ensures
        match r {
            Some((uri, end)) => uri_at(chars@, pos as int) == Some((uri@, end as int)) && pos
                < end <= chars.len(),
            None => uri_at(chars@, pos as int) is None,
        },
{
    let mut end = pos;
    loop
        invariant
            pos <= end <= chars.len(),
            uri_len(chars@, pos as int) == (end - pos) + uri_len(chars@, end as int),
        ensures
            uri_len(chars@, pos as int) == end - pos,
        decreases chars.len() - end,
    {
        let run = scan(chars, end, CharClass::Uri);
        if run > end && char_is(chars, run, ':') {
            end = run + 1;
        } else {
            break ;
        }
    }
    if end > pos {
        Some((String::from_str(text.substring_char(pos, end - 1)), end))
    } else {
        None
    }
}

fn parse_attr_name(text: &str, chars: &Vec<char>, pos: usize) -> (r: Option<(AttrName, usize)>)
    requires
        chars@ == text@,
        pos <= chars.len(),
    ensures
        match r {
            Some((name, end)) => attr_name_at(chars@, pos as int) == Some((name@, end as int))
                && pos < end <= chars.len(),
            None => attr_name_at(chars@, pos as int) is None,
        },
{
    if pos < chars.len() && (('a' <= chars[pos] && chars[pos] <= 'z') || ('A' <= chars[pos]
        && chars[pos] <= 'Z')) {
        let end = scan(chars, pos + 1, CharClass::Name);
        Some((AttrName::from_str(text.substring_char(pos, end)), end))
    } else {
        None
    }
}

fn parse_sub_attr(text: &str, chars: &Vec<char>, pos: usize) -> (r: Option<(AttrName, usize)>)
    requires
        chars@ == text@,
        pos <= chars.len(),
    ensures
        match r {
            Some((name, end)) => sub_attr_at(chars@, pos as int) == Some((name@, end as int))
                && pos < end <= chars.len(),
            None => sub_attr_at(chars@, pos as int) is None,
        },
{
    if char_is(chars, pos, '.') {
        parse_attr_name(text, chars, pos + 1)
    } else {
        None
    }
}

fn parse_attr_path(text: &str, chars: &Vec<char>, pos: usize) -> (r: Option<(AttrPath, usize)>)
    requires
        chars@ == text@,
        pos <= chars.len(),
    ensures
        match r {
            Some((path, end)) => attr_path_at(chars@, pos as int) == Some((path@, end as int))
                && pos < end <= chars.len(),
            None => attr_path_at(chars@, pos as int) is None,
        },
{
    let (uri, q1) = match parse_uri(text, chars, pos) {
        Some((uri, end)) => (Some(uri), end),
        None => (None, pos),
    };
    match parse_attr_name(text, chars, q1) {
        None => None,
        Some((attr_name, q2)) => {
            let (sub_attr, q3) = match parse_sub_attr(text, chars, q2) {
                Some((name, end)) => (Some(name), end),
                None => (None, q2),
            };
            Some((AttrPath::new((uri, attr_name, sub_attr)), q3))
        },
    }
}

fn parse_compare_op(chars: &Vec<char>, pos: usize) -> (r: Option<(CompareOp, usize)>)
    requires
        pos <= chars.len(),
    ensures
        r matches Some((op, end)) ==> end == pos + 2 && end <= chars.len(),
        match r {
            Some((op, end)) => compare_op_at(chars@, pos as int) == Some((op, end as int)),
            None => compare_op_at(chars@, pos as int) is None,
        },
{
    if left(chars, pos) >= 2 {
        match CompareOp::from_letters(chars[pos], chars[pos + 1]) {
            Some(op) => Some((op, pos + 2)),
            None => None,
        }
    } else {
        None
    }
}

fn parse_number(text: &str, chars: &Vec<char>, pos: usize) -> (r: Option<(CompValue, usize)>)
    requires
        chars@ == text@,
        pos <= chars.len(),
    ensures
        match r {
            Some((value, end)) => number_at(chars@, pos as int) == Some((value@, end as int))
                && pos < end <= chars.len(),
            None => number_at(chars@, pos as int) is None,
        },
{
    let end = scan(chars, pos, CharClass::Number);
    if end > pos {
        match Decimal::from_str(text.substring_char(pos, end)) {
            Some(d) => Some((CompValue::Number(d), end)),
            None => None,
        }
    } else {
        None
    }
}

fn parse_quoted(text: &str, chars: &Vec<char>, pos: usize) -> (r: Option<(CompValue, usize)>)
    requires
        chars@ == text@,
        pos <= chars.len(),
    ensures
        match r {
            Some((value, end)) => quoted_at(chars@, pos as int) == Some((value@, end as int))
                && pos < end <= chars.len(),
            None => quoted_at(chars@, pos as int) is None,
        },
{
    if char_is(chars, pos, '"') {
        let end = scan(chars, pos + 1, CharClass::Unquoted);
        if end > pos + 1 && char_is(chars, end, '"') {
            Some((CompValue::String(String::from_str(text.substring_char(pos + 1, end))), end + 1))
        } else {
            None
        }
    } else {
        None
    }
}

fn parse_comp_value(text: &str, chars: &Vec<char>, pos: usize) -> (r: Option<(CompValue, usize)>)
    requires
        chars@ == text@,
        pos <= chars.len(),
    ensures
        match r {
            Some((value, end)) => comp_value_at(chars@, pos as int) == Some((value@, end as int))
                && pos < end <= chars.len(),
            None => comp_value_at(chars@, pos as int) is None,
        },
{
    let room = left(chars, pos);
    if room >= 5 && char_is(chars, pos, 'f') && char_is(chars, pos + 1, 'a') && char_is(
        chars,
        pos + 2,
        'l',
    ) && char_is(chars, pos + 3, 's') && char_is(chars, pos + 4, 'e') {
        Some((CompValue::False, pos + 5))
    } else if room >= 4 && char_is(chars, pos, 'n') && char_is(chars, pos + 1, 'u') && char_is(
        chars,
        pos + 2,
        'l',
    ) && char_is(chars, pos + 3, 'l') {
        Some((CompValue::Null, pos + 4))
    } else if room >= 4 && char_is(chars, pos, 't') && char_is(chars, pos + 1, 'r') && char_is(
        chars,
        pos + 2,
        'u',
    ) && char_is(chars, pos + 3, 'e') {
        Some((CompValue::True, pos + 4))
    } else {
        match parse_number(text, chars, pos) {
            Some(found) => Some(found),
            None => parse_quoted(text, chars, pos),
        }
    }
}

fn parse_attr_exp(text: &str, chars: &Vec<char>, pos: usize) -> (r: Option<(AttrExpData, usize)>)
    requires
        chars@ == text@,
        pos <= chars.len(),
    ensures
        match r {
            Some((e, end)) => attr_exp_at(chars@, pos as int) == Some((e@, end as int)) && pos
                < end <= chars.len(),
            None => attr_exp_at(chars@, pos as int) is None,
        },
{
    match parse_attr_path(text, chars, pos) {
        None => None,
        Some((path, q1)) => {
            let q2 = scan(chars, q1, CharClass::Space);
            if left(chars, q2) >= 2 && letter_is(chars, q2, 'p') && letter_is(chars, q2 + 1, 'r') {
                Some((AttrExpData::Present(path), q2 + 2))
            } else {
                match parse_compare_op(chars, q2) {
                    None => None,
                    Some((op, q3)) => {
                        let q4 = scan(chars, q3, CharClass::Space);
                        match parse_comp_value(text, chars, q4) {
                            None => None,
                            Some((value, end)) => Some(
                                (AttrExpData::Compare(path, op, value), end),
                            ),
                        }
                    },
                }
            }
        },
    }
}

fn parse_log_exp_operator(chars: &Vec<char>, pos: usize) -> (r: Option<(LogExpOperator, usize)>)
    requires
        pos <= chars.len(),
    ensures
        r matches Some((op, end)) ==> pos < end <= chars.len(),
        match r {
            Some((op, end)) => log_exp_operator_at(chars@, pos as int) == Some((op, end as int)),
            None => log_exp_operator_at(chars@, pos as int) is None,
        },
{
    let room = left(chars, pos);
    if room >= 3 && letter_is(chars, pos, 'a') && letter_is(chars, pos + 1, 'n') && letter_is(
        chars,
        pos + 2,
        'd',
    ) {
        Some((LogExpOperator::And, pos + 3))
    } else if room >= 2 && letter_is(chars, pos, 'o') && letter_is(chars, pos + 1, 'r') {
        Some((LogExpOperator::Or, pos + 2))
    } else {
        None
    }
}

fn parse_group_opening(chars: &Vec<char>, pos: usize) -> (r: (bool, usize))
    requires
        pos <= chars.len(),
    ensures
        group_opening(chars@, pos as int) == (r.0, r.1 as int),
        pos <= r.1 <= chars.len(),
{
    if left(chars, pos) >= 3 && letter_is(chars, pos, 'n') && letter_is(chars, pos + 1, 'o')
        && letter_is(chars, pos + 2, 't') {
        (true, scan(chars, pos + 3, CharClass::Space))
    } else {
        (false, pos)
    }
}

impl ValFilter {
    /// A filter read as one that stands in square brackets.
    pub fn from_filter(filter: Filter) -> (r: ValFilter)
        ensures
            r@ == as_val_filter(filter@),
        decreases filter,
    {
        match filter {
            Filter::AttrExp(data) => ValFilter::attr_exp(data),
            Filter::LogExp(data) => ValFilter::log_exp(data),
            Filter::ValuePath(data) => data.val_filter,
            Filter::Sub(not, inner) => ValFilter::sub_filter((not, ValFilter::from_filter(*inner))),
        }
    }
}

fn parse_filter(
    text: &str,
    chars: &Vec<char>,
    pos: usize,
    brackets: bool,
    depth: usize,
) -> (r: Option<
    (Filter, usize),
>)
    requires
        chars@ == text@,
        pos <= chars.len(),
    ensures
        match r {
            Some((f, end)) => filter_at(chars@, pos as int, brackets, depth as nat)
                == Some((f@, end as int))
                && pos < end <= chars.len(),
            None => filter_at(chars@, pos as int, brackets, depth as nat) is None,
        },
    decreases chars.len() - pos, 4nat,
{
    match parse_operand(text, chars, pos, brackets, depth) {
        None => None,
        Some((left, q1)) => {
            let q2 = scan(chars, q1, CharClass::Space);
            match parse_log_exp_operator(chars, q2) {
                None => Some((left, q1)),
                Some((log_exp_operator, q3)) => {
                    let q4 = scan(chars, q3, CharClass::Space);
                    match parse_filter(text, chars, q4, brackets, depth) {
                        None => Some((left, q1)),
                        Some((right, end)) => Some(
                            (Filter::LogExp(LogExpData::new((left, log_exp_operator, right))), end),
                        ),
                    }
                },
            }
        },
    }
}

fn parse_log_exp_data(
    text: &str,
    chars: &Vec<char>,
    pos: usize,
    brackets: bool,
    depth: usize,
) -> (r: Option<
    (LogExpData, usize),
>)
    requires
        chars@ == text@,
        pos <= chars.len(),
    ensures
        match r {
            Some((d, end)) => log_exp_data_at(chars@, pos as int, brackets, depth as nat) == Some(
                (d@, end as int),
            ) && pos < end <= chars.len(),
            None => log_exp_data_at(chars@, pos as int, brackets, depth as nat) is None,
        },
    decreases chars.len() - pos, 3nat,
{
    match parse_operand(text, chars, pos, brackets, depth) {
        None => None,
        Some((left, q1)) => {
            let q2 = scan(chars, q1, CharClass::Space);
            match parse_log_exp_operator(chars, q2) {
                None => None,
                Some((log_exp_operator, q3)) => {
                    let q4 = scan(chars, q3, CharClass::Space);
                    match parse_filter(text, chars, q4, brackets, depth) {
                        None => None,
                        Some((right, end)) => Some(
                            (LogExpData::new((left, log_exp_operator, right)), end),
                        ),
                    }
                },
            }
        },
    }
}

fn parse_operand(
    text: &str,
    chars: &Vec<char>,
    pos: usize,
    brackets: bool,
    depth: usize,
) -> (r: Option<
    (Filter, usize),
>)
    requires
        chars@ == text@,
        pos <= chars.len(),
    ensures
        match r {
            Some((f, end)) => operand_at(chars@, pos as int, brackets, depth as nat)
                == Some((f@, end as int))
                && pos < end <= chars.len(),
            None => operand_at(chars@, pos as int, brackets, depth as nat) is None,
        },
    decreases chars.len() - pos, 2nat,
{
    match parse_attr_exp(text, chars, pos) {
        Some((e, end)) => Some((Filter::AttrExp(e), end)),
        None => {
            let in_brackets = if brackets {
                parse_value_path_data(text, chars, pos, depth)
            } else {
                None
            };
            match in_brackets {
                Some((d, end)) => Some((Filter::ValuePath(d), end)),
                None => parse_group(text, chars, pos, brackets, depth),
            }
        },
    }
}

fn parse_value_path_data(text: &str, chars: &Vec<char>, pos: usize, depth: usize) -> (r: Option<
    (ValuePathData, usize),
>)
    requires
        chars@ == text@,
        pos <= chars.len(),
    ensures
        match r {
            Some((d, end)) => value_path_data_at(chars@, pos as int, depth as nat)
                == Some((d@, end as int))
                && pos < end <= chars.len(),
            None => value_path_data_at(chars@, pos as int, depth as nat) is None,
        },
    decreases chars.len() - pos, 1nat,
{
    match parse_attr_path(text, chars, pos) {
        None => None,
        Some((attr_path, q1)) => if depth > 0 && char_is(chars, q1, '[') {
            match parse_filter(text, chars, q1 + 1, false, depth - 1) {
                None => None,
                Some((f, q2)) => if char_is(chars, q2, ']') {
                    Some((ValuePathData::new((attr_path, ValFilter::from_filter(f))), q2 + 1))
                } else {
                    None
                },
            }
        } else {
            None
        },
    }
}

fn parse_group(
    text: &str,
    chars: &Vec<char>,
    pos: usize,
    brackets: bool,
    depth: usize,
) -> (r: Option<
    (Filter, usize),
>)
    requires
        chars@ == text@,
        pos <= chars.len(),
    ensures
        match r {
            Some((f, end)) => group_at(chars@, pos as int, brackets, depth as nat)
                == Some((f@, end as int))
                && pos < end <= chars.len(),
            None => group_at(chars@, pos as int, brackets, depth as nat) is None,
        },
    decreases chars.len() - pos, 1nat,
{
    let (not, q1) = parse_group_opening(chars, pos);
    if depth > 0 && char_is(chars, q1, '(') {
        match parse_filter(text, chars, q1 + 1, brackets, depth - 1) {
            None => None,
            Some((f, q2)) => if char_is(chars, q2, ')') {
                Some((Filter::sub_filter((not, f)), q2 + 1))
            } else {
                None
            },
        }
    } else {
        None
    }
}

/// Reads a whole text as a filter.
pub fn scim_filter_parser(input: &str) -> (r: Result<Filter, Error>)
    ensures
        match r {
            Ok(f) => parse_outcome(input@) == Ok::<FilterView, ErrorView>(f@),
            Err(e) => parse_outcome(input@) == Err::<FilterView, ErrorView>(e@),
        },
{
    let chars = to_chars(input);
    match parse_filter(input, &chars, 0, true, MAX_NESTING_DEPTH) {
        None => Err(Error::Parser(String::from_str(input))),
        Some((expression, end)) => {
            if end < chars.len() {
                Err(
                    Error::WrongFilterFormat(
                        String::from_str(input),
                        String::from_str(input.substring_char(end, chars.len())),
                    ),
                )
            } else {
                Ok(expression)
            }
        },
    }
}

/// Reads a filter at the beginning of a text, and gives what follows it.
pub fn filter<'a>(i: &'a str) -> (r: Option<(&'a str, Filter)>)
    ensures
        match r {
            Some((rest, v)) => filter_at(i@, 0, true, MAX_NESTING_DEPTH as nat)
                matches Some((w, end))
                && w == v@ && rest@
                == i@.subrange(end, i@.len() as int),
            None => filter_at(i@, 0, true, MAX_NESTING_DEPTH as nat) is None,
        },
{
    let chars = to_chars(i);
    match parse_filter(i, &chars, 0, true, MAX_NESTING_DEPTH) {
        Some((v, end)) => Some((i.substring_char(end, chars.len()), v)),
        None => None,
    }
}

/// Reads the test of one attribute at the beginning of a text.
pub fn attr_exp_data<'a>(i: &'a str) -> (r: Option<(&'a str, AttrExpData)>)
    ensures
        match r {
            Some((rest, v)) => attr_exp_at(i@, 0) matches Some((w, end)) && w == v@ && rest@
                == i@.subrange(end, i@.len() as int),
            None => attr_exp_at(i@, 0) is None,
        },
{
    let chars = to_chars(i);
    match parse_attr_exp(i, &chars, 0) {
        Some((v, end)) => Some((i.substring_char(end, chars.len()), v)),
        None => None,
    }
}

/// Reads two filters joined by `and` or `or` at the beginning of a text.
pub fn log_exp_data<'a>(i: &'a str) -> (r: Option<(&'a str, LogExpData)>)
    ensures
        match r {
            Some((rest, v)) => log_exp_data_at(i@, 0, true, MAX_NESTING_DEPTH as nat)
                matches Some((w, end))
                && w == v@ && rest@
                == i@.subrange(end, i@.len() as int),
            None => log_exp_data_at(i@, 0, true, MAX_NESTING_DEPTH as nat) is None,
        },
{
    let chars = to_chars(i);
    match parse_log_exp_data(i, &chars, 0, true, MAX_NESTING_DEPTH) {
        Some((v, end)) => Some((i.substring_char(end, chars.len()), v)),
        None => None,
    }
}

/// Reads a path and the filter in square brackets behind it at the beginning of a text.
pub fn value_path_data<'a>(i: &'a str) -> (r: Option<(&'a str, ValuePathData)>)
    ensures
        match r {
            Some((rest, v)) => value_path_data_at(i@, 0, MAX_NESTING_DEPTH as nat)
                matches Some((w, end))
                && w == v@ && rest@
                == i@.subrange(end, i@.len() as int),
            None => value_path_data_at(i@, 0, MAX_NESTING_DEPTH as nat) is None,
        },
{
    let chars = to_chars(i);
    match parse_value_path_data(i, &chars, 0, MAX_NESTING_DEPTH) {
        Some((v, end)) => Some((i.substring_char(end, chars.len()), v)),
        None => None,
    }
}

/// Reads a path at the beginning of a text.
pub fn attr_path<'a>(i: &'a str) -> (r: Option<(&'a str, AttrPath)>)
    ensures
        match r {
            Some((rest, v)) => attr_path_at(i@, 0) matches Some((w, end)) && w == v@ && rest@
                == i@.subrange(end, i@.len() as int),
            None => attr_path_at(i@, 0) is None,
        },
{
    let chars = to_chars(i);
    match parse_attr_path(i, &chars, 0) {
        Some((v, end)) => Some((i.substring_char(end, chars.len()), v)),
        None => None,
    }
}

/// Reads a URI and the colon behind it at the beginning of a text.
pub fn uri<'a>(i: &'a str) -> (r: Option<(&'a str, Uri)>)
    ensures
        match r {
            Some((rest, v)) => uri_at(i@, 0) matches Some((w, end)) && w == v@ && rest@
                == i@.subrange(end, i@.len() as int),
            None => uri_at(i@, 0) is None,
        },
{
    let chars = to_chars(i);
    match parse_uri(i, &chars, 0) {
        Some((v, end)) => Some((i.substring_char(end, chars.len()), v)),
        None => None,
    }
}

/// Reads an operator at the beginning of a text.
pub fn compare_op<'a>(i: &'a str) -> (r: Option<(&'a str, CompareOp)>)
    ensures
        match r {
            Some((rest, v)) => compare_op_at(i@, 0) matches Some((w, end)) && w == v && rest@
                == i@.subrange(end, i@.len() as int),
            None => compare_op_at(i@, 0) is None,
        },
{
    let chars = to_chars(i);
    match parse_compare_op(&chars, 0) {
        Some((v, end)) => Some((i.substring_char(end, chars.len()), v)),
        None => None,
    }
}

/// Reads a comparison value at the beginning of a text.
pub fn comp_value<'a>(i: &'a str) -> (r: Option<(&'a str, CompValue)>)
    ensures
        match r {
            Some((rest, v)) => comp_value_at(i@, 0) matches Some((w, end)) && w == v@ && rest@
                == i@.subrange(end, i@.len() as int),
            None => comp_value_at(i@, 0) is None,
        },
{
    let chars = to_chars(i);
    match parse_comp_value(i, &chars, 0) {
        Some((v, end)) => Some((i.substring_char(end, chars.len()), v)),
        None => None,
    }
}

/// Reads `and` or `or` at the beginning of a text.
pub fn log_exp_operator<'a>(i: &'a str) -> (r: Option<(&'a str, LogExpOperator)>)
    ensures
        match r {
            Some((rest, v)) => log_exp_operator_at(i@, 0) matches Some((w, end)) && w == v && rest@
                == i@.subrange(end, i@.len() as int),
            None => log_exp_operator_at(i@, 0) is None,
        },
{
    let chars = to_chars(i);
    match parse_log_exp_operator(&chars, 0) {
        Some((v, end)) => Some((i.substring_char(end, chars.len()), v)),
        None => None,
    }
}

/// Reads a name at the beginning of a text.
pub fn attr_name<'a>(i: &'a str) -> (r: Option<(&'a str, AttrName)>)
    ensures
        match r {
            Some((rest, v)) => attr_name_at(i@, 0) matches Some((w, end)) && w == v@ && rest@
                == i@.subrange(end, i@.len() as int),
            None => attr_name_at(i@, 0) is None,
        },
{
    let chars = to_chars(i);
    match parse_attr_name(i, &chars, 0) {
        Some((v, end)) => Some((i.substring_char(end, chars.len()), v)),
        None => None,
    }
}

/// Reads a dot and the name of a sub-attribute at the beginning of a text.
pub fn sub_attr<'a>(i: &'a str) -> (r: Option<(&'a str, SubAttr)>)
    ensures
        match r {
            Some((rest, v)) => sub_attr_at(i@, 0) matches Some((w, end)) && w == v@ && rest@
                == i@.subrange(end, i@.len() as int),
            None => sub_attr_at(i@, 0) is None,
        },
{
    let chars = to_chars(i);
    match parse_sub_attr(i, &chars, 0) {
        Some((v, end)) => Some((i.substring_char(end, chars.len()), v)),
        None => None,
    }
}

/// Reads a filter as it stands in square brackets at the beginning of a text.
pub fn value_filter<'a>(i: &'a str) -> (r: Option<(&'a str, ValFilter)>)
    ensures
        match r {
            Some((rest, v)) => value_filter_at(i@, 0) matches Some((w, end)) && w == v@ && rest@
                == i@.subrange(end, i@.len() as int),
            None => value_filter_at(i@, 0) is None,
        },
{
    let chars = to_chars(i);
    match parse_filter(i, &chars, 0, false, MAX_NESTING_DEPTH) {
        Some((f, end)) => Some((i.substring_char(end, chars.len()), ValFilter::from_filter(f))),
        None => None,
    }
}

/// Reads the characters that may follow the first letter of a name: as many as stand
/// at the beginning of a text, in one piece, or no piece where none stands there.
pub fn name_char<'a>(i: &'a str) -> (r: (&'a str, Vec<&'a str>))
    ensures
        pieces_joined(r.1@, r.1@.len()) == i@.subrange(
            0,
            run_len(i@, 0, CharClass::Name) as int,
        ),
        r.0@ == i@.subrange(run_len(i@, 0, CharClass::Name) as int, i@.len() as int),
        r.1@.len() <= 1,
{
    let chars = to_chars(i);
    let end = scan(&chars, 0, CharClass::Name);
    let mut pieces: Vec<&'a str> = Vec::new();
    if end > 0 {
        pieces.push(i.substring_char(0, end));
        assert(pieces_joined(pieces@, 1) =~= pieces@[0]@) by {
            assert(pieces_joined(pieces@, 0) =~= Seq::<char>::empty());
        }
    } else {
        assert(i@.subrange(0, 0) =~= Seq::<char>::empty());
    }
    (i.substring_char(end, chars.len()), pieces)
}

/// `and`, `or`, `not`, `pr` and the operators are read in any case: two texts that
/// differ at most in the case of their letters hold them at the same places.
pub proof fn lemma_keywords_ignore_case(s: Seq<char>, t: Seq<char>, p: int)
    requires
        s.len() == t.len(),
        forall|i: int| 0 <= i < s.len() ==> lower(s[i]) == lower(t[i]),
    ensures
        and_at(s, p) == and_at(t, p),
        or_at(s, p) == or_at(t, p),
        not_at(s, p) == not_at(t, p),
        present_at(s, p) == present_at(t, p),
        log_exp_operator_at(s, p) == log_exp_operator_at(t, p),
        compare_op_at(s, p) == compare_op_at(t, p),
{
}

/// The shape of a filter that was read from text: the left one of two joined
/// filters is never itself such a pair, so that a chain leans to the right; and,
/// where `brackets` is not set, no square brackets occur in it.
pub open spec fn well_shaped(f: FilterView, brackets: bool) -> bool
    decreases f,
{
    match f {
        FilterView::AttrExp(_) => true,
        FilterView::LogExp(d) => !(*d.left is LogExp) && well_shaped(*d.left, brackets)
            && well_shaped(*d.right, brackets),
        FilterView::ValuePath(d) => brackets && val_well_shaped(d.val_filter),
        FilterView::Sub(_, inner) => well_shaped(*inner, brackets),
    }
}

/// The shape of a filter that was read in square brackets: it holds no square
/// brackets, and its chains lean to the right.
pub open spec fn val_well_shaped(f: ValFilterView) -> bool
    decreases f,
{
    match f {
        ValFilterView::AttrExp(_) => true,
        ValFilterView::LogExp(d) => !(*d.left is LogExp) && well_shaped(*d.left, false)
            && well_shaped(*d.right, false),
        ValFilterView::SubFilter(_, inner) => val_well_shaped(*inner),
    }
}

proof fn lemma_as_val_filter_keeps_shape(f: FilterView)
    requires
        well_shaped(f, false),
    ensures
        val_well_shaped(as_val_filter(f)),
    decreases f,
{
    if let FilterView::Sub(_, inner) = f {
        lemma_as_val_filter_keeps_shape(*inner);
    }
}

proof fn lemma_uri_within(s: Seq<char>, p: int)
    requires
        0 <= p <= s.len(),
    ensures
        p + uri_len(s, p) <= s.len(),
    decreases s.len() - p,
{
    let n = run_len(s, p, CharClass::Uri);
    lemma_run_within(s, p, CharClass::Uri);
    if n > 0 && char_at(s, p + n, ':') {
        lemma_uri_within(s, p + n + 1);
    }
}

/// A path takes at least one character, and none from beyond the end of the text.
pub proof fn lemma_attr_path_bounds(s: Seq<char>, p: int)
    ensures
        attr_path_at(s, p) matches Some((_, end)) ==> 0 <= p < end <= s.len(),
{
    if attr_path_at(s, p) is Some {
        if 0 <= p <= s.len() {
            lemma_uri_within(s, p);
        }
        let q1 = match uri_at(s, p) {
            Some((_, end)) => end,
            None => p,
        };
        lemma_run_within(s, q1 + 1, CharClass::Name);
        let q2 = (attr_name_at(s, q1)->0).1;
        if sub_attr_at(s, q2) is Some {
            lemma_run_within(s, q2 + 2, CharClass::Name);
        }
    }
}

/// The test of one attribute takes at least one character, and none from beyond the
/// end of the text.
pub proof fn lemma_attr_exp_bounds(s: Seq<char>, p: int)
    ensures
        attr_exp_at(s, p) matches Some((_, end)) ==> 0 <= p < end <= s.len(),
{
    lemma_attr_path_bounds(s, p);
    if let Some((_, q1)) = attr_path_at(s, p) {
        lemma_run_within(s, q1, CharClass::Space);
        let q2 = skip_ws(s, q1);
        if !present_at(s, q2) {
            if let Some((_, q3)) = compare_op_at(s, q2) {
                lemma_run_within(s, q3, CharClass::Space);
                let q4 = skip_ws(s, q3);
                lemma_run_within(s, q4, CharClass::Number);
            }
        }
    }
}

/// What the grammar reads at a place takes at least one character and none from
/// beyond the end of the text, and has the shape of a filter that was read.
pub proof fn lemma_filter_at(s: Seq<char>, p: int, brackets: bool, depth: nat)
    ensures
        filter_at(s, p, brackets, depth) matches Some((f, end)) ==> 0 <= p < end <= s.len()
            && well_shaped(f, brackets),
    decreases s.len() - p, 4nat,
{
    lemma_log_exp_data_at(s, p, brackets, depth);
    lemma_operand_at(s, p, brackets, depth);
}

/// The same of two filters joined at a place.
pub proof fn lemma_log_exp_data_at(s: Seq<char>, p: int, brackets: bool, depth: nat)
    ensures
        log_exp_data_at(s, p, brackets, depth) matches Some((d, end)) ==> 0 <= p < end <= s.len()
            && well_shaped(FilterView::LogExp(d), brackets),
    decreases s.len() - p, 3nat,
{
    lemma_operand_at(s, p, brackets, depth);
    if let Some((left, q1)) = operand_at(s, p, brackets, depth) {
        if let Some((_, q2)) = log_exp_operator_at(s, skip_ws(s, q1)) {
            let q3 = skip_ws(s, q2);
            if p < q3 <= s.len() {
                lemma_filter_at(s, q3, brackets, depth);
            }
        }
    }
}

/// The same of a filter that is no pair; it is indeed none.
pub proof fn lemma_operand_at(s: Seq<char>, p: int, brackets: bool, depth: nat)
    ensures
        operand_at(s, p, brackets, depth) matches Some((f, end)) ==> 0 <= p < end <= s.len()
            && well_shaped(f, brackets) && !(f is LogExp),
    decreases s.len() - p, 2nat,
{
    lemma_attr_exp_bounds(s, p);
    if attr_exp_at(s, p) is None {
        if brackets {
            lemma_value_path_data_at(s, p, depth);
        }
        lemma_group_at(s, p, brackets, depth);
    }
}

/// The same of a filter in square brackets behind a path.
pub proof fn lemma_value_path_data_at(s: Seq<char>, p: int, depth: nat)
    ensures
        value_path_data_at(s, p, depth) matches Some((d, end)) ==> 0 <= p < end <= s.len()
            && val_well_shaped(d.val_filter),
    decreases s.len() - p, 1nat,
{
    lemma_attr_path_bounds(s, p);
    if let Some((_, q1)) = attr_path_at(s, p) {
        if char_at(s, q1, '[') && depth > 0 {
            lemma_filter_at(s, q1 + 1, false, (depth - 1) as nat);
            if let Some((f, _)) = filter_at(s, q1 + 1, false, (depth - 1) as nat) {
                lemma_as_val_filter_keeps_shape(f);
            }
        }
    }
}

/// The same of a filter in parentheses.
pub proof fn lemma_group_at(s: Seq<char>, p: int, brackets: bool, depth: nat)
    ensures
        group_at(s, p, brackets, depth) matches Some((f, end)) ==> 0 <= p < end <= s.len()
            && well_shaped(f, brackets) && f is Sub,
    decreases s.len() - p, 1nat,
{
    let (_, q1) = group_opening(s, p);
    if char_at(s, q1, '(') && depth > 0 {
        lemma_filter_at(s, q1 + 1, brackets, (depth - 1) as nat);
    }
}

/// Where a filter that is no pair stands, `and` or `or` behind it, and a filter behind
/// that, the three are read as one pair: the first filter on the left, all that
/// follows the operator on the right.
pub proof fn lemma_joined_filters_are_a_pair(s: Seq<char>, p: int, brackets: bool, depth: nat)
    requires
        operand_at(s, p, brackets, depth) is Some,
        log_exp_operator_at(s, skip_ws(s, (operand_at(s, p, brackets, depth)->0).1)) is Some,
        filter_at(
            s,
            skip_ws(
                s,
                (log_exp_operator_at(s, skip_ws(s, (operand_at(s, p, brackets, depth)->0).1))->0).1,
            ),
            brackets,
            depth,
        ) is Some,
    ensures
        ({
            let (left, q1) = operand_at(s, p, brackets, depth)->0;
            let (log_exp_operator, q2) = log_exp_operator_at(s, skip_ws(s, q1))->0;
            let (right, end) = filter_at(s, skip_ws(s, q2), brackets, depth)->0;
            filter_at(s, p, brackets, depth) == Some(
                (
                    FilterView::LogExp(
                        LogExpView {
                            left: Box::new(left),
                            log_exp_operator,
                            right: Box::new(right),
                        },
                    ),
                    end,
                ),
            )
        }),
{
    let (_, q1) = operand_at(s, p, brackets, depth)->0;
    let (_, q2) = log_exp_operator_at(s, skip_ws(s, q1))->0;
    lemma_operand_at(s, p, brackets, depth);
    lemma_filter_at(s, skip_ws(s, q2), brackets, depth);
}

/// A text that is read as a filter gives a filter of the shape that the grammar
/// makes: its chains of `and` and `or` lean to the right, and no square brackets
/// stand within square brackets.
pub proof fn lemma_parsed_filter_is_well_shaped(s: Seq<char>)
    ensures
        parse_outcome(s) matches Ok(f) ==> well_shaped(f, true),
{
    lemma_filter_at(s, 0, true, MAX_NESTING_DEPTH as nat);
}

/// A run of characters of one class ends before the first character that is of
/// another.
pub proof fn lemma_run_stops(s: Seq<char>, p: int, q: int, class: CharClass)
    requires
        0 <= p <= q < s.len(),
        !class.holds(s[q]),
    ensures
        run_len(s, p, class) <= q - p,
    decreases q - p,
{
    if p < q && class.holds(s[p]) {
        lemma_run_stops(s, p + 1, q, class);
    }
}

/// A run of characters of one class is as long as the characters of that class go on.
pub proof fn lemma_run_exact(s: Seq<char>, p: int, n: nat, class: CharClass)
    requires
        0 <= p,
        p + n <= s.len(),
        forall|i: int| p <= i < p + n ==> class.holds(#[trigger] s[i]),
        p + n == s.len() || !class.holds(s[p + n]),
    ensures
        run_len(s, p, class) == n,
    decreases n,
{
    if n > 0 {
        lemma_run_exact(s, p + 1, (n - 1) as nat, class);
    }
}

/// What may stand as a name: a letter, and after it letters, digits, `_` and `-`.
pub open spec fn is_name(name: Seq<char>) -> bool {
    &&& name.len() > 0
    &&& is_alpha(name[0])
    &&& forall|i: int| 0 <= i < name.len() ==> CharClass::Name.holds(#[trigger] name[i])
}

/// What may stand between double quotes: at least one character, and no `"`.
pub open spec fn is_quotable(value: Seq<char>) -> bool {
    &&& value.len() > 0
    &&& forall|i: int| 0 <= i < value.len() ==> #[trigger] value[i] != '"'
}

/// The text of a comparison of an attribute with a quoted value: the name, a space,
/// the operator, a space, and the value between double quotes.
pub open spec fn comparison_text(name: Seq<char>, op: Seq<char>, value: Seq<char>) -> Seq<char> {
    name + seq![' '] + op + seq![' ', '"'] + value + seq!['"']
}

/// A name stays a name, and an operator the same operator, whatever the case of their
/// letters.
pub proof fn lemma_names_and_operators_in_any_case(a: Seq<char>, b: Seq<char>)
    requires
        same_ignoring_case(a, b),
    ensures
        is_name(a) == is_name(b),
        compare_op_named(a) == compare_op_named(b),
{
    assert(fold(a).len() == fold(b).len());
    assert forall|i: int| 0 <= i < a.len() implies lower(a[i]) == lower(b[i]) by {
        assert(fold(a)[i] == fold(b)[i]);
    }
    if a.len() > 0 {
        assert(lower(a[0]) == lower(b[0]));
    }
    if is_name(a) {
        assert forall|i: int| 0 <= i < b.len() implies CharClass::Name.holds(
            #[trigger] b[i],
        ) by {
            assert(CharClass::Name.holds(a[i]));
            assert(lower(a[i]) == lower(b[i]));
        }
    }
    if is_name(b) {
        assert forall|i: int| 0 <= i < a.len() implies CharClass::Name.holds(
            #[trigger] a[i],
        ) by {
            assert(CharClass::Name.holds(b[i]));
            assert(lower(a[i]) == lower(b[i]));
        }
    }
    if a.len() == 2 {
        assert(lower(a[1]) == lower(b[1]));
    }
}

/// The text of a comparison of an attribute with a quoted value is read as that
/// comparison, whatever the name, the operator and the value are.
pub proof fn lemma_comparison_text_is_read(name: Seq<char>, op: Seq<char>, value: Seq<char>)
    requires
        is_name(name),
        compare_op_named(op) is Some,
        is_quotable(value),
    ensures
        parse_outcome(comparison_text(name, op, value)) == Ok::<FilterView, ErrorView>(
            FilterView::AttrExp(
                AttrExpView::Compare(
                    AttrPathView { uri: None, attr_name: name, sub_attr: None },
                    compare_op_named(op)->0,
                    CompValueView::String(value),
                ),
            ),
        ),
{
    let s = comparison_text(name, op, value);
    let n = name.len() as int;
    let v = value.len() as int;
    assert(s.len() == n + v + 6);
    assert forall|i: int| 0 <= i < n implies #[trigger] s[i] == name[i] by {}
    assert(s[n] == ' ');
    assert(s[n + 1] == op[0]);
    assert(s[n + 2] == op[1]);
    assert(s[n + 3] == ' ');
    assert(s[n + 4] == '"');
    assert forall|i: int| n + 5 <= i < n + 5 + v implies #[trigger] s[i] == value[i - n - 5] by {}
    assert(s[n + 5 + v] == '"');
    // No URI stands before the name.
    lemma_run_stops(s, 0, n, CharClass::Uri);
    let k = run_len(s, 0, CharClass::Uri) as int;
    if k < n {
        assert(CharClass::Name.holds(name[k]));
    }
    assert(uri_len(s, 0) == 0);
    // The name is the whole of `name`.
    assert forall|i: int| 1 <= i < 1 + (n - 1) implies CharClass::Name.holds(#[trigger] s[i]) by {
        assert(CharClass::Name.holds(name[i]));
    }
    lemma_run_exact(s, 1, (n - 1) as nat, CharClass::Name);
    assert(s.subrange(0, n) =~= name);
    assert(attr_path_at(s, 0) == Some(
        (AttrPathView { uri: None, attr_name: name, sub_attr: None }, n),
    ));
    // One space, the operator, one space.
    lemma_run_exact(s, n, 1, CharClass::Space);
    assert(skip_ws(s, n) == n + 1);
    assert(compare_op_at(s, n + 1) == Some((compare_op_named(op)->0, n + 3)));
    lemma_run_exact(s, n + 3, 1, CharClass::Space);
    assert(skip_ws(s, n + 3) == n + 4);
    // The value between its quotes.
    lemma_run_exact(s, n + 4, 0, CharClass::Number);
    assert forall|i: int| n + 5 <= i < n + 5 + v implies CharClass::Unquoted.holds(
        #[trigger] s[i],
    ) by {
        assert(value[i - n - 5] != '"');
    }
    lemma_run_exact(s, n + 5, v as nat, CharClass::Unquoted);
    assert(s.subrange(n + 5, n + 5 + v) =~= value);
    assert(comp_value_at(s, n + 4) == Some((CompValueView::String(value), n + v + 6)));
    // Nothing follows.
    lemma_run_exact(s, n + v + 6, 0, CharClass::Space);
    assert(log_exp_operator_at(s, skip_ws(s, n + v + 6)) is None);
}

} // verus!

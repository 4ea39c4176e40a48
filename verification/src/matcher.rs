//! Applying a filter to a resource: finding the value that a path names, comparing
//! it with a literal, and combining the verdicts.

use vstd::prelude::*;
use vstd::string::StringExecFns;
use crate::datetime::{instant_of, instant_order, Timestamp};
use crate::decimal::{
    accepted,
    decimal_from_str_exact,
    decimal_order,
    view_of,
    Decimal,
    DecimalView,
};
use crate::error::{outcome, Error, ErrorView};
use crate::json::{member_from, Json, JsonView, Number};
use crate::parser::grammar::{
    comparison_text,
    is_name,
    is_quotable,
    lemma_comparison_text_is_read,
    lemma_names_and_operators_in_any_case,
    parse_outcome,
    scim_filter_parser,
};
use crate::parser::model::{
    compare_op_named,
    AttrExpData,
    AttrExpView,
    AttrPath,
    AttrPathView,
    CompValue,
    CompValueView,
    CompareOp,
    Filter,
    FilterView,
    LogExpData,
    LogExpOperator,
    LogExpView,
    ValFilter,
    ValFilterView,
    ValuePathData,
};
use crate::text::{
    chars_contain,
    chars_end_with,
    chars_equal,
    chars_order,
    chars_start_with,
    occurs_in,
    same_ignoring_case,
    text_order,
    to_chars,
    Order,
};

verus! {

/// What a comparison value is taken for when it is compared.
#[derive(Debug, Clone, Copy, PartialEq)]
pub enum Literal<'a> {
    Boolean(bool),
    Null,
    Number(Decimal),
    Datetime(Timestamp),
    Text(&'a str),
}

/// What a comparison value is taken for, its text taken as a sequence of characters.
pub enum LiteralView {
    Boolean(bool),
    Null,
    Number(DecimalView),
    Datetime(Timestamp),
    Text(Seq<char>),
}

impl<'a> View for Literal<'a> {
    type V = LiteralView;

    open spec fn view(&self) -> LiteralView {
        match self {
            Literal::Boolean(b) => LiteralView::Boolean(*b),
            Literal::Null => LiteralView::Null,
            Literal::Number(d) => LiteralView::Number(d@),
            Literal::Datetime(t) => LiteralView::Datetime(*t),
            Literal::Text(s) => LiteralView::Text(s@),
        }
    }
}

/// What a quoted text is taken for, given the instant and the decimal that it
/// denotes, if any: a date and time before a number, a number before a plain text.
pub open spec fn text_taken_for(
    text: Seq<char>,
    instant: Option<Timestamp>,
    decimal: Option<DecimalView>,
) -> LiteralView {
    match instant {
        Some(t) => LiteralView::Datetime(t),
        None => match decimal {
            Some(d) => LiteralView::Number(d),
            None => LiteralView::Text(text),
        },
    }
}

/// What a comparison value is taken for.
pub open spec fn taken_for(value: CompValueView) -> LiteralView {
    match value {
        CompValueView::False => LiteralView::Boolean(false),
        CompValueView::Null => LiteralView::Null,
        CompValueView::True => LiteralView::Boolean(true),
        CompValueView::Number(d) => LiteralView::Number(d),
        CompValueView::String(s) => text_taken_for(
            s,
            instant_of(s),
            accepted(decimal_from_str_exact(s)),
        ),
    }
}

/// Whether an operator holds of two values of which the first stands to the second
/// as `order` says. The three operators on parts of a text have no answer.
pub open spec fn orderable_verdict(order: Order, op: CompareOp) -> Option<bool> {
    match op {
        CompareOp::Equal => Some(order == Order::Equal),
        CompareOp::NotEqual => Some(order != Order::Equal),
        CompareOp::Contains => None,
        CompareOp::StartsWith => None,
        CompareOp::EndsWith => None,
        CompareOp::GreaterThan => Some(order == Order::Greater),
        CompareOp::GreaterThanOrEqual => Some(order != Order::Less),
        CompareOp::LessThan => Some(order == Order::Less),
        CompareOp::LessThanOrEqual => Some(order != Order::Greater),
    }
}

/// An answer, or the failure that the operator has no meaning for values of `kind`.
pub open spec fn answer_or_wrong_operator(
    answer: Option<bool>,
    op: CompareOp,
    kind: Seq<char>,
) -> Result<bool, ErrorView> {
    match answer {
        Some(b) => Ok(b),
        None => Err(ErrorView::WrongOperator(op, kind)),
    }
}

/// A boolean of a resource against a boolean: only equality has a meaning.
pub open spec fn boolean_verdict(resource: bool, op: CompareOp, literal: bool) -> Result<
    bool,
    ErrorView,
> {
    match op {
        CompareOp::Equal => Ok(resource == literal),
        CompareOp::NotEqual => Ok(resource != literal),
        _ => Err(ErrorView::WrongOperator(op, "boolean"@)),
    }
}

/// A value of a resource against `null`: only equality has a meaning.
pub open spec fn null_verdict(resource_is_null: bool, op: CompareOp) -> Result<bool, ErrorView> {
    match op {
        CompareOp::Equal => Ok(resource_is_null),
        CompareOp::NotEqual => Ok(!resource_is_null),
        _ => Err(ErrorView::WrongOperator(op, "null"@)),
    }
}

/// A number of a resource against a number.
pub open spec fn number_verdict(
    resource: DecimalView,
    op: CompareOp,
    literal: DecimalView,
) -> Result<
    bool,
    ErrorView,
> {
    answer_or_wrong_operator(
        orderable_verdict(decimal_order(resource, literal), op),
        op,
        "number"@,
    )
}

/// An instant of a resource against an instant.
pub open spec fn datetime_verdict(resource: Timestamp, op: CompareOp, literal: Timestamp) -> Result<
    bool,
    ErrorView,
> {
    answer_or_wrong_operator(
        orderable_verdict(instant_order(resource, literal), op),
        op,
        "datetime"@,
    )
}

/// A text of a resource against a text: every operator has a meaning.
pub open spec fn string_verdict(resource: Seq<char>, op: CompareOp, literal: Seq<char>) -> bool {
    match op {
        CompareOp::Equal => resource == literal,
        CompareOp::NotEqual => resource != literal,
        CompareOp::Contains => occurs_in(literal, resource),
        CompareOp::StartsWith => literal.is_prefix_of(resource),
        CompareOp::EndsWith => literal.is_suffix_of(resource),
        CompareOp::GreaterThan => text_order(resource, literal) == Order::Greater,
        CompareOp::GreaterThanOrEqual => text_order(resource, literal) != Order::Less,
        CompareOp::LessThan => text_order(resource, literal) == Order::Less,
        CompareOp::LessThanOrEqual => text_order(resource, literal) != Order::Greater,
    }
}

/// One value of a resource against a literal. `instant` and `decimal` are what the
/// value denotes as a date and time and as a number where it is a string.
///
/// Both sides have to be of one kind. A string of a resource is a number for a
/// number, and a date and time for a date and time, where it denotes one. Against a
/// plain text it must denote neither. An array or an object is of no kind.
pub open spec fn scalar_verdict(
    literal: LiteralView,
    op: CompareOp,
    value: JsonView,
    instant: Option<Timestamp>,
    decimal: Option<DecimalView>,
) -> Result<bool, ErrorView> {
    match literal {
        LiteralView::Boolean(b) => match value {
            JsonView::Bool(x) => boolean_verdict(x, op, b),
            _ => Err(ErrorView::MalformedBoolean(value.text())),
        },
        LiteralView::Null => null_verdict(value is Null, op),
        LiteralView::Number(l) => match value {
            JsonView::Number(n) => match n.decimal {
                Some(r) => number_verdict(r, op, l),
                None => Err(ErrorView::MalformedNumber(value.text())),
            },
            JsonView::String(_) => match decimal {
                Some(r) => number_verdict(r, op, l),
                None => Err(ErrorView::MalformedNumber(value.text())),
            },
            _ => Err(ErrorView::MalformedNumber(value.text())),
        },
        LiteralView::Datetime(l) => match value {
            JsonView::String(_) => match instant {
                Some(r) => datetime_verdict(r, op, l),
                None => Err(ErrorView::MalformedDatetime(value.text())),
            },
            _ => Err(ErrorView::MalformedDatetime(value.text())),
        },
        LiteralView::Text(l) => match value {
            JsonView::String(s) => if instant is Some {
                Err(ErrorView::MalformedDatetime(l))
            } else if decimal is Some {
                Err(ErrorView::MalformedNumber(l))
            } else {
                Ok(string_verdict(s, op, l))
            },
            _ => Err(ErrorView::MalformedString(value.text())),
        },
    }
}

/// The instant that a value denotes, where it is a string that denotes one.
pub open spec fn instant_in(value: JsonView) -> Option<Timestamp> {
    match value {
        JsonView::String(s) => instant_of(s),
        _ => None,
    }
}

/// The number that a value denotes, where it is a string that denotes one.
pub open spec fn decimal_in(value: JsonView) -> Option<DecimalView> {
    match value {
        JsonView::String(s) => accepted(decimal_from_str_exact(s)),
        _ => None,
    }
}

/// One value of a resource against a literal.
pub open spec fn element_verdict(literal: LiteralView, op: CompareOp, value: JsonView) -> Result<
    bool,
    ErrorView,
> {
    scalar_verdict(literal, op, value, instant_in(value), decimal_in(value))
}

/// The first `n` of some verdicts taken together: the first failure among them,
/// or, where there is none, whether one of them is a yes.
pub open spec fn any_of(verdicts: Seq<Result<bool, ErrorView>>, n: nat) -> Result<bool, ErrorView>
    decreases n,
{
    if n == 0 || n > verdicts.len() {
        Ok(false)
    } else {
        match any_of(verdicts, (n - 1) as nat) {
            Err(e) => Err(e),
            Ok(found) => match verdicts[n - 1] {
                Err(e) => Err(e),
                Ok(b) => Ok(found || b),
            },
        }
    }
}

/// The verdicts on the items of an array, one by one.
pub open spec fn element_verdicts(literal: LiteralView, op: CompareOp, items: Seq<JsonView>) -> Seq<
    Result<bool, ErrorView>,
> {
    Seq::new(items.len(), |i: int| element_verdict(literal, op, items[i]))
}

/// A value of a resource against a comparison value, before failures are softened.
/// `null` is asked of the value as it is. Anything else is asked of each item where
/// the value is an array, and of the value itself where it is none.
pub open spec fn compare_verdict(value: CompValueView, op: CompareOp, resource: JsonView) -> Result<
    bool,
    ErrorView,
> {
    let literal = taken_for(value);
    match literal {
        LiteralView::Null => null_verdict(resource is Null, op),
        _ => match resource {
            JsonView::Array(items) => any_of(element_verdicts(literal, op, items), items.len()),
            _ => element_verdict(literal, op, resource),
        },
    }
}

/// The operators that ask for an order.
pub open spec fn asks_for_order(op: CompareOp) -> bool {
    op == CompareOp::GreaterThan || op == CompareOp::GreaterThanOrEqual || op == CompareOp::LessThan
        || op == CompareOp::LessThanOrEqual
}

/// A failure under an operator that asks for no order counts as a no.
pub open spec fn softened(op: CompareOp, verdict: Result<bool, ErrorView>) -> Result<
    bool,
    ErrorView,
> {
    match verdict {
        Ok(b) => Ok(b),
        Err(e) => if asks_for_order(op) {
            Err(e)
        } else {
            Ok(false)
        },
    }
}

/// The values that `key` names in the first `n` of `items`, in their order. An item
/// in which it names nothing gives nothing.
pub open spec fn collected(items: Seq<JsonView>, key: Seq<char>, n: nat) -> Seq<JsonView>
    decreases n,
{
    if n == 0 || n > items.len() {
        Seq::empty()
    } else {
        let before = collected(items, key, (n - 1) as nat);
        match items[n - 1].member(key) {
            Some(v) => before.push(v),
            None => before,
        }
    }
}

/// The value that a path names in a resource.
///
/// The name is looked up among the members of the resource, and finds null where
/// the resource is no object or has no such member. A sub-attribute is then looked
/// up in what was found: in an object among its members, in an array in each item,
/// which gives the array of what was found; in anything else it finds null.
pub open spec fn extracted(path: AttrPathView, resource: JsonView) -> JsonView {
    let found = resource.member_or_null(path.attr_name);
    match path.sub_attr {
        None => found,
        Some(sub) => match found {
            JsonView::Object(_) => found.member_or_null(sub),
            JsonView::Array(items) => JsonView::Array(collected(items, sub, items.len())),
            _ => JsonView::Null,
        },
    }
}

/// What `key` names in each of `items`, null where it names nothing.
pub open spec fn each_member_or_null(items: Seq<JsonView>, key: Seq<char>) -> Seq<JsonView> {
    Seq::new(items.len(), |i: int| items[i].member_or_null(key))
}

/// The value that the filter in square brackets behind a path is about, if there is
/// one: what the name finds in the resource; with a sub-attribute, what that finds
/// in an object, or in each item of an array, and nothing in anything else.
pub open spec fn value_path_target(path: AttrPathView, resource: JsonView) -> Option<JsonView> {
    let found = resource.member_or_null(path.attr_name);
    match path.sub_attr {
        None => Some(found),
        Some(sub) => match found {
            JsonView::Object(_) => Some(found.member_or_null(sub)),
            JsonView::Array(items) => Some(JsonView::Array(each_member_or_null(items, sub))),
            _ => None,
        },
    }
}

/// The verdict on a test of one attribute.
pub open spec fn attr_exp_verdict(e: AttrExpView, resource: JsonView) -> Result<bool, ErrorView> {
    match e {
        AttrExpView::Present(path) => Ok(!(extracted(path, resource) is Null)),
        AttrExpView::Compare(path, op, value) => softened(
            op,
            compare_verdict(value, op, extracted(path, resource)),
        ),
    }
}

/// A verdict turned round where `not` is set; a failure stays what it is.
pub open spec fn negated(not: bool, verdict: Result<bool, ErrorView>) -> Result<bool, ErrorView> {
    match verdict {
        Ok(b) => Ok(if not {
            !b
        } else {
            b
        }),
        Err(e) => Err(e),
    }
}

/// Two verdicts joined: the left one decides alone where it fails, where it is a yes
/// under `or`, and where it is a no under `and`; in every other case the right one
/// decides.
pub open spec fn joined(
    left: Result<bool, ErrorView>,
    op: LogExpOperator,
    right: Result<bool, ErrorView>,
) -> Result<bool, ErrorView> {
    match left {
        Err(e) => Err(e),
        Ok(true) => if op == LogExpOperator::Or {
            Ok(true)
        } else {
            right
        },
        Ok(false) => if op == LogExpOperator::Or {
            right
        } else {
            Ok(false)
        },
    }
}

/// The verdict of a filter on a resource.
pub open spec fn filter_verdict(f: FilterView, resource: JsonView) -> Result<bool, ErrorView>
    decreases f, 0nat,
{
    match f {
        FilterView::AttrExp(e) => attr_exp_verdict(e, resource),
        FilterView::LogExp(d) => log_exp_verdict(d, resource),
        FilterView::ValuePath(d) => value_path_verdict(d.attr_path, d.val_filter, resource),
        FilterView::Sub(not, inner) => negated(not, filter_verdict(*inner, resource)),
    }
}

/// The verdict of two filters joined by `and` or `or`.
pub open spec fn log_exp_verdict(d: LogExpView, resource: JsonView) -> Result<bool, ErrorView>
    decreases d, 0nat,
{
    joined(
        filter_verdict(*d.left, resource),
        d.log_exp_operator,
        filter_verdict(*d.right, resource),
    )
}

/// The verdict of a filter in square brackets on the value that it is about.
pub open spec fn val_filter_verdict(f: ValFilterView, value: JsonView) -> Result<bool, ErrorView>
    decreases f, 0nat,
{
    match f {
        ValFilterView::AttrExp(e) => attr_exp_verdict(e, value),
        ValFilterView::LogExp(d) => log_exp_verdict(d, value),
        ValFilterView::SubFilter(not, inner) => negated(not, val_filter_verdict(*inner, value)),
    }
}

/// The verdicts of a filter in square brackets on the items of an array, one by one.
pub open spec fn val_filter_verdicts(f: ValFilterView, items: Seq<JsonView>) -> Seq<
    Result<bool, ErrorView>,
>
    decreases f, 1nat,
{
    Seq::new(items.len(), |i: int| val_filter_verdict(f, items[i]))
}

/// The verdict of a filter in square brackets behind a path. The filter is asked of
/// the value that it is about: of each item where that is an array, of the value
/// itself where it is none. Where there is no such value the verdict is a no.
pub open spec fn value_path_verdict(
    path: AttrPathView,
    f: ValFilterView,
    resource: JsonView,
) -> Result<
    bool,
    ErrorView,
>
    decreases f, 2nat,
{
    match value_path_target(path, resource) {
        None => Ok(false),
        Some(JsonView::Array(items)) => any_of(val_filter_verdicts(f, items), items.len()),
        Some(value) => val_filter_verdict(f, value),
    }
}

/// The first `n` of some resources put to a filter: the first failure among their
/// verdicts, or, where there is none, those of them of which the filter holds, in
/// their order.
pub open spec fn selected(f: FilterView, resources: Seq<JsonView>, n: nat) -> Result<
    Seq<JsonView>,
    ErrorView,
>
    decreases n,
{
    if n == 0 || n > resources.len() {
        Ok(Seq::empty())
    } else {
        match selected(f, resources, (n - 1) as nat) {
            Err(e) => Err(e),
            Ok(kept) => match filter_verdict(f, resources[n - 1]) {
                Err(e) => Err(e),
                Ok(true) => Ok(kept.push(resources[n - 1])),
                Ok(false) => Ok(kept),
            },
        }
    }
}

/// The trees of some JSON values.
pub open spec fn trees_of(values: Seq<Json>) -> Seq<JsonView> {
    Seq::new(values.len(), |i: int| values[i]@)
}

/// What a filter, given as text, makes of some resources: the failure to read the
/// text, where it is no filter; else what the filter selects.
pub open spec fn filtered(input: Seq<char>, resources: Seq<JsonView>) -> Result<
    Seq<JsonView>,
    ErrorView,
> {
    match parse_outcome(input) {
        Err(e) => Err(e),
        Ok(f) => selected(f, resources, resources.len()),
    }
}

/// A failure among the first `n` resources decides for every longer run of them.
pub proof fn lemma_failure_aborts(f: FilterView, resources: Seq<JsonView>, n: nat, m: nat)
    requires
        n <= m <= resources.len(),
        selected(f, resources, n) is Err,
    ensures
        selected(f, resources, m) == selected(f, resources, n),
    decreases m,
{
    if n < m {
        lemma_failure_aborts(f, resources, n, (m - 1) as nat);
    }
}

/// A failure among the first `n` verdicts decides for every longer run of them.
pub proof fn lemma_failure_decides(verdicts: Seq<Result<bool, ErrorView>>, n: nat, m: nat)
    requires
        n <= m <= verdicts.len(),
        any_of(verdicts, n) is Err,
    ensures
        any_of(verdicts, m) == any_of(verdicts, n),
    decreases m,
{
    if n < m {
        lemma_failure_decides(verdicts, n, (m - 1) as nat);
    }
}

impl CompValue {
    /// Whether an operator holds of two values of which the first stands to the
    /// second as `order` says; nothing for the three operators on parts of a text.
    pub fn compare_orderable_values(order: Order, compare_op: &CompareOp) -> (r: Option<bool>)
        ensures
            r == orderable_verdict(order, *compare_op),
    {
        match compare_op {
            CompareOp::Equal => Some(order == Order::Equal),
            CompareOp::NotEqual => Some(order != Order::Equal),
            CompareOp::Contains => None,
            CompareOp::StartsWith => None,
            CompareOp::EndsWith => None,
            CompareOp::GreaterThan => Some(order == Order::Greater),
            CompareOp::GreaterThanOrEqual => Some(order != Order::Less),
            CompareOp::LessThan => Some(order == Order::Less),
            CompareOp::LessThanOrEqual => Some(order != Order::Greater),
        }
    }

    /// A boolean of a resource against `false`.
    pub fn compare_false(resource_value: bool, compare_op: &CompareOp) -> (r: Result<bool, Error>)
        ensures
            outcome(r) == boolean_verdict(resource_value, *compare_op, false),
    {
        match compare_op {
            CompareOp::Equal => Ok(!resource_value),
            CompareOp::NotEqual => Ok(resource_value),
            _ => Err(Error::wrong_operator(compare_op, "boolean")),
        }
    }

    /// A boolean of a resource against `true`.
    pub fn compare_true(resource_value: bool, compare_op: &CompareOp) -> (r: Result<bool, Error>)
        ensures
            outcome(r) == boolean_verdict(resource_value, *compare_op, true),
    {
        match compare_op {
            CompareOp::Equal => Ok(resource_value),
            CompareOp::NotEqual => Ok(!resource_value),
            _ => Err(Error::wrong_operator(compare_op, "boolean")),
        }
    }

    /// A value of a resource against `null`.
    pub fn compare_null(resource_value: &Json, compare_op: &CompareOp) -> (r: Result<bool, Error>)
        ensures
            outcome(r) == null_verdict(resource_value@ is Null, *compare_op),
    {
        match compare_op {
            CompareOp::Equal => Ok(resource_value.is_null()),
            CompareOp::NotEqual => Ok(!resource_value.is_null()),
            _ => Err(Error::wrong_operator(compare_op, "null")),
        }
    }

    /// A number of a resource against a number.
    pub fn compare_number(
        resource_value: &Decimal,
        compare_op: &CompareOp,
        comp_value: &Decimal,
    ) -> (r: Result<bool, Error>)
        ensures
            outcome(r) == number_verdict(resource_value@, *compare_op, comp_value@),
    {
        match Self::compare_orderable_values(resource_value.order(comp_value), compare_op) {
            Some(b) => Ok(b),
            None => Err(Error::wrong_operator(compare_op, "number")),
        }
    }

    /// An instant of a resource against an instant.
    pub fn compare_datetime(
        resource_value: &Timestamp,
        compare_op: &CompareOp,
        comp_value: &Timestamp,
    ) -> (r: Result<bool, Error>)
        ensures
            outcome(r) == datetime_verdict(*resource_value, *compare_op, *comp_value),
    {
        match Self::compare_orderable_values(resource_value.order(comp_value), compare_op) {
            Some(b) => Ok(b),
            None => Err(Error::wrong_operator(compare_op, "datetime")),
        }
    }

    /// A text of a resource against a text.
    pub fn compare_string(resource_value: &str, compare_op: &CompareOp, comp_value: &str) -> (r:
        bool)
        ensures
            r == string_verdict(resource_value@, *compare_op, comp_value@),
    {
        let resource = to_chars(resource_value);
        let literal = to_chars(comp_value);
        match compare_op {
            CompareOp::Equal => chars_equal(&resource, &literal),
            CompareOp::NotEqual => !chars_equal(&resource, &literal),
            CompareOp::Contains => chars_contain(&resource, &literal),
            CompareOp::StartsWith => chars_start_with(&resource, &literal),
            CompareOp::EndsWith => chars_end_with(&resource, &literal),
            CompareOp::GreaterThan => chars_order(&resource, &literal) == Order::Greater,
            CompareOp::GreaterThanOrEqual => chars_order(&resource, &literal) != Order::Less,
            CompareOp::LessThan => chars_order(&resource, &literal) == Order::Less,
            CompareOp::LessThanOrEqual => chars_order(&resource, &literal) != Order::Greater,
        }
    }

    /// The decimal that a number of a resource stands for, if a decimal can hold it.
    pub fn to_decimal_number(n: &Number) -> (r: Option<Decimal>)
        ensures
            r == n.decimal,
    {
        n.decimal
    }

    /// The decimal that a text denotes exactly, if it denotes one.
    pub fn to_decimal_string(n: &str) -> (r: Option<Decimal>)
        ensures
            view_of(r) == accepted(decimal_from_str_exact(n@)),
    {
        Decimal::from_str_exact(n)
    }

    /// The instant that a text denotes, if it is an RFC 3339 date and time.
    pub fn to_datetime(str_date: &str) -> (r: Option<Timestamp>)
        ensures
            r == instant_of(str_date@),
    {
        Timestamp::parse(str_date)
    }

    /// What a quoted text is taken for, given the instant and the decimal that it
    /// denotes, if any.
    pub fn classify_text<'a>(
        text: &'a str,
        instant: Option<Timestamp>,
        decimal: Option<Decimal>,
    ) -> (r: Literal<'a>)
        ensures
            r@ == text_taken_for(text@, instant, view_of(decimal)),
    {
        match instant {
            Some(t) => Literal::Datetime(t),
            None => match decimal {
                Some(d) => Literal::Number(d),
                None => Literal::Text(text),
            },
        }
    }

    /// What the comparison value is taken for.
    pub fn classify<'a>(&'a self) -> (r: Literal<'a>)
        ensures
            r@ == taken_for(self@),
    {
        match self {
            CompValue::False => Literal::Boolean(false),
            CompValue::Null => Literal::Null,
            CompValue::True => Literal::Boolean(true),
            CompValue::Number(d) => Literal::Number(*d),
            CompValue::String(s) => Self::classify_text(
                s.as_str(),
                Self::to_datetime(s.as_str()),
                Self::to_decimal_string(s.as_str()),
            ),
        }
    }

    /// One value of a resource against a literal, given what the value denotes as a
    /// date and time and as a number where it is a string.
    pub fn compare_scalar(
        literal: &Literal,
        compare_op: &CompareOp,
        value: &Json,
        instant: Option<Timestamp>,
        decimal: Option<Decimal>,
    ) -> (r: Result<bool, Error>)
        ensures
            outcome(r) == scalar_verdict(literal@, *compare_op, value@, instant, view_of(decimal)),
    {
        match literal {
            Literal::Boolean(b) => match value {
                Json::Bool(x) => if *b {
                    Self::compare_true(*x, compare_op)
                } else {
                    Self::compare_false(*x, compare_op)
                },
                _ => Err(Error::MalformedBoolean(value.to_text())),
            },
            Literal::Null => Self::compare_null(value, compare_op),
            Literal::Number(l) => match value {
                Json::Number(n) => match Self::to_decimal_number(n) {
                    Some(r) => Self::compare_number(&r, compare_op, l),
                    None => Err(Error::MalformedNumber(value.to_text())),
                },
                Json::String(_) => match decimal {
                    Some(r) => Self::compare_number(&r, compare_op, l),
                    None => Err(Error::MalformedNumber(value.to_text())),
                },
                _ => Err(Error::MalformedNumber(value.to_text())),
            },
            Literal::Datetime(l) => match value {
                Json::String(_) => match instant {
                    Some(r) => Self::compare_datetime(&r, compare_op, l),
                    None => Err(Error::MalformedDatetime(value.to_text())),
                },
                _ => Err(Error::MalformedDatetime(value.to_text())),
            },
            Literal::Text(l) => match value {
                Json::String(s) => if instant.is_some() {
                    Err(Error::MalformedDatetime(String::from_str(l)))
                } else if decimal.is_some() {
                    Err(Error::MalformedNumber(String::from_str(l)))
                } else {
                    Ok(Self::compare_string(s.as_str(), compare_op, l))
                },
                _ => Err(Error::MalformedString(value.to_text())),
            },
        }
    }

    /// One value of a resource against a literal.
    pub fn compare_element(literal: &Literal, compare_op: &CompareOp, value: &Json) -> (r: Result<
        bool,
        Error,
    >)
        ensures
            outcome(r) == element_verdict(literal@, *compare_op, value@),
    {
        match value {
            Json::String(s) => {
                let instant = Self::to_datetime(s.as_str());
                let decimal = Self::to_decimal_string(s.as_str());
                Self::compare_scalar(literal, compare_op, value, instant, decimal)
            },
            _ => Self::compare_scalar(literal, compare_op, value, None, None),
        }
    }

    /// A value of a resource against the comparison value: a failure under an
    /// operator that asks for no order counts as a no.
    pub fn compare_with(&self, compare_op: &CompareOp, resource_value: &Json) -> (r: Result<
        bool,
        Error,
    >)
        ensures
            outcome(r) == softened(
                *compare_op,
                compare_verdict(self@, *compare_op, resource_value@),
            ),
    {
        match self.do_compare_with(compare_op, resource_value) {
            Ok(res) => Ok(res),
            Err(err) => match compare_op {
                CompareOp::Equal => Ok(false),
                CompareOp::NotEqual => Ok(false),
                CompareOp::Contains => Ok(false),
                CompareOp::StartsWith => Ok(false),
                CompareOp::EndsWith => Ok(false),
                CompareOp::GreaterThan => Err(err),
                CompareOp::GreaterThanOrEqual => Err(err),
                CompareOp::LessThan => Err(err),
                CompareOp::LessThanOrEqual => Err(err),
            },
        }
    }

    /// A value of a resource against the comparison value, with every failure kept.
    pub fn do_compare_with(&self, compare_op: &CompareOp, resource_value: &Json) -> (r: Result<
        bool,
        Error,
    >)
        ensures
            outcome(r) == compare_verdict(self@, *compare_op, resource_value@),
    {
        let literal = self.classify();
        match literal {
            Literal::Null => Self::compare_null(resource_value, compare_op),
            _ => match resource_value {
                Json::Array(items) => {
                    let ghost verdicts = element_verdicts(
                        literal@,
                        *compare_op,
                        resource_value@->Array_0,
                    );
                    let mut found = false;
                    let mut i: usize = 0;
                    while i < items.len()
                        invariant
                            i <= items.len(),
                            *resource_value == Json::Array(*items),
                            literal@ == taken_for(self@),
                            !(literal@ is Null),
                            verdicts == element_verdicts(
                                literal@,
                                *compare_op,
                                resource_value@->Array_0,
                            ),
                            any_of(verdicts, i as nat) == Ok::<bool, ErrorView>(found),
                        decreases items.len() - i,
                    {
                        assert(resource_value@->Array_0[i as int] == items@[i as int]@);
                        assert(verdicts[i as int] == element_verdict(
                            literal@,
                            *compare_op,
                            items@[i as int]@,
                        ));
                        match Self::compare_element(&literal, compare_op, &items[i]) {
                            Ok(b) => {
                                found = found || b;
                            },
                            Err(e) => {
                                proof {
                                    assert(any_of(verdicts, (i + 1) as nat) == Err::<
                                        bool,
                                        ErrorView,
                                    >(e@));
                                    lemma_failure_decides(
                                        verdicts,
                                        (i + 1) as nat,
                                        items@.len(),
                                    );
                                }
                                return Err(e);
                            },
                        }
                        i += 1;
                    }
                    Ok(found)
                },
                _ => Self::compare_element(&literal, compare_op, resource_value),
            },
        }
    }
}

impl AttrPath {
    /// The value that the path names in a resource.
    pub fn extract_value(&self, resource: &Json) -> (r: Json)
        ensures
            r@ == extracted(self@, resource@),
    {
        let found = resource.get_insensitive(self.attr_name.as_str());
        match &self.sub_attr {
            None => match found {
                Some(v) => v.clone(),
                None => Json::Null,
            },
            Some(sub) => match found {
                Some(Json::Object(members)) => {
                    let inner = Json::get_insensitive(found.unwrap(), sub.as_str());
                    match inner {
                        Some(v) => v.clone(),
                        None => Json::Null,
                    }
                },
                Some(Json::Array(items)) => {
                    let ghost whole = found.unwrap()@->Array_0;
                    let mut out: Vec<Json> = Vec::new();
                    let mut i: usize = 0;
                    while i < items.len()
                        invariant
                            i <= items.len(),
                            *found.unwrap() == Json::Array(*items),
                            whole == found.unwrap()@->Array_0,
                            out@.len() == collected(whole, sub@, i as nat).len(),
                            forall|j: int|
                                0 <= j < out@.len() ==> out@[j]@ == collected(
                                    whole,
                                    sub@,
                                    i as nat,
                                )[j],
                        decreases items.len() - i,
                    {
                        assert(whole[i as int] == items@[i as int]@);
                        match items[i].get_insensitive(sub.as_str()) {
                            Some(v) => {
                                out.push(v.clone());
                            },
                            None => {},
                        }
                        i += 1;
                    }
                    let r = Json::Array(out);
                    assert(r@->Array_0 =~= collected(whole, sub@, whole.len()));
                    r
                },
                _ => Json::Null,
            },
        }
    }

    /// The value that a filter in square brackets behind the path is about, if there
    /// is one.
    pub fn locate_value(&self, resource: &Json) -> (r: Option<Json>)
        ensures
            match r {
                Some(v) => value_path_target(self@, resource@) == Some(v@),
                None => value_path_target(self@, resource@) is None,
            },
    {
        let found = resource.get_insensitive(self.attr_name.as_str());
        match &self.sub_attr {
            None => match found {
                Some(v) => Some(v.clone()),
                None => Some(Json::Null),
            },
            Some(sub) => match found {
                Some(Json::Object(members)) => {
                    let inner = Json::get_insensitive(found.unwrap(), sub.as_str());
                    match inner {
                        Some(v) => Some(v.clone()),
                        None => Some(Json::Null),
                    }
                },
                Some(Json::Array(items)) => {
                    let ghost whole = found.unwrap()@->Array_0;
                    let mut out: Vec<Json> = Vec::new();
                    let mut i: usize = 0;
                    while i < items.len()
                        invariant
                            i <= items.len(),
                            *found.unwrap() == Json::Array(*items),
                            whole == found.unwrap()@->Array_0,
                            out@.len() == i,
                            forall|j: int|
                                0 <= j < i ==> out@[j]@ == whole[j].member_or_null(sub@),
                        decreases items.len() - i,
                    {
                        assert(whole[i as int] == items@[i as int]@);
                        match items[i].get_insensitive(sub.as_str()) {
                            Some(v) => {
                                out.push(v.clone());
                            },
                            None => {
                                out.push(Json::Null);
                            },
                        }
                        i += 1;
                    }
                    let r = Json::Array(out);
                    assert(r@->Array_0 =~= each_member_or_null(whole, sub@));
                    Some(r)
                },
                _ => None,
            },
        }
    }
}

impl AttrExpData {
    /// Whether the test holds of a resource.
    pub fn is_match(&self, resource: &Json) -> (r: Result<bool, Error>)
        ensures
            outcome(r) == attr_exp_verdict(self@, resource@),
    {
        match self {
            AttrExpData::Present(attr_path) => Ok(!attr_path.extract_value(resource).is_null()),
            AttrExpData::Compare(attr_path, compare_op, comp_value) => {
                let resource_value = attr_path.extract_value(resource);
                comp_value.compare_with(compare_op, &resource_value)
            },
        }
    }
}

impl Filter {
    /// Whether the filter holds of a resource.
    pub fn is_match(&self, resource: &Json) -> (r: Result<bool, Error>)
        ensures
            outcome(r) == filter_verdict(self@, resource@),
        decreases self, 0nat,
    {
        match self {
            Filter::AttrExp(attr_expr_data) => attr_expr_data.is_match(resource),
            Filter::LogExp(log_exp_data) => log_exp_data.is_match(resource),
            Filter::ValuePath(value_path_data) => value_path_data.is_match(resource),
            Filter::Sub(is_not, filter) => match filter.is_match(resource) {
                Ok(filter_result) => Ok(
                    if *is_not {
                        !filter_result
                    } else {
                        filter_result
                    },
                ),
                Err(e) => Err(e),
            },
        }
    }
}

impl LogExpData {
    /// Whether the two filters, joined, hold of a resource. The right one is asked
    /// only where the left one does not decide.
    pub fn is_match(&self, resource: &Json) -> (r: Result<bool, Error>)
        ensures
            outcome(r) == log_exp_verdict(self@, resource@),
        decreases self, 0nat,
    {
        let left_match = match self.left.is_match(resource) {
            Ok(b) => b,
            Err(e) => {
                return Err(e);
            },
        };
        if left_match && self.log_exp_operator.is_or() {
            Ok(true)
        } else if (left_match && self.log_exp_operator.is_and()) || (!left_match
            && self.log_exp_operator.is_or()) {
            self.right.is_match(resource)
        } else {
            Ok(false)
        }
    }
}

impl ValuePathData {
    /// Whether the filter in square brackets holds of what the path names.
    pub fn is_match(&self, resource: &Json) -> (r: Result<bool, Error>)
        ensures
            outcome(r) == value_path_verdict(self@.attr_path, self@.val_filter, resource@),
        decreases self, 0nat,
    {
        self.val_filter.is_match(&self.attr_path, resource)
    }
}

impl ValFilter {
    /// Whether the filter holds of one value.
    pub fn holds_for(&self, value: &Json) -> (r: Result<bool, Error>)
        ensures
            outcome(r) == val_filter_verdict(self@, value@),
        decreases self, 0nat,
    {
        match self {
            ValFilter::AttrExp(attr_exp_data) => attr_exp_data.is_match(value),
            ValFilter::LogExp(log_exp_data) => log_exp_data.is_match(value),
            ValFilter::SubFilter(is_not, sub_filter) => match sub_filter.holds_for(value) {
                Ok(sub_filter_result) => Ok(
                    if *is_not {
                        !sub_filter_result
                    } else {
                        sub_filter_result
                    },
                ),
                Err(e) => Err(e),
            },
        }
    }

    /// Whether the filter holds of what `attr_path` names in a resource.
    pub fn is_match(&self, attr_path: &AttrPath, resource: &Json) -> (r: Result<bool, Error>)
        ensures
            outcome(r) == value_path_verdict(attr_path@, self@, resource@),
        decreases self, 1nat,
    {
        let located = attr_path.locate_value(resource);
        match &located {
            None => Ok(false),
            Some(Json::Array(items)) => {
                let ghost whole = located.unwrap()@->Array_0;
                let ghost verdicts = val_filter_verdicts(self@, whole);
                let mut found = false;
                let mut i: usize = 0;
                while i < items.len()
                    invariant
                        i <= items.len(),
                        whole.len() == items@.len(),
                        forall|j: int| 0 <= j < whole.len() ==> whole[j] == items@[j]@,
                        value_path_target(attr_path@, resource@) == Some(JsonView::Array(whole)),
                        verdicts == val_filter_verdicts(self@, whole),
                        any_of(verdicts, i as nat) == Ok::<bool, ErrorView>(found),
                    decreases items.len() - i,
                {
                    assert(verdicts[i as int] == val_filter_verdict(self@, items@[i as int]@));
                    match self.holds_for(&items[i]) {
                        Ok(b) => {
                            found = found || b;
                        },
                        Err(e) => {
                            proof {
                                assert(any_of(verdicts, (i + 1) as nat) == Err::<bool, ErrorView>(
                                    e@,
                                ));
                                lemma_failure_decides(verdicts, (i + 1) as nat, items@.len());
                            }
                            return Err(e);
                        },
                    }
                    i += 1;
                }
                Ok(found)
            },
            Some(value) => self.holds_for(value),
        }
    }
}

/// Reads a filter and keeps, of some resources, those of which it holds, in their
/// order. A text that is no filter, and any failure of a comparison, fails the whole.
pub fn scim_filter(input: &str, resources: Vec<Json>) -> (r: Result<Vec<Json>, Error>)
    ensures
        match r {
            Ok(kept) => filtered(input@, trees_of(resources@)) == Ok::<Seq<JsonView>, ErrorView>(
                trees_of(kept@),
            ),
            Err(e) => filtered(input@, trees_of(resources@)) == Err::<Seq<JsonView>, ErrorView>(
                e@,
            ),
        },
{
    let filter_expression = match scim_filter_parser(input) {
        Ok(f) => f,
        Err(e) => {
            return Err(e);
        },
    };
    let ghost all = trees_of(resources@);
    let mut kept: Vec<Json> = Vec::new();
    let mut i: usize = 0;
    assert(trees_of(kept@) =~= Seq::<JsonView>::empty());
    while i < resources.len()
        invariant
            i <= resources.len(),
            all == trees_of(resources@),
            parse_outcome(input@) == Ok::<FilterView, ErrorView>(filter_expression@),
            selected(filter_expression@, all, i as nat) == Ok::<Seq<JsonView>, ErrorView>(
                trees_of(kept@),
            ),
        decreases resources.len() - i,
    {
        let ghost before = trees_of(kept@);
        assert(all[i as int] == resources@[i as int]@);
        match filter_expression.is_match(&resources[i]) {
            Ok(true) => {
                kept.push(resources[i].clone());
                assert(trees_of(kept@) =~= before.push(all[i as int]));
            },
            Ok(false) => {},
            Err(e) => {
                proof {
                    assert(selected(filter_expression@, all, (i + 1) as nat) == Err::<
                        Seq<JsonView>,
                        ErrorView,
                    >(e@));
                    lemma_failure_aborts(filter_expression@, all, (i + 1) as nat, all.len());
                }
                return Err(e);
            },
        }
        i += 1;
    }
    Ok(kept)
}

/// A filter has one verdict on a resource: asked again, it answers the same.
pub proof fn lemma_verdict_is_unique(
    f: Filter,
    resource: Json,
    first: Result<bool, Error>,
    second: Result<bool, Error>,
)
    requires
        outcome(first) == filter_verdict(f@, resource@),
        outcome(second) == filter_verdict(f@, resource@),
    ensures
        outcome(first) == outcome(second),
{
}

/// An attribute is present exactly where the value that its path names is not null.
pub proof fn lemma_present_means_not_null(path: AttrPathView, resource: JsonView)
    ensures
        filter_verdict(FilterView::AttrExp(AttrExpView::Present(path)), resource) == Ok::<
            bool,
            ErrorView,
        >(!(extracted(path, resource) is Null)),
{
}

/// Where a filter has a verdict, `not` before it in parentheses has the opposite one,
/// and parentheses alone change nothing.
pub proof fn lemma_not_turns_round(f: FilterView, resource: JsonView)
    requires
        filter_verdict(f, resource) is Ok,
    ensures
        filter_verdict(FilterView::Sub(true, Box::new(f)), resource) == Ok::<bool, ErrorView>(
            !filter_verdict(f, resource)->Ok_0,
        ),
        filter_verdict(FilterView::Sub(false, Box::new(f)), resource) == filter_verdict(
            f,
            resource,
        ),
{
}

/// Of two filters joined, the left one is asked first: its failure is the failure of
/// the whole, its yes decides an `or`, its no decides an `and`, whatever the right
/// one would say. Only in the cases that are left does the right one decide.
pub proof fn lemma_left_is_asked_first(d: LogExpView, resource: JsonView)
    ensures
        ({
            let whole = filter_verdict(FilterView::LogExp(d), resource);
            let left = filter_verdict(*d.left, resource);
            let right = filter_verdict(*d.right, resource);
            &&& left is Err ==> whole == left
            &&& left == Ok::<bool, ErrorView>(true) && d.log_exp_operator == LogExpOperator::Or
                ==> whole == Ok::<bool, ErrorView>(true)
            &&& left == Ok::<bool, ErrorView>(false) && d.log_exp_operator == LogExpOperator::And
                ==> whole == Ok::<bool, ErrorView>(false)
            &&& left == Ok::<bool, ErrorView>(true) && d.log_exp_operator == LogExpOperator::And
                ==> whole == right
            &&& left == Ok::<bool, ErrorView>(false) && d.log_exp_operator == LogExpOperator::Or
                ==> whole == right
        }),
{
    assert(filter_verdict(FilterView::LogExp(d), resource) == log_exp_verdict(d, resource));
}

/// Two names that may be absent, the same but for the case of their letters.
pub open spec fn same_name_ignoring_case(a: Option<Seq<char>>, b: Option<Seq<char>>) -> bool {
    match (a, b) {
        (Some(x), Some(y)) => same_ignoring_case(x, y),
        (None, None) => true,
        _ => false,
    }
}

/// Two paths with the same names but for the case of their letters. The URI before
/// the name plays no part.
pub open spec fn same_path_ignoring_case(a: AttrPathView, b: AttrPathView) -> bool {
    same_ignoring_case(a.attr_name, b.attr_name) && same_name_ignoring_case(
        a.sub_attr,
        b.sub_attr,
    )
}

/// Two tests of one attribute that differ at most in the case of the letters of the
/// names in their paths.
pub open spec fn same_attr_exp_ignoring_case(a: AttrExpView, b: AttrExpView) -> bool {
    match (a, b) {
        (AttrExpView::Present(p), AttrExpView::Present(q)) => same_path_ignoring_case(p, q),
        (AttrExpView::Compare(p, op, v), AttrExpView::Compare(q, oq, w)) => same_path_ignoring_case(
            p,
            q,
        ) && op == oq && v == w,
        _ => false,
    }
}

/// Two filters that differ at most in the case of the letters of their attribute
/// names.
pub open spec fn same_filter_ignoring_case(a: FilterView, b: FilterView) -> bool
    decreases a,
{
    match (a, b) {
        (FilterView::AttrExp(x), FilterView::AttrExp(y)) => same_attr_exp_ignoring_case(x, y),
        (FilterView::LogExp(x), FilterView::LogExp(y)) => same_log_exp_ignoring_case(x, y),
        (FilterView::ValuePath(x), FilterView::ValuePath(y)) => same_path_ignoring_case(
            x.attr_path,
            y.attr_path,
        ) && same_val_filter_ignoring_case(x.val_filter, y.val_filter),
        (FilterView::Sub(n, x), FilterView::Sub(m, y)) => n == m && same_filter_ignoring_case(
            *x,
            *y,
        ),
        _ => false,
    }
}

/// Two pairs of filters that differ at most in the case of the letters of their
/// attribute names.
pub open spec fn same_log_exp_ignoring_case(a: LogExpView, b: LogExpView) -> bool
    decreases a,
{
    a.log_exp_operator == b.log_exp_operator && same_filter_ignoring_case(*a.left, *b.left)
        && same_filter_ignoring_case(*a.right, *b.right)
}

/// Two filters in square brackets that differ at most in the case of the letters of
/// their attribute names.
pub open spec fn same_val_filter_ignoring_case(a: ValFilterView, b: ValFilterView) -> bool
    decreases a,
{
    match (a, b) {
        (ValFilterView::AttrExp(x), ValFilterView::AttrExp(y)) => same_attr_exp_ignoring_case(
            x,
            y,
        ),
        (ValFilterView::LogExp(x), ValFilterView::LogExp(y)) => same_log_exp_ignoring_case(x, y),
        (ValFilterView::SubFilter(n, x), ValFilterView::SubFilter(m, y)) => n == m
            && same_val_filter_ignoring_case(*x, *y),
        _ => false,
    }
}

/// What a key finds among the members of an object depends on the key only up to the
/// case of its letters.
pub proof fn lemma_member_ignores_case(value: JsonView, a: Seq<char>, b: Seq<char>)
    requires
        same_ignoring_case(a, b),
    ensures
        value.member(a) == value.member(b),
        value.member_or_null(a) == value.member_or_null(b),
{
    if let JsonView::Object(members) = value {
        lemma_member_from_ignores_case(members, a, b, 0);
    }
}

proof fn lemma_member_from_ignores_case(
    members: Seq<(Seq<char>, JsonView)>,
    a: Seq<char>,
    b: Seq<char>,
    from: int,
)
    requires
        same_ignoring_case(a, b),
    ensures
        member_from(members, a, from) == member_from(members, b, from),
    decreases members.len() - from,
{
    if 0 <= from < members.len() {
        lemma_member_from_ignores_case(members, a, b, from + 1);
    }
}

proof fn lemma_collected_ignores_case(items: Seq<JsonView>, a: Seq<char>, b: Seq<char>, n: nat)
    requires
        same_ignoring_case(a, b),
    ensures
        collected(items, a, n) == collected(items, b, n),
    decreases n,
{
    if 0 < n <= items.len() {
        lemma_collected_ignores_case(items, a, b, (n - 1) as nat);
        lemma_member_ignores_case(items[n - 1], a, b);
    }
}

/// The value that a path names depends on the names in the path only up to the case
/// of their letters.
pub proof fn lemma_extracted_ignores_case(a: AttrPathView, b: AttrPathView, resource: JsonView)
    requires
        same_path_ignoring_case(a, b),
    ensures
        extracted(a, resource) == extracted(b, resource),
        value_path_target(a, resource) == value_path_target(b, resource),
{
    lemma_member_ignores_case(resource, a.attr_name, b.attr_name);
    let found = resource.member_or_null(a.attr_name);
    match (a.sub_attr, b.sub_attr) {
        (Some(x), Some(y)) => {
            lemma_member_ignores_case(found, x, y);
            if let JsonView::Array(items) = found {
                lemma_collected_ignores_case(items, x, y, items.len());
                assert forall|i: int| 0 <= i < items.len() implies items[i].member_or_null(x)
                    == items[i].member_or_null(y) by {
                    lemma_member_ignores_case(items[i], x, y);
                }
                assert(each_member_or_null(items, x) =~= each_member_or_null(items, y));
            }
        },
        _ => {},
    }
}

proof fn lemma_attr_exp_ignores_case(a: AttrExpView, b: AttrExpView, resource: JsonView)
    requires
        same_attr_exp_ignoring_case(a, b),
    ensures
        attr_exp_verdict(a, resource) == attr_exp_verdict(b, resource),
{
    match (a, b) {
        (AttrExpView::Present(p), AttrExpView::Present(q)) => {
            lemma_extracted_ignores_case(p, q, resource);
        },
        (AttrExpView::Compare(p, _, _), AttrExpView::Compare(q, _, _)) => {
            lemma_extracted_ignores_case(p, q, resource);
        },
        _ => {},
    }
}

/// The verdict of a filter does not depend on the case in which the names of
/// attributes are written in it.
pub proof fn lemma_verdict_ignores_case_of_names(a: FilterView, b: FilterView, resource: JsonView)
    requires
        same_filter_ignoring_case(a, b),
    ensures
        filter_verdict(a, resource) == filter_verdict(b, resource),
    decreases a, 0nat,
{
    match (a, b) {
        (FilterView::AttrExp(x), FilterView::AttrExp(y)) => {
            lemma_attr_exp_ignores_case(x, y, resource);
        },
        (FilterView::LogExp(x), FilterView::LogExp(y)) => {
            lemma_log_exp_ignores_case(x, y, resource);
            assert(filter_verdict(a, resource) == log_exp_verdict(x, resource));
            assert(filter_verdict(b, resource) == log_exp_verdict(y, resource));
        },
        (FilterView::ValuePath(x), FilterView::ValuePath(y)) => {
            lemma_extracted_ignores_case(x.attr_path, y.attr_path, resource);
            assert(filter_verdict(a, resource) == value_path_verdict(
                x.attr_path,
                x.val_filter,
                resource,
            ));
            assert(filter_verdict(b, resource) == value_path_verdict(
                y.attr_path,
                y.val_filter,
                resource,
            ));
            match value_path_target(x.attr_path, resource) {
                Some(JsonView::Array(items)) => {
                    assert forall|i: int| 0 <= i < items.len() implies val_filter_verdict(
                        x.val_filter,
                        items[i],
                    ) == val_filter_verdict(y.val_filter, items[i]) by {
                        lemma_val_filter_ignores_case(x.val_filter, y.val_filter, items[i]);
                    }
                    assert(val_filter_verdicts(x.val_filter, items) =~= val_filter_verdicts(
                        y.val_filter,
                        items,
                    ));
                },
                Some(value) => {
                    lemma_val_filter_ignores_case(x.val_filter, y.val_filter, value);
                },
                None => {},
            }
        },
        (FilterView::Sub(_, x), FilterView::Sub(_, y)) => {
            lemma_verdict_ignores_case_of_names(*x, *y, resource);
        },
        _ => {},
    }
}

proof fn lemma_log_exp_ignores_case(a: LogExpView, b: LogExpView, resource: JsonView)
    requires
        same_log_exp_ignoring_case(a, b),
    ensures
        log_exp_verdict(a, resource) == log_exp_verdict(b, resource),
    decreases a, 0nat,
{
    lemma_verdict_ignores_case_of_names(*a.left, *b.left, resource);
    lemma_verdict_ignores_case_of_names(*a.right, *b.right, resource);
}

proof fn lemma_val_filter_ignores_case(a: ValFilterView, b: ValFilterView, value: JsonView)
    requires
        same_val_filter_ignoring_case(a, b),
    ensures
        val_filter_verdict(a, value) == val_filter_verdict(b, value),
    decreases a, 0nat,
{
    match (a, b) {
        (ValFilterView::AttrExp(x), ValFilterView::AttrExp(y)) => {
            lemma_attr_exp_ignores_case(x, y, value);
        },
        (ValFilterView::LogExp(x), ValFilterView::LogExp(y)) => {
            lemma_log_exp_ignores_case(x, y, value);
        },
        (ValFilterView::SubFilter(_, x), ValFilterView::SubFilter(_, y)) => {
            lemma_val_filter_ignores_case(*x, *y, value);
        },
        _ => {},
    }
}

/// A comparison of an attribute with a quoted value selects the same resources
/// whatever the case in which the name of the attribute and the operator are
/// written: both texts are read as filters, and the two filters have the same
/// verdict on every resource.
pub proof fn lemma_case_of_name_and_operator_does_not_matter(
    name: Seq<char>,
    other_name: Seq<char>,
    op: Seq<char>,
    other_op: Seq<char>,
    value: Seq<char>,
    resource: JsonView,
)
    requires
        is_name(name),
        same_ignoring_case(name, other_name),
        compare_op_named(op) is Some,
        same_ignoring_case(op, other_op),
        is_quotable(value),
    ensures
        parse_outcome(comparison_text(name, op, value)) is Ok,
        parse_outcome(comparison_text(other_name, other_op, value)) is Ok,
        filter_verdict(parse_outcome(comparison_text(name, op, value))->Ok_0, resource)
            == filter_verdict(
            parse_outcome(comparison_text(other_name, other_op, value))->Ok_0,
            resource,
        ),
        filtered(comparison_text(name, op, value), seq![resource]) == filtered(
            comparison_text(other_name, other_op, value),
            seq![resource],
        ),
{
    lemma_names_and_operators_in_any_case(name, other_name);
    lemma_names_and_operators_in_any_case(op, other_op);
    lemma_comparison_text_is_read(name, op, value);
    lemma_comparison_text_is_read(other_name, other_op, value);
    let f = parse_outcome(comparison_text(name, op, value))->Ok_0;
    let g = parse_outcome(comparison_text(other_name, other_op, value))->Ok_0;
    lemma_verdict_ignores_case_of_names(f, g, resource);
    let resources = seq![resource];
    assert(selected(f, resources, 0) == selected(g, resources, 0));
    assert(selected(f, resources, 1) == selected(g, resources, 1));
}

} // verus!

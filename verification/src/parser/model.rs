//! The syntax tree of a filter.

use vstd::prelude::*;
use vstd::string::StringExecFns;
use crate::decimal::{Decimal, DecimalView};
use crate::text::{lower, to_chars, to_lower};

verus! {

/// A filter.
#[derive(Debug, PartialEq)]
pub enum Filter {
    AttrExp(AttrExpData),
    LogExp(LogExpData),
    ValuePath(ValuePathData),
    /// A filter in parentheses, negated where the flag is set.
    Sub(bool, Box<Filter>),
}

/// A test on one attribute.
#[derive(Debug, PartialEq)]
pub enum AttrExpData {
    Present(AttrPath),
    Compare(AttrPath, CompareOp, CompValue),
}

/// The path to an attribute: a name, before it perhaps the URI of a schema, after it
/// perhaps the name of a sub-attribute. Names keep the case they were written in.
#[derive(Debug, PartialEq)]
pub struct AttrPath {
    pub uri: Option<Uri>,
    pub attr_name: AttrName,
    pub sub_attr: Option<SubAttr>,
}

/// The operators of a comparison.
#[derive(Debug, Copy, Clone, PartialEq, Eq, Structural)]
pub enum CompareOp {
    Equal,
    NotEqual,
    Contains,
    StartsWith,
    EndsWith,
    GreaterThan,
    GreaterThanOrEqual,
    LessThan,
    LessThanOrEqual,
}

pub type Uri = String;

/// The name of an attribute, in the case in which it was written.
#[derive(Debug, PartialEq)]
pub struct AttrName(pub String);

pub type SubAttr = AttrName;

/// The value that an attribute is compared with.
#[derive(Clone, Debug, PartialEq)]
pub enum CompValue {
    False,
    Null,
    True,
    Number(Decimal),
    String(String),
}

/// Two filters joined by `and` or `or`.
#[derive(Debug, PartialEq)]
pub struct LogExpData {
    pub left: Box<Filter>,
    pub log_exp_operator: LogExpOperator,
    pub right: Box<Filter>,
}

/// What joins two filters.
#[derive(Clone, Copy, Debug, PartialEq, Eq, Structural)]
pub enum LogExpOperator {
    And,
    Or,
}

/// A filter in square brackets behind the path of the attribute that it is about.
#[derive(Debug, PartialEq)]
pub struct ValuePathData {
    pub attr_path: AttrPath,
    pub val_filter: ValFilter,
}

/// A filter as it stands in square brackets: one that holds no square brackets itself.
#[derive(Debug, PartialEq)]
pub enum ValFilter {
    AttrExp(AttrExpData),
    LogExp(LogExpData),
    SubFilter(bool, Box<ValFilter>),
}

pub struct AttrPathView {
    pub uri: Option<Seq<char>>,
    pub attr_name: Seq<char>,
    pub sub_attr: Option<Seq<char>>,
}

pub enum CompValueView {
    False,
    Null,
    True,
    Number(DecimalView),
    String(Seq<char>),
}

pub enum AttrExpView {
    Present(AttrPathView),
    Compare(AttrPathView, CompareOp, CompValueView),
}

pub struct LogExpView {
    pub left: Box<FilterView>,
    pub log_exp_operator: LogExpOperator,
    pub right: Box<FilterView>,
}

pub struct ValuePathView {
    pub attr_path: AttrPathView,
    pub val_filter: ValFilterView,
}

pub enum FilterView {
    AttrExp(AttrExpView),
    LogExp(LogExpView),
    ValuePath(ValuePathView),
    Sub(bool, Box<FilterView>),
}

pub enum ValFilterView {
    AttrExp(AttrExpView),
    LogExp(LogExpView),
    SubFilter(bool, Box<ValFilterView>),
}

impl View for AttrName {
    type V = Seq<char>;

    open spec fn view(&self) -> Seq<char> {
        self.0@
    }
}

/// The view of a text that may be absent.
pub open spec fn text_of(s: Option<String>) -> Option<Seq<char>> {
    match s {
        Some(s) => Some(s@),
        None => None,
    }
}

/// The view of a name that may be absent.
pub open spec fn name_of(s: Option<AttrName>) -> Option<Seq<char>> {
    match s {
        Some(s) => Some(s@),
        None => None,
    }
}

impl View for AttrPath {
    type V = AttrPathView;

    open spec fn view(&self) -> AttrPathView {
        AttrPathView {
            uri: text_of(self.uri),
            attr_name: self.attr_name@,
            sub_attr: name_of(self.sub_attr),
        }
    }
}

impl View for CompValue {
    type V = CompValueView;

    open spec fn view(&self) -> CompValueView {
        match self {
            CompValue::False => CompValueView::False,
            CompValue::Null => CompValueView::Null,
            CompValue::True => CompValueView::True,
            CompValue::Number(d) => CompValueView::Number(d@),
            CompValue::String(s) => CompValueView::String(s@),
        }
    }
}

impl View for AttrExpData {
    type V = AttrExpView;

    open spec fn view(&self) -> AttrExpView {
        match self {
            AttrExpData::Present(path) => AttrExpView::Present(path@),
            AttrExpData::Compare(path, op, value) => AttrExpView::Compare(path@, *op, value@),
        }
    }
}

/// The tree that a filter stands for.
pub open spec fn filter_view(f: Filter) -> FilterView
    decreases f,
{
    match f {
        Filter::AttrExp(e) => FilterView::AttrExp(e@),
        Filter::LogExp(d) => FilterView::LogExp(
            LogExpView {
                left: Box::new(filter_view(*d.left)),
                log_exp_operator: d.log_exp_operator,
                right: Box::new(filter_view(*d.right)),
            },
        ),
        Filter::ValuePath(d) => FilterView::ValuePath(
            ValuePathView { attr_path: d.attr_path@, val_filter: val_filter_view(d.val_filter) },
        ),
        Filter::Sub(not, inner) => FilterView::Sub(not, Box::new(filter_view(*inner))),
    }
}

/// The tree that a filter in square brackets stands for.
pub open spec fn val_filter_view(f: ValFilter) -> ValFilterView
    decreases f,
{
    match f {
        ValFilter::AttrExp(e) => ValFilterView::AttrExp(e@),
        ValFilter::LogExp(d) => ValFilterView::LogExp(
            LogExpView {
                left: Box::new(filter_view(*d.left)),
                log_exp_operator: d.log_exp_operator,
                right: Box::new(filter_view(*d.right)),
            },
        ),
        ValFilter::SubFilter(not, inner) => ValFilterView::SubFilter(
            not,
            Box::new(val_filter_view(*inner)),
        ),
    }
}

impl View for Filter {
    type V = FilterView;

    open spec fn view(&self) -> FilterView {
        filter_view(*self)
    }
}

impl View for ValFilter {
    type V = ValFilterView;

    open spec fn view(&self) -> ValFilterView {
        val_filter_view(*self)
    }
}

impl View for LogExpData {
    type V = LogExpView;

    open spec fn view(&self) -> LogExpView {
        LogExpView {
            left: Box::new(self.left@),
            log_exp_operator: self.log_exp_operator,
            right: Box::new(self.right@),
        }
    }
}

impl View for ValuePathData {
    type V = ValuePathView;

    open spec fn view(&self) -> ValuePathView {
        ValuePathView { attr_path: self.attr_path@, val_filter: self.val_filter@ }
    }
}

/// The operator that two lower-case letters name.
pub open spec fn compare_op_of(a: char, b: char) -> Option<CompareOp> {
    if a == 'e' && b == 'q' {
        Some(CompareOp::Equal)
    } else if a == 'n' && b == 'e' {
        Some(CompareOp::NotEqual)
    } else if a == 'c' && b == 'o' {
        Some(CompareOp::Contains)
    } else if a == 's' && b == 'w' {
        Some(CompareOp::StartsWith)
    } else if a == 'e' && b == 'w' {
        Some(CompareOp::EndsWith)
    } else if a == 'g' && b == 't' {
        Some(CompareOp::GreaterThan)
    } else if a == 'g' && b == 'e' {
        Some(CompareOp::GreaterThanOrEqual)
    } else if a == 'l' && b == 't' {
        Some(CompareOp::LessThan)
    } else if a == 'l' && b == 'e' {
        Some(CompareOp::LessThanOrEqual)
    } else {
        None
    }
}

/// The operator that a text of two letters names, whatever their case.
pub open spec fn compare_op_named(s: Seq<char>) -> Option<CompareOp> {
    if s.len() == 2 {
        compare_op_of(lower(s[0]), lower(s[1]))
    } else {
        None
    }
}

/// All the pieces of a name, one after the other.
pub open spec fn pieces_joined(pieces: Seq<&str>, n: nat) -> Seq<char>
    decreases n,
{
    if n == 0 || n > pieces.len() {
        Seq::empty()
    } else {
        pieces_joined(pieces, (n - 1) as nat) + pieces[n - 1]@
    }
}

impl CompareOp {
    /// The operator that two letters name, whatever their case.
    pub fn from_letters(a: char, b: char) -> (r: Option<CompareOp>)
        ensures
            r == compare_op_of(lower(a), lower(b)),
    {
        let a = to_lower(a);
        let b = to_lower(b);
        if a == 'e' && b == 'q' {
            Some(CompareOp::Equal)
        } else if a == 'n' && b == 'e' {
            Some(CompareOp::NotEqual)
        } else if a == 'c' && b == 'o' {
            Some(CompareOp::Contains)
        } else if a == 's' && b == 'w' {
            Some(CompareOp::StartsWith)
        } else if a == 'e' && b == 'w' {
            Some(CompareOp::EndsWith)
        } else if a == 'g' && b == 't' {
            Some(CompareOp::GreaterThan)
        } else if a == 'g' && b == 'e' {
            Some(CompareOp::GreaterThanOrEqual)
        } else if a == 'l' && b == 't' {
            Some(CompareOp::LessThan)
        } else if a == 'l' && b == 'e' {
            Some(CompareOp::LessThanOrEqual)
        } else {
            None
        }
    }

    /// The operator that `s` names, whatever the case of its letters; otherwise a
    /// sentence that says that `s` names none.
    pub fn from_str(s: &str) -> (r: Result<CompareOp, String>)
        ensures
            match r {
                Ok(op) => compare_op_named(s@) == Some(op),
                Err(message) => compare_op_named(s@) is None && message@ == s@
                    + " is not a valid operator"@,
            },
    {
        let chars = to_chars(s);
        let found = if chars.len() == 2 {
            CompareOp::from_letters(chars[0], chars[1])
        } else {
            None
        };
        match found {
            Some(op) => Ok(op),
            None => Err(String::from_str(s).concat(" is not a valid operator")),
        }
    }

    /// The operator as a reader is to see it: its two letters, and in parentheses
    /// what they mean.
    pub open spec fn text(self) -> Seq<char> {
        match self {
            CompareOp::Equal => "eq (equal)"@,
            CompareOp::NotEqual => "ne (not equal)"@,
            CompareOp::Contains => "co (contains)"@,
            CompareOp::StartsWith => "sw (starts with)"@,
            CompareOp::EndsWith => "ew (ends with)"@,
            CompareOp::GreaterThan => "gt (greater than)"@,
            CompareOp::GreaterThanOrEqual => "ge (greater than or equal)"@,
            CompareOp::LessThan => "lt (less than)"@,
            CompareOp::LessThanOrEqual => "le (less than or equal)"@,
        }
    }

    /// The operator as a reader is to see it.
    pub fn to_text(&self) -> (r: String)
        ensures
            r@ == self.text(),
    {
        match self {
            CompareOp::Equal => String::from_str("eq (equal)"),
            CompareOp::NotEqual => String::from_str("ne (not equal)"),
            CompareOp::Contains => String::from_str("co (contains)"),
            CompareOp::StartsWith => String::from_str("sw (starts with)"),
            CompareOp::EndsWith => String::from_str("ew (ends with)"),
            CompareOp::GreaterThan => String::from_str("gt (greater than)"),
            CompareOp::GreaterThanOrEqual => String::from_str("ge (greater than or equal)"),
            CompareOp::LessThan => String::from_str("lt (less than)"),
            CompareOp::LessThanOrEqual => String::from_str("le (less than or equal)"),
        }
    }
}

impl Filter {
    pub fn sub_filter(parts: (bool, Filter)) -> (r: Filter)
        ensures
            r@ == FilterView::Sub(parts.0, Box::new(parts.1@)),
    {
        let (not, filter) = parts;
        Filter::Sub(not, Box::new(filter))
    }
}

impl AttrPath {
    pub fn new(parts: (Option<Uri>, AttrName, Option<SubAttr>)) -> (r: AttrPath)
        ensures
            r.uri == parts.0,
            r.attr_name == parts.1,
            r.sub_attr == parts.2,
    {
        let (uri, attr_name, sub_attr) = parts;
        AttrPath { uri, attr_name, sub_attr }
    }

    pub fn attr_name(&self) -> (r: &AttrName)
        ensures
            *r == self.attr_name,
    {
        &self.attr_name
    }

    pub fn sub_attr(&self) -> (r: &Option<SubAttr>)
        ensures
            *r == self.sub_attr,
    {
        &self.sub_attr
    }
}

impl AttrName {
    /// The name made of a first piece and the pieces that follow it.
    pub fn new(parts: (&str, Vec<&str>)) -> (r: AttrName)
        ensures
            r@ == parts.0@ + pieces_joined(parts.1@, parts.1@.len()),
    {
        let (initial, name_chars) = parts;
        let mut name = String::from_str(initial);
        let mut i: usize = 0;
        while i < name_chars.len()
            invariant
                i <= name_chars.len(),
                name@ == initial@ + pieces_joined(name_chars@, i as nat),
            decreases name_chars.len() - i,
        {
            name.append(name_chars[i]);
            i += 1;
            assert(name@ =~= initial@ + pieces_joined(name_chars@, i as nat));
        }
        AttrName(name)
    }

    pub fn from_str(name: &str) -> (r: AttrName)
        ensures
            r@ == name@,
    {
        AttrName(String::from_str(name))
    }

    pub fn as_str(&self) -> (r: &str)
        ensures
            r@ == self@,
    {
        self.0.as_str()
    }
}

impl LogExpData {
    pub fn new(parts: (Filter, LogExpOperator, Filter)) -> (r: LogExpData)
        ensures
            *r.left == parts.0,
            r.log_exp_operator == parts.1,
            *r.right == parts.2,
    {
        let (left, log_exp_operator, right) = parts;
        LogExpData { left: Box::new(left), log_exp_operator, right: Box::new(right) }
    }
}

impl LogExpOperator {
    pub fn is_or(&self) -> (r: bool)
        ensures
            r == (*self == LogExpOperator::Or),
    {
        match self {
            LogExpOperator::And => false,
            LogExpOperator::Or => true,
        }
    }

    pub fn is_and(&self) -> (r: bool)
        ensures
            r == (*self == LogExpOperator::And),
    {
        !self.is_or()
    }
}

impl ValuePathData {
    pub fn new(parts: (AttrPath, ValFilter)) -> (r: ValuePathData)
        ensures
            r.attr_path == parts.0,
            r.val_filter == parts.1,
    {
        let (attr_path, val_filter) = parts;
        ValuePathData { attr_path, val_filter }
    }

    pub fn attr_path(&self) -> (r: &AttrPath)
        ensures
            *r == self.attr_path,
    {
        &self.attr_path
    }

    pub fn val_filter(&self) -> (r: &ValFilter)
        ensures
            *r == self.val_filter,
    {
        &self.val_filter
    }
}

impl ValFilter {
    pub fn attr_exp(data: AttrExpData) -> (r: ValFilter)
        ensures
            r == ValFilter::AttrExp(data),
    {
        ValFilter::AttrExp(data)
    }

    pub fn log_exp(data: LogExpData) -> (r: ValFilter)
        ensures
            r == ValFilter::LogExp(data),
    {
        ValFilter::LogExp(data)
    }

    pub fn sub_filter(parts: (bool, ValFilter)) -> (r: ValFilter)
        ensures
            r == ValFilter::SubFilter(parts.0, Box::new(parts.1)),
    {
        let (not, val_filter) = parts;
        ValFilter::SubFilter(not, Box::new(val_filter))
    }
}

} // verus!

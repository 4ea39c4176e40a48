//! Filters: their syntax tree, and the grammar that reads one from text.

pub mod grammar;
pub mod model;

pub use grammar::{
    attr_exp_data, attr_name, attr_path, comp_value, compare_op, filter, log_exp_data,
    log_exp_operator, name_char, scim_filter_parser, sub_attr, uri, value_filter, value_path_data,
};
pub use model::{
    AttrExpData, AttrName, AttrPath, CompValue, CompareOp, Filter, LogExpData, LogExpOperator,
    SubAttr, Uri, ValFilter, ValuePathData,
};

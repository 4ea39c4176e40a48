use scim_filter::decimal::Decimal;
use scim_filter::parser::grammar::{scim_filter_parser, MAX_NESTING_DEPTH};
use scim_filter::parser::model::{
    AttrExpData, AttrName, AttrPath, CompValue, CompareOp, Filter, LogExpData, LogExpOperator,
    SubAttr, ValFilter, ValuePathData,
};
use scim_filter::Error;

fn attribute_expression(attribute: &str, compare_op: CompareOp, value: &str) -> Filter {
    let attr_path = AttrPath::new((None, AttrName::from_str(attribute), None));
    Filter::AttrExp(AttrExpData::Compare(
        attr_path,
        compare_op,
        CompValue::String(value.to_string()),
    ))
}

fn attribute_expression_pr(attribute: &str) -> Filter {
    Filter::AttrExp(AttrExpData::Present(AttrPath::new((
        None,
        AttrName::from_str(attribute),
        None,
    ))))
}

fn pair(left: Filter, log_exp_operator: LogExpOperator, right: Filter) -> Filter {
    Filter::LogExp(LogExpData {
        left: Box::new(left),
        log_exp_operator,
        right: Box::new(right),
    })
}

#[test]
fn attribute_expression_test() {
    let parsed = scim_filter_parser("a eq \"test\"");
    assert_eq!(
        attribute_expression("a", CompareOp::Equal, "test"),
        parsed.unwrap()
    );
}

#[test]
fn expression_with_parens_at_the_beginning() {
    let parsed = scim_filter_parser("(a eq \"test\" or b pr) and c pr");
    assert_eq!(
        Filter::LogExp(LogExpData {
            left: Box::new(Filter::Sub(
                false,
                Box::new(Filter::LogExp(LogExpData {
                    left: Box::new(attribute_expression("a", CompareOp::Equal, "test")),
                    log_exp_operator: LogExpOperator::Or,
                    right: Box::new(attribute_expression_pr("b"))
                }))
            )),
            log_exp_operator: LogExpOperator::And,
            right: Box::new(attribute_expression_pr("c"))
        }),
        parsed.unwrap()
    );
}

#[test]
fn logical_expression_test() {
    let parsed = scim_filter_parser("a eq \"test\" and b eq \"test2\"");
    assert_eq!(
        Filter::LogExp(LogExpData {
            left: Box::new(attribute_expression("a", CompareOp::Equal, "test")),
            log_exp_operator: LogExpOperator::And,
            right: Box::new(attribute_expression("b", CompareOp::Equal, "test2"))
        }),
        parsed.unwrap()
    );
}

#[test]
fn logical_expression_or_test() {
    let parsed = scim_filter_parser("a eq \"test\" or b eq \"test2\"");
    assert_eq!(
        Filter::LogExp(LogExpData {
            left: Box::new(attribute_expression("a", CompareOp::Equal, "test")),
            log_exp_operator: LogExpOperator::Or,
            right: Box::new(attribute_expression("b", CompareOp::Equal, "test2"))
        }),
        parsed.unwrap()
    );
}

#[test]
fn logical_expression_with_more_than_1_and() {
    let parsed = scim_filter_parser("a eq \"test\" and b ne \"test2\" and c co \"test3\"");
    assert_eq!(
        Filter::LogExp(LogExpData {
            left: Box::new(attribute_expression("a", CompareOp::Equal, "test")),
            log_exp_operator: LogExpOperator::And,
            right: Box::new(Filter::LogExp(LogExpData {
                left: Box::new(attribute_expression("b", CompareOp::NotEqual, "test2")),
                log_exp_operator: LogExpOperator::And,
                right: Box::new(attribute_expression("c", CompareOp::Contains, "test3"))
            }))
        }),
        parsed.unwrap()
    );
}

#[test]
fn logical_expression_with_more_than_2_and_mixed() {
    let parsed = scim_filter_parser("a eq \"test\" and b ne \"test2\" or c eq \"test3\"");
    assert_eq!(
        Filter::LogExp(LogExpData {
            left: Box::new(attribute_expression("a", CompareOp::Equal, "test")),
            log_exp_operator: LogExpOperator::And,
            right: Box::new(Filter::LogExp(LogExpData {
                left: Box::new(attribute_expression("b", CompareOp::NotEqual, "test2")),
                log_exp_operator: LogExpOperator::Or,
                right: Box::new(attribute_expression("c", CompareOp::Equal, "test3"))
            }))
        }),
        parsed.unwrap()
    );
}

#[test]
fn logical_expression_with_parens() {
    let parsed = scim_filter_parser("a eq \"test\" and (b ne \"test2\" or c eq \"test3\")");
    assert_eq!(
        Filter::LogExp(LogExpData {
            left: Box::new(attribute_expression("a", CompareOp::Equal, "test")),
            log_exp_operator: LogExpOperator::And,
            right: Box::new(Filter::Sub(
                false,
                Box::new(Filter::LogExp(LogExpData {
                    left: Box::new(attribute_expression("b", CompareOp::NotEqual, "test2")),
                    log_exp_operator: LogExpOperator::Or,
                    right: Box::new(attribute_expression("c", CompareOp::Equal, "test3"))
                }))
            ))
        }),
        parsed.unwrap()
    );
}

#[test]
fn logical_expression_with_parens_2() {
    let parsed = scim_filter_parser(
        "(a sw \"test\" or b eq \"test2\") and (c ne \"test3\" or d ew \"test4\")",
    );
    assert_eq!(
        Filter::LogExp(LogExpData {
            left: Box::new(Filter::Sub(
                false,
                Box::new(Filter::LogExp(LogExpData {
                    left: Box::new(attribute_expression("a", CompareOp::StartsWith, "test")),
                    log_exp_operator: LogExpOperator::Or,
                    right: Box::new(attribute_expression("b", CompareOp::Equal, "test2"))
                }))
            )),
            log_exp_operator: LogExpOperator::And,
            right: Box::new(Filter::Sub(
                false,
                Box::new(Filter::LogExp(LogExpData {
                    left: Box::new(attribute_expression("c", CompareOp::NotEqual, "test3")),
                    log_exp_operator: LogExpOperator::Or,
                    right: Box::new(attribute_expression("d", CompareOp::EndsWith, "test4"))
                }))
            ))
        }),
        parsed.unwrap()
    );
}

#[test]
fn nested_parens() {
    let parsed = scim_filter_parser("(a pr and (b pr or c pr))");
    assert_eq!(
        Filter::Sub(
            false,
            Box::new(Filter::LogExp(LogExpData {
                left: Box::new(attribute_expression_pr("a")),
                log_exp_operator: LogExpOperator::And,
                right: Box::new(Filter::Sub(
                    false,
                    Box::new(Filter::LogExp(LogExpData {
                        left: Box::new(attribute_expression_pr("b")),
                        log_exp_operator: LogExpOperator::Or,
                        right: Box::new(attribute_expression_pr("c")),
                    }))
                ))
            }))
        ),
        parsed.unwrap()
    );
}

#[test]
fn complex_attributes() {
    let parsed = scim_filter_parser(
        "userType eq \"Employee\" and emails[type eq \"work\" and value co \"@example.com\"]",
    );

    assert_eq!(
        Filter::LogExp(LogExpData {
            left: Box::new(attribute_expression("userType", CompareOp::Equal, "Employee")),
            log_exp_operator: LogExpOperator::And,
            right: Box::new(Filter::ValuePath(ValuePathData::new((
                AttrPath::new((None, AttrName::from_str("emails"), None)),
                ValFilter::LogExp(LogExpData {
                    left: Box::new(attribute_expression("type", CompareOp::Equal, "work")),
                    log_exp_operator: LogExpOperator::And,
                    right: Box::new(attribute_expression(
                        "value",
                        CompareOp::Contains,
                        "@example.com"
                    ))
                })
            ))))
        }),
        parsed.unwrap()
    );
}

#[test]
fn not_expressions() {
    let parsed = scim_filter_parser(
        "userType ne \"Employee\" and not (emails co \"example.com\" or emails.value co \"example.org\")",
    );

    assert_eq!(
        Filter::LogExp(LogExpData {
            left: Box::new(attribute_expression("userType", CompareOp::NotEqual, "Employee")),
            log_exp_operator: LogExpOperator::And,
            right: Box::new(Filter::Sub(
                true,
                Box::new(Filter::LogExp(LogExpData {
                    left: Box::new(attribute_expression(
                        "emails",
                        CompareOp::Contains,
                        "example.com"
                    )),
                    log_exp_operator: LogExpOperator::Or,
                    right: Box::new(Filter::AttrExp(AttrExpData::Compare(
                        AttrPath::new((
                            None,
                            AttrName::from_str("emails"),
                            Some(SubAttr::from_str("value"))
                        )),
                        CompareOp::Contains,
                        CompValue::String("example.org".to_string())
                    )))
                }))
            ))
        }),
        parsed.unwrap()
    );
}

#[test]
fn full_attribute_name() {
    let parsed = scim_filter_parser(
        "urn:ietf:params:scim:schemas:extension:enterprise:2.0:User eq \"jlennon\"",
    );
    assert_eq!(
        Filter::AttrExp(AttrExpData::Compare(
            AttrPath::new((
                Some("urn:ietf:params:scim:schemas:extension:enterprise:2.0".to_string()),
                AttrName::from_str("User"),
                None
            )),
            CompareOp::Equal,
            CompValue::String("jlennon".to_string())
        )),
        parsed.unwrap()
    );
}

#[test]
fn decimal_value() {
    let parsed = scim_filter_parser("decimal eq 2.3");
    assert_eq!(
        Filter::AttrExp(AttrExpData::Compare(
            AttrPath::new((None, AttrName::from_str("decimal"), None)),
            CompareOp::Equal,
            CompValue::Number(Decimal::new(23, 1))
        )),
        parsed.unwrap()
    );
}

#[test]
fn wrong_query1() {
    let parsed = scim_filter_parser("a eq \"test1\" and");
    assert!(parsed.is_err());
}

#[test]
fn trailing_input_holds_the_text_and_what_follows_the_filter() {
    assert_eq!(
        Err(Error::WrongFilterFormat(
            "a eq \"test1\" and".to_string(),
            " and".to_string()
        )),
        scim_filter_parser("a eq \"test1\" and")
    );
    assert_eq!(
        Err(Error::WrongFilterFormat("a pr ".to_string(), " ".to_string())),
        scim_filter_parser("a pr ")
    );
}

#[test]
fn text_that_is_no_filter_is_a_parser_error_with_the_text() {
    assert_eq!(
        Err(Error::Parser("eq \"x\"".to_string())),
        scim_filter_parser(" eq \"x\"".trim_start())
    );
    assert_eq!(Err(Error::Parser("".to_string())), scim_filter_parser(""));
    assert_eq!(
        Err(Error::Parser("(a pr".to_string())),
        scim_filter_parser("(a pr")
    );
    assert_eq!(
        Err(Error::Parser(" a pr".to_string())),
        scim_filter_parser(" a pr")
    );
}

#[test]
fn keywords_are_read_in_any_case() {
    let lower = scim_filter_parser("a eq \"x\" and not (b pr or c co \"y\")").unwrap();
    let upper = scim_filter_parser("a EQ \"x\" AND NOT (b PR OR c Co \"y\")").unwrap();
    assert_eq!(lower, upper);
}

#[test]
fn names_keep_their_case() {
    assert_eq!(
        attribute_expression("userName", CompareOp::Equal, "x"),
        scim_filter_parser("userName eq \"x\"").unwrap()
    );
    assert_ne!(
        scim_filter_parser("username eq \"x\"").unwrap(),
        scim_filter_parser("userName eq \"x\"").unwrap()
    );
}

#[test]
fn literals_are_read_in_lower_case_only() {
    assert!(scim_filter_parser("a eq true").is_ok());
    assert!(scim_filter_parser("a eq TRUE").is_err());
    assert!(scim_filter_parser("a eq Null").is_err());
}

#[test]
fn runs_of_spaces_and_tabs_are_white_space() {
    let plain = scim_filter_parser("a eq \"x\" and b pr").unwrap();
    assert_eq!(
        plain,
        scim_filter_parser("a  \t eq \t\t \"x\"   and \t b \t pr").unwrap()
    );
    assert_eq!(plain, scim_filter_parser("a eq\"x\"and b pr").unwrap());
    assert_eq!(
        scim_filter_parser("not (a pr)").unwrap(),
        scim_filter_parser("not(a pr)").unwrap()
    );
    assert_eq!(
        scim_filter_parser("not (a pr)").unwrap(),
        scim_filter_parser("not \t (a pr)").unwrap()
    );
    assert!(scim_filter_parser("a\neq \"x\"").is_err());
    assert!(scim_filter_parser("( a pr)").is_err());
}

#[test]
fn comparison_values() {
    let value_of = |text: &str| match scim_filter_parser(text).unwrap() {
        Filter::AttrExp(AttrExpData::Compare(_, _, value)) => value,
        other => panic!("no comparison: {:?}", other),
    };
    assert_eq!(CompValue::False, value_of("a eq false"));
    assert_eq!(CompValue::True, value_of("a eq true"));
    assert_eq!(CompValue::Null, value_of("a eq null"));
    assert_eq!(CompValue::Number(Decimal::new(42, 0)), value_of("a eq 42"));
    assert_eq!(CompValue::Number(Decimal::new(5, 1)), value_of("a eq .5"));
    assert_eq!(
        CompValue::String("it's a \\ text".to_string()),
        value_of("a eq \"it's a \\ text\"")
    );
    assert!(scim_filter_parser("a eq 1.2.3").is_err());
    assert!(scim_filter_parser("a eq .").is_err());
    assert!(scim_filter_parser("a eq \"\"").is_err());
    assert!(scim_filter_parser("a eq \"x").is_err());
    assert!(scim_filter_parser("a eq x").is_err());
    assert!(scim_filter_parser("a xx \"x\"").is_err());
}

#[test]
fn every_operator_has_its_two_letters() {
    let op_of = |text: &str| match scim_filter_parser(text).unwrap() {
        Filter::AttrExp(AttrExpData::Compare(_, op, _)) => op,
        other => panic!("no comparison: {:?}", other),
    };
    assert_eq!(CompareOp::Equal, op_of("a eq 1"));
    assert_eq!(CompareOp::NotEqual, op_of("a ne 1"));
    assert_eq!(CompareOp::Contains, op_of("a co 1"));
    assert_eq!(CompareOp::StartsWith, op_of("a sw 1"));
    assert_eq!(CompareOp::EndsWith, op_of("a ew 1"));
    assert_eq!(CompareOp::GreaterThan, op_of("a gt 1"));
    assert_eq!(CompareOp::GreaterThanOrEqual, op_of("a ge 1"));
    assert_eq!(CompareOp::LessThan, op_of("a lt 1"));
    assert_eq!(CompareOp::LessThanOrEqual, op_of("a le 1"));
}

#[test]
fn names_and_paths() {
    let path_of = |text: &str| match scim_filter_parser(text).unwrap() {
        Filter::AttrExp(AttrExpData::Present(path)) => path,
        other => panic!("no presence test: {:?}", other),
    };
    assert_eq!(
        AttrPath::new((None, AttrName::from_str("a_b-c9"), None)),
        path_of("a_b-c9 pr")
    );
    assert_eq!(
        AttrPath::new((
            None,
            AttrName::from_str("name"),
            Some(AttrName::from_str("familyName"))
        )),
        path_of("name.familyName pr")
    );
    assert_eq!(
        AttrPath::new((
            Some("urn:a.b:1".to_string()),
            AttrName::from_str("x"),
            Some(AttrName::from_str("y"))
        )),
        path_of("urn:a.b:1:x.y pr")
    );
    assert!(scim_filter_parser("9a pr").is_err());
    assert!(scim_filter_parser("_a pr").is_err());
    assert!(scim_filter_parser("a. pr").is_err());
    assert!(scim_filter_parser("urn:9 pr").is_err());
}

#[test]
fn square_brackets_hold_no_square_brackets() {
    assert!(scim_filter_parser("a[b pr]").is_ok());
    assert!(scim_filter_parser("a[not (b pr and c pr)]").is_ok());
    assert!(scim_filter_parser("a[b[c pr]]").is_err());
    assert!(scim_filter_parser("a[b pr and c[d pr]]").is_err());
    assert!(scim_filter_parser("a[(c[d pr])]").is_err());
    assert_eq!(
        Filter::ValuePath(ValuePathData::new((
            AttrPath::new((None, AttrName::from_str("a"), None)),
            ValFilter::SubFilter(
                true,
                Box::new(ValFilter::AttrExp(AttrExpData::Present(AttrPath::new((
                    None,
                    AttrName::from_str("b"),
                    None
                )))))
            )
        ))),
        scim_filter_parser("a[not (b pr)]").unwrap()
    );
}

#[test]
fn a_chain_of_four_leans_to_the_right() {
    assert_eq!(
        pair(
            attribute_expression_pr("a"),
            LogExpOperator::Or,
            pair(
                attribute_expression_pr("b"),
                LogExpOperator::And,
                pair(
                    attribute_expression_pr("c"),
                    LogExpOperator::Or,
                    attribute_expression_pr("d")
                )
            )
        ),
        scim_filter_parser("a pr or b pr and c pr or d pr").unwrap()
    );
}

fn nested(depth: usize, innermost: &str) -> String {
    format!("{}{}{}", "(".repeat(depth), innermost, ")".repeat(depth))
}

#[test]
fn parentheses_nest_up_to_a_limit() {
    assert_eq!(128, MAX_NESTING_DEPTH);
    assert!(scim_filter_parser(&nested(1, "a pr")).is_ok());
    assert!(scim_filter_parser(&nested(MAX_NESTING_DEPTH, "a pr")).is_ok());
    assert_eq!(
        Err(Error::Parser(nested(MAX_NESTING_DEPTH + 1, "a pr"))),
        scim_filter_parser(&nested(MAX_NESTING_DEPTH + 1, "a pr"))
    );
    assert!(scim_filter_parser(&nested(100_000, "a pr")).is_err());
    assert!(scim_filter_parser(&nested(MAX_NESTING_DEPTH - 1, "a[b pr]")).is_ok());
    assert!(scim_filter_parser(&nested(MAX_NESTING_DEPTH, "a[b pr]")).is_err());
    let deep_in_brackets = format!("a[{}]", nested(MAX_NESTING_DEPTH - 1, "b pr"));
    assert!(scim_filter_parser(&deep_in_brackets).is_ok());
    let too_deep_in_brackets = format!("a[{}]", nested(MAX_NESTING_DEPTH, "b pr"));
    assert!(scim_filter_parser(&too_deep_in_brackets).is_err());
}

use scim_filter::decimal::Decimal;
use scim_filter::json::{Json, Number};
use scim_filter::{scim_filter, Error};

fn text(s: &str) -> Json {
    Json::String(s.to_string())
}

fn whole(n: i64) -> Json {
    Json::Number(Number::new(n.to_string(), Some(Decimal::new(n, 0))))
}

fn object(members: Vec<(&str, Json)>) -> Json {
    Json::Object(
        members
            .into_iter()
            .map(|(key, value)| (key.to_string(), value))
            .collect(),
    )
}

fn sub_resource(first: &str, second: &str) -> Json {
    object(vec![("first", text(first)), ("second", text(second))])
}

fn resource(a: &str, b: &str, c: &str) -> Json {
    object(vec![
        ("a", text(a)),
        ("b", text(b)),
        ("bool", Json::Bool(true)),
        ("c", text(c)),
        ("datetime", text("2021-01-01T10:00:00Z")),
        ("decimal", text("10.2")),
        ("multi_simple_value", Json::Array(vec![text(a), text(b), text(c)])),
        (
            "multi_simple_value_numbers",
            Json::Array(vec![whole(1), whole(2), whole(3)]),
        ),
        (
            "nested_multi_value",
            Json::Array(vec![
                sub_resource("test-first1", "test-second1"),
                sub_resource("test-first2", "test-second2"),
            ]),
        ),
        ("number", whole(42)),
        ("sub_resource", sub_resource("test-first", "test-second")),
    ])
}

fn example_resources() -> Vec<Json> {
    vec![resource("test1", "test2", "test3")]
}

fn example_resources2() -> Vec<Json> {
    vec![
        resource("a1", "b1", "c1"),
        resource("a2", "b2", "c2"),
        resource("a3", "b3", "c3"),
    ]
}

fn match_ok_with_one_resource(filter: &str) {
    let res = scim_filter(filter, example_resources());
    assert_eq!(example_resources(), res.unwrap());
}

fn match_none_with_one_resource(filter: &str) {
    let res = scim_filter(filter, example_resources());
    assert_eq!(Vec::<Json>::new(), res.unwrap());
}

fn invalid_filter(filter: &str) {
    let res = scim_filter(filter, example_resources());
    assert!(res.is_err());
}

fn match_all_with_two_resources(filter: &str) {
    let res = scim_filter(filter, example_resources2());
    assert!(res.is_ok());
    assert_eq!(example_resources2(), res.unwrap());
}

fn match_none_with_two_resources(filter: &str) {
    let res = scim_filter(filter, example_resources2());
    assert!(res.is_ok());
    assert_eq!(Vec::<Json>::new(), res.unwrap());
}

fn match_partial_with_two_resources(filter: &str, indexes: Vec<usize>) {
    let res = scim_filter(filter, example_resources2());
    assert!(res.is_ok());
    let all = example_resources2();
    let mut expected = vec![];
    for i in indexes {
        expected.push(all.get(i - 1).unwrap());
    }
    assert_eq!(expected, res.unwrap().iter().collect::<Vec<&Json>>());
}

#[test]
fn match_ok_one_resource_do_match_with_equals() {
    match_ok_with_one_resource("a eq \"test1\"");
}

#[test]
fn match_ok_one_resource_do_match_with_correct_contains() {
    match_ok_with_one_resource("b co \"est\"");
}

#[test]
fn match_ok_one_resource_do_match_with_correct_starts_with() {
    match_ok_with_one_resource("b sw \"te\"");
}

#[test]
fn match_ok_one_resource_do_match_with_correct_ends_with() {
    match_ok_with_one_resource("c ew \"st3\"");
}

#[test]
fn match_ok_one_resource_do_match_with_present() {
    match_ok_with_one_resource("c pr");
}

#[test]
fn match_ok_two_resources_with_a_logical_or() {
    match_ok_with_one_resource("a eq \"test1\" or b eq \"test2\"");
}

#[test]
fn match_ok_two_resources_with_a_logical_and() {
    match_ok_with_one_resource("a eq \"test1\" and b eq \"test2\"");
}

#[test]
fn match_ok_two_resources_with_a_logical_or_where_one_is_wrong() {
    match_ok_with_one_resource("a eq \"test1\" or b eq \"test3\"");
}

#[test]
fn match_ok_matches_should_be_case_insensitive() {
    match_ok_with_one_resource("A eq \"test1\"");
}

#[test]
fn match_ok_complex_filter_1() {
    match_ok_with_one_resource("(a eq \"test1\" or b eq \"test3\") and c pr");
}

#[test]
fn match_ok_filter_with_date_that_should_match() {
    match_ok_with_one_resource("datetime gt \"2020-01-01T10:10:10Z\"");
}

#[test]
fn match_ok_filter_with_decimal() {
    match_ok_with_one_resource("decimal gt 9.1");
}

#[test]
fn match_ok_filter_with_complex_attribute_match() {
    match_ok_with_one_resource("a eq \"test1\" and sub_resource[first co \"test-\" and second co \"test-\"]");
}

#[test]
fn match_ok_filter_with_complex_attribute_and_one_single_expression() {
    match_ok_with_one_resource("a eq \"test1\" and sub_resource[first sw \"test-\"]");
}

#[test]
fn match_ok_greaterthan_on_strings() {
    match_ok_with_one_resource("a gt \"tess\"");
}

#[test]
fn match_ok_not_expression() {
    match_ok_with_one_resource("a ge \"tess\" and not (datetime lt \"2020-01-01T10:10:10Z\")");
}

#[test]
fn match_ok_simple_multi_valued_attribute() {
    match_ok_with_one_resource("multi_simple_value eq \"test1\"");
}

#[test]
fn match_ok_simple_multi_valued_attribute_with_ne() {
    match_ok_with_one_resource("multi_simple_value ne \"testZ\"");
}

#[test]
fn match_ok_simple_multi_valued_attribute_with_contains() {
    match_ok_with_one_resource("multi_simple_value co \"test1\"");
}

#[test]
fn match_ok_simple_multi_valued_attribute_with_startswith() {
    match_ok_with_one_resource("multi_simple_value sw \"tes\"");
}

#[test]
fn match_ok_simple_multi_valued_attribute_with_endswith() {
    match_ok_with_one_resource("multi_simple_value ew \"st1\"");
}

#[test]
fn match_ok_simple_multi_valued_attribute_with_greaterthan() {
    match_ok_with_one_resource("multi_simple_value_numbers gt 2");
}

#[test]
fn match_ok_simple_multi_valued_attribute_with_greaterthan_on_strings() {
    match_ok_with_one_resource("multi_simple_value gt \"tess\"");
}

#[test]
fn match_ok_simple_multi_valued_attribute_with_greaterequal_on_strings() {
    match_ok_with_one_resource("multi_simple_value ge \"test\"");
}

#[test]
fn match_ok_simple_multi_valued_attribute_with_greaterequal() {
    match_ok_with_one_resource("multi_simple_value_numbers ge 3");
}

#[test]
fn match_ok_simple_multi_valued_attribute_with_lessthan() {
    match_ok_with_one_resource("multi_simple_value_numbers lt 2");
}

#[test]
fn match_ok_simple_multi_valued_attribute_with_lessthanequal() {
    match_ok_with_one_resource("multi_simple_value_numbers le 1");
}

#[test]
fn match_ok_nested_multi_valued_attribute_with_eq() {
    match_ok_with_one_resource("nested_multi_value.first eq \"test-first1\"");
}

#[test]
fn match_ok_nested_multi_valued_attribute_with_ne() {
    match_ok_with_one_resource("nested_multi_value.first ne \"test-firstZ\"");
}

#[test]
fn match_ok_simple_multi_valued_attribute_with_ne_of_one_item() {
    match_ok_with_one_resource("multi_simple_value ne \"test1\"");
}

#[test]
fn match_ok_filter_on_the_items_of_a_multi_valued_attribute() {
    match_ok_with_one_resource("nested_multi_value[first eq \"test-first2\" and second eq \"test-second2\"]");
}

#[test]
fn match_none_one_resource_do_not_match_with_wrong_equals() {
    match_none_with_one_resource("a eq \"no-match\"");
}

#[test]
fn match_none_one_resource_do_not_match_with_wrong_contains() {
    match_none_with_one_resource("b co \"zest\"");
}

#[test]
fn match_none_one_resource_do_not_match_with_wrong_starts_with() {
    match_none_with_one_resource("b sw \"ze\"");
}

#[test]
fn match_none_one_resource_do_not_match_with_wrong_ends_with() {
    match_none_with_one_resource("c ew \"stX\"");
}

#[test]
fn match_none_one_resource_do_not_match_with_present() {
    match_none_with_one_resource("d pr");
}

#[test]
fn match_none_complex_filter_2() {
    match_none_with_one_resource("a eq \"test1\" and b eq \"test2\" and (c eq \"wrong1\" or c eq \"wrong2\")");
}

#[test]
fn match_none_filter_with_date() {
    match_none_with_one_resource("datetime gt \"2022-01-01T10:10:10Z\"");
}

#[test]
fn match_none_filter_with_complex_attribute_should_not_match() {
    match_none_with_one_resource("a eq \"test1\" and sub_resource[first co \"test-\" and second ew \"test-\"]");
}

#[test]
fn match_none_simple_multi_valued_attribute() {
    match_none_with_one_resource("multi_simple_value eq \"ZZZ\"");
}

#[test]
fn match_none_simple_multi_valued_attribute_with_contains() {
    match_none_with_one_resource("multi_simple_value co \"ZZZ\"");
}

#[test]
fn match_none_simple_multi_valued_attribute_with_startswith() {
    match_none_with_one_resource("multi_simple_value sw \"ZZZ\"");
}

#[test]
fn match_none_simple_multi_valued_attribute_with_endswith() {
    match_none_with_one_resource("multi_simple_value ew \"stZ\"");
}

#[test]
fn match_none_simple_multi_valued_attribute_with_greaterthan() {
    match_none_with_one_resource("multi_simple_value_numbers gt 3");
}

#[test]
fn match_none_simple_multi_valued_attribute_with_greaterthan_on_strings() {
    match_none_with_one_resource("multi_simple_value gt \"testZ\"");
}

#[test]
fn match_none_simple_multi_valued_attribute_with_greaterequal_on_strings() {
    match_none_with_one_resource("multi_simple_value ge \"test4\"");
}

#[test]
fn match_none_simple_multi_valued_attribute_with_greaterequal() {
    match_none_with_one_resource("multi_simple_value_numbers ge 4");
}

#[test]
fn match_none_simple_multi_valued_attribute_with_lessthan() {
    match_none_with_one_resource("multi_simple_value_numbers lt 1");
}

#[test]
fn match_none_simple_multi_valued_attribute_with_lessthanequal() {
    match_none_with_one_resource("multi_simple_value_numbers le 0");
}

#[test]
fn match_none_complex_multi_valued_attribute_with_eq() {
    match_none_with_one_resource("nested_multi_value.first eq \"ZZZZZ\"");
}

#[test]
fn match_none_filter_with_complex_attribute_that_is_absent() {
    match_none_with_one_resource("a eq \"test1\" and subresource[first co \"test-\" and second co \"test-\"]");
}

#[test]
fn match_none_filter_that_no_single_item_of_a_multi_valued_attribute_meets() {
    match_none_with_one_resource("nested_multi_value[first eq \"test-first1\" and second eq \"test-second2\"]");
}

#[test]
fn match_none_equals_string_with_boolean() {
    match_none_with_one_resource("a eq true");
}

#[test]
fn match_none_equals_string_with_datetime() {
    match_none_with_one_resource("a eq \"2022-01-01T10:10:10Z\"");
}

#[test]
fn match_none_equals_string_with_decimal() {
    match_none_with_one_resource("a eq 19.2");
}

#[test]
fn match_none_equals_string_with_integer() {
    match_none_with_one_resource("a eq 11");
}

#[test]
fn match_none_equals_boolean_with_string() {
    match_none_with_one_resource("bool eq \"test\"");
}

#[test]
fn match_none_equals_boolean_with_datetime() {
    match_none_with_one_resource("bool eq \"2022-01-01T10:10:10Z\"");
}

#[test]
fn match_none_equals_boolean_with_decimal() {
    match_none_with_one_resource("bool eq 19.2");
}

#[test]
fn match_none_equals_boolean_with_integer() {
    match_none_with_one_resource("bool eq 11");
}

#[test]
fn match_none_equals_datetime_with_string() {
    match_none_with_one_resource("datetime eq \"test\"");
}

#[test]
fn match_none_equals_datetime_with_boolean() {
    match_none_with_one_resource("datetime eq true");
}

#[test]
fn match_none_equals_datetime_with_decimal() {
    match_none_with_one_resource("datetime eq 19.2");
}

#[test]
fn match_none_equals_datetime_with_integer() {
    match_none_with_one_resource("datetime eq 11");
}

#[test]
fn match_none_equals_decimal_with_string() {
    match_none_with_one_resource("decimal eq \"test\"");
}

#[test]
fn match_none_equals_decimal_with_boolean() {
    match_none_with_one_resource("decimal eq true");
}

#[test]
fn match_none_equals_decimal_with_datetime() {
    match_none_with_one_resource("decimal eq \"2022-01-01T10:10:10Z\"");
}

#[test]
fn match_none_equals_decimal_do_not_work_with_endswith() {
    match_none_with_one_resource("decimal ew \"test\"");
}

#[test]
fn invalid_filter_greater_than_string_with_boolean() {
    invalid_filter("a gt true");
}

#[test]
fn invalid_filter_greater_than_on_bool() {
    invalid_filter("bool gt true");
}

#[test]
fn invalid_filter_greater_than_equal_on_bool() {
    invalid_filter("bool ge true");
}

#[test]
fn invalid_filter_less_than_on_bool() {
    invalid_filter("bool lt true");
}

#[test]
fn invalid_filter_less_than_equal_on_bool() {
    invalid_filter("bool le true");
}

#[test]
fn invalid_filter_greater_than_string_with_datetime() {
    invalid_filter("a gt \"2022-01-01T10:10:10Z\"");
}

#[test]
fn invalid_filter_less_than_string_with_decimal() {
    invalid_filter("a lt 19.2");
}

#[test]
fn invalid_filter_greater_than_equal_boolean_with_string() {
    invalid_filter("bool ge \"test\"");
}

#[test]
fn invalid_filter_less_than_equal_datetime_with_string() {
    invalid_filter("datetime le \"test\"");
}

#[test]
fn invalid_filter_greater_than_decimal_with_string() {
    invalid_filter("decimal gt \"test\"");
}

#[test]
fn invalid_filter_greater_than_on_what_is_absent() {
    invalid_filter("d gt 1");
}

#[test]
fn invalid_filter_and_without_content() {
    invalid_filter("a eq \"test1\" and");
}

#[test]
fn match_all_two_or_should_match_both() {
    match_all_with_two_resources("a eq \"a1\" or b eq \"b2\" or c eq \"c3\"");
}

#[test]
fn match_all_two_all_starting_with_a_should_match() {
    match_all_with_two_resources("a sw \"a\"");
}

#[test]
fn match_none_two_and_should_not_match() {
    match_none_with_two_resources("a eq \"a1\" and b eq \"b2\"");
}

#[test]
fn match_none_two_none_should_not_match() {
    match_none_with_two_resources("a eq \"aaa1\"");
}

#[test]
fn match_partial_two_nested_or_should_match_only_first_resource() {
    match_partial_with_two_resources("a eq \"a1\" and (b eq \"b1\" or b eq \"b2\")", vec![1]);
}

#[test]
fn match_partial_two_nested_and_should_match_only_first_resource() {
    match_partial_with_two_resources("(a eq \"a1\" and b eq \"b1\") or a eq \"b2\"", vec![1]);
}

#[test]
fn match_partial_two_matches_keep_their_order() {
    match_partial_with_two_resources("b eq \"b2\" or c eq \"c3\"", vec![2, 3]);
}

#[test]
fn a_failure_on_one_resource_fails_the_whole() {
    let resources = vec![
        object(vec![("n", whole(1))]),
        object(vec![("n", text("one"))]),
        object(vec![("n", whole(3))]),
    ];
    assert_eq!(
        Err(Error::MalformedNumber("\"one\"".to_string())),
        scim_filter("n gt 0", resources)
    );
}

#[test]
fn a_text_that_is_no_filter_gives_no_resources() {
    assert_eq!(
        Err(Error::Parser("= 1".to_string())),
        scim_filter("= 1", example_resources())
    );
    assert_eq!(
        Err(Error::WrongFilterFormat("a pr b".to_string(), " b".to_string())),
        scim_filter("a pr b", example_resources())
    );
}

#[test]
fn no_resources_give_no_resources() {
    assert_eq!(Ok(vec![]), scim_filter("a pr", vec![]));
}

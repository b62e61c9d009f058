use lib_game_detector::parsers::{
    parse_double_quoted_key_value, parse_until_key_cfg, parse_until_key_json, parse_until_key_yml,
    parse_value_cfg, parse_value_json, parse_value_json_unquoted, parse_value_yml,
};

fn check_double_quoted_key_value(line: &str, key: &str, value: &str, should_pass: bool) {
    if let Some((_, (parsed_key, parsed_value))) = parse_double_quoted_key_value(line) {
        assert_eq!(key == parsed_key && value == parsed_value, should_pass);
    } else {
        assert!(!should_pass);
    }
}

#[test]
fn test_parse_double_quoted_key_value() {
    check_double_quoted_key_value("\t\"key\": \"value\"", "key", "value", true);
    check_double_quoted_key_value("\"key\": \"value\"", "key", "value", false);
    check_double_quoted_key_value("\"key\": false", "key", "false", false);
    check_double_quoted_key_value("\n{\tkey: \"value\"}", "key", "value", false);
    check_double_quoted_key_value("{\n\t\"emn\": \"abc\"}", "emn", "abc", true);
    check_double_quoted_key_value("\t\"key\": \"new\nline\"", "key", "new\nline", true);
    check_double_quoted_key_value("\tkey=value", "key", "value", false);
    check_double_quoted_key_value(
        "{\"key1\": \"val1\", \"key2\": \"val2\"\n}",
        "key1",
        "val1",
        true,
    );
    check_double_quoted_key_value(
        "{\"key1\": \"val2\", \"key2\": \"val2\"\n}",
        "key1",
        "val1",
        false,
    );
    check_double_quoted_key_value(
        "{\"key1\": \"val1\", \"key2\": \"val2\"\n}",
        "key2",
        "val1",
        false,
    );
}

#[test]
fn test_parse_until_key_json() {
    assert!(parse_until_key_json("\"key\": value", "key").is_some());
    assert!(parse_until_key_json("\n\t\"aio\": value", "aio").is_some());
    assert!(parse_until_key_json("{\n\"wrong_key\": value1\n\"key\": value\n}", "key").is_some());
    assert!(parse_until_key_json("{\"wrong_key\": value1\n\"abc\": value2\n}", "abc").is_some());
    assert!(parse_until_key_json("{\"key\": value1}", "abc").is_none());
    assert!(parse_until_key_json("{key: value1\n\"abc\": value2\n}", "key").is_none());
    assert_eq!(
        parse_until_key_json("{\n\"wrong_key\": value1\n\"key\": value\n}", "key"),
        Some(("\"key\": value\n}", String::from("\"key\"")))
    );
}

#[test]
fn test_parse_until_key_yml() {
    assert!(parse_until_key_yml("key: value", "key").is_some());
    assert!(parse_until_key_yml("lmn: value", "lmn").is_some());
    assert!(parse_until_key_yml("{\nwrong_key: value1\nkey: value\n}", "key").is_some());
    assert!(parse_until_key_yml("key1: value1\nkey: value2\n", "key").is_some());
    assert!(parse_until_key_yml("{\n\twrong_key: value1\n\tabc: value2\n}", "abc").is_some());
    assert!(parse_until_key_yml("\"key\": value", "key").is_none());
    assert!(parse_until_key_yml("{\n\"wrong_key\": value1\n\"key\": value\n}", "key").is_none());
}

#[test]
fn test_parse_until_key_cfg() {
    assert!(parse_until_key_cfg("key=value", "key").is_some());
    assert!(parse_until_key_cfg("\n\taio=value", "aio").is_some());
    assert!(parse_until_key_cfg("\nwrong_key=value1\nkey=value\n", "key").is_some());
    assert!(parse_until_key_cfg("wrong_key=value1\nabc=value2\n", "abc").is_some());
    assert!(parse_until_key_cfg("key=value1", "abc").is_none());
    assert!(parse_until_key_cfg("key: value1\n\"key\"=value2\n", "key").is_none());
}

fn check_value(res: Option<(&str, String)>, value: &str, should_pass: bool) {
    if let Some((_, parsed_value)) = res {
        assert_eq!(value == parsed_value, should_pass);
    } else {
        assert!(!should_pass);
    }
}

#[test]
fn test_parse_value_json() {
    check_value(parse_value_json("{\"key\": \"value\"}", "key"), "value", true);
    check_value(parse_value_json("{\"key\": \"value\"}", "key"), "wrong_value", false);
    check_value(
        parse_value_json(
            "{\"wrong_key1\": false, \"wrong_key2\": \"value1\"\n\"key\": \"value2\"\n}",
            "key",
        ),
        "value2",
        true,
    );
    check_value(parse_value_json("{key: \"value\"}", "key"), "value", false);
    check_value(
        parse_value_json(
            "{\"wrong_key1\": false, \"wrong_key2\": \"value1\"\n\"key\": value2\n}",
            "key",
        ),
        "value2",
        false,
    );
}

#[test]
fn test_parse_value_json_unquoted() {
    check_value(parse_value_json_unquoted("\"key\": true", "key"), "true", true);
    check_value(parse_value_json_unquoted("\"key\": true", "key"), "false", false);
    check_value(parse_value_json_unquoted("{key: \"true\"}", "key"), "true", false);
    check_value(parse_value_json_unquoted("key=value", "key"), "value", false);
    check_value(
        parse_value_json_unquoted(
            "{\"wrong_key1\": false, \"wrong_key2\": \"value1\"\n\"key\": true\n}",
            "key",
        ),
        "true",
        true,
    );
    check_value(
        parse_value_json_unquoted(
            "{\"wrong_key1\": false, \"wrong_key2\": \"value1\"\n\"key\": \"value2\"\n}",
            "key",
        ),
        "value2",
        true,
    );
    check_value(parse_value_json_unquoted("\"key\": 123", "key"), "123", true);
    check_value(parse_value_json_unquoted("\"key\": true1,", "key"), "true1", true);
    check_value(parse_value_json_unquoted("\"key\": true1,", "key"), "true", false);
    check_value(parse_value_json_unquoted("\"key\": ", "key"), "", false);
}

#[test]
fn test_parse_value_yml() {
    check_value(parse_value_yml("path: /games/a\n", "path"), "/games/a", true);
    check_value(parse_value_yml("path: /games/a\n", "path"), "games/a", false);
    check_value(parse_value_yml("path:\t \t'quoted' \nnext: x", "path"), "'quoted' ", true);
    check_value(parse_value_yml("path:\nnext: x", "path"), "", true);
    check_value(parse_value_yml("path:", "path"), "", true);
    check_value(parse_value_yml("data:\n\tkey: value", "key"), "value", true);
    check_value(parse_value_yml("data:\n\t\"key\": value", "key"), "value", false);
    check_value(parse_value_yml("key=value", "key"), "value", false);
    check_value(
        parse_value_yml(
            "data:\n\twrong_key1: false\n\twrong_key2: value1\n\tkey: value2\n",
            "key",
        ),
        "value2",
        true,
    );
    check_value(
        parse_value_yml("data:\n\twrong_key1: false\n\twrong_key2: value1\n\tkey: abc\n", "key"),
        "value2",
        false,
    );
}

#[test]
fn test_parse_value_cfg() {
    check_value(parse_value_cfg("\nkey=value", "key"), "value", true);
    check_value(parse_value_cfg("key=value1\n", "key"), "value", false);
    check_value(parse_value_cfg("key=value with space\n", "key"), "value with space", true);
    check_value(parse_value_cfg("key=no new\nline\n", "key"), "no new", true);
    check_value(parse_value_cfg("key=\nvalue", "key"), "value", false);
    check_value(parse_value_cfg("\"key\": \"value\"", "key"), "value", false);
    check_value(
        parse_value_cfg("wrong_key1=false\nwrong_key2=value1\nabc=value2\n", "abc"),
        "value2",
        true,
    );
    check_value(
        parse_value_cfg("data:\n\twrong_key1=false\n\twrong_key2=value1\n\tkey=abc\n", "key"),
        "value2",
        false,
    );
}

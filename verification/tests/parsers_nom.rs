use lib_game_detector::parsers::{
    parse_between_double_quotes, parse_double_quoted_key_value, parse_not_alphanumeric,
    parse_not_double_quote, parse_till_end_of_line, parse_until_key_cfg, parse_until_key_json,
    parse_until_key_yml, parse_value_cfg, parse_value_json, parse_value_json_unquoted,
    parse_value_yml,
};
use nom::{
    bytes::complete::{is_not, tag, take_till, take_until},
    character::complete::{alphanumeric1, char, space0},
    sequence::{delimited, preceded},
    AsChar, IResult, Parser,
};

// The same scanners written with nom's combinators, to compare against.
fn nom_between_double_quotes(input: &str) -> IResult<&str, &str> {
    delimited(char('"'), is_not("\""), char('"')).parse(input)
}

fn nom_not_double_quote(input: &str) -> IResult<&str, &str> {
    is_not("\"")(input)
}

fn nom_not_alphanumeric(input: &str) -> IResult<&str, &str> {
    take_till(|a: char| a.is_alphanum())(input)
}

fn nom_till_end_of_line(input: &str) -> IResult<&str, &str> {
    take_till(|a: char| a.is_newline())(input)
}

fn nom_double_quoted_key_value(line: &str) -> IResult<&str, (&str, &str)> {
    let (line, key) = preceded(nom_not_double_quote, nom_between_double_quotes).parse(line)?;
    let (line, value) = preceded(nom_not_double_quote, nom_between_double_quotes).parse(line)?;
    Ok((line, (key, value)))
}

fn nom_until_key<'a>(file_content: &'a str, marked_key: &str) -> IResult<&'a str, String> {
    let (file_content, _) = take_until(marked_key).parse(file_content)?;
    Ok((file_content, marked_key.to_string()))
}

fn nom_value_json<'a>(file_content: &'a str, key: &str) -> IResult<&'a str, String> {
    let quoted_key = format!("\"{key}\"");
    let (file_content, _) = nom_until_key(file_content, &quoted_key)?;
    let (file_content, _) = tag(quoted_key.as_str()).parse(file_content)?;
    let (file_content, value) =
        preceded(nom_not_double_quote, nom_between_double_quotes).parse(file_content)?;
    Ok((file_content, value.to_string()))
}

fn nom_value_json_unquoted<'a>(file_content: &'a str, key: &str) -> IResult<&'a str, String> {
    let quoted_key = format!("\"{key}\"");
    let (file_content, _) = nom_until_key(file_content, &quoted_key)?;
    let (file_content, _) = tag(quoted_key.as_str()).parse(file_content)?;
    let (file_content, value) =
        preceded(nom_not_alphanumeric, alphanumeric1).parse(file_content)?;
    Ok((file_content, value.to_string()))
}

fn nom_value_yml<'a>(file_content: &'a str, key: &str) -> IResult<&'a str, String> {
    let key_with_colon = format!("{key}:");
    let (file_content, _) = nom_until_key(file_content, &key_with_colon)?;
    let (file_content, _) = tag(key_with_colon.as_str()).parse(file_content)?;
    let (file_content, value) = preceded(space0, nom_till_end_of_line).parse(file_content)?;
    Ok((file_content, value.to_string()))
}

fn nom_value_cfg<'a>(file_content: &'a str, key: &str) -> IResult<&'a str, String> {
    let key_with_equals = format!("{key}=");
    let (file_content, _) = nom_until_key(file_content, &key_with_equals)?;
    let (file_content, _) = tag(key_with_equals.as_str()).parse(file_content)?;
    let (file_content, value) = nom_till_end_of_line(file_content)?;
    Ok((file_content, value.to_string()))
}

fn corpus() -> Vec<&'static str> {
    vec![
        "",
        "\"",
        "\"\"",
        "\"a\"",
        "\"a",
        "a\"",
        "x\"a\"",
        " \"a\" : \"b\" ",
        "\"key\": \"value\"",
        "\t\"key\": \"value\"",
        "\"key\":\"value\"",
        "\"key\": \"\"",
        "\"key\": \"new\nline\"",
        "\"key\": false",
        "\"key\": true,\n\"other\": 12",
        "\"key\": 12",
        "\"key\":    yes please",
        "\"key\"",
        "{\"key1\": \"val1\", \"key2\": \"val2\"\n}",
        "{\n\"wrong_key\": value1\n\"key\": value\n}",
        "key: value",
        "key:value",
        "key:",
        "key: \n next: line",
        "key: \t /path with: colon\r\nnext",
        "\"key\": 123, \"other\": 4x5y",
        "\"key\":true1}",
        "title: \u{4e0a}\u{6d77} Game\u{10a}\nnext: \u{141}\u{2030}1",
        "\"key\": \u{2030}\u{141}abc1\u{4e0a}",
        "key=\u{4e0a}\u{6d77}\nkey=second",
        "key:   /path/to/file\nother: 1",
        "data:\n\tkey: value",
        "data:\n\twrong_key1: false\n\twrong_key2: value1\n\tkey: value2\n",
        "monkey: banana\nkey: apple",
        "key=value",
        "key=",
        "key=value with space\nnext=1",
        "\nkey=value",
        "wrong_key1=false\nwrong_key2=value1\nabc=value2\n",
        "InstanceDir=instances\n",
        "no keys here at all",
        "\n\n\n",
        "unicode: caf\u{e9} \u{2014} na\u{ef}ve\nkey: \u{e9}t\u{e9}",
        "\"name\": \"Gr\u{fc}\u{df}e\"",
        "   leading spaces",
        "123abc",
        "---\n",
    ]
}

fn keys() -> Vec<&'static str> {
    vec!["key", "key1", "key2", "name", "abc", "other", "InstanceDir", "", "k", "wrong_key1"]
}

fn simple(res: IResult<&str, &str>) -> Option<(String, String)> {
    res.ok().map(|(rest, value)| (rest.to_string(), value.to_string()))
}

fn owned(res: IResult<&str, String>) -> Option<(String, String)> {
    res.ok().map(|(rest, value)| (rest.to_string(), value))
}

fn ours(res: Option<(&str, String)>) -> Option<(String, String)> {
    res.map(|(rest, value)| (rest.to_string(), value))
}

#[test]
fn general_scanners_agree_with_nom() {
    for input in corpus() {
        assert_eq!(
            ours(parse_between_double_quotes(input)),
            simple(nom_between_double_quotes(input)),
            "between double quotes on {input:?}"
        );
        assert_eq!(
            ours(parse_not_double_quote(input)),
            simple(nom_not_double_quote(input)),
            "not double quote on {input:?}"
        );
        assert_eq!(
            ours(Some(parse_not_alphanumeric(input))),
            simple(nom_not_alphanumeric(input)),
            "not alphanumeric on {input:?}"
        );
        assert_eq!(
            ours(Some(parse_till_end_of_line(input))),
            simple(nom_till_end_of_line(input)),
            "till end of line on {input:?}"
        );
        let expected = nom_double_quoted_key_value(input)
            .ok()
            .map(|(rest, (key, value))| (rest.to_string(), key.to_string(), value.to_string()));
        let found = parse_double_quoted_key_value(input)
            .map(|(rest, (key, value))| (rest.to_string(), key, value));
        assert_eq!(found, expected, "double quoted key value on {input:?}");
    }
}

#[test]
fn key_scanners_agree_with_nom() {
    for input in corpus() {
        for key in keys() {
            assert_eq!(
                ours(parse_until_key_json(input, key)),
                owned(nom_until_key(input, &format!("\"{key}\""))),
                "until key json {key:?} on {input:?}"
            );
            assert_eq!(
                ours(parse_until_key_yml(input, key)),
                owned(nom_until_key(input, &format!("{key}:"))),
                "until key yml {key:?} on {input:?}"
            );
            assert_eq!(
                ours(parse_until_key_cfg(input, key)),
                owned(nom_until_key(input, &format!("{key}="))),
                "until key cfg {key:?} on {input:?}"
            );
        }
    }
}

#[test]
fn value_scanners_agree_with_nom() {
    for input in corpus() {
        for key in keys() {
            assert_eq!(
                ours(parse_value_json(input, key)),
                owned(nom_value_json(input, key)),
                "value json {key:?} on {input:?}"
            );
            assert_eq!(
                ours(parse_value_json_unquoted(input, key)),
                owned(nom_value_json_unquoted(input, key)),
                "value json unquoted {key:?} on {input:?}"
            );
            assert_eq!(
                ours(parse_value_yml(input, key)),
                owned(nom_value_yml(input, key)),
                "value yml {key:?} on {input:?}"
            );
            assert_eq!(
                ours(parse_value_cfg(input, key)),
                owned(nom_value_cfg(input, key)),
                "value cfg {key:?} on {input:?}"
            );
        }
    }
}

#[test]
fn exact_values_and_remainders() {
    assert_eq!(
        parse_value_json("{\"id\": \"1\", \"title\": \"Game A\"}", "id"),
        Some((", \"title\": \"Game A\"}", String::from("1")))
    );
    assert_eq!(
        parse_value_json_unquoted("\"is_installed\": false,", "is_installed"),
        Some((",", String::from("false")))
    );
    assert_eq!(
        parse_value_yml("name: My Game\npath: x", "name"),
        Some(("\npath: x", String::from("My Game")))
    );
    assert_eq!(
        parse_value_cfg("id=1\npath=/games/a", "path"),
        Some(("", String::from("/games/a")))
    );
    assert_eq!(
        parse_between_double_quotes("\"a b\" rest"),
        Some((" rest", String::from("a b")))
    );
    assert_eq!(parse_not_double_quote("ab\"cd"), Some(("\"cd", String::from("ab"))));
    assert_eq!(parse_not_alphanumeric(": /x"), ("x", String::from(": /")));
    assert_eq!(parse_till_end_of_line("one\ntwo"), ("\ntwo", String::from("one")));
}

#[test]
fn malformed_and_truncated_input_is_no_match() {
    assert_eq!(parse_value_json("", "key"), None);
    assert_eq!(parse_value_json("\"key\": \"unterminated", "key"), None);
    assert_eq!(parse_value_json("\"key\"", "key"), None);
    assert_eq!(parse_value_json("\"key\": \"\"", "key"), None);
    assert_eq!(parse_value_json_unquoted("\"key\": 12", "key"), Some(("", String::from("12"))));
    assert_eq!(parse_value_json_unquoted("\"key\": ,;", "key"), None);
    assert_eq!(parse_value_yml("", "key"), None);
    assert_eq!(parse_value_cfg("key", "key"), None);
    assert_eq!(parse_between_double_quotes("\"\""), None);
    assert_eq!(parse_between_double_quotes("no quote"), None);
    assert_eq!(parse_double_quoted_key_value("\"only\""), None);
}

#[test]
fn lines_end_only_at_a_line_feed_and_only_ascii_is_alphanumeric() {
    assert_eq!(
        parse_till_end_of_line("caf\u{e9} \u{4e0a}\u{10a}\r end\nnext"),
        ("\nnext", String::from("caf\u{e9} \u{4e0a}\u{10a}\r end"))
    );
    assert_eq!(
        parse_not_alphanumeric("\u{141}\u{2030}\u{e9} x"),
        ("x", String::from("\u{141}\u{2030}\u{e9} "))
    );
    assert_eq!(
        parse_value_yml("title: \u{4e0a}\u{6d77} Game\n", "title"),
        Some(("\n", String::from("\u{4e0a}\u{6d77} Game")))
    );
    assert_eq!(
        parse_value_cfg("title=\u{4e0a}\u{6d77} Game\n", "title"),
        Some(("\n", String::from("\u{4e0a}\u{6d77} Game")))
    );
}

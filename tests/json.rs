use sim8086::json::{JsonElement, JsonParser, JsonTokenType};

fn next_token_matches(parser: &mut JsonParser, token_type: JsonTokenType, value: &[u8]) -> bool {
    let buffer = parser.buffer;
    match parser.next_token() {
        Ok(Some(token)) => {
            let token_types_match = token.token_type == token_type;
            let token_values_match = &buffer[token.start..token.end] == value;
            if !token_types_match {
                println!("expected token {:?} but got token {:?}", token_type, token.token_type);
            }
            if !token_values_match {
                println!(
                    "expected token value '{}' but got '{}'",
                    String::from_utf8_lossy(value),
                    String::from_utf8_lossy(&buffer[token.start..token.end])
                );
            }
            token_types_match && token_values_match
        },
        Ok(None) => {
            println!("expected token {:?} but lexer returned None", token_type);
            false
        },
        Err(err) => {
            println!("expected token {:?} but lexer errored: {} at position {}", token_type, err.message, err.at);
            false
        },
    }
}

fn next_token_is_invalid(parser: &mut JsonParser) -> bool {
    parser.next_token().is_err()
}

fn leaf(label: Option<&str>, value: &str) -> JsonElement {
    JsonElement::new(label.map(String::from), Some(String::from(value)), vec![])
}

#[test]
fn element_lookup() {
    let my_str_label = String::from("my_str_label");
    let my_str_val = String::from("Hello World!");
    let object = JsonElement::new(
        None,
        None,
        vec![
            JsonElement::new(Some(String::from("my_num")), None, vec![]),
            JsonElement::new(Some(my_str_label.clone()), Some(my_str_val.clone()), vec![]),
        ],
    );

    let maybe_element = object.get_element(&my_str_label);
    assert!(maybe_element.is_some());

    let element = maybe_element.unwrap();
    let obj_element = &object.children[1];
    assert!(std::ptr::eq(element, obj_element));

    let value = element.value.as_ref().unwrap();
    assert_eq!(*value, my_str_val);
}

#[test]
fn parse_objects() {
    let mut parser = JsonParser::new(br#"{ "s": "world", "number": 12 }"#);
    parser.position += 1;
    let object = JsonParser::parse_object(parser.buffer, &mut parser.position)
        .unwrap_or_else(|err| panic!("invalid json at position {}: {}", err.at, err.message));
    let child = object.get_element("s").expect("object did not have element with label \"s\"");
    let value = child.value.as_ref().expect("child element with label \"s\" has no value");
    assert_eq!(value, r#""world""#);
    let child = object.get_element("number").expect("object did not have element with label \"number\"");
    let value = child.value.as_ref().expect("child element with label \"number\" has no value");
    assert_eq!(value, "12");

    let mut parser = JsonParser::new(br#"{ "hello": "world", "nested": { "number": 10 } }"#);
    parser.position += 1;
    let object = JsonParser::parse_object(parser.buffer, &mut parser.position)
        .unwrap_or_else(|err| panic!("invalid json at position {}: {}", err.at, err.message));
    let object = object.get_element("nested").expect("object did not have element with label \"nested\"");
    assert!(object.value.is_none(), "nested object element had a value for some reason");
    let child = object.get_element("number").expect("nested object did not have element with label \"number\"");
    let value = child.value.as_ref().expect("child element with label \"number\" has no value");
    assert_eq!(value, "10");
}

#[test]
fn parse_arrays() {
    let mut parser = JsonParser::new(br#"[ 1, -22.45e10, "hello world", { "bool": true }, null, [ "nested array" ] ]"#);
    parser.position += 1;
    let array = JsonParser::parse_array(parser.buffer, &mut parser.position)
        .unwrap_or_else(|err| panic!("invalid json at position {}: {}", err.at, err.message));
    let item = array.get_element("0").expect("array did not have element at 0");
    let value = item.value.as_ref().expect("0th element did not have a value");
    assert_eq!(value, "1");
    let item = array.get_element("1").expect("array did not have element at 1");
    let value = item.value.as_ref().expect("element at 1 did not have a value");
    assert_eq!(value, "-22.45e10");
    let item = array.get_element("2").expect("array did not have element at 2");
    let value = item.value.as_ref().expect("element at 2 did not have a value");
    assert_eq!(value, r#""hello world""#);
    let item = array
        .get_element("3").expect("array did not have element at 3")
        .get_element("bool").expect("nested object in array did not have element named \"bool\"");
    let value = item.value.as_ref().expect("nested object element \"bool\" did not have a value");
    assert_eq!(value, "true");
    let item = array.get_element("4").expect("array did not have element at 4");
    let value = item.value.as_ref().expect("element at 4 did not have a value");
    assert_eq!(value, "null");
    let item = array
        .get_element("5").expect("array did not have element at 5")
        .get_element("0").expect("nested array did not have element at 0");
    let value = item.value.as_ref().expect("element at 0 in nested array had no value somehow");
    assert_eq!(value, r#""nested array""#);
}

#[test]
fn parse_simple_values() {
    let mut parser = JsonParser::new(b"false");
    let element = JsonParser::parse_value(parser.buffer, &mut parser.position).unwrap_or_else(|err| panic!("invalid json at position {}: {}", err.at, err.message));
    let value = element.value.as_ref().expect("json element had no value");
    assert_eq!(value, "false");

    let mut parser = JsonParser::new(b"true");
    let element = JsonParser::parse_value(parser.buffer, &mut parser.position).unwrap_or_else(|err| panic!("invalid json at position {}: {}", err.at, err.message));
    let value = element.value.as_ref().expect("json element had no value");
    assert_eq!(value, "true");

    let mut parser = JsonParser::new(b"null");
    let element = JsonParser::parse_value(parser.buffer, &mut parser.position).unwrap_or_else(|err| panic!("invalid json at position {}: {}", err.at, err.message));
    let value = element.value.as_ref().expect("json element had no value");
    assert_eq!(value, "null");

    let mut parser = JsonParser::new(br#""Hello, World!""#);
    let element = JsonParser::parse_value(parser.buffer, &mut parser.position).unwrap_or_else(|err| panic!("invalid json at position {}: {}", err.at, err.message));
    let value = element.value.as_ref().expect("json element had no value");
    assert_eq!(value, r#""Hello, World!""#);

    let mut parser = JsonParser::new(b"-1059.4729887E+744");
    let element = JsonParser::parse_value(parser.buffer, &mut parser.position).unwrap_or_else(|err| panic!("invalid json at position {}: {}", err.at, err.message));
    let value = element.value.as_ref().expect("json element had no value");
    assert_eq!(value, "-1059.4729887E+744");
}

#[test]
fn json_element_iterator() {
    let json_element = JsonElement::new(None, None, vec![leaf(None, "1"), leaf(None, "2"), leaf(None, "3")]);

    let mut element_iterator = json_element.iter();
    let child = element_iterator.next().expect("first child was None");
    assert_eq!(child.value.as_ref().unwrap(), "1");
    let child = element_iterator.next().expect("second child was None");
    assert_eq!(child.value.as_ref().unwrap(), "2");
    let child = element_iterator.next().expect("third child was None");
    assert_eq!(child.value.as_ref().unwrap(), "3");
}

#[test]
fn lex_string_literals() {
    let string = br#""a""#;
    assert!(next_token_matches(&mut JsonParser::new(string), JsonTokenType::StringLiteral, string));

    let string = br#""Hello World!""#;
    assert!(next_token_matches(&mut JsonParser::new(string), JsonTokenType::StringLiteral, string));

    let string = br#"" \"\\\/\b\f\n\r\t\ufa05 World!""#;
    assert!(next_token_matches(&mut JsonParser::new(string), JsonTokenType::StringLiteral, string));

    let string = br#""bad hex \ufa test""#;
    assert!(next_token_is_invalid(&mut JsonParser::new(string)));

    let string = br#""intentionally missing a quote at the end"#;
    assert!(next_token_is_invalid(&mut JsonParser::new(string)));
}

#[test]
fn lex_punctuation() {
    let mut parser = JsonParser::new(b"[]{}:,");
    assert!(next_token_matches(&mut parser, JsonTokenType::OpenBracket, b"["));
    assert!(next_token_matches(&mut parser, JsonTokenType::CloseBracket, b"]"));
    assert!(next_token_matches(&mut parser, JsonTokenType::OpenBrace, b"{"));
    assert!(next_token_matches(&mut parser, JsonTokenType::CloseBrace, b"}"));
    assert!(next_token_matches(&mut parser, JsonTokenType::Colon, b":"));
    assert!(next_token_matches(&mut parser, JsonTokenType::Comma, b","));
}

#[test]
fn lex_keywords() {
    let mut parser = JsonParser::new(b"truetttt");
    assert!(next_token_matches(&mut parser, JsonTokenType::True, b"true"));
    assert!(next_token_is_invalid(&mut parser));

    let mut parser = JsonParser::new(b"falseffff");
    assert!(next_token_matches(&mut parser, JsonTokenType::False, b"false"));
    assert!(next_token_is_invalid(&mut parser));

    let mut parser = JsonParser::new(b"nullnnnn");
    assert!(next_token_matches(&mut parser, JsonTokenType::Null, b"null"));
    assert!(next_token_is_invalid(&mut parser));
}

#[test]
fn lex_numbers() {
    let mut parser = JsonParser::new(b"100 0.123E+45 -4278.45e12 1.2e+4");
    assert!(next_token_matches(&mut parser, JsonTokenType::Number, b"100"));
    assert!(next_token_matches(&mut parser, JsonTokenType::Number, b"0.123E+45"));
    assert!(next_token_matches(&mut parser, JsonTokenType::Number, b"-4278.45e12"));
    assert!(next_token_matches(&mut parser, JsonTokenType::Number, b"1.2e+4"));
}

#[test]
fn lex_end_of_input_and_bad_character() {
    let mut parser = JsonParser::new(b"   ");
    assert!(matches!(parser.next_token(), Ok(None)));
    assert_eq!(parser.position, 3);

    let mut parser = JsonParser::new(b"  @");
    let err = parser.next_token().unwrap_err();
    assert_eq!(err.at, 2);
    assert_eq!(parser.position, 0);
}

#[test]
fn parse_errors() {
    let parser = JsonParser::new(b"");
    assert_eq!(parser.parse().unwrap_err().at, 0);

    let parser = JsonParser::new(b" ]");
    assert_eq!(parser.parse().unwrap_err().at, 2);

    let parser = JsonParser::new(br#"{ "a" 1 }"#);
    assert!(parser.parse().is_err());

    let parser = JsonParser::new(br#"[ 1 2 ]"#);
    assert!(parser.parse().is_err());

    let parser = JsonParser::new(br#"{ "a": [ 1, { "b": null } ] }"#);
    let json = parser.parse().unwrap();
    let b = json.get_element("a").unwrap().get_element("1").unwrap().get_element("b").unwrap();
    assert_eq!(b.value.as_deref(), Some("null"));
    assert_eq!(b.label.as_deref(), Some("b"));
}

#[test]
fn invalid_utf8_in_values_is_replaced() {
    let parser = JsonParser::new(b"[\"a\xffb\"]");
    let array = parser.parse().unwrap();
    let item = array.get_element("0").unwrap();
    assert_eq!(item.value.as_deref(), Some("\"a\u{fffd}b\""));
}

#[test]
fn error_and_token_text() {
    let err = JsonParser::new(b"  ]").parse().unwrap_err();
    assert!(err.describe().starts_with("invalid json at position 3: "));
    assert_eq!(JsonTokenType::OpenBrace.name(), "open brace ({)");
    assert_eq!(JsonTokenType::Comma.name(), "comma (,)");
}

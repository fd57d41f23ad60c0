use call_agent::json::JsonValue;
use call_agent::json::parse_text;
use call_agent::json::to_text;
use call_agent::json::token_to_u64;
use call_agent::json::u64_to_token;
use call_agent::prompt::decode_message;
use call_agent::prompt::encode_content;
use call_agent::prompt::encode_message;
use call_agent::prompt::Message;
use call_agent::prompt::MessageContext;
use call_agent::prompt::MessageImage;
use call_agent::function::decode_arguments;
use call_agent::function::decode_call;
use call_agent::function::encode_call;
use call_agent::function::FunctionCall;
use call_agent::function::FunctionCallInner;

fn s(x: &str) -> String {
    x.to_string()
}

fn obj(fields: Vec<(&str, JsonValue)>) -> JsonValue {
    JsonValue::Obj(fields.into_iter().map(|(k, v)| (s(k), v)).collect())
}

#[test]
fn print_scalars() {
    assert_eq!(to_text(&JsonValue::Null), "null");
    assert_eq!(to_text(&JsonValue::Bool(true)), "true");
    assert_eq!(to_text(&JsonValue::Bool(false)), "false");
    assert_eq!(to_text(&JsonValue::Num(s("0.5"))), "0.5");
    assert_eq!(to_text(&JsonValue::Str(s("hi"))), "\"hi\"");
}

#[test]
fn print_escapes() {
    let v = JsonValue::Str(s("a\"b\\c\nd\te\rf"));
    assert_eq!(to_text(&v), "\"a\\\"b\\\\c\\nd\\te\\rf\"");
}

#[test]
fn print_nested() {
    let v = obj(vec![
        ("a", JsonValue::Arr(vec![JsonValue::Num(s("1")), JsonValue::Null])),
        ("b", obj(vec![("c", JsonValue::Str(s("x")))])),
    ]);
    assert_eq!(to_text(&v), "{\"a\":[1,null],\"b\":{\"c\":\"x\"}}");
}

#[test]
fn parse_scalars() {
    assert_eq!(parse_text("null"), Some(JsonValue::Null));
    assert_eq!(parse_text(" true "), Some(JsonValue::Bool(true)));
    assert_eq!(parse_text("false"), Some(JsonValue::Bool(false)));
    assert_eq!(parse_text("-12e3"), Some(JsonValue::Num(s("-12e3"))));
    assert_eq!(parse_text("\"x=1\""), Some(JsonValue::Str(s("x=1"))));
}

#[test]
fn parse_rejects_malformed() {
    assert_eq!(parse_text(""), None);
    assert_eq!(parse_text("x=1"), None);
    assert_eq!(parse_text("{\"a\":}"), None);
    assert_eq!(parse_text("[1,]"), None);
    assert_eq!(parse_text("01"), None);
    assert_eq!(parse_text("1 2"), None);
    assert_eq!(parse_text("\"unterminated"), None);
}

#[test]
fn parse_with_whitespace() {
    let v = parse_text(" { \"a\" : [ 1 , 2 ] , \"b\" : \"x\" } ").unwrap();
    assert_eq!(
        v,
        obj(vec![
            ("a", JsonValue::Arr(vec![JsonValue::Num(s("1")), JsonValue::Num(s("2"))])),
            ("b", JsonValue::Str(s("x"))),
        ])
    );
}

#[test]
fn parse_unescapes() {
    let v = parse_text("\"a\\\"b\\\\c\\nd\\t\\r\\b\\f\\/\"").unwrap();
    assert_eq!(v, JsonValue::Str(s("a\"b\\c\nd\t\r\u{8}\u{c}/")));
}

#[test]
fn parse_reads_unicode_escapes() {
    assert_eq!(parse_text("\"\\u0041\\u00e9\\u28ff\""), Some(JsonValue::Str(s("A\u{e9}\u{28ff}"))));
    // An escape naming a surrogate or holding a non-hex digit fails.
    assert_eq!(parse_text("\"\\ud800\""), None);
    assert_eq!(parse_text("\"\\u00g1\""), None);
    assert_eq!(parse_text("\"\\u12\""), None);
}

#[test]
fn text_round_trips() {
    let samples = vec![
        "null",
        "true",
        "[]",
        "{}",
        "0",
        "-0.25e-2",
        "{\"a\":[1,null,\"x\\\"y\"],\"b\":{\"c\":false}}",
        "[[[[1]]]]",
    ];
    for t in samples {
        let v = parse_text(t).unwrap();
        assert_eq!(to_text(&v), t);
    }
}

#[test]
fn printed_text_reparses() {
    let v = obj(vec![
        ("k", JsonValue::Arr(vec![JsonValue::Str(s("a\nb")), JsonValue::Num(s("3.5"))])),
    ]);
    let t = to_text(&v);
    assert_eq!(parse_text(&t), Some(v));
}

#[test]
fn printed_text_matches_outside_reader() {
    let v = obj(vec![
        ("text", JsonValue::Str(s("line1\nline2\t\"q\""))),
        ("n", JsonValue::Num(s("-1.5e3"))),
        ("l", JsonValue::Arr(vec![JsonValue::Bool(true), JsonValue::Null])),
    ]);
    let t = to_text(&v);
    let outside: serde_json::Value = serde_json::from_str(&t).unwrap();
    assert_eq!(outside["text"], serde_json::Value::String(s("line1\nline2\t\"q\"")));
    assert_eq!(outside["n"].as_f64(), Some(-1500.0));
    assert_eq!(outside["l"][0], serde_json::Value::Bool(true));
    assert_eq!(outside["l"][1], serde_json::Value::Null);
}

#[test]
fn decimal_tokens() {
    assert_eq!(u64_to_token(0), "0");
    assert_eq!(u64_to_token(10570), "10570");
    assert_eq!(u64_to_token(u64::MAX), "18446744073709551615");
    assert_eq!(token_to_u64(&s("18446744073709551615")), Some(u64::MAX));
    assert_eq!(token_to_u64(&s("18446744073709551616")), None);
    assert_eq!(token_to_u64(&s("")), None);
    assert_eq!(token_to_u64(&s("12a")), None);
    assert_eq!(token_to_u64(&s("042")), Some(42));
}

#[test]
fn content_collapses_single_text() {
    let c = vec![MessageContext::Text(s("hi"))];
    assert_eq!(encode_content(&c), JsonValue::Str(s("hi")));
}

#[test]
fn content_with_two_items_stays_an_array() {
    let c = vec![
        MessageContext::Text(s("hi")),
        MessageContext::Image(MessageImage { url: s("https://example.com/i.jpg"), detail: None }),
    ];
    let t = to_text(&encode_content(&c));
    assert_eq!(
        t,
        "[{\"type\":\"text\",\"text\":\"hi\"},\
         {\"type\":\"image_url\",\"image_url\":{\"url\":\"https://example.com/i.jpg\"}}]"
    );
}

#[test]
fn user_message_encodes_with_collapsed_content() {
    let m = Message::User { name: Some(s("alice")), content: vec![MessageContext::Text(s("hi"))] };
    let t = to_text(&encode_message(&m));
    assert_eq!(t, "{\"role\":\"user\",\"name\":\"alice\",\"content\":\"hi\"}");
}

#[test]
fn message_round_trips_every_role() {
    let call = FunctionCall {
        id: s("call_1"),
        tool_type: s("function"),
        function: FunctionCallInner {
            name: s("get_weather"),
            arguments: obj(vec![("x", JsonValue::Num(s("1")))]),
        },
    };
    let samples = vec![
        Message::User { name: None, content: vec![MessageContext::Text(s("hi"))] },
        Message::User {
            name: Some(s("u")),
            content: vec![
                MessageContext::Text(s("a")),
                MessageContext::Image(MessageImage { url: s("data:x"), detail: Some(s("low")) }),
            ],
        },
        Message::Tool { tool_call_id: s("call_1"), content: vec![MessageContext::Text(s("ok"))] },
        Message::Assistant {
            name: Some(s("bot")),
            content: vec![MessageContext::Text(s("using a tool"))],
            tool_calls: Some(vec![call]),
        },
        Message::Assistant {
            name: None,
            content: vec![MessageContext::Text(s(""))],
            tool_calls: None,
        },
        Message::System { name: None, content: s("be brief") },
        Message::Developer { name: Some(s("d")), content: s("rules") },
    ];
    for m in samples {
        let encoded = encode_message(&m);
        let decoded = decode_message(&encoded).unwrap();
        assert_eq!(decoded, m);
    }
}

#[test]
fn arguments_encode_as_a_json_string() {
    let call = FunctionCall {
        id: s("c1"),
        tool_type: s("function"),
        function: FunctionCallInner {
            name: s("f"),
            arguments: obj(vec![("x", JsonValue::Num(s("1")))]),
        },
    };
    let t = to_text(&encode_call(&call));
    assert_eq!(
        t,
        "{\"id\":\"c1\",\"type\":\"function\",\
         \"function\":{\"name\":\"f\",\"arguments\":\"{\\\"x\\\":1}\"}}"
    );
}

#[test]
fn arguments_leniency_object_payload() {
    // A JSON-encoded string of an object yields the parsed object.
    let wire = JsonValue::Str(s("{\"x\":1}"));
    assert_eq!(decode_arguments(&wire), obj(vec![("x", JsonValue::Num(s("1")))]));
}

#[test]
fn arguments_leniency_string_payload() {
    // A JSON-encoded string of a string yields that string.
    let wire = JsonValue::Str(s("\"x=1\""));
    assert_eq!(decode_arguments(&wire), JsonValue::Str(s("x=1")));
}

#[test]
fn arguments_leniency_raw_fallback() {
    // A string that is not JSON at all is kept as raw text.
    let wire = JsonValue::Str(s("x=1"));
    assert_eq!(decode_arguments(&wire), JsonValue::Str(s("x=1")));
    // A non-string value stands for itself.
    let wire = JsonValue::Arr(vec![JsonValue::Num(s("1"))]);
    assert_eq!(decode_arguments(&wire), JsonValue::Arr(vec![JsonValue::Num(s("1"))]));
}

#[test]
fn call_decodes_from_wire_text() {
    let t = "{\"id\":\"c9\",\"type\":\"function\",\
             \"function\":{\"name\":\"g\",\"arguments\":\"{\\\"q\\\":\\\"rain\\\"}\"}}";
    let tree = parse_text(t).unwrap();
    let c = decode_call(&tree).unwrap();
    assert_eq!(c.id, "c9");
    assert_eq!(c.function.name, "g");
    assert_eq!(c.function.arguments, obj(vec![("q", JsonValue::Str(s("rain")))]));
}

#[test]
fn message_decode_rejects_unknown_role() {
    let tree = parse_text("{\"role\":\"robot\",\"content\":\"hi\"}").unwrap();
    assert!(decode_message(&tree).is_none());
    let tree = parse_text("{\"content\":\"hi\"}").unwrap();
    assert!(decode_message(&tree).is_none());
}

#[test]
fn message_decode_reads_bare_string_content() {
    let tree = parse_text("{\"role\":\"user\",\"content\":\"hi\"}").unwrap();
    let m = decode_message(&tree).unwrap();
    assert_eq!(m, Message::User { name: None, content: vec![MessageContext::Text(s("hi"))] });
}

#[test]
fn message_round_trips_through_wire_text() {
    let m = Message::Assistant {
        name: Some(s("bot")),
        content: vec![MessageContext::Text(s("checking the weather\nhold on"))],
        tool_calls: Some(vec![FunctionCall {
            id: s("call_42"),
            tool_type: s("function"),
            function: FunctionCallInner {
                name: s("get_weather"),
                arguments: obj(vec![
                    ("city", JsonValue::Str(s("Kyoto"))),
                    ("days", JsonValue::Arr(vec![JsonValue::Num(s("1")), JsonValue::Num(s("2"))])),
                ]),
            },
        }]),
    };
    let text = to_text(&encode_message(&m));
    let tree = parse_text(&text).unwrap();
    assert_eq!(decode_message(&tree).unwrap(), m);
}

#[test]
fn participant_names_are_validated() {
    assert!(call_agent::prompt::valid_name("alice_2-b"));
    assert!(!call_agent::prompt::valid_name(""));
    assert!(!call_agent::prompt::valid_name("a b"));
    assert!(!call_agent::prompt::valid_name("nom.de.plume"));
}

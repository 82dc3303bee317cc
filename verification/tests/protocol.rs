use rtcv_bridge::api::Api;
use rtcv_bridge::dispatch::{
    failure_response, handle_in_message, invalid_input_response, ready_message, Step,
};
use rtcv_bridge::errors::DomainError;
use rtcv_bridge::json::{json_to_string, parse_json_u64, JsonVal};
use rtcv_bridge::messages::{InMessages, OkContent, OutMessages};
use rtcv_bridge::rtcv_types::UserSecret;

/// The conversion the surrounding process performs: generic JSON into the
/// library's value model.
fn to_json_val(v: serde_json::Value) -> JsonVal {
    match v {
        serde_json::Value::Null => JsonVal::Null,
        serde_json::Value::Bool(b) => JsonVal::Bool(b),
        serde_json::Value::Number(n) => JsonVal::Num(n.to_string()),
        serde_json::Value::String(s) => JsonVal::Str(s),
        serde_json::Value::Array(elems) => {
            JsonVal::Arr(elems.into_iter().map(to_json_val).collect())
        }
        serde_json::Value::Object(fields) => {
            JsonVal::Obj(fields.into_iter().map(|(k, v)| (k, to_json_val(v))).collect())
        }
    }
}

fn parse(line: &str) -> JsonVal {
    to_json_val(serde_json::from_str::<serde_json::Value>(line).unwrap())
}

#[test]
fn ping_line_yields_pong_line() {
    let mut api = Api::new();
    let input = InMessages::from_json_value(parse("{\"type\":\"ping\"}")).unwrap();
    let step = handle_in_message(&mut api, input, 0).unwrap();
    let reply = match step {
        Step::Reply(reply) => reply,
        Step::Call { .. } => panic!("ping needs no network call"),
    };
    assert_eq!(reply.as_json(), "{\"type\":\"pong\"}");
}

#[test]
fn unknown_or_malformed_lines_decode_to_none() {
    assert!(InMessages::from_json_value(parse("{\"type\":\"reboot\"}")).is_none());
    assert!(InMessages::from_json_value(parse("{\"content\":1}")).is_none());
    assert!(InMessages::from_json_value(parse("[1,2]")).is_none());
    assert!(InMessages::from_json_value(parse("{\"type\":\"send_cv\"}")).is_none());
}

#[test]
fn command_lines_decode_to_their_commands() {
    let m = InMessages::from_json_value(parse(
        "{\"type\":\"set_credentials\",\"content\":{\"server_location\":\"http://h\",\"api_key_id\":\"id\",\"api_key\":\"k\"}}",
    ))
    .unwrap();
    match m {
        InMessages::SetCredentials(c) => {
            assert_eq!(c.server_location, "http://h");
            assert_eq!(c.api_key_id, "id");
            assert_eq!(c.api_key, "k");
        }
        _ => panic!("expected a set_credentials command"),
    }
    let m = InMessages::from_json_value(parse(
        "{\"type\":\"get_user_secret\",\"content\":{\"encryption_key\":\"e\",\"key\":null}}",
    ))
    .unwrap();
    match m {
        InMessages::GetUserSecret(args) => {
            assert_eq!(args.encryption_key, "e");
            assert_eq!(args.key, None);
        }
        _ => panic!("expected a get_user_secret command"),
    }
    let m = InMessages::from_json_value(parse(
        "{\"type\":\"get_secret\",\"content\":{\"encryption_key\":\"e\",\"key\":\"k\"}}",
    ))
    .unwrap();
    match m {
        InMessages::GetSecret(args) => assert_eq!(args.key, Some("k".to_string())),
        _ => panic!("expected a get_secret command"),
    }
    let m = InMessages::from_json_value(parse(
        "{\"type\":\"has_cached_reference\",\"content\":\"ABC\"}",
    ))
    .unwrap();
    assert!(matches!(m, InMessages::HasCachedReference(r) if r == "ABC"));
}

#[test]
fn invalid_input_line_yields_one_error_and_loop_goes_on() {
    let mut api = Api::new();
    // The line does not parse: exactly one error response mentioning
    // invalid input.
    let reply = invalid_input_response(&"expected value".to_string());
    assert_eq!(
        reply.as_json(),
        "{\"type\":\"error\",\"content\":\"invalid input: expected value\"}"
    );
    // The next line is still processed normally.
    let input = InMessages::from_json_value(parse("{\"type\":\"ping\"}")).unwrap();
    let step = handle_in_message(&mut api, input, 0).unwrap();
    assert!(matches!(step, Step::Reply(OutMessages::Pong)));
}

#[test]
fn ok_content_wraps_into_an_ok_message() {
    let m = OkContent::Empty.into_message();
    assert!(matches!(m, OutMessages::Okay(OkContent::Empty)));
}

#[test]
fn startup_line_is_ready() {
    assert_eq!(
        ready_message().as_json(),
        "{\"type\":\"ready\",\"content\":\"waiting for credentials\"}"
    );
}

#[test]
fn failures_render_as_error_lines() {
    let reply = failure_response(&DomainError::NotFound("no user found".to_string()));
    assert_eq!(
        reply.as_json(),
        "{\"type\":\"error\",\"content\":\"no user found\"}"
    );
}

#[test]
fn ok_payloads_serialize_as_serde_would() {
    assert_eq!(
        OutMessages::Okay(OkContent::Empty).as_json(),
        "{\"type\":\"ok\",\"content\":null}"
    );
    assert_eq!(
        OutMessages::Okay(OkContent::Bool(true)).as_json(),
        "{\"type\":\"ok\",\"content\":true}"
    );
    let user = UserSecret { username: "u".to_string(), password: "p\"w\n".to_string() };
    assert_eq!(
        OutMessages::Okay(OkContent::UserSecret(user)).as_json(),
        "{\"type\":\"ok\",\"content\":{\"username\":\"u\",\"password\":\"p\\\"w\\n\"}}"
    );
    let users = vec![
        UserSecret { username: "a".to_string(), password: "1".to_string() },
        UserSecret { username: "b".to_string(), password: "2".to_string() },
    ];
    assert_eq!(
        OutMessages::Okay(OkContent::UsersSecret(users)).as_json(),
        "{\"type\":\"ok\",\"content\":[{\"username\":\"a\",\"password\":\"1\"},{\"username\":\"b\",\"password\":\"2\"}]}"
    );
}

#[test]
fn json_serialization_round_trips_through_a_parser() {
    let v = parse("{\"a\":[1,2.5,null,true,\"x\\ny\"],\"b\":{\"c\":\"d\"}}");
    let text = json_to_string(&v);
    let reparsed: serde_json::Value = serde_json::from_str(&text).unwrap();
    let expected: serde_json::Value =
        serde_json::from_str("{\"a\":[1,2.5,null,true,\"x\\ny\"],\"b\":{\"c\":\"d\"}}").unwrap();
    assert_eq!(reparsed, expected);
}

#[test]
fn string_escapes_match_json() {
    let v = JsonVal::Str("quote\" back\\ nl\n tab\t cr\r bell\u{7}".to_string());
    assert_eq!(
        json_to_string(&v),
        "\"quote\\\" back\\\\ nl\\n tab\\t cr\\r bell\\u0007\""
    );
}

#[test]
fn number_text_passes_through_unchanged() {
    // The parser renders 1e3 as 1000.0 before the library sees it; from
    // there on the number text is carried through untouched.
    let v = parse("[0,-1,2.5,1e3,18446744073709551615]");
    assert_eq!(json_to_string(&v), "[0,-1,2.5,1000.0,18446744073709551615]");
}

#[test]
fn json_u64_parsing_accepts_integers_only() {
    assert_eq!(parse_json_u64(&"0".to_string()), Some(0));
    assert_eq!(parse_json_u64(&"1".to_string()), Some(1));
    assert_eq!(
        parse_json_u64(&"18446744073709551615".to_string()),
        Some(u64::MAX)
    );
    assert_eq!(parse_json_u64(&"18446744073709551616".to_string()), None);
    assert_eq!(parse_json_u64(&"".to_string()), None);
    assert_eq!(parse_json_u64(&"-1".to_string()), None);
    assert_eq!(parse_json_u64(&"1.0".to_string()), None);
    assert_eq!(parse_json_u64(&"1e3".to_string()), None);
}

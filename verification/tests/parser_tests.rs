use brc20_index::payload::{classify, parse_operation, ticker_key, JsonValue, Operation};

const DEPLOY: &str =
    r#"{"p":"brc-20","op":"deploy","tick":"ordi","max":"21000000","lim":"1000","dec":"8"}"#;

fn text(s: &str) -> JsonValue {
    JsonValue::Text(s.to_string())
}

fn member(k: &str, v: JsonValue) -> (String, JsonValue) {
    (k.to_string(), v)
}

#[test]
fn deploy_payload_is_decoded() {
    match parse_operation("application/json", DEPLOY.as_bytes()) {
        Operation::Deploy(d) => {
            assert_eq!(d.p, "brc-20");
            assert_eq!(d.op, "deploy");
            assert_eq!(d.tick, "ordi");
            assert_eq!(d.max, "21000000");
            assert_eq!(d.lim, Some("1000".to_string()));
            assert_eq!(d.dec, Some("8".to_string()));
        }
        other => panic!("expected a deploy, got {:?}", other),
    }
}

#[test]
fn plain_text_content_type_is_accepted() {
    assert!(matches!(
        parse_operation("text/plain;charset=utf-8", DEPLOY.as_bytes()),
        Operation::Deploy(_)
    ));
}

#[test]
fn other_content_types_are_ignored() {
    for ct in ["text/plain", "image/png", "", "application/json ", "Application/JSON"] {
        assert!(matches!(parse_operation(ct, DEPLOY.as_bytes()), Operation::Ignore));
    }
}

#[test]
fn deploy_without_limit_and_decimals_is_decoded() {
    let body = r#"{"p":"brc-20","op":"deploy","tick":"ordi","max":"21000000"}"#;
    match parse_operation("application/json", body.as_bytes()) {
        Operation::Deploy(d) => {
            assert_eq!(d.lim, None);
            assert_eq!(d.dec, None);
        }
        other => panic!("expected a deploy, got {:?}", other),
    }
}

#[test]
fn null_limit_counts_as_missing() {
    let body = r#"{"p":"brc-20","op":"deploy","tick":"ordi","max":"21000000","lim":null}"#;
    match parse_operation("application/json", body.as_bytes()) {
        Operation::Deploy(d) => assert_eq!(d.lim, None),
        other => panic!("expected a deploy, got {:?}", other),
    }
}

#[test]
fn limit_that_is_no_string_is_ignored() {
    let body = r#"{"p":"brc-20","op":"deploy","tick":"ordi","max":"21000000","lim":1000}"#;
    assert!(matches!(
        parse_operation("application/json", body.as_bytes()),
        Operation::Ignore
    ));
}

#[test]
fn mint_payload_is_decoded() {
    let body = r#"{"p":"brc-20","op":"mint","tick":"ordi","amt":"1000"}"#;
    match parse_operation("application/json", body.as_bytes()) {
        Operation::Mint(m) => {
            assert_eq!(m.p, "brc-20");
            assert_eq!(m.op, "mint");
            assert_eq!(m.tick, "ordi");
            assert_eq!(m.amt, "1000");
        }
        other => panic!("expected a mint, got {:?}", other),
    }
}

#[test]
fn transfer_payload_is_decoded() {
    let body = r#"{ "p": "brc-20", "op": "transfer", "tick": "ordi", "amt": "400" }"#;
    match parse_operation("text/plain;charset=utf-8", body.as_bytes()) {
        Operation::Transfer(t) => {
            assert_eq!(t.op, "transfer");
            assert_eq!(t.tick, "ordi");
            assert_eq!(t.amt, "400");
        }
        other => panic!("expected a transfer, got {:?}", other),
    }
}

#[test]
fn any_protocol_name_is_accepted() {
    let body = r#"{"p":"other","op":"mint","tick":"ordi","amt":"1"}"#;
    assert!(matches!(
        parse_operation("application/json", body.as_bytes()),
        Operation::Mint(_)
    ));
}

#[test]
fn unknown_operation_is_ignored() {
    let body = r#"{"p":"brc-20","op":"burn","tick":"ordi","amt":"1"}"#;
    assert!(matches!(
        parse_operation("application/json", body.as_bytes()),
        Operation::Ignore
    ));
}

#[test]
fn missing_field_is_ignored() {
    for body in [
        r#"{"op":"mint","tick":"ordi","amt":"1"}"#,
        r#"{"p":"brc-20","tick":"ordi","amt":"1"}"#,
        r#"{"p":"brc-20","op":"mint","amt":"1"}"#,
        r#"{"p":"brc-20","op":"mint","tick":"ordi"}"#,
        r#"{"p":"brc-20","op":"deploy","tick":"ordi"}"#,
        r#"{"p":"brc-20","op":"transfer","tick":"ordi"}"#,
    ] {
        assert!(matches!(
            parse_operation("application/json", body.as_bytes()),
            Operation::Ignore
        ));
    }
}

#[test]
fn what_is_no_json_object_is_ignored() {
    for body in ["", "hello", "[1,2]", "\"mint\"", "42", "null", "{\"p\":", "{} trailing"] {
        assert!(matches!(
            parse_operation("application/json", body.as_bytes()),
            Operation::Ignore
        ));
    }
}

#[test]
fn invalid_utf8_is_ignored() {
    let mut body = DEPLOY.as_bytes().to_vec();
    body[10] = 0xff;
    assert!(matches!(parse_operation("application/json", &body), Operation::Ignore));
}

#[test]
fn text_outside_ascii_is_kept() {
    let body = "{\"p\":\"brc-20\",\"op\":\"mint\",\"tick\":\"\u{4e2d}\u{6587}ab\",\"amt\":\"1\"}";
    match parse_operation("application/json", body.as_bytes()) {
        Operation::Mint(m) => assert_eq!(m.tick, "\u{4e2d}\u{6587}ab"),
        other => panic!("expected a mint, got {:?}", other),
    }
}

#[test]
fn classify_reads_the_first_member_of_a_name() {
    let members = vec![
        member("p", text("brc-20")),
        member("op", text("mint")),
        member("tick", text("ordi")),
        member("amt", text("5")),
        member("amt", text("6")),
    ];
    match classify(&members) {
        Operation::Mint(m) => assert_eq!(m.amt, "5"),
        other => panic!("expected a mint, got {:?}", other),
    }
}

#[test]
fn classify_tells_null_from_other_values() {
    let base = |lim: JsonValue| {
        vec![
            member("p", text("brc-20")),
            member("op", text("deploy")),
            member("tick", text("ordi")),
            member("max", text("10")),
            member("lim", lim),
        ]
    };
    assert!(matches!(classify(&base(JsonValue::Null)), Operation::Deploy(_)));
    assert!(matches!(classify(&base(text("5"))), Operation::Deploy(_)));
    assert!(matches!(classify(&base(JsonValue::Other)), Operation::Ignore));
}

#[test]
fn classify_of_nothing_is_ignore() {
    assert!(matches!(classify(&Vec::new()), Operation::Ignore));
}

#[test]
fn ticker_key_is_the_lowercase_symbol() {
    assert_eq!(ticker_key("ORDI"), "ordi");
    assert_eq!(ticker_key("OrDi"), "ordi");
    assert_eq!(ticker_key("ordi"), "ordi");
    assert_eq!(ticker_key("\u{c4}BC1"), "\u{e4}bc1");
}

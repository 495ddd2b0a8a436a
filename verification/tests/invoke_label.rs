use chronon_valence_identity::{actor_label, dispatch_context, invoke_label, parse_invoke_id};
use serde_json::Value;

#[test]
fn parses_plain_id_before_separator() {
    assert_eq!(parse_invoke_id("invoke:42|{\"User\":1}"), Some(42));
}

#[test]
fn parses_id_without_separator() {
    assert_eq!(parse_invoke_id("invoke:7"), Some(7));
}

#[test]
fn parses_id_with_plus_sign_and_leading_zeros() {
    assert_eq!(parse_invoke_id("invoke:+7|x"), Some(7));
    assert_eq!(parse_invoke_id("invoke:007|x"), Some(7));
}

#[test]
fn stops_at_first_separator() {
    assert_eq!(parse_invoke_id("invoke:5|a|b"), Some(5));
    assert_eq!(parse_invoke_id("invoke:5|9"), Some(5));
}

#[test]
fn parses_largest_id_and_rejects_overflow() {
    assert_eq!(parse_invoke_id("invoke:18446744073709551615|x"), Some(u64::MAX));
    assert_eq!(parse_invoke_id("invoke:18446744073709551616|x"), None);
    assert_eq!(parse_invoke_id("invoke:99999999999999999999999|x"), None);
}

#[test]
fn rejects_labels_without_an_id() {
    assert_eq!(parse_invoke_id("noop"), None);
    assert_eq!(parse_invoke_id(""), None);
    assert_eq!(parse_invoke_id("invoke"), None);
    assert_eq!(parse_invoke_id("invoke:"), None);
    assert_eq!(parse_invoke_id("invoke:|x"), None);
    assert_eq!(parse_invoke_id("invoke:+|x"), None);
    assert_eq!(parse_invoke_id("invoke:-1|x"), None);
    assert_eq!(parse_invoke_id("invoke: 1|x"), None);
    assert_eq!(parse_invoke_id("invoke:12abc|x"), None);
    assert_eq!(parse_invoke_id("Invoke:12|x"), None);
    assert_eq!(parse_invoke_id("xinvoke:12|x"), None);
    assert_eq!(parse_invoke_id("invoke:１２|x"), None);
}

#[test]
fn builds_label_with_decimal_id() {
    assert_eq!(invoke_label(1, "{\"a\":1}"), "invoke:1|{\"a\":1}");
    assert_eq!(invoke_label(0, ""), "invoke:0|");
    assert_eq!(invoke_label(1234567890, "x"), "invoke:1234567890|x");
    assert_eq!(invoke_label(u64::MAX, "é|z"), "invoke:18446744073709551615|é|z");
}

#[test]
fn label_roundtrip_through_parse() {
    for id in [0u64, 1, 9, 10, 99, 100, 4096, u64::MAX - 1, u64::MAX] {
        for actor in ["", "actor", "{\"System\":{\"operation\":\"x|y\"}}", "ünï|cödé"] {
            assert_eq!(parse_invoke_id(&invoke_label(id, actor)), Some(id));
        }
    }
}

#[test]
fn actor_label_uses_serialized_text_or_fallback() {
    assert_eq!(actor_label(Ok("{\"a\":1}".to_string())), "{\"a\":1}");
    let err = serde_json::from_str::<Value>("{").unwrap_err();
    assert_eq!(actor_label(Err(err)), "actor");
}

#[test]
fn dispatch_context_labels_and_copies_actor() {
    let actor: Value = serde_json::from_str("{\"User\":{\"user_id\":\"u1\"}}").unwrap();
    let ctx = dispatch_context(3, Ok("{\"User\":{\"user_id\":\"u1\"}}".to_string()), &actor);
    assert_eq!(ctx.label(), "invoke:3|{\"User\":{\"user_id\":\"u1\"}}");
    assert_eq!(ctx.actor_json(), &actor);
    let err = serde_json::from_str::<Value>("[").unwrap_err();
    let failed = dispatch_context(4, Err(err), &actor);
    assert_eq!(failed.label(), "invoke:4|actor");
}

use chronon_valence_identity::{
    invoke_label, stage_dispatch, valence_from_context, InvokeError, InvokeStage,
    ValenceScriptContextFactory,
};
use serde_json::Value;

#[test]
fn new_stage_is_empty_and_starts_at_one() {
    let stage: InvokeStage<u32> = InvokeStage::new();
    assert_eq!(stage.next_invoke_id(), 1);
    assert!(!stage.is_staged(0));
    assert!(!stage.is_staged(1));
}

#[test]
fn staging_hands_out_ids_in_sequence() {
    let mut stage: InvokeStage<&str> = InvokeStage::new();
    assert_eq!(stage.stage("a"), 1);
    assert_eq!(stage.stage("b"), 2);
    assert_eq!(stage.stage("c"), 3);
    assert_eq!(stage.next_invoke_id(), 4);
    assert!(stage.is_staged(1) && stage.is_staged(2) && stage.is_staged(3));
}

#[test]
fn take_returns_value_once() {
    let mut stage: InvokeStage<String> = InvokeStage::new();
    let id = stage.stage("v".to_string());
    assert_eq!(stage.take(id).unwrap(), "v");
    assert!(!stage.is_staged(id));
    assert!(matches!(stage.take(id), Err(InvokeError::MissingInvokeValence)));
}

#[test]
fn take_of_one_id_leaves_others() {
    let mut stage: InvokeStage<u8> = InvokeStage::new();
    let a = stage.stage(10);
    let b = stage.stage(20);
    assert_eq!(stage.take(a).unwrap(), 10);
    assert!(stage.is_staged(b));
    assert_eq!(stage.take(b).unwrap(), 20);
}

#[test]
fn take_of_unknown_id_fails_and_changes_nothing() {
    let mut stage: InvokeStage<u8> = InvokeStage::new();
    let a = stage.stage(1);
    assert!(matches!(stage.take(99), Err(InvokeError::MissingInvokeValence)));
    assert!(stage.is_staged(a));
    assert_eq!(stage.next_invoke_id(), 2);
}

#[test]
fn recovery_by_label_without_id_is_invalid_label() {
    let mut stage: InvokeStage<u8> = InvokeStage::new();
    let a = stage.stage(1);
    match valence_from_context(&mut stage, "noop") {
        Err(err) => {
            assert!(matches!(err, InvokeError::InvalidLabel));
            assert_eq!(err.message(), "missing invoke valence (invalid script context label)");
            assert!(err.is_internal());
        }
        Ok(_) => panic!("expected invalid label"),
    }
    assert!(stage.is_staged(a));
}

#[test]
fn recovery_by_label_of_staged_id() {
    let mut stage: InvokeStage<u8> = InvokeStage::new();
    let _ = stage.stage(1);
    let b = stage.stage(2);
    assert_eq!(valence_from_context(&mut stage, &invoke_label(b, "x")).unwrap(), 2);
    assert!(stage.is_staged(1));
}

#[test]
fn stage_dispatch_labels_with_staged_id() {
    let mut stage: InvokeStage<u8> = InvokeStage::new();
    let actor: Value = serde_json::from_str("{\"User\":{\"user_id\":\"u1\"}}").unwrap();
    let ctx = stage_dispatch(&mut stage, 7, &actor);
    assert_eq!(ctx.label(), "invoke:1|{\"User\":{\"user_id\":\"u1\"}}");
    assert_eq!(ctx.actor_json(), &actor);
    assert_eq!(valence_from_context(&mut stage, ctx.label()).unwrap(), 7);
}

#[test]
fn error_messages() {
    assert_eq!(InvokeError::MissingInvokeValence.message(), "missing invoke valence");
    assert_eq!(
        InvokeError::NoDispatchContext.message(),
        "missing invoke valence (use valence_from_context with the dispatch ScriptContext)"
    );
    assert_eq!(InvokeError::Identity("nope".to_string()).message(), "nope");
    assert!(!InvokeError::Identity("nope".to_string()).is_internal());
    assert!(InvokeError::MissingInvokeValence.is_internal());
}

#[test]
fn failed_build_stages_nothing() {
    let factory = ValenceScriptContextFactory::new(|_a: &Value| -> Result<u8, String> {
        Err("refused".to_string())
    });
    let mut stage: InvokeStage<u8> = InvokeStage::new();
    let actor: Value = serde_json::from_str("{}").unwrap();
    assert!(matches!(factory.build(&mut stage, &actor), Err(InvokeError::Identity(m)) if m == "refused"));
    assert_eq!(stage.next_invoke_id(), 1);
    assert!(!stage.is_staged(1));
}

#[test]
fn successive_builds_get_distinct_ids() {
    let factory = ValenceScriptContextFactory::new(|a: &Value| -> Result<String, String> {
        Ok(a.to_string())
    });
    let mut stage: InvokeStage<String> = InvokeStage::new();
    let first: Value = serde_json::from_str("{\"n\":1}").unwrap();
    let second: Value = serde_json::from_str("{\"n\":2}").unwrap();
    let c1 = factory.build(&mut stage, &first).unwrap();
    let c2 = factory.build(&mut stage, &second).unwrap();
    assert!(c1.label().starts_with("invoke:1|"));
    assert!(c2.label().starts_with("invoke:2|"));
    assert_eq!(valence_from_context(&mut stage, c2.label()).unwrap(), "{\"n\":2}");
    assert_eq!(valence_from_context(&mut stage, c1.label()).unwrap(), "{\"n\":1}");
}

#[test]
fn stage_built_passes_failure_through_and_stages_success() {
    let mut stage: InvokeStage<u8> = InvokeStage::new();
    let actor: Value = serde_json::from_str("{\"a\":[1,2]}").unwrap();
    let failed = chronon_valence_identity::stage_built(
        &mut stage,
        Err(InvokeError::Identity("no".to_string())),
        &actor,
    );
    assert!(matches!(failed, Err(InvokeError::Identity(m)) if m == "no"));
    assert_eq!(stage.next_invoke_id(), 1);
    let ctx = chronon_valence_identity::stage_built(&mut stage, Ok(9), &actor).unwrap();
    assert_eq!(ctx.label(), "invoke:1|{\"a\":[1,2]}");
    assert_eq!(valence_from_context(&mut stage, ctx.label()).unwrap(), 9);
}

#[test]
fn recovery_stays_one_shot_across_later_dispatches() {
    let mut stage: InvokeStage<u8> = InvokeStage::new();
    let actor: Value = serde_json::from_str("{}").unwrap();
    let first = stage_dispatch(&mut stage, 1, &actor);
    assert_eq!(valence_from_context(&mut stage, first.label()).unwrap(), 1);
    let second = stage_dispatch(&mut stage, 2, &actor);
    assert_ne!(first.label(), second.label());
    assert!(matches!(
        valence_from_context(&mut stage, first.label()),
        Err(InvokeError::MissingInvokeValence)
    ));
    assert_eq!(valence_from_context(&mut stage, second.label()).unwrap(), 2);
}

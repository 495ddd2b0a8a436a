//! Building dispatch contexts whose value is staged for the script handler.
use vstd::prelude::*;

use crate::error::InvokeError;
use crate::label::{invoke_id_of, invoke_label, invoke_label_of, lemma_invoke_label_layout};
use crate::stage::InvokeStage;

verus! {

/// Actor JSON, as `serde_json` holds it.
#[verifier::external_type_specification]
#[verifier::external_body]
pub struct ExJsonValue(serde_json::Value);

/// The error `serde_json` reports when serialization fails.
#[verifier::external_type_specification]
#[verifier::external_body]
pub struct ExJsonError(serde_json::Error);

/// The compact JSON text that `serde_json::to_string` gives for a value, or `None` when it
/// reports an error. With this crate's `serde_json` (objects held in a `BTreeMap`) the
/// outcome depends on the value alone.
pub uninterp spec fn actor_json_text(actor_json: serde_json::Value) -> Option<Seq<char>>;

/// Calls `serde_json::to_string` on the actor JSON; its outcome is named by
/// `actor_json_text`.
#[verifier::external_body]
fn serialize_actor_json(actor_json: &serde_json::Value) -> (serialized: Result<
    String,
    serde_json::Error,
>)
    ensures
        match serialized {
            Ok(text) => actor_json_text(*actor_json) == Some(text@),
            Err(_) => actor_json_text(*actor_json) is None,
        },
{
    serde_json::to_string(actor_json)
}

/// Calls `Clone::clone` on a `serde_json::Value`, whose `Clone` is derived: the copy is
/// claimed equal to the value it was cloned from.
#[verifier::external_body]
fn clone_actor_json(actor_json: &serde_json::Value) -> (copy: serde_json::Value)
    ensures
        copy == *actor_json,
{
    actor_json.clone()
}

/// The actor text of a dispatch label: the serialized actor JSON, or `actor` when
/// serialization failed.
pub open spec fn actor_text_of(serialized: Result<String, serde_json::Error>) -> Seq<char> {
    match serialized {
        Ok(text) => text@,
        Err(_) => "actor"@,
    }
}

/// The actor text in the label of a dispatch for `actor_json`: its JSON text, or `actor`
/// when serialization fails.
pub open spec fn label_actor_text(actor_json: serde_json::Value) -> Seq<char> {
    match actor_json_text(actor_json) {
        Some(text) => text,
        None => "actor"@,
    }
}

/// The label of the context for the dispatch of `actor_json` under `invoke_id`.
pub open spec fn dispatch_label_of(invoke_id: u64, actor_json: serde_json::Value) -> Seq<char> {
    invoke_label_of(invoke_id, label_actor_text(actor_json))
}

/// The fallback actor text, `actor`.
pub open spec fn fallback_actor_text() -> Seq<char> {
    seq!['a', 'c', 't', 'o', 'r']
}

/// `label` ends with the whole of `actor`, right after its first `|`.
pub open spec fn label_carries_actor(label: Seq<char>, actor: Seq<char>) -> bool {
    &&& label.len() > actor.len()
    &&& label.skip(label.len() - actor.len()) == actor
    &&& label[label.len() - actor.len() - 1] == '|'
    &&& forall|i: int| 0 <= i < label.len() - actor.len() - 1 ==> #[trigger] label[i] != '|'
}

/// The actor text of a label is the serialized text when serialization succeeded, whatever
/// that text is, and `actor` only when it failed.
pub proof fn lemma_actor_text_of(serialized: Result<String, serde_json::Error>)
    ensures
        match serialized {
            Ok(text) => actor_text_of(serialized) == text@,
            Err(_) => actor_text_of(serialized) == fallback_actor_text(),
        },
{
    reveal_strlit("actor");
}

/// The actor text in a dispatch label is the actor JSON's serialized text whenever there is
/// one, and `actor` only when serialization fails.
pub proof fn lemma_label_actor_text(actor_json: serde_json::Value)
    ensures
        match actor_json_text(actor_json) {
            Some(text) => label_actor_text(actor_json) == text,
            None => label_actor_text(actor_json) == fallback_actor_text(),
        },
{
    reveal_strlit("actor");
}

/// A dispatch label carries its whole actor text after its first `|`.
pub proof fn lemma_dispatch_label_carries_actor(invoke_id: u64, actor_json: serde_json::Value)
    ensures
        label_carries_actor(dispatch_label_of(invoke_id, actor_json), label_actor_text(actor_json)),
        actor_json_text(actor_json) matches Some(text) ==> label_carries_actor(
            dispatch_label_of(invoke_id, actor_json),
            text,
        ),
        actor_json_text(actor_json) is None ==> label_carries_actor(
            dispatch_label_of(invoke_id, actor_json),
            fallback_actor_text(),
        ),
{
    lemma_invoke_label_layout(invoke_id, label_actor_text(actor_json));
    lemma_label_actor_text(actor_json);
}

/// The context handed to a script handler for one dispatch.
pub struct ValenceScriptContext {
    label: String,
    actor_json: serde_json::Value,
}

impl ValenceScriptContext {
    /// The label of the context.
    pub closed spec fn label_of(&self) -> Seq<char> {
        self.label@
    }

    /// The actor JSON of the context.
    pub closed spec fn actor_json_of(&self) -> serde_json::Value {
        self.actor_json
    }

    /// The label: `invoke:<id>|<actor>`.
    pub fn label(&self) -> (label: &str)
        ensures
            label@ == self.label_of(),
    {
        self.label.as_str()
    }

    /// The actor JSON captured for the dispatch.
    pub fn actor_json(&self) -> (actor_json: &serde_json::Value)
        ensures
            *actor_json == self.actor_json_of(),
    {
        &self.actor_json
    }
}

/// The actor text for a dispatch label, from the outcome of serializing the actor JSON.
pub fn actor_label(serialized: Result<String, serde_json::Error>) -> (text: String)
    ensures
        text@ == actor_text_of(serialized),
        serialized matches Ok(serialized_text) ==> text@ == serialized_text@,
        serialized is Err ==> text@ == fallback_actor_text(),
{
    proof {
        lemma_actor_text_of(serialized);
    }
    match serialized {
        Ok(text) => text,
        Err(_) => String::from_str("actor"),
    }
}

/// The context for the dispatch staged under `invoke_id`, from the outcome of serializing
/// its actor JSON.
pub fn dispatch_context(
    invoke_id: u64,
    serialized: Result<String, serde_json::Error>,
    actor_json: &serde_json::Value,
) -> (context: ValenceScriptContext)
    ensures
        context.label_of() == invoke_label_of(invoke_id, actor_text_of(serialized)),
        invoke_id_of(context.label_of()) == Some(invoke_id),
        context.actor_json_of() == *actor_json,
        serialized matches Ok(text) ==> label_carries_actor(context.label_of(), text@),
        serialized is Err ==> label_carries_actor(context.label_of(), fallback_actor_text()),
{
    proof {
        lemma_actor_text_of(serialized);
        lemma_invoke_label_layout(invoke_id, actor_text_of(serialized));
    }
    let text = actor_label(serialized);
    let label = invoke_label(invoke_id, text.as_str());
    ValenceScriptContext { label, actor_json: clone_actor_json(actor_json) }
}

/// Stages `value` under the next invoke id and builds the context that names it.
pub fn stage_dispatch<V>(
    stage: &mut InvokeStage<V>,
    value: V,
    actor_json: &serde_json::Value,
) -> (context: ValenceScriptContext)
    ensures
        final(stage)@ == old(stage)@.after_stage(value),
        final(stage)@.wf(),
        old(stage)@.ids_fresh() ==> !old(stage)@.staged.contains_key(old(stage)@.next_invoke_id),
        context.label_of() == dispatch_label_of(old(stage)@.next_invoke_id, *actor_json),
        invoke_id_of(context.label_of()) == Some(old(stage)@.next_invoke_id),
        context.actor_json_of() == *actor_json,
        actor_json_text(*actor_json) matches Some(text) ==> label_carries_actor(
            context.label_of(),
            text,
        ),
        actor_json_text(*actor_json) is None ==> label_carries_actor(
            context.label_of(),
            fallback_actor_text(),
        ),
{
    proof {
        lemma_dispatch_label_carries_actor(old(stage)@.next_invoke_id, *actor_json);
    }
    let invoke_id = stage.stage(value);
    let serialized = serialize_actor_json(actor_json);
    assert(actor_text_of(serialized) == label_actor_text(*actor_json));
    dispatch_context(invoke_id, serialized, actor_json)
}

/// Builds the value for a dispatch from actor JSON through `inner`, stages it, and hands out
/// the script context that names it.
#[derive(Clone)]
pub struct ValenceScriptContextFactory<F> {
    inner: F,
}

impl<F> ValenceScriptContextFactory<F> {
    /// The inner builder, from actor JSON to a value or a refusal message.
    pub closed spec fn inner_builder(&self) -> F {
        self.inner
    }

    /// A factory around `inner`.
    pub fn new(inner: F) -> (factory: Self)
        ensures
            factory.inner_builder() == inner,
    {
        ValenceScriptContextFactory { inner }
    }

    /// Builds the value for `actor_json` through the inner builder; a refusal becomes an
    /// `Identity` error with the builder's message.
    pub fn build_valence<V>(&self, actor_json: &serde_json::Value) -> (built: Result<
        V,
        InvokeError,
    >) where F: Fn(&serde_json::Value) -> Result<V, String>
        requires
            call_requires(self.inner_builder(), (actor_json,)),
        ensures
            match built {
                Ok(value) => call_ensures(
                    self.inner_builder(),
                    (actor_json,),
                    Ok::<V, String>(value),
                ),
                Err(InvokeError::Identity(message)) => call_ensures(
                    self.inner_builder(),
                    (actor_json,),
                    Err::<V, String>(message),
                ),
                Err(_) => false,
            },
    {
        match (self.inner)(actor_json) {
            Ok(value) => Ok(value),
            Err(message) => Err(InvokeError::Identity(message)),
        }
    }

    /// Always fails: the value of a dispatch is recovered from its context label, with
    /// `valence_from_context`.
    pub fn take_invoke_valence<V>() -> (taken: Result<V, InvokeError>)
        ensures
            taken == Err::<V, InvokeError>(InvokeError::NoDispatchContext),
    {
        Err(InvokeError::NoDispatchContext)
    }

    /// Builds the context for one dispatch: builds the value through the inner builder,
    /// stages it under the next invoke id, and labels the context with that id.
    ///
    /// When the inner builder refuses, nothing is staged and its message comes back as an
    /// `Identity` error.
    pub fn build<V>(&self, stage: &mut InvokeStage<V>, actor_json: &serde_json::Value) -> (built:
        Result<ValenceScriptContext, InvokeError>) where F: Fn(&serde_json::Value) -> Result<V, String>
        requires
            call_requires(self.inner_builder(), (actor_json,)),
        ensures
            match built {
                Ok(context) => {
                    &&& exists|value: V|
                        call_ensures(self.inner_builder(), (actor_json,), Ok::<V, String>(value))
                            && final(stage)@ == #[trigger] old(stage)@.after_stage(value)
                    &&& old(stage)@.ids_fresh() ==> !old(stage)@.staged.contains_key(
                        old(stage)@.next_invoke_id,
                    )
                    &&& context.label_of() == dispatch_label_of(
                        old(stage)@.next_invoke_id,
                        *actor_json,
                    )
                    &&& invoke_id_of(context.label_of()) == Some(old(stage)@.next_invoke_id)
                    &&& actor_json_text(*actor_json) matches Some(text) ==> label_carries_actor(
                        context.label_of(),
                        text,
                    )
                    &&& actor_json_text(*actor_json) is None ==> label_carries_actor(
                        context.label_of(),
                        fallback_actor_text(),
                    )
                    &&& context.actor_json_of() == *actor_json
                },
                Err(InvokeError::Identity(message)) => {
                    &&& call_ensures(self.inner_builder(), (actor_json,), Err::<V, String>(message))
                    &&& final(stage)@ == old(stage)@
                },
                Err(_) => false,
            },
    {
        let built = self.build_valence(actor_json);
        stage_built(stage, built, actor_json)
    }
}

/// The second step of building a dispatch context: stages a built value and labels its
/// context, or passes a build failure through with nothing staged.
pub fn stage_built<V>(
    stage: &mut InvokeStage<V>,
    built: Result<V, InvokeError>,
    actor_json: &serde_json::Value,
) -> (staged: Result<ValenceScriptContext, InvokeError>)
    ensures
        match built {
            Ok(value) => match staged {
                Ok(context) => {
                    &&& final(stage)@ == old(stage)@.after_stage(value)
                    &&& old(stage)@.ids_fresh() ==> !old(stage)@.staged.contains_key(
                        old(stage)@.next_invoke_id,
                    )
                    &&& context.label_of() == dispatch_label_of(
                        old(stage)@.next_invoke_id,
                        *actor_json,
                    )
                    &&& invoke_id_of(context.label_of()) == Some(old(stage)@.next_invoke_id)
                    &&& actor_json_text(*actor_json) matches Some(text) ==> label_carries_actor(
                        context.label_of(),
                        text,
                    )
                    &&& actor_json_text(*actor_json) is None ==> label_carries_actor(
                        context.label_of(),
                        fallback_actor_text(),
                    )
                    &&& context.actor_json_of() == *actor_json
                },
                Err(_) => false,
            },
            Err(error) => {
                &&& staged == Err::<ValenceScriptContext, InvokeError>(error)
                &&& final(stage)@ == old(stage)@
            },
        },
{
    match built {
        Ok(value) => Ok(stage_dispatch(stage, value, actor_json)),
        Err(error) => Err(error),
    }
}

} // verus!

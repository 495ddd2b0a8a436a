//! Values staged for script dispatches, keyed by invoke id.
//!
//! Building a dispatch context stages its value under a fresh invoke id; the script handler
//! later takes it back once, by the id that the context label names.
use std::collections::HashMap;

use vstd::prelude::*;

use crate::error::InvokeError;
use crate::label::{invoke_id_of, invoke_label_of, lemma_invoke_label_roundtrip};

verus! {

broadcast use vstd::std_specs::hash::group_hash_axioms;

/// The abstract state of an [`InvokeStage`]: the id that the next staging gets, how many ids
/// have been handed out, and what is staged under each id.
pub struct StageState<V> {
    pub next_invoke_id: u64,
    pub issued: nat,
    pub staged: Map<u64, V>,
}

/// The invoke id that follows `id`; ids wrap around past `u64::MAX`.
pub open spec fn following_invoke_id(id: u64) -> u64 {
    if id == u64::MAX {
        0
    } else {
        (id + 1) as u64
    }
}

impl<V> StageState<V> {
    /// Fewer than `u64::MAX` ids have been handed out, so the id counter has not wrapped.
    pub open spec fn ids_fresh(self) -> bool {
        self.issued < u64::MAX
    }

    /// Until the counter wraps, the next id is one past the number handed out, and every
    /// staged id is one that was handed out: it lies in `[1, next_invoke_id)`.
    pub open spec fn wf(self) -> bool {
        self.ids_fresh() ==> {
            &&& self.next_invoke_id == self.issued + 1
            &&& forall|id: u64| #[trigger]
                self.staged.contains_key(id) ==> 1 <= id < self.next_invoke_id
        }
    }

    /// `invoke_id` was handed out and its value has been taken: it can never be taken again
    /// while the counter has not wrapped.
    pub open spec fn is_retired(self, invoke_id: u64) -> bool {
        &&& self.ids_fresh()
        &&& 1 <= invoke_id < self.next_invoke_id
        &&& !self.staged.contains_key(invoke_id)
    }

    /// The state after staging `value`: it is stored under the current id, and the id advances.
    pub open spec fn after_stage(self, value: V) -> StageState<V> {
        StageState {
            next_invoke_id: following_invoke_id(self.next_invoke_id),
            issued: self.issued + 1,
            staged: self.staged.insert(self.next_invoke_id, value),
        }
    }

    /// What taking `invoke_id` returns: the staged value, or `MissingInvokeValence`.
    pub open spec fn take_result(self, invoke_id: u64) -> Result<V, InvokeError> {
        if self.staged.contains_key(invoke_id) {
            Ok(self.staged[invoke_id])
        } else {
            Err(InvokeError::MissingInvokeValence)
        }
    }

    /// The state after taking `invoke_id`: nothing is staged under it any more.
    pub open spec fn after_take(self, invoke_id: u64) -> StageState<V> {
        StageState {
            next_invoke_id: self.next_invoke_id,
            issued: self.issued,
            staged: self.staged.remove(invoke_id),
        }
    }

    /// What recovering by a context label returns: `InvalidLabel` when the label names no
    /// invoke id, else what taking that id returns.
    pub open spec fn recover_result(self, label: Seq<char>) -> Result<V, InvokeError> {
        match invoke_id_of(label) {
            None => Err(InvokeError::InvalidLabel),
            Some(invoke_id) => self.take_result(invoke_id),
        }
    }

    /// The state after recovering by a context label.
    pub open spec fn after_recover(self, label: Seq<char>) -> StageState<V> {
        match invoke_id_of(label) {
            None => self,
            Some(invoke_id) => self.after_take(invoke_id),
        }
    }
}

/// Values staged for dispatch, keyed by invoke id. Invoke ids are handed out in sequence
/// from 1.
pub struct InvokeStage<V> {
    next_invoke_id: u64,
    issued: Ghost<nat>,
    staged: HashMap<u64, V>,
}

impl<V> View for InvokeStage<V> {
    type V = StageState<V>;

    closed spec fn view(&self) -> StageState<V> {
        StageState { next_invoke_id: self.next_invoke_id, issued: self.issued@, staged: self.staged@ }
    }
}

impl<V> InvokeStage<V> {
    #[verifier::type_invariant]
    spec fn well_formed(&self) -> bool {
        self@.wf()
    }

    /// An empty stage whose first invoke id is 1.
    pub fn new() -> (stage: Self)
        ensures
            stage@.next_invoke_id == 1,
            stage@.issued == 0,
            stage@.staged == Map::<u64, V>::empty(),
            stage@.wf(),
    {
        InvokeStage { next_invoke_id: 1, issued: Ghost(0), staged: HashMap::new() }
    }

    /// The invoke id that the next staging gets.
    pub fn next_invoke_id(&self) -> (id: u64)
        ensures
            id == self@.next_invoke_id,
            self@.wf(),
    {
        proof {
            use_type_invariant(self);
        }
        self.next_invoke_id
    }

    /// Whether a value is staged under `invoke_id`.
    pub fn is_staged(&self, invoke_id: u64) -> (staged: bool)
        ensures
            staged == self@.staged.contains_key(invoke_id),
            self@.wf(),
    {
        proof {
            use_type_invariant(self);
        }
        self.staged.contains_key(&invoke_id)
    }

    /// Stages `value` under the next invoke id and returns that id. Until the counter wraps,
    /// that id is one more than the number of ids handed out before, so nothing was staged
    /// under it.
    pub fn stage(&mut self, value: V) -> (invoke_id: u64)
        ensures
            invoke_id == old(self)@.next_invoke_id,
            final(self)@ == old(self)@.after_stage(value),
            old(self)@.wf(),
            final(self)@.wf(),
            old(self)@.ids_fresh() ==> invoke_id == old(self)@.issued + 1,
            old(self)@.ids_fresh() ==> !old(self)@.staged.contains_key(invoke_id),
    {
        proof {
            use_type_invariant(&*self);
        }
        let invoke_id = self.next_invoke_id;
        let mut staged: HashMap<u64, V> = HashMap::new();
        std::mem::swap(&mut staged, &mut self.staged);
        staged.insert(invoke_id, value);
        let ghost issued: nat = self.issued@ + 1;
        proof {
            lemma_stage_keeps_wf(old(self)@, value);
        }
        *self = InvokeStage {
            next_invoke_id: invoke_id.wrapping_add(1),
            issued: Ghost(issued),
            staged,
        };
        assert(self@.next_invoke_id == following_invoke_id(invoke_id));
        invoke_id
    }

    /// Takes the value staged under `invoke_id`; it cannot be taken again.
    pub fn take(&mut self, invoke_id: u64) -> (taken: Result<V, InvokeError>)
        ensures
            taken == old(self)@.take_result(invoke_id),
            final(self)@ == old(self)@.after_take(invoke_id),
            old(self)@.wf(),
            final(self)@.wf(),
    {
        proof {
            use_type_invariant(&*self);
        }
        let mut staged: HashMap<u64, V> = HashMap::new();
        std::mem::swap(&mut staged, &mut self.staged);
        let removed = staged.remove(&invoke_id);
        self.staged = staged;
        match removed {
            Some(value) => Ok(value),
            None => Err(InvokeError::MissingInvokeValence),
        }
    }
}

/// Recovers the value staged for the dispatch whose context carries `label`.
///
/// Fails with `InvalidLabel` when the label names no invoke id, and with
/// `MissingInvokeValence` when nothing is staged under that id (any more).
pub fn valence_from_context<V>(stage: &mut InvokeStage<V>, label: &str) -> (recovered: Result<
    V,
    InvokeError,
>)
    ensures
        recovered == old(stage)@.recover_result(label@),
        final(stage)@ == old(stage)@.after_recover(label@),
{
    match crate::label::parse_invoke_id(label) {
        None => Err(InvokeError::InvalidLabel),
        Some(invoke_id) => stage.take(invoke_id),
    }
}

/// Staging a value and then recovering by the label of its dispatch gives that value back,
/// whatever the actor text in the label.
pub proof fn lemma_stage_then_recover<V>(state: StageState<V>, value: V, actor: Seq<char>)
    ensures
        state.after_stage(value).recover_result(invoke_label_of(state.next_invoke_id, actor))
            == Ok::<V, InvokeError>(value),
{
    lemma_invoke_label_roundtrip(state.next_invoke_id, actor);
}

/// A staged value is recovered at most once: a second recovery by the same label fails with
/// `MissingInvokeValence`.
pub proof fn lemma_recover_is_one_shot<V>(state: StageState<V>, label: Seq<char>)
    requires
        state.recover_result(label) is Ok,
    ensures
        state.after_recover(label).recover_result(label) == Err::<V, InvokeError>(
            InvokeError::MissingInvokeValence,
        ),
{
}

/// A recovery that fails leaves the stage as it was.
pub proof fn lemma_failed_recover_keeps_stage<V>(state: StageState<V>, label: Seq<char>)
    requires
        state.recover_result(label) is Err,
    ensures
        state.after_recover(label) == state,
{
    if let Some(invoke_id) = invoke_id_of(label) {
        assert(state.staged.remove(invoke_id) =~= state.staged);
    }
}

/// Staging a value leaves what every other invoke id holds untouched.
pub proof fn lemma_stage_keeps_others<V>(state: StageState<V>, value: V, invoke_id: u64)
    requires
        invoke_id != state.next_invoke_id,
    ensures
        state.after_stage(value).take_result(invoke_id) == state.take_result(invoke_id),
{
}

/// Taking one invoke id leaves what every other invoke id holds untouched.
pub proof fn lemma_take_keeps_others<V>(state: StageState<V>, taken: u64, other: u64)
    requires
        taken != other,
    ensures
        state.after_take(taken).take_result(other) == state.take_result(other),
{
}

/// Two stagings in a row hand out different invoke ids.
pub proof fn lemma_consecutive_ids_differ<V>(state: StageState<V>, value: V)
    ensures
        state.after_stage(value).next_invoke_id != state.next_invoke_id,
{
}

/// Staging keeps a stage well formed.
pub proof fn lemma_stage_keeps_wf<V>(state: StageState<V>, value: V)
    requires
        state.wf(),
    ensures
        state.after_stage(value).wf(),
        state.ids_fresh() ==> !state.staged.contains_key(state.next_invoke_id),
{
}

/// Taking keeps a stage well formed.
pub proof fn lemma_take_keeps_wf<V>(state: StageState<V>, invoke_id: u64)
    requires
        state.wf(),
    ensures
        state.after_take(invoke_id).wf(),
{
}

/// One step of what can happen to a stage: a staging, or a recovery by a context label.
pub enum StageOp<V> {
    Stage(V),
    Recover(Seq<char>),
}

impl<V> StageState<V> {
    /// The state after one step.
    pub open spec fn apply(self, op: StageOp<V>) -> StageState<V> {
        match op {
            StageOp::Stage(value) => self.after_stage(value),
            StageOp::Recover(label) => self.after_recover(label),
        }
    }

    /// The state after a sequence of steps.
    pub open spec fn run(self, ops: Seq<StageOp<V>>) -> StageState<V>
        decreases ops.len(),
    {
        if ops.len() == 0 {
            self
        } else {
            self.apply(ops[0]).run(ops.drop_first())
        }
    }

    /// The ids that the stagings among `ops` hand out, in order.
    pub open spec fn handed_out(self, ops: Seq<StageOp<V>>) -> Seq<u64>
        decreases ops.len(),
    {
        if ops.len() == 0 {
            Seq::empty()
        } else {
            let rest = self.apply(ops[0]).handed_out(ops.drop_first());
            if ops[0] is Stage {
                seq![self.next_invoke_id] + rest
            } else {
                rest
            }
        }
    }

    /// How many of the recoveries among `ops` succeed for a label naming `invoke_id`.
    pub open spec fn recoveries_of(self, ops: Seq<StageOp<V>>, invoke_id: u64) -> nat
        decreases ops.len(),
    {
        if ops.len() == 0 {
            0
        } else {
            let hit = match ops[0] {
                StageOp::Recover(label) => invoke_id_of(label) == Some(invoke_id)
                    && self.recover_result(label) is Ok,
                StageOp::Stage(_) => false,
            };
            (if hit {
                1nat
            } else {
                0nat
            }) + self.apply(ops[0]).recoveries_of(ops.drop_first(), invoke_id)
        }
    }
}

/// The number of stagings among `ops`.
pub open spec fn stage_count<V>(ops: Seq<StageOp<V>>) -> nat
    decreases ops.len(),
{
    if ops.len() == 0 {
        0
    } else {
        (if ops[0] is Stage {
            1nat
        } else {
            0nat
        }) + stage_count(ops.drop_first())
    }
}

/// Every step keeps a stage well formed, and a staging hands out one more id.
pub proof fn lemma_apply_keeps_wf<V>(state: StageState<V>, op: StageOp<V>)
    requires
        state.wf(),
    ensures
        state.apply(op).wf(),
        state.apply(op).issued == state.issued + (if op is Stage {
            1nat
        } else {
            0nat
        }),
{
    match op {
        StageOp::Stage(value) => lemma_stage_keeps_wf(state, value),
        StageOp::Recover(label) => {
            if let Some(invoke_id) = invoke_id_of(label) {
                lemma_take_keeps_wf(state, invoke_id);
            }
        },
    }
}

/// Invoke ids are never reused: until the counter wraps, the ids that any sequence of
/// stagings and recoveries hands out are strictly increasing, starting at the stage's next id.
pub proof fn lemma_handed_out_ids_increase<V>(state: StageState<V>, ops: Seq<StageOp<V>>)
    requires
        state.wf(),
        state.issued + stage_count(ops) < u64::MAX,
    ensures
        state.handed_out(ops).len() == stage_count(ops),
        forall|i: int|
            0 <= i < state.handed_out(ops).len() ==> state.next_invoke_id <= #[trigger] state.handed_out(
                ops,
            )[i],
        forall|i: int, j: int|
            0 <= i < j < state.handed_out(ops).len() ==> #[trigger] state.handed_out(ops)[i]
                < #[trigger] state.handed_out(ops)[j],
        state.run(ops).next_invoke_id == state.next_invoke_id + stage_count(ops),
        state.run(ops).wf(),
    decreases ops.len(),
{
    if ops.len() > 0 {
        let next = state.apply(ops[0]);
        let rest = ops.drop_first();
        lemma_apply_keeps_wf(state, ops[0]);
        lemma_handed_out_ids_increase(next, rest);
        let ids = state.handed_out(ops);
        let later = next.handed_out(rest);
        if ops[0] is Stage {
            assert(next.next_invoke_id == state.next_invoke_id + 1);
            assert forall|i: int, j: int| 0 <= i < j < ids.len() implies #[trigger] ids[i]
                < #[trigger] ids[j] by {
                if i > 0 {
                    assert(ids[i] == later[i - 1]);
                }
                assert(ids[j] == later[j - 1]);
            }
            assert forall|i: int| 0 <= i < ids.len() implies state.next_invoke_id
                <= #[trigger] ids[i] by {
                if i > 0 {
                    assert(ids[i] == later[i - 1]);
                }
            }
        }
    }
}

/// Retirement lasts: while the counter has not wrapped, an id whose value was taken is never
/// staged or taken again, whatever is staged or recovered in between.
pub proof fn lemma_retired_stays_retired<V>(state: StageState<V>, op: StageOp<V>, invoke_id: u64)
    requires
        state.wf(),
        state.is_retired(invoke_id),
        state.apply(op).ids_fresh(),
    ensures
        state.apply(op).is_retired(invoke_id),
        match op {
            StageOp::Recover(label) => invoke_id_of(label) == Some(invoke_id) ==> state.recover_result(
                label,
            ) is Err,
            StageOp::Stage(_) => true,
        },
{
}

/// A successful recovery retires the id it took.
pub proof fn lemma_recover_retires<V>(state: StageState<V>, label: Seq<char>, invoke_id: u64)
    requires
        state.wf(),
        state.ids_fresh(),
        invoke_id_of(label) == Some(invoke_id),
        state.recover_result(label) is Ok,
    ensures
        state.after_recover(label).is_retired(invoke_id),
{
}

/// A staged value is recovered at most once, whatever other stagings and recoveries happen
/// in between and in whatever order: while the counter does not wrap, at most one recovery
/// by a label naming a given id succeeds, and none once that id is retired.
pub proof fn lemma_recovered_at_most_once<V>(
    state: StageState<V>,
    ops: Seq<StageOp<V>>,
    invoke_id: u64,
)
    requires
        state.wf(),
        state.issued + stage_count(ops) < u64::MAX,
    ensures
        state.recoveries_of(ops, invoke_id) <= 1,
        state.is_retired(invoke_id) ==> state.recoveries_of(ops, invoke_id) == 0,
    decreases ops.len(),
{
    if ops.len() > 0 {
        let op = ops[0];
        let next = state.apply(op);
        let rest = ops.drop_first();
        lemma_apply_keeps_wf(state, op);
        lemma_recovered_at_most_once(next, rest, invoke_id);
        if state.is_retired(invoke_id) {
            lemma_retired_stays_retired(state, op, invoke_id);
        }
        if let StageOp::Recover(label) = op {
            if invoke_id_of(label) == Some(invoke_id) && state.recover_result(label) is Ok {
                lemma_recover_retires(state, label, invoke_id);
            }
        }
    }
}

} // verus!

//! What getting the terminal back takes: the steps that set it up, what
//! undoes a setup that failed half way, and restoring it exactly once
//! however many times restoration is asked for (a panic hook and a drop
//! guard may both ask). The terminal calls themselves are the caller's.

use vstd::prelude::*;

verus! {

/// One terminal operation.
#[derive(Debug, Clone, Copy, PartialEq, Eq, Structural)]
pub enum TermOp {
    EnableRaw,
    DisableRaw,
    EnterAlt,
    LeaveAlt,
}

/// The setup, in order: raw mode, then the alternate screen.
pub open spec fn setup_spec() -> Seq<TermOp> {
    seq![TermOp::EnableRaw, TermOp::EnterAlt]
}

/// The restoration, in order: leave the alternate screen first, so anything
/// printed afterwards lands where the user can read it; then raw mode off.
pub open spec fn restore_spec() -> Seq<TermOp> {
    seq![TermOp::LeaveAlt, TermOp::DisableRaw]
}

/// What undoes one setup step.
pub open spec fn undo_of(op: TermOp) -> TermOp {
    match op {
        TermOp::EnableRaw => TermOp::DisableRaw,
        TermOp::EnterAlt => TermOp::LeaveAlt,
        TermOp::DisableRaw => TermOp::EnableRaw,
        TermOp::LeaveAlt => TermOp::EnterAlt,
    }
}

/// The undoing of the first `k` setup steps, last first.
pub open spec fn undo_spec(k: int) -> Seq<TermOp>
    decreases k,
{
    if k <= 0 {
        Seq::empty()
    } else {
        seq![undo_of(setup_spec()[k - 1])] + undo_spec(k - 1)
    }
}

/// The setup steps, in the order they are performed.
pub fn setup_ops() -> (ops: Vec<TermOp>)
    ensures
        ops@ == setup_spec(),
{
    let ops = vec![TermOp::EnableRaw, TermOp::EnterAlt];
    assert(ops@ =~= setup_spec());
    ops
}

/// What to do when setup step `failed` (counted from 0) fails: undo the
/// steps that succeeded before it, last first, so a failed setup leaves
/// nothing enabled.
pub fn undo_failed_setup(failed: usize) -> (ops: Vec<TermOp>)
    requires
        failed < 2,
    ensures
        ops@ == undo_spec(failed as int),
{
    let mut ops: Vec<TermOp> = Vec::new();
    if failed == 1 {
        ops.push(TermOp::DisableRaw);
    }
    proof {
        reveal_with_fuel(undo_spec, 3);
    }
    assert(ops@ =~= undo_spec(failed as int));
    ops
}

/// Whether the terminal has been given back.
pub struct RestoreOnce {
    restored: bool,
}

impl RestoreOnce {
    /// Whether restoration has happened.
    pub closed spec fn done(&self) -> bool {
        self.restored
    }

    /// Nothing restored yet.
    pub fn new() -> (r: Self)
        ensures
            !r.done(),
    {
        RestoreOnce { restored: false }
    }

    /// The operations this request to restore must perform: all of
    /// `restore_spec` the first time, nothing ever after.
    pub fn restore(&mut self) -> (ops: Vec<TermOp>)
        ensures
            final(self).done(),
            ops@ == if old(self).done() {
                Seq::<TermOp>::empty()
            } else {
                restore_spec()
            },
    {
        if self.restored {
            return Vec::new();
        }
        self.restored = true;
        let ops = vec![TermOp::LeaveAlt, TermOp::DisableRaw];
        assert(ops@ =~= restore_spec());
        ops
    }
}

/// What a run of requests to restore performs in all: the operations of
/// each request, in order.
pub open spec fn performed(runs: Seq<Seq<TermOp>>) -> Seq<TermOp>
    decreases runs.len(),
{
    if runs.len() == 0 {
        Seq::empty()
    } else {
        performed(runs.drop_last()) + runs.last()
    }
}

/// Restoring is idempotent: however many requests to restore arrive, one
/// after another from a guard that had restored nothing, together they
/// perform `restore_spec` exactly once (and nothing, if there were none).
pub proof fn lemma_restores_exactly_once(guards: Seq<RestoreOnce>, runs: Seq<Seq<TermOp>>)
    requires
        guards.len() == runs.len() + 1,
        !guards[0].done(),
        forall|i: int| 0 <= i < runs.len() ==> #[trigger] guards[i + 1].done() && runs[i] == if guards[i].done() {
            Seq::<TermOp>::empty()
        } else {
            restore_spec()
        },
    ensures
        performed(runs) == if runs.len() == 0 {
            Seq::<TermOp>::empty()
        } else {
            restore_spec()
        },
    decreases runs.len(),
{
    if runs.len() > 1 {
        let g = guards.drop_last();
        let r = runs.drop_last();
        assert forall|i: int| 0 <= i < r.len() implies #[trigger] g[i + 1].done() && r[i] == if g[i].done() {
            Seq::<TermOp>::empty()
        } else {
            restore_spec()
        } by {
            assert(guards[i + 1].done());
        }
        lemma_restores_exactly_once(g, r);
        let k = runs.len() - 2;
        assert(guards[k + 1].done());
        let last = k + 1;
        assert(guards[last + 1].done());
        assert(runs[last] == Seq::<TermOp>::empty());
        assert(runs.last() == runs[last]);
        assert(performed(runs) =~= performed(r));
    } else if runs.len() == 1 {
        assert(guards[0int + 1].done());
        assert(runs[0] == restore_spec());
        assert(runs.drop_last() =~= Seq::<Seq<TermOp>>::empty());
        assert(performed(runs.drop_last()) == Seq::<TermOp>::empty());
        assert(performed(runs) =~= restore_spec());
    }
}

} // verus!

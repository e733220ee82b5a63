//! The run of a Caelestia apply: its operations in order, and at the first
//! failure the operations that put back what Caelestia showed before.
use vstd::prelude::*;

use crate::appearance::caelestia::{apply_ops, restore_operations, restore_ops};
use crate::appearance::engine::apply_operations_for;
use crate::appearance::model::{operation_views, AppearanceOperation, CaelestiaSnapshot};
use crate::text::{owned, push_str};
use crate::unit_runs::outcome_view;

verus! {

/// What an apply does next.
#[derive(Debug, Clone, PartialEq, Eq)]
pub enum ApplyAction {
    /// Run the apply operation at this index.
    Apply(usize),
    /// Run the restore operation at this index, after an apply operation failed.
    Restore(usize),
    /// Every apply operation succeeded.
    Complete,
    /// The apply failed with this error.
    Fail(String),
}

pub enum ApplyActionView {
    Apply(nat),
    Restore(nat),
    Complete,
    Fail(Seq<char>),
}

impl View for ApplyAction {
    type V = ApplyActionView;

    open spec fn view(&self) -> ApplyActionView {
        match self {
            ApplyAction::Apply(i) => ApplyActionView::Apply(*i as nat),
            ApplyAction::Restore(i) => ApplyActionView::Restore(*i as nat),
            ApplyAction::Complete => ApplyActionView::Complete,
            ApplyAction::Fail(e) => ApplyActionView::Fail(e@),
        }
    }
}

impl ApplyAction {
    /// A copy with the same view.
    pub fn duplicate(&self) -> (r: ApplyAction)
        ensures
            r@ == self@,
    {
        match self {
            ApplyAction::Apply(i) => ApplyAction::Apply(*i),
            ApplyAction::Restore(i) => ApplyAction::Restore(*i),
            ApplyAction::Complete => ApplyAction::Complete,
            ApplyAction::Fail(e) => ApplyAction::Fail(e.clone()),
        }
    }
}

/// The state of an apply between two operations: what comes next, and the
/// error of the apply operation that failed while its rollback runs.
pub struct ApplyRunView {
    pub action: ApplyActionView,
    pub error: Option<Seq<char>>,
}

/// The error an apply fails with, given how the rollback went.
pub open spec fn apply_failure(error: Seq<char>, rollback: Result<(), Seq<char>>) -> Seq<char> {
    match rollback {
        Ok(()) => "appearance apply failed and was rolled back: "@ + error,
        Err(x) => "appearance apply failed: "@ + error + "; rollback also failed: "@ + x,
    }
}

pub open spec fn at(action: ApplyActionView, error: Option<Seq<char>>) -> ApplyRunView {
    ApplyRunView { action, error }
}

/// The first step of an apply with `apply_len` operations.
pub open spec fn apply_start(apply_len: nat) -> ApplyRunView {
    if apply_len == 0 {
        at(ApplyActionView::Complete, None)
    } else {
        at(ApplyActionView::Apply(0), None)
    }
}

/// One step of an apply: the apply operations run in order; the first that
/// fails starts the restore operations, which run in order until one fails or
/// all ran; the apply then fails with the first error and how the rollback
/// went.
pub open spec fn apply_next(
    s: ApplyRunView,
    apply_len: nat,
    restore_len: nat,
    outcome: Result<(), Seq<char>>,
) -> ApplyRunView {
    match s.action {
        ApplyActionView::Apply(i) => match outcome {
            Ok(()) => if i + 1 < apply_len {
                at(ApplyActionView::Apply(i + 1), None)
            } else {
                at(ApplyActionView::Complete, None)
            },
            Err(e) => if restore_len > 0 {
                at(ApplyActionView::Restore(0), Some(e))
            } else {
                at(ApplyActionView::Fail(apply_failure(e, Ok(()))), None)
            },
        },
        ApplyActionView::Restore(i) => {
            let e = match s.error {
                Some(e) => e,
                None => Seq::empty(),
            };
            match outcome {
                Ok(()) => if i + 1 < restore_len {
                    at(ApplyActionView::Restore(i + 1), s.error)
                } else {
                    at(ApplyActionView::Fail(apply_failure(e, Ok(()))), None)
                },
                Err(x) => at(ApplyActionView::Fail(apply_failure(e, Err(x))), None),
            }
        },
        ApplyActionView::Complete => s,
        ApplyActionView::Fail(_) => s,
    }
}

/// The state after `n` successful steps from `s`.
pub open spec fn apply_after_successes(
    s: ApplyRunView,
    apply_len: nat,
    restore_len: nat,
    n: nat,
) -> ApplyRunView
    decreases n,
{
    if n == 0 {
        s
    } else {
        apply_next(
            apply_after_successes(s, apply_len, restore_len, (n - 1) as nat),
            apply_len,
            restore_len,
            Ok(()),
        )
    }
}

/// How many steps an apply has left at most; every step lowers it.
pub open spec fn apply_measure(s: ApplyRunView, apply_len: nat, restore_len: nat) -> nat {
    match s.action {
        ApplyActionView::Apply(i) => (restore_len + 1 + apply_len - i) as nat,
        ApplyActionView::Restore(i) => (restore_len - i) as nat,
        ApplyActionView::Complete => 0,
        ApplyActionView::Fail(_) => 0,
    }
}

/// An apply in progress: the apply operations, the restore operations of the
/// snapshot taken before, the next action and the error being rolled back.
pub struct ApplyRun {
    pub operations: Vec<AppearanceOperation>,
    pub restore: Vec<AppearanceOperation>,
    pub action: ApplyAction,
    pub error: Option<String>,
}

impl ApplyRun {
    pub open spec fn state(&self) -> ApplyRunView {
        ApplyRunView {
            action: self.action@,
            error: match self.error {
                Some(e) => Some(e@),
                None => None,
            },
        }
    }

    /// The next operation to run exists.
    pub open spec fn wf(&self) -> bool {
        &&& self.action@ matches ApplyActionView::Apply(i) ==> i < self.operations@.len()
        &&& self.action@ matches ApplyActionView::Restore(i) ==> i < self.restore@.len()
    }

    /// Takes the outcome of the current operation and returns the next action.
    pub fn advance(&mut self, outcome: Result<(), String>) -> (r: ApplyAction)
        requires
            old(self).wf(),
        ensures
            final(self).wf(),
            final(self).state() == apply_next(
                old(self).state(),
                old(self).operations@.len(),
                old(self).restore@.len(),
                outcome_view(outcome),
            ),
            r@ == final(self).action@,
            final(self).operations@ == old(self).operations@,
            final(self).restore@ == old(self).restore@,
    {
        let apply_len = self.operations.len();
        let restore_len = self.restore.len();
        let next = match &self.action {
            ApplyAction::Apply(i) => match outcome {
                Ok(()) => {
                    self.error = None;
                    if *i + 1 < apply_len {
                        ApplyAction::Apply(*i + 1)
                    } else {
                        ApplyAction::Complete
                    }
                },
                Err(e) => if restore_len > 0 {
                    self.error = Some(e);
                    ApplyAction::Restore(0)
                } else {
                    self.error = None;
                    ApplyAction::Fail(failure(e.as_str(), Ok(())))
                },
            },
            ApplyAction::Restore(i) => {
                let e = match &self.error {
                    Some(e) => e.clone(),
                    None => String::new(),
                };
                proof {
                    assert(self.error is None ==> e@ =~= Seq::<char>::empty());
                }
                match outcome {
                    Ok(()) => if *i + 1 < restore_len {
                        ApplyAction::Restore(*i + 1)
                    } else {
                        self.error = None;
                        ApplyAction::Fail(failure(e.as_str(), Ok(())))
                    },
                    Err(x) => {
                        self.error = None;
                        ApplyAction::Fail(failure(e.as_str(), Err(x)))
                    },
                }
            },
            ApplyAction::Complete => ApplyAction::Complete,
            ApplyAction::Fail(e) => ApplyAction::Fail(e.clone()),
        };
        let r = next.duplicate();
        self.action = next;
        r
    }
}

fn failure(error: &str, rollback: Result<(), String>) -> (r: String)
    ensures
        r@ == apply_failure(
            error@,
            match rollback {
                Ok(()) => Ok(()),
                Err(x) => Err(x@),
            },
        ),
{
    match rollback {
        Ok(()) => {
            let mut m = owned("appearance apply failed and was rolled back: ");
            push_str(&mut m, error);
            m
        },
        Err(x) => {
            let mut m = owned("appearance apply failed: ");
            push_str(&mut m, error);
            push_str(&mut m, "; rollback also failed: ");
            push_str(&mut m, x.as_str());
            m
        },
    }
}

/// The run that shows `image` given the scheme Caelestia reports, and rolls
/// back to `previous` if an operation fails.
pub fn start_apply(image: &str, current_scheme: &str, previous: &CaelestiaSnapshot) -> (r: ApplyRun)
    ensures
        operation_views(r.operations@) == apply_ops(image@, current_scheme@ != "dynamic"@),
        operation_views(r.restore@) == restore_ops(previous@),
        r.state() == apply_start(r.operations@.len()),
        r.state() == at(ApplyActionView::Apply(0), None),
        r.wf(),
{
    let operations = apply_operations_for(image, current_scheme);
    let restore = restore_operations(previous);
    assert(operation_views(operations@).len() == operations@.len());
    ApplyRun { operations, restore, action: ApplyAction::Apply(0), error: None }
}

/// An apply whose every operation succeeds runs them all in order and
/// completes.
pub proof fn law_successful_apply_runs_every_operation(apply_len: nat, restore_len: nat)
    requires
        apply_len > 0,
    ensures
        forall|i: nat|
            i < apply_len ==> #[trigger] apply_after_successes(
                apply_start(apply_len),
                apply_len,
                restore_len,
                i,
            ) == at(ApplyActionView::Apply(i), None),
        apply_after_successes(apply_start(apply_len), apply_len, restore_len, apply_len).action
            == ApplyActionView::Complete,
{
    assert forall|i: nat| i < apply_len implies #[trigger] apply_after_successes(
        apply_start(apply_len),
        apply_len,
        restore_len,
        i,
    ) == at(ApplyActionView::Apply(i), None) by {
        lemma_applies_in_order(apply_len, restore_len, i);
    }
    lemma_applies_in_order(apply_len, restore_len, (apply_len - 1) as nat);
}

proof fn lemma_applies_in_order(apply_len: nat, restore_len: nat, i: nat)
    requires
        i < apply_len,
    ensures
        apply_after_successes(apply_start(apply_len), apply_len, restore_len, i) == at(
            ApplyActionView::Apply(i),
            None,
        ),
    decreases i,
{
    if i > 0 {
        lemma_applies_in_order(apply_len, restore_len, (i - 1) as nat);
    }
}

proof fn lemma_restores_in_order(apply_len: nat, restore_len: nat, e: Seq<char>, j: nat)
    requires
        j < restore_len,
    ensures
        apply_after_successes(at(ApplyActionView::Restore(0), Some(e)), apply_len, restore_len, j)
            == at(ApplyActionView::Restore(j), Some(e)),
    decreases j,
{
    if j > 0 {
        lemma_restores_in_order(apply_len, restore_len, e, (j - 1) as nat);
    }
}

/// When an apply operation fails, the run puts back the snapshot: it runs the
/// restore operations in order, and fails with the first error, saying the
/// apply was rolled back when every restore operation succeeded, or giving
/// the restore's own error after the first that failed.
pub proof fn law_failed_apply_is_rolled_back(
    apply_len: nat,
    restore_len: nat,
    i: nat,
    e: Seq<char>,
    x: Seq<char>,
)
    requires
        i < apply_len,
        restore_len > 0,
    ensures
        apply_next(at(ApplyActionView::Apply(i), None), apply_len, restore_len, Err(e)) == at(
            ApplyActionView::Restore(0),
            Some(e),
        ),
        forall|j: nat|
            j < restore_len ==> #[trigger] apply_after_successes(
                at(ApplyActionView::Restore(0), Some(e)),
                apply_len,
                restore_len,
                j,
            ) == at(ApplyActionView::Restore(j), Some(e)),
        apply_after_successes(
            at(ApplyActionView::Restore(0), Some(e)),
            apply_len,
            restore_len,
            restore_len,
        ).action == ApplyActionView::Fail(apply_failure(e, Ok(()))),
        forall|j: nat|
            j < restore_len ==> (#[trigger] apply_next(
                at(ApplyActionView::Restore(j), Some(e)),
                apply_len,
                restore_len,
                Err(x),
            )).action == ApplyActionView::Fail(apply_failure(e, Err(x))),
{
    assert forall|j: nat| j < restore_len implies #[trigger] apply_after_successes(
        at(ApplyActionView::Restore(0), Some(e)),
        apply_len,
        restore_len,
        j,
    ) == at(ApplyActionView::Restore(j), Some(e)) by {
        lemma_restores_in_order(apply_len, restore_len, e, j);
    }
    lemma_restores_in_order(apply_len, restore_len, e, (restore_len - 1) as nat);
}

} // verus!

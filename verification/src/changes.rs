//! The order in which the changes of one transaction are computed.
//!
//! Two algorithms outside this crate compute the object changes and the
//! balance changes of a transaction, both against a `TxChangesProcessor`.
//! The caller runs them; this module decides what runs next and what the
//! computation yields. The object changes come first. Then the declared
//! input objects of the transaction are read, and only if they are valid the
//! balance changes are computed from them.

use vstd::prelude::*;

verus! {

/// Why the changes of a transaction were not computed.
#[derive(Debug, PartialEq, Eq)]
pub enum ChangesError<E> {
    /// An algorithm failed. The failure is handed on as it came, for the
    /// caller to decide on.
    Algorithm(E),
    /// The declared input objects of a checkpointed transaction are invalid.
    /// The caller supplied inconsistent data: this is fatal.
    InvalidInputObjects,
}

/// How far the computation for one transaction has come. `B` is a balance
/// change, `O` an object change and `E` the failure of an algorithm.
#[derive(Debug, PartialEq, Eq)]
pub enum ChangeStage<B, O, E> {
    /// Nothing has run. The object changes are computed next.
    ObjectChanges,
    /// The object changes are known. The input objects are read next.
    InputObjects { object_changes: Vec<O> },
    /// The input objects are valid. The balance changes are computed next.
    BalanceChanges { object_changes: Vec<O> },
    /// The computation is over: the balance changes and the object changes,
    /// or the reason why there are none.
    Finished(Result<(Vec<B>, Vec<O>), ChangesError<E>>),
}

/// What the caller reports after it has done what a stage asked for.
#[derive(Debug, PartialEq, Eq)]
pub enum ChangeEvent<B, O, E> {
    /// What the object-change algorithm returned.
    ObjectChanges(Result<Vec<O>, E>),
    /// Whether the declared input objects of the transaction are valid.
    InputObjects { valid: bool },
    /// What the balance-change algorithm returned.
    BalanceChanges(Result<Vec<B>, E>),
}

impl<B, O, E> ChangeStage<B, O, E> {
    /// The stage that follows `self` when `event` is reported. An event that
    /// the stage does not wait for changes nothing.
    pub open spec fn next(self, event: ChangeEvent<B, O, E>) -> Self {
        match (self, event) {
            (ChangeStage::ObjectChanges, ChangeEvent::ObjectChanges(Ok(object_changes))) => {
                ChangeStage::InputObjects { object_changes }
            },
            (ChangeStage::ObjectChanges, ChangeEvent::ObjectChanges(Err(e))) => {
                ChangeStage::Finished(Err(ChangesError::Algorithm(e)))
            },
            (ChangeStage::InputObjects { object_changes }, ChangeEvent::InputObjects { valid }) => {
                if valid {
                    ChangeStage::BalanceChanges { object_changes }
                } else {
                    ChangeStage::Finished(Err(ChangesError::InvalidInputObjects))
                }
            },
            (
                ChangeStage::BalanceChanges { object_changes },
                ChangeEvent::BalanceChanges(Ok(balance_changes)),
            ) => ChangeStage::Finished(Ok((balance_changes, object_changes))),
            (ChangeStage::BalanceChanges { .. }, ChangeEvent::BalanceChanges(Err(e))) => {
                ChangeStage::Finished(Err(ChangesError::Algorithm(e)))
            },
            (stage, _) => stage,
        }
    }

    /// The computation is over.
    pub open spec fn is_finished(self) -> bool {
        self is Finished
    }

    /// The stage at which every computation starts.
    pub fn start() -> (r: Self)
        ensures
            r == ChangeStage::<B, O, E>::ObjectChanges,
    {
        ChangeStage::ObjectChanges
    }

    /// Takes the report of the caller and moves to the next stage.
    pub fn advance(self, event: ChangeEvent<B, O, E>) -> (r: Self)
        ensures
            r == self.next(event),
    {
        match self {
            ChangeStage::ObjectChanges => match event {
                ChangeEvent::ObjectChanges(Ok(object_changes)) => ChangeStage::InputObjects {
                    object_changes,
                },
                ChangeEvent::ObjectChanges(Err(e)) => ChangeStage::Finished(
                    Err(ChangesError::Algorithm(e)),
                ),
                _ => ChangeStage::ObjectChanges,
            },
            ChangeStage::InputObjects { object_changes } => match event {
                ChangeEvent::InputObjects { valid } => {
                    if valid {
                        ChangeStage::BalanceChanges { object_changes }
                    } else {
                        ChangeStage::Finished(Err(ChangesError::InvalidInputObjects))
                    }
                },
                _ => ChangeStage::InputObjects { object_changes },
            },
            ChangeStage::BalanceChanges { object_changes } => match event {
                ChangeEvent::BalanceChanges(Ok(balance_changes)) => ChangeStage::Finished(
                    Ok((balance_changes, object_changes)),
                ),
                ChangeEvent::BalanceChanges(Err(e)) => ChangeStage::Finished(
                    Err(ChangesError::Algorithm(e)),
                ),
                _ => ChangeStage::BalanceChanges { object_changes },
            },
            ChangeStage::Finished(outcome) => ChangeStage::Finished(outcome),
        }
    }

    /// What the computation yielded, once it is over.
    pub fn into_outcome(self) -> (r: Option<Result<(Vec<B>, Vec<O>), ChangesError<E>>>)
        ensures
            r == match self {
                ChangeStage::Finished(outcome) => Some(outcome),
                _ => None,
            },
    {
        match self {
            ChangeStage::Finished(outcome) => Some(outcome),
            _ => None,
        }
    }
}

/// A finished computation stays as it is, whatever is reported.
pub proof fn lemma_finished_is_final<B, O, E>(
    stage: ChangeStage<B, O, E>,
    event: ChangeEvent<B, O, E>,
)
    requires
        stage.is_finished(),
    ensures
        stage.next(event) == stage,
{
}

/// When everything succeeds, the computation yields the balance changes and
/// the object changes as the algorithms returned them, and it has taken
/// exactly the three reports in their order.
pub proof fn lemma_success_yields_both<B, O, E>(object_changes: Vec<O>, balance_changes: Vec<B>)
    ensures
        ChangeStage::<B, O, E>::ObjectChanges.next(
            ChangeEvent::ObjectChanges(Ok(object_changes)),
        ).next(ChangeEvent::InputObjects { valid: true }).next(
            ChangeEvent::BalanceChanges(Ok(balance_changes)),
        ) == ChangeStage::<B, O, E>::Finished(Ok((balance_changes, object_changes))),
{
}

/// The balance changes are never asked for unless the object changes were
/// computed and the input objects were valid: a computation yields changes
/// only from the stage that waits for the balance changes.
pub proof fn lemma_changes_need_every_step<B, O, E>(
    stage: ChangeStage<B, O, E>,
    event: ChangeEvent<B, O, E>,
)
    requires
        !stage.is_finished(),
        stage.next(event) matches ChangeStage::Finished(Ok(_)),
    ensures
        stage is BalanceChanges,
        event matches ChangeEvent::BalanceChanges(Ok(_)),
{
}

} // verus!

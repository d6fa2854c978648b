//! The concurrency coordinator's decision core.
//!
//! Every mutating operation — add, remove, complete — must run its whole
//! read-modify-write-persist sequence as one critical section. [`step`]
//! is that sequence with the outside world factored out: it applies one
//! operation to the store and hands back the outcome together with the
//! full image to persist (present exactly when the collection changed, and
//! always equal to the encoding of the new in-memory state — write-through).
//! The surrounding process owns the store behind one exclusive lock, calls
//! `step` under that lock, and writes the returned image to the storage
//! location before releasing it; readers only ever see a fully written
//! image.

use vstd::prelude::*;
use crate::codec;
use crate::store::CompleteOutcome;
use crate::store::RemoveOutcome;
use crate::store::TaskManager;
use crate::store::spec_add;
use crate::store::spec_complete;
use crate::store::spec_remove;

verus! {

/// One mutating operation, as a handler hands it in.
pub enum MutOp {
    Add { title: String, body: String },
    Remove { index: usize },
    Complete { index: usize },
}

/// What one step decided, flattened over the three operations.
#[derive(Clone, Copy, Debug, PartialEq, Eq, Structural)]
pub enum StepOutcome {
    Added,
    Removed,
    EmptyStore,
    OutOfBounds,
    Completed,
    AlreadyFinished,
    InvalidIndex,
}

/// Applies one mutating operation to the store, as one unit. The returned
/// image is present exactly when the collection changed, and is the encoded
/// form of the new collection: persisting it keeps the on-disk image equal
/// to the in-memory state after every successful mutation.
pub fn step(m: &mut TaskManager, op: MutOp) -> (r: (StepOutcome, Option<String>))
    ensures
        (op matches MutOp::Add { title, body } ==> {
            &&& exists|stamp: Seq<char>|
                #![auto]
                stamp.len() > 0 && final(m).deep_view() == spec_add(
                    old(m).deep_view(),
                    title@,
                    body@,
                    stamp,
                )
            &&& r.0 is Added
            &&& r.1 is Some
        }),
        (op matches MutOp::Remove { index } ==> {
            &&& final(m).deep_view() == spec_remove(old(m).deep_view(), index as int)
            &&& (r.0 is Removed <==> index < old(m).deep_view().len())
            &&& (r.0 is EmptyStore <==> old(m).deep_view().len() == 0)
            &&& (r.0 is OutOfBounds <==> 0 < old(m).deep_view().len() <= index)
            &&& (r.1 is Some <==> index < old(m).deep_view().len())
        }),
        (op matches MutOp::Complete { index } ==> {
            &&& exists|stamp: Seq<char>|
                #![auto]
                stamp.len() > 0 && final(m).deep_view() == spec_complete(
                    old(m).deep_view(),
                    index as int,
                    stamp,
                )
            &&& (r.0 is Completed <==> (index < old(m).deep_view().len() && old(m).deep_view()[
                index as int
            ].pending))
            &&& (r.0 is AlreadyFinished <==> (index < old(m).deep_view().len() && !old(
                m,
            ).deep_view()[index as int].pending))
            &&& (r.0 is InvalidIndex <==> index >= old(m).deep_view().len())
            &&& (r.1 is Some <==> (index < old(m).deep_view().len() && old(m).deep_view()[
                index as int
            ].pending))
        }),
        (r.1 matches Some(img) ==> img@ == codec::spec_encode(final(m).deep_view())),
{
    match op {
        MutOp::Add { title, body } => {
            m.add_task(title, body);
            let img = m.encode_json();
            (StepOutcome::Added, Some(img))
        },
        MutOp::Remove { index } => {
            let ro = m.remove_task(index);
            match ro {
                RemoveOutcome::Removed => {
                    let img = m.encode_json();
                    (StepOutcome::Removed, Some(img))
                },
                RemoveOutcome::EmptyStore => (StepOutcome::EmptyStore, None),
                RemoveOutcome::OutOfBounds => (StepOutcome::OutOfBounds, None),
            }
        },
        MutOp::Complete { index } => {
            let co = m.complete_task(index);
            match co {
                CompleteOutcome::Completed => {
                    let img = m.encode_json();
                    (StepOutcome::Completed, Some(img))
                },
                CompleteOutcome::AlreadyFinished => (StepOutcome::AlreadyFinished, None),
                CompleteOutcome::InvalidIndex => (StepOutcome::InvalidIndex, None),
            }
        },
    }
}

} // verus!

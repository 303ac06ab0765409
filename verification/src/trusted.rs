//! Contracts for the calls this crate makes into outside crates.  Each item
//! here is believed, not proved: its stated behaviour is taken from the
//! outside crate's source.

use vstd::prelude::*;
use rayon::iter::{IntoParallelRefIterator, ParallelIterator};
use crate::entities::{AnimatedEntity, Entity};
use crate::timeline::Timeline;

verus! {

/// Relies on uuid::Uuid::new_v4 and the Display form of a Uuid: a freshly
/// drawn random identifier, rendered in the hyphenated textual form, which
/// is always 36 characters.  The value itself is random, so nothing more is
/// assumed of it.
#[verifier::external_body]
pub(crate) fn fresh_keyframe_id() -> (r: String)
    ensures
        r@.len() == 36,
{
    uuid::Uuid::new_v4().to_string()
}

/// Relies on rayon's parallel iterators: `par_iter` over a slice is an
/// indexed parallel iterator, `map` applies the closure to every element,
/// and collecting into a `Vec` keeps the element order of the slice.  The
/// closure only calls the crate's own verified `calculate`, whose contract
/// gives the per-element relation stated here.
#[verifier::external_body]
pub(crate) fn par_calculate_entities(timeline: &Timeline) -> (r: Vec<Option<Entity>>)
    ensures
        r@.len() == timeline.entities@.len(),
        forall|i: int|
            0 <= i < r@.len() ==> crate::entities::spec_entity_result_matches(
                timeline.entities@[i],
                #[trigger] r@[i],
                timeline.render_state.curr_frame as int,
                timeline.fps as int,
            ),
{
    timeline.entities.par_iter().map(|entity: &AnimatedEntity| entity.calculate(timeline)).collect()
}

} // verus!

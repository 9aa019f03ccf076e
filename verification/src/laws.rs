//! What holds of every bolt, whatever is drawn for it.

use vstd::prelude::*;
use crate::bolt::{BoltInstance, Event, Phase};
use crate::charge::{decay_factor, decayed_spec, lemma_decay_bounds};
use crate::geometry::Vec3;

verus! {

/// The charge of a bolt is never negative, whatever a tick does to it: the
/// factor by which a charge decays stops at zero, however long the tick.
pub proof fn lemma_charge_never_negative(
    before: BoltInstance,
    after: BoltInstance,
    events: Seq<Event>,
    dt: u32,
    conductors: Seq<Vec3>,
    noise: Seq<Vec3>,
    offset: int,
)
    requires
        before.wf(),
        before.ticked_to(&after, events, dt, conductors, noise, offset),
    ensures
        after.charge >= 0,
        decay_factor(before.config.decay_rate as int, dt as int) >= 0,
        before.phase == Phase::Decaying ==> after.charge == decayed_spec(
            before.charge as int,
            before.config.decay_rate as int,
            dt as int,
        ),
{
}

/// A tick never raises the charge of a decaying bolt, and such a bolt
/// stays decaying until it is removed.
pub proof fn lemma_decay_never_brightens(
    before: BoltInstance,
    after: BoltInstance,
    events: Seq<Event>,
    dt: u32,
    conductors: Seq<Vec3>,
    noise: Seq<Vec3>,
    offset: int,
)
    requires
        before.wf(),
        before.phase == Phase::Decaying,
        before.ticked_to(&after, events, dt, conductors, noise, offset),
    ensures
        after.charge <= before.charge,
        after.phase == Phase::Decaying || after.phase == Phase::Removed,
{
    lemma_decay_bounds(before.charge as int, before.config.decay_rate as int, dt as int);
}

/// A tick never gives a bolt steps back.
pub proof fn lemma_steps_never_return(
    before: BoltInstance,
    after: BoltInstance,
    events: Seq<Event>,
    dt: u32,
    conductors: Seq<Vec3>,
    noise: Seq<Vec3>,
    offset: int,
)
    requires
        before.wf(),
        before.ticked_to(&after, events, dt, conductors, noise, offset),
    ensures
        after.remaining_steps <= before.remaining_steps,
{
}

/// A growing bolt has taken fewer growth steps than it was given.
pub proof fn lemma_growing_has_steps_left(bolt: BoltInstance)
    requires
        bolt.wf(),
        bolt.phase == Phase::Growing,
    ensures
        0 <= bolt.steps_taken() < bolt.config.max_steps,
{
}

/// Each growth step counts, and the step that uses up the last one leaves
/// the bolt touched: a bolt touches after at most as many growth steps as it
/// was given.
pub proof fn lemma_growth_is_bounded(
    before: BoltInstance,
    after: BoltInstance,
    events: Seq<Event>,
    charge: u64,
    conductors: Seq<Vec3>,
    plan: Seq<Vec<u32>>,
    noise: Seq<Vec3>,
    offset: int,
)
    requires
        before.wf(),
        before.phase == Phase::Growing,
        before.is_growth_step(&after, events, charge, conductors, plan, noise, offset),
    ensures
        after.steps_taken() == before.steps_taken() + 1,
        after.steps_taken() <= after.config.max_steps,
        after.steps_taken() == after.config.max_steps ==> after.phase == Phase::Touched,
        after.phase == Phase::Growing || after.phase == Phase::Touched,
{
}

/// Despawning a bolt a second time changes nothing and hands nothing back.
pub proof fn lemma_despawn_is_idempotent(
    first: BoltInstance,
    second: BoltInstance,
    third: BoltInstance,
    r1: Option<Event>,
    r2: Option<Event>,
)
    requires
        first.despawned_to(&second, r1),
        second.despawned_to(&third, r2),
    ensures
        r2 is None,
        third == second,
        second.phase == Phase::Removed,
{
}

/// A growth step is determined by the bolt, the conductors, the lengths
/// drawn and the noise: two steps from the same of these emit the same
/// events and leave the same tips, handles, phase and step counter.
pub proof fn lemma_growth_is_determined(
    before: BoltInstance,
    one: BoltInstance,
    other: BoltInstance,
    events_one: Seq<Event>,
    events_other: Seq<Event>,
    charge: u64,
    conductors: Seq<Vec3>,
    plan: Seq<Vec<u32>>,
    noise: Seq<Vec3>,
    offset: int,
)
    requires
        before.is_growth_step(&one, events_one, charge, conductors, plan, noise, offset),
        before.is_growth_step(&other, events_other, charge, conductors, plan, noise, offset),
    ensures
        events_one == events_other,
        one.frontier@ == other.frontier@,
        one.segments_emitted@ == other.segments_emitted@,
        one.phase == other.phase,
        one.remaining_steps == other.remaining_steps,
{
}

/// Every segment that a growth step announces is recorded with the bolt:
/// the step adds one handle for each of its events, the handle that the
/// event names.
pub proof fn lemma_every_segment_is_recorded(
    before: BoltInstance,
    after: BoltInstance,
    events: Seq<Event>,
    charge: u64,
    conductors: Seq<Vec3>,
    plan: Seq<Vec<u32>>,
    noise: Seq<Vec3>,
    offset: int,
)
    requires
        before.wf(),
        before.is_growth_step(&after, events, charge, conductors, plan, noise, offset),
    ensures
        after.segments_emitted@.len() == before.segments_emitted@.len() + events.len(),
        forall|k: int|
            0 <= k < events.len() ==> ((#[trigger] events[k]) matches Event::SegmentCreated {
                segment_id,
                ..
            } && segment_id == after.segments_emitted@[before.segments_emitted@.len() + k]),
{
    assert(after.segments_emitted.len() == after.segments_emitted@.len());
}

/// The event that removes a bolt hands back as many handles as the bolt
/// had recorded, which are those very handles.
pub proof fn lemma_removal_returns_every_segment(
    before: BoltInstance,
    after: BoltInstance,
    r: Option<Event>,
)
    requires
        before.phase != Phase::Removed,
        before.despawned_to(&after, r),
    ensures
        r matches Some(Event::InstanceRemoved { segment_ids, .. }) && segment_ids@
            == before.segments_emitted@,
{
}

} // verus!

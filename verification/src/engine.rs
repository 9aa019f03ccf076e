//! The growth engine: an arena of bolts, advanced together tick by tick.

use vstd::prelude::*;
use crate::bolt::{is_removal, BoltInstance, Event, Phase};
use crate::config::Config;
use crate::error::StrikeError;
use crate::geometry::Vec3;

verus! {

/// The bolts of a scene. A bolt is known by its place in the arena, which
/// it keeps after it is removed.
#[derive(Debug)]
pub struct Engine {
    pub instances: Vec<BoltInstance>,
}

/// `bolt` is a newly struck bolt: growing from the single tip `origin`,
/// with all its steps before it and no segment grown.
pub open spec fn is_fresh(bolt: &BoltInstance, id: usize, origin: Vec3, config: Config) -> bool {
    &&& bolt.id == id
    &&& bolt.config == config
    &&& bolt.frontier@ == seq![origin]
    &&& bolt.phase == Phase::Growing
    &&& bolt.charge == config.initial_charge
    &&& bolt.step_interval == config.step_interval_growing
    &&& bolt.elapsed_since_step == 0
    &&& bolt.remaining_steps == config.max_steps
    &&& bolt.segments_emitted@.len() == 0
}

impl Engine {
    /// Every bolt is consistent and known by its place.
    pub open spec fn wf(&self) -> bool {
        forall|i: int|
            0 <= i < self.instances@.len() ==> (#[trigger] self.instances@[i]).wf()
                && self.instances@[i].id == i
    }

    /// `after` and `events` are what a tick of `dt` makes of `self`: each
    /// bolt is advanced once, in the order of the arena; `cuts` tells where
    /// in `events` the events of each bolt begin and end. A bolt takes its
    /// noise from the place of its first event on.
    pub open spec fn ticked_to(
        &self,
        after: &Engine,
        events: Seq<Event>,
        cuts: Seq<int>,
        dt: u32,
        conductors: Seq<Vec3>,
        noise: Seq<Vec3>,
    ) -> bool {
        &&& after.instances@.len() == self.instances@.len()
        &&& cuts.len() == self.instances@.len() + 1
        &&& cuts[0] == 0
        &&& cuts[self.instances@.len() as int] == events.len()
        &&& forall|i: int|
            0 <= i < self.instances@.len() ==> {
                &&& cuts[i] <= cuts[i + 1]
                &&& (#[trigger] self.instances@[i]).ticked_to(
                    &after.instances@[i],
                    events.subrange(cuts[i], cuts[i + 1]),
                    dt,
                    conductors,
                    noise,
                    cuts[i],
                )
            }
    }

    /// An engine without bolts.
    pub fn new() -> (e: Engine)
        ensures
            e.wf(),
            e.instances@.len() == 0,
    {
        Engine { instances: Vec::new() }
    }

    /// Strikes a new bolt at `origin`. An inconsistent configuration is
    /// rejected and no bolt is made; otherwise the new bolt takes the next
    /// place in the arena, which is returned.
    pub fn spawn_strike(&mut self, origin: Vec3, config: Config) -> (r: Result<usize, StrikeError>)
        requires
            old(self).wf(),
        ensures
            final(self).wf(),
            r is Ok <==> config.valid(),
            r is Err ==> r->Err_0 == StrikeError::ConfigurationInvalid && *final(self) == *old(self),
            r is Ok ==> {
                &&& r->Ok_0 == old(self).instances@.len()
                &&& final(self).instances@.len() == old(self).instances@.len() + 1
                &&& final(self).instances@.subrange(0, r->Ok_0 as int) == old(self).instances@
                &&& is_fresh(&final(self).instances@[r->Ok_0 as int], r->Ok_0, origin, config)
            },
    {
        match config.validate() {
            Err(e) => Err(e),
            Ok(_) => {
                let id: usize = self.instances.len();
                let mut frontier: Vec<Vec3> = Vec::new();
                frontier.push(origin);
                let bolt = BoltInstance {
                    id,
                    config,
                    frontier,
                    phase: Phase::Growing,
                    charge: config.initial_charge,
                    step_interval: config.step_interval_growing,
                    elapsed_since_step: 0,
                    remaining_steps: config.max_steps,
                    segments_emitted: Vec::new(),
                };
                assert(bolt.frontier@ =~= seq![origin]);
                self.instances.push(bolt);
                assert(final(self).instances@.subrange(0, id as int) =~= old(self).instances@);
                Ok(id)
            },
        }
    }

    /// Removes bolt `instance_id` at once, whatever its phase, and hands
    /// back the handles of its segments. Nothing happens where the bolt is
    /// removed already, or where no bolt has that number.
    pub fn despawn(&mut self, instance_id: usize) -> (r: Option<Event>)
        requires
            old(self).wf(),
        ensures
            final(self).wf(),
            final(self).instances@.len() == old(self).instances@.len(),
            forall|j: int|
                0 <= j < old(self).instances@.len() && j != instance_id ==> final(self).instances@[j] == old(self).instances@[j],
            r is Some <==> instance_id < old(self).instances@.len() && old(self).instances@[instance_id as int].phase != Phase::Removed,
            r is None ==> *final(self) == *old(self),
            r is Some ==> {
                &&& is_removal(
                    r->Some_0,
                    instance_id,
                    old(self).instances@[instance_id as int].segments_emitted@,
                )
                &&& old(self).instances@[instance_id as int].retired_to(
                    &final(self).instances@[instance_id as int],
                )
            },
    {
        if instance_id >= self.instances.len() {
            return None;
        }
        if self.instances[instance_id].phase == Phase::Removed {
            return None;
        }
        self.instances[instance_id].despawn()
    }

    /// The phase of bolt `instance_id`, if there is such a bolt.
    pub fn phase_of(&self, instance_id: usize) -> (r: Option<Phase>)
        ensures
            r == if instance_id < self.instances@.len() {
                Some(self.instances@[instance_id as int].phase)
            } else {
                None
            },
    {
        if instance_id < self.instances.len() {
            Some(self.instances[instance_id].phase)
        } else {
            None
        }
    }

    /// The charge of bolt `instance_id`, if there is such a bolt.
    pub fn charge_of(&self, instance_id: usize) -> (r: Option<u64>)
        ensures
            r == if instance_id < self.instances@.len() {
                Some(self.instances@[instance_id as int].charge)
            } else {
                None
            },
    {
        if instance_id < self.instances.len() {
            Some(self.instances[instance_id].charge)
        } else {
            None
        }
    }

    /// Advances every bolt by one tick of `delta_time` microseconds, in the
    /// order of the arena, and returns their events in that order. Random
    /// numbers are drawn from `rng`; `noise` holds standard normal draws in
    /// thousandths, three for each branch, and a branch for which none is
    /// left grows undisturbed.
    pub fn tick(
        &mut self,
        delta_time: u32,
        conductors: &Vec<Vec3>,
        rng: &mut rand::rngs::StdRng,
        noise: &Vec<Vec3>,
    ) -> (events: Vec<Event>)
        requires
            old(self).wf(),
        ensures
            final(self).wf(),
            exists|cuts: Seq<int>| #[trigger]
                old(self).ticked_to(
                    final(self),
                    events@,
                    cuts,
                    delta_time,
                    conductors@,
                    noise@,
                ),
    {
        let mut events: Vec<Event> = Vec::new();
        let ghost mut cuts: Seq<int> = seq![0int];
        let n: usize = self.instances.len();
        let mut i: usize = 0;
        while i < n
            invariant
                i <= n,
                n == old(self).instances@.len(),
                self.instances@.len() == n,
                self.wf(),
                cuts.len() == i + 1,
                cuts[0] == 0,
                cuts[i as int] == events@.len(),
                forall|j: int| 0 <= j < i ==> 0 <= #[trigger] cuts[j] <= cuts[j + 1] <= events@.len(),
                forall|j: int|
                    0 <= j < i ==> (#[trigger] old(self).instances@[j]).ticked_to(
                        &self.instances@[j],
                        events@.subrange(cuts[j], cuts[j + 1]),
                        delta_time,
                        conductors@,
                        noise@,
                        cuts[j],
                    ),
                forall|j: int| i <= j < n ==> self.instances@[j] == old(self).instances@[j],
            decreases n - i,
        {
            let ghost before = events@;
            let ghost bolts = self.instances@;
            let offset: usize = events.len();
            let mut more = self.instances[i].advance(delta_time, conductors, rng, noise, offset);
            let ghost added = more@;
            events.append(&mut more);
            let ghost marks = cuts;
            proof {
                cuts = cuts.push(events@.len() as int);
                assert(events@.subrange(cuts[i as int], cuts[i + 1]) =~= added);
                assert forall|j: int| 0 <= j < i + 1 implies 0 <= #[trigger] cuts[j] <= cuts[j + 1]
                    <= events@.len() by {
                    if j < i {
                        assert(0 <= marks[j] <= marks[j + 1] <= before.len());
                    }
                }
                assert forall|j: int| 0 <= j < i implies (#[trigger] old(self).instances@[j]).ticked_to(
                    &self.instances@[j],
                    events@.subrange(cuts[j], cuts[j + 1]),
                    delta_time,
                    conductors@,
                    noise@,
                    cuts[j],
                ) by {
                    assert(self.instances@[j] == bolts[j]);
                    assert(0 <= marks[j] <= marks[j + 1] <= before.len());
                    assert(events@.subrange(cuts[j], cuts[j + 1]) =~= before.subrange(
                        marks[j],
                        marks[j + 1],
                    ));
                }
                assert forall|j: int| 0 <= j < n implies (#[trigger] self.instances@[j]).wf()
                    && self.instances@[j].id == j by {
                    if j != i {
                        assert(self.instances@[j] == bolts[j]);
                        assert(bolts[j].wf());
                    } else {
                        assert(bolts[j].wf());
                    }
                }
            }
            i = i + 1;
        }
        proof {
            assert forall|j: int| 0 <= j < n implies cuts[j] <= cuts[j + 1] && (
            #[trigger] old(self).instances@[j]).ticked_to(
                &self.instances@[j],
                events@.subrange(cuts[j], cuts[j + 1]),
                delta_time,
                conductors@,
                noise@,
                cuts[j],
            ) by {
                assert(0 <= cuts[j] <= cuts[j + 1]);
            }
            assert(old(self).ticked_to(self, events@, cuts, delta_time, conductors@, noise@));
        }
        events
    }
}

} // verus!

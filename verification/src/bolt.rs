//! One bolt: its frontier, its phase and the growth step.

use vstd::prelude::*;
use crate::attraction::{attraction_of, pull, Attraction};
use crate::charge::{
    decayed, decayed_spec, ramped, ramped_spec, spiked, spiked_spec, CHARGE_EPSILON,
};
use crate::config::Config;
use crate::error::StrikeError;
use crate::geometry::Vec3;
use crate::growth::{
    branch, branch_bounds, branch_bounds_spec, branch_spec, is_contact, is_contact_spec, noise_at,
    noise_at_spec, step_length_cap, step_length_cap_spec, Segment,
};
use crate::random::draw_between;

verus! {

/// The stage of a bolt's life. A bolt passes through the stages in this
/// order and skips none, unless it is despawned.
#[derive(Clone, Copy, Debug, PartialEq, Eq, Structural)]
pub enum Phase {
    Growing,
    Touched,
    Decaying,
    Removed,
}

/// What the engine tells its host.
#[derive(Debug, PartialEq, Eq)]
pub enum Event {
    /// A segment was grown; the host makes it visible.
    SegmentCreated { instance_id: usize, segment_id: usize, start: Vec3, end: Vec3, charge: u64 },
    /// The charge of a bolt changed; the host adjusts its brightness.
    ChargeUpdated { instance_id: usize, charge: u64 },
    /// A bolt is gone; the host retracts the segments named.
    InstanceRemoved { instance_id: usize, segment_ids: Vec<usize> },
}

/// One growing or discharging bolt.
#[derive(Debug)]
pub struct BoltInstance {
    /// The number by which the engine and its host know this bolt.
    pub id: usize,
    /// The configuration that the bolt was struck with.
    pub config: Config,
    /// The tips from which the next growth step starts.
    pub frontier: Vec<Vec3>,
    pub phase: Phase,
    /// The intensity of the bolt, in thousandths.
    pub charge: u64,
    /// Microseconds between two steps in the present phase.
    pub step_interval: u64,
    /// Microseconds since the last step.
    pub elapsed_since_step: u64,
    /// The growth steps that the bolt may still take.
    pub remaining_steps: u32,
    /// The handles of all segments grown so far: the `k`-th is `k`.
    pub segments_emitted: Vec<usize>,
}

/// The lengths drawn for the branches of the `i`-th tip: none where the plan
/// does not reach that far.
pub open spec fn plan_at(plan: Seq<Vec<u32>>, i: int) -> Seq<u32> {
    if 0 <= i < plan.len() {
        plan[i]@
    } else {
        Seq::empty()
    }
}

/// The number of branches that a tip grows: all that were planned, but only
/// one where the tip makes contact.
pub open spec fn sprout_count(contact: bool, planned: int) -> int {
    if contact && planned > 0 {
        1
    } else {
        planned
    }
}

/// The branches grown from one tip, of which `first` is the number of
/// the noise triple that the first of them takes.
pub open spec fn sprouts(
    point: Vec3,
    a: Attraction,
    lengths: Seq<u32>,
    noise: Seq<Vec3>,
    first: int,
    cfg: Config,
) -> Seq<Segment> {
    Seq::new(
        sprout_count(is_contact_spec(a.remaining_distance as int, cfg), lengths.len() as int) as nat,
        |b: int| branch_spec(point, a, noise_at_spec(noise, first + b), lengths[b], cfg),
    )
}

/// The segments grown from the first `n` tips of `frontier`, in order, and
/// whether one of them made contact. Growth ends with the first contact: the
/// tips after it grow nothing.
pub open spec fn grown(
    cfg: Config,
    frontier: Seq<Vec3>,
    conductors: Seq<Vec3>,
    plan: Seq<Vec<u32>>,
    noise: Seq<Vec3>,
    offset: int,
    n: int,
) -> (Seq<Segment>, bool)
    decreases n,
{
    if n <= 0 {
        (Seq::empty(), false)
    } else {
        let prev = grown(cfg, frontier, conductors, plan, noise, offset, n - 1);
        if prev.1 {
            prev
        } else {
            let a = attraction_of(frontier[n - 1], conductors, cfg.targeting);
            let lengths = plan_at(plan, n - 1);
            (
                prev.0 + sprouts(frontier[n - 1], a, lengths, noise, offset + prev.0.len(), cfg),
                is_contact_spec(a.remaining_distance as int, cfg) && lengths.len() > 0,
            )
        }
    }
}

/// Once contact is made, further tips add nothing.
pub proof fn lemma_grown_after_contact(
    cfg: Config,
    frontier: Seq<Vec3>,
    conductors: Seq<Vec3>,
    plan: Seq<Vec<u32>>,
    noise: Seq<Vec3>,
    offset: int,
    n: int,
    m: int,
)
    requires
        0 <= n <= m,
        grown(cfg, frontier, conductors, plan, noise, offset, n).1,
    ensures
        grown(cfg, frontier, conductors, plan, noise, offset, m) == grown(
            cfg,
            frontier,
            conductors,
            plan,
            noise,
            offset,
            n,
        ),
    decreases m - n,
{
    if n < m {
        lemma_grown_after_contact(cfg, frontier, conductors, plan, noise, offset, n, m - 1);
    }
}

/// The events that announce `segs`, grown by bolt `id` at `charge`, where
/// the bolt had `base` segments before.
pub open spec fn segment_events(id: usize, base: int, charge: u64, segs: Seq<Segment>) -> Seq<Event> {
    Seq::new(
        segs.len(),
        |k: int|
            Event::SegmentCreated {
                instance_id: id,
                segment_id: (base + k) as usize,
                start: segs[k].start,
                end: segs[k].end,
                charge,
            },
    )
}

/// The ends of `segs`, in order.
pub open spec fn segment_ends(segs: Seq<Segment>) -> Seq<Vec3> {
    Seq::new(segs.len(), |k: int| segs[k].end)
}

/// The handles from `base` on, `count` of them.
pub open spec fn handles_from(base: int, count: int) -> Seq<usize> {
    Seq::new(count as nat, |k: int| (base + k) as usize)
}

/// Each of `lengths` lies between `lo` and `hi`.
pub open spec fn is_valid_lengths(lengths: Seq<u32>, lo: int, hi: int) -> bool {
    forall|b: int| 0 <= b < lengths.len() ==> lo <= #[trigger] lengths[b] <= hi
}

/// `event` tells that bolt `id` is removed and hands back `handles`.
pub open spec fn is_removal(event: Event, id: usize, handles: Seq<usize>) -> bool {
    event matches Event::InstanceRemoved { instance_id, segment_ids } && instance_id == id
        && segment_ids@ == handles
}

/// A phase is followed by itself or by the next one: none is skipped.
pub open spec fn phase_follows(before: Phase, after: Phase) -> bool {
    match before {
        Phase::Growing => after == Phase::Growing || after == Phase::Touched,
        Phase::Touched => after == Phase::Touched || after == Phase::Decaying,
        Phase::Decaying => after == Phase::Decaying || after == Phase::Removed,
        Phase::Removed => after == Phase::Removed,
    }
}

/// Grows the branches of one tip and appends them to `segs`.
pub fn sprout(
    point: Vec3,
    a: &Attraction,
    lengths: &Vec<u32>,
    noise: &Vec<Vec3>,
    offset: usize,
    cfg: &Config,
    segs: &mut Vec<Segment>,
)
    requires
        cfg.valid(),
    ensures
        final(segs)@ == old(segs)@ + sprouts(
            point,
            *a,
            lengths@,
            noise@,
            offset + old(segs)@.len(),
            *cfg,
        ),
{
    let contact: bool = is_contact(a.remaining_distance, cfg);
    let count: usize = if contact && lengths.len() > 0 { 1 } else { lengths.len() };
    let ghost before = segs@;
    let ghost all = sprouts(point, *a, lengths@, noise@, offset + before.len(), *cfg);
    let mut b: usize = 0;
    while b < count
        invariant
            cfg.valid(),
            b <= count <= lengths@.len(),
            all.len() == count,
            all == sprouts(point, *a, lengths@, noise@, offset + before.len(), *cfg),
            segs@ == before + all.subrange(0, b as int),
        decreases count - b,
    {
        let z = noise_at(noise, offset, segs.len());
        let s = branch(point, a, z, lengths[b], cfg);
        segs.push(s);
        assert(segs@ =~= before + all.subrange(0, b + 1));
        b = b + 1;
    }
    assert(all.subrange(0, count as int) =~= all);
}

impl BoltInstance {
    /// The bolt is consistent: its configuration is valid, it never has more
    /// steps left than it was given, a growing bolt has a step left and a tip
    /// to grow from, the timer runs at the cadence of the phase, and the
    /// `k`-th handle is `k`.
    pub open spec fn wf(&self) -> bool {
        &&& self.config.valid()
        &&& self.remaining_steps <= self.config.max_steps
        &&& self.phase == Phase::Growing ==> self.remaining_steps > 0 && self.frontier@.len() > 0
        &&& (self.phase == Phase::Growing || self.phase == Phase::Touched) ==> self.step_interval
            == self.config.step_interval_growing
        &&& self.phase == Phase::Decaying ==> self.step_interval
            == self.config.step_interval_decaying
        &&& forall|k: int|
            0 <= k < self.segments_emitted@.len() ==> #[trigger] self.segments_emitted@[k] == k
    }

    /// The growth steps that the bolt has taken.
    pub open spec fn steps_taken(&self) -> int {
        self.config.max_steps - self.remaining_steps
    }

    /// `after` is `self` one growth step later, a step that grew the
    /// segments `segs` and made contact or not.
    pub open spec fn stepped_to(&self, after: &BoltInstance, segs: Seq<Segment>, contact: bool) -> bool {
        &&& after.id == self.id
        &&& after.config == self.config
        &&& after.step_interval == self.step_interval
        &&& after.remaining_steps == self.remaining_steps - 1
        &&& after.frontier@ == if contact {
            Seq::<Vec3>::empty()
        } else {
            segment_ends(segs)
        }
        &&& after.segments_emitted@ == self.segments_emitted@ + handles_from(
            self.segments_emitted@.len() as int,
            segs.len() as int,
        )
        &&& after.phase == if contact || segs.len() == 0 || after.remaining_steps == 0 {
            Phase::Touched
        } else {
            Phase::Growing
        }
    }

    /// `after` and `events` are what one growth step makes of `self`, with
    /// the step lengths of `plan` and the noise from `offset` on, the events
    /// stamped with `charge`.
    pub open spec fn is_growth_step(
        &self,
        after: &BoltInstance,
        events: Seq<Event>,
        charge: u64,
        conductors: Seq<Vec3>,
        plan: Seq<Vec<u32>>,
        noise: Seq<Vec3>,
        offset: int,
    ) -> bool {
        let g = grown(
            self.config,
            self.frontier@,
            conductors,
            plan,
            noise,
            offset,
            self.frontier@.len() as int,
        );
        &&& self.stepped_to(after, g.0, g.1)
        &&& events == segment_events(self.id, self.segments_emitted@.len() as int, charge, g.0)
    }

    /// `plan` is one that may be drawn for a growth step of `self`: it has
    /// an entry for each tip, the first tip grows exactly one branch, each
    /// other tip a number of branches within the configured band, and each
    /// length lies between the shortest step and the cap that the tip's
    /// distance from its target sets.
    pub open spec fn is_valid_plan(&self, conductors: Seq<Vec3>, plan: Seq<Vec<u32>>) -> bool {
        &&& plan.len() == self.frontier@.len()
        &&& forall|i: int|
            0 <= i < plan.len() ==> {
                &&& branch_bounds_spec(i == 0, self.config).0 <= (#[trigger] plan[i])@.len()
                    <= branch_bounds_spec(i == 0, self.config).1
                &&& is_valid_lengths(
                    plan[i]@,
                    self.config.step_length_range.0 as int,
                    step_length_cap_spec(
                        attraction_of(
                            self.frontier@[i],
                            conductors,
                            self.config.targeting,
                        ).remaining_distance as int,
                        self.config,
                    ),
                )
            }
    }

    /// Microseconds since the last step, once `dt` more have passed.
    pub open spec fn elapsed_after(&self, dt: u32) -> int {
        if self.elapsed_since_step + dt > u64::MAX {
            u64::MAX as int
        } else {
            self.elapsed_since_step + dt
        }
    }

    /// Whether the next step is due once `dt` more microseconds have
    /// passed: the time since the last step then exceeds the interval.
    pub open spec fn timer_fires(&self, dt: u32) -> bool {
        self.elapsed_after(dt) > self.step_interval
    }

    /// `after` has the identity, configuration, tips, step counter and
    /// segments of `self`.
    pub open spec fn same_body(&self, after: &BoltInstance) -> bool {
        &&& after.id == self.id
        &&& after.config == self.config
        &&& after.frontier@ == self.frontier@
        &&& after.remaining_steps == self.remaining_steps
        &&& after.segments_emitted@ == self.segments_emitted@
    }

    /// `after` is `self` removed: its tips and segments are given up, the
    /// rest is as it was.
    pub open spec fn retired_to(&self, after: &BoltInstance) -> bool {
        &&& after.phase == Phase::Removed
        &&& after.id == self.id
        &&& after.config == self.config
        &&& after.frontier@.len() == 0
        &&& after.segments_emitted@.len() == 0
        &&& after.remaining_steps == self.remaining_steps
        &&& after.step_interval == self.step_interval
        &&& after.elapsed_since_step == self.elapsed_since_step
        &&& after.charge == self.charge
    }

    /// `after` and `r` are what despawning makes of `self`: nothing where
    /// the bolt is removed already, else the bolt removed and the event
    /// that hands back its segments.
    pub open spec fn despawned_to(&self, after: &BoltInstance, r: Option<Event>) -> bool {
        if self.phase == Phase::Removed {
            r is None && *after == *self
        } else {
            r is Some && is_removal(r->Some_0, self.id, self.segments_emitted@) && self.retired_to(
                after,
            )
        }
    }

    /// `after` and `events` are what a tick of `dt` makes of a bolt that
    /// waits: one whose timer does not fire, or a growing one that finds no
    /// conductor. Only the timer moves.
    pub open spec fn waited_to(&self, after: &BoltInstance, events: Seq<Event>, dt: u32) -> bool {
        &&& self.same_body(after)
        &&& after.phase == self.phase
        &&& after.charge == self.charge
        &&& after.step_interval == self.step_interval
        &&& after.elapsed_since_step == self.elapsed_after(dt)
        &&& events.len() == 0
    }

    /// `after` and `events` are what a tick makes of a growing bolt whose
    /// timer fires where a conductor is present: the charge rises, and the
    /// bolt takes a growth step with some plan that may be drawn for it.
    pub open spec fn grew_to(
        &self,
        after: &BoltInstance,
        events: Seq<Event>,
        dt: u32,
        conductors: Seq<Vec3>,
        noise: Seq<Vec3>,
        offset: int,
    ) -> bool {
        &&& after.charge == ramped_spec(self.charge as int, self.config.decay_rate as int, dt as int)
        &&& after.elapsed_since_step == 0
        &&& events.len() >= 2
        &&& events[0] == (Event::ChargeUpdated { instance_id: self.id, charge: after.charge })
        &&& exists|plan: Seq<Vec<u32>>|
            self.is_valid_plan(conductors, plan) && #[trigger] self.is_growth_step(
                after,
                events.subrange(1, events.len() as int),
                after.charge,
                conductors,
                plan,
                noise,
                offset,
            )
    }

    /// `after` and `events` are what a tick makes of a bolt that has touched
    /// and whose timer fires: the charge flashes, the timer takes the slower
    /// cadence and the bolt starts to decay.
    pub open spec fn flashed_to(&self, after: &BoltInstance, events: Seq<Event>) -> bool {
        &&& self.same_body(after)
        &&& after.phase == Phase::Decaying
        &&& after.charge == spiked_spec(self.charge as int, self.config.charge_spike_factor as int)
        &&& after.step_interval == self.config.step_interval_decaying
        &&& after.elapsed_since_step == 0
        &&& events == seq![Event::ChargeUpdated { instance_id: self.id, charge: after.charge }]
    }

    /// `after` and `events` are what a tick of `dt` makes of a decaying
    /// bolt: the charge decays, and where the timer fires on a spent charge
    /// the bolt is removed and its segments are handed back.
    pub open spec fn decayed_to(&self, after: &BoltInstance, events: Seq<Event>, dt: u32) -> bool {
        let charge = decayed_spec(self.charge as int, self.config.decay_rate as int, dt as int);
        &&& after.id == self.id
        &&& after.config == self.config
        &&& after.remaining_steps == self.remaining_steps
        &&& after.step_interval == self.step_interval
        &&& after.charge == charge
        &&& events.len() >= 1
        &&& events[0] == (Event::ChargeUpdated { instance_id: self.id, charge: after.charge })
        &&& after.elapsed_since_step == if self.timer_fires(dt) {
            0
        } else {
            self.elapsed_after(dt)
        }
        &&& if self.timer_fires(dt) && charge < CHARGE_EPSILON {
            &&& after.phase == Phase::Removed
            &&& after.frontier@.len() == 0
            &&& after.segments_emitted@.len() == 0
            &&& events.len() == 2
            &&& is_removal(events[1], self.id, self.segments_emitted@)
        } else {
            &&& after.phase == Phase::Decaying
            &&& after.frontier@ == self.frontier@
            &&& after.segments_emitted@ == self.segments_emitted@
            &&& events.len() == 1
        }
    }

    /// `after` and `events` are what a tick of `dt` makes of `self`.
    pub open spec fn ticked_to(
        &self,
        after: &BoltInstance,
        events: Seq<Event>,
        dt: u32,
        conductors: Seq<Vec3>,
        noise: Seq<Vec3>,
        offset: int,
    ) -> bool {
        match self.phase {
            Phase::Removed => *after == *self && events.len() == 0,
            Phase::Decaying => self.decayed_to(after, events, dt),
            Phase::Touched => if self.timer_fires(dt) {
                self.flashed_to(after, events)
            } else {
                self.waited_to(after, events, dt)
            },
            Phase::Growing => if self.timer_fires(dt) && conductors.len() > 0 {
                self.grew_to(after, events, dt, conductors, noise, offset)
            } else {
                self.waited_to(after, events, dt)
            },
        }
    }

    /// Records `segs` as grown by this bolt and returns the events that
    /// announce them.
    fn record(&mut self, segs: &Vec<Segment>) -> (events: Vec<Event>)
        requires
            old(self).wf(),
        ensures
            final(self).wf(),
            events@ == segment_events(
                old(self).id,
                old(self).segments_emitted@.len() as int,
                old(self).charge,
                segs@,
            ),
            final(self).segments_emitted@ == old(self).segments_emitted@ + handles_from(
                old(self).segments_emitted@.len() as int,
                segs@.len() as int,
            ),
            final(self).id == old(self).id,
            final(self).config == old(self).config,
            final(self).charge == old(self).charge,
            final(self).step_interval == old(self).step_interval,
            final(self).elapsed_since_step == old(self).elapsed_since_step,
            final(self).remaining_steps == old(self).remaining_steps,
            final(self).frontier == old(self).frontier,
            final(self).phase == old(self).phase,
    {
        let mut events: Vec<Event> = Vec::new();
        let ghost base = self.segments_emitted@.len() as int;
        let ghost all = segment_events(self.id, base, self.charge, segs@);
        let mut k: usize = 0;
        while k < segs.len()
            invariant
                k <= segs@.len(),
                self.wf(),
                self.id == old(self).id,
                self.config == old(self).config,
                self.charge == old(self).charge,
                self.step_interval == old(self).step_interval,
                self.elapsed_since_step == old(self).elapsed_since_step,
                self.remaining_steps == old(self).remaining_steps,
                self.frontier == old(self).frontier,
                self.phase == old(self).phase,
                base == old(self).segments_emitted@.len(),
                all == segment_events(self.id, base, self.charge, segs@),
                events@ == all.subrange(0, k as int),
                self.segments_emitted@ == old(self).segments_emitted@ + handles_from(base, k as int),
            decreases segs@.len() - k,
        {
            let handle: usize = self.segments_emitted.len();
            events.push(
                Event::SegmentCreated {
                    instance_id: self.id,
                    segment_id: handle,
                    start: segs[k].start,
                    end: segs[k].end,
                    charge: self.charge,
                },
            );
            self.segments_emitted.push(handle);
            assert(events@ =~= all.subrange(0, k + 1));
            assert(self.segments_emitted@ =~= old(self).segments_emitted@ + handles_from(
                base,
                k + 1,
            ));
            k = k + 1;
        }
        assert(all.subrange(0, segs@.len() as int) =~= all);
        events
    }

    /// Takes one growth step with the step lengths of `plan`: the `i`-th tip
    /// grows one branch for each length of the `i`-th entry, with the noise
    /// triples from `offset` on, one for each branch in turn. A bolt that is
    /// not growing is left as it is; so is a growing bolt where no conductor
    /// is present, which is reported.
    pub fn grow_with(
        &mut self,
        conductors: &Vec<Vec3>,
        plan: &Vec<Vec<u32>>,
        noise: &Vec<Vec3>,
        offset: usize,
    ) -> (r: Result<Vec<Event>, StrikeError>)
        requires
            old(self).wf(),
        ensures
            final(self).wf(),
            r is Err <==> old(self).phase == Phase::Growing && conductors@.len() == 0,
            r is Err ==> r->Err_0 == StrikeError::NoConductors && *final(self) == *old(self),
            old(self).phase != Phase::Growing ==> r is Ok && r->Ok_0@.len() == 0 && *final(self)
                == *old(self),
            old(self).phase == Phase::Growing && r is Ok ==> old(self).is_growth_step(
                final(self),
                r->Ok_0@,
                old(self).charge,
                conductors@,
                plan@,
                noise@,
                offset as int,
            ),
            final(self).charge == old(self).charge,
            final(self).elapsed_since_step == old(self).elapsed_since_step,
    {
        if self.phase != Phase::Growing {
            return Ok(Vec::new());
        }
        if conductors.len() == 0 {
            return Err(StrikeError::NoConductors);
        }
        let mut segs: Vec<Segment> = Vec::new();
        let mut contact: bool = false;
        let mut i: usize = 0;
        while i < self.frontier.len() && !contact
            invariant
                *self == *old(self),
                self.wf(),
                conductors@.len() > 0,
                i <= self.frontier@.len(),
                (segs@, contact) == grown(
                    self.config,
                    self.frontier@,
                    conductors@,
                    plan@,
                    noise@,
                    offset as int,
                    i as int,
                ),
            decreases self.frontier@.len() - i,
        {
            let point = self.frontier[i];
            let a = pull(point, conductors, self.config.targeting);
            if i < plan.len() {
                sprout(point, &a, &plan[i], noise, offset, &self.config, &mut segs);
                contact = is_contact(a.remaining_distance, &self.config) && plan[i].len() > 0;
            } else {
                assert(segs@ + sprouts(
                    point,
                    a,
                    plan_at(plan@, i as int),
                    noise@,
                    offset + segs@.len(),
                    self.config,
                ) =~= segs@);
            }
            i = i + 1;
        }
        proof {
            if contact {
                lemma_grown_after_contact(
                    self.config,
                    self.frontier@,
                    conductors@,
                    plan@,
                    noise@,
                    offset as int,
                    i as int,
                    self.frontier@.len() as int,
                );
            }
        }
        let events = self.record(&segs);
        let mut next: Vec<Vec3> = Vec::new();
        if !contact {
            let mut k: usize = 0;
            while k < segs.len()
                invariant
                    k <= segs@.len(),
                    next@ == segment_ends(segs@).subrange(0, k as int),
                decreases segs@.len() - k,
            {
                next.push(segs[k].end);
                assert(next@ =~= segment_ends(segs@).subrange(0, k + 1));
                k = k + 1;
            }
            assert(segment_ends(segs@).subrange(0, segs@.len() as int) =~= segment_ends(segs@));
        }
        self.frontier = next;
        self.remaining_steps = self.remaining_steps - 1;
        if contact || segs.len() == 0 || self.remaining_steps == 0 {
            self.phase = Phase::Touched;
        }
        Ok(events)
    }

    /// Draws the plan of a growth step: for each tip the number of its
    /// branches, and for each branch the length of its step. Where no
    /// conductor is present there is nothing to plan.
    pub fn draw_plan(&self, conductors: &Vec<Vec3>, rng: &mut rand::rngs::StdRng) -> (plan: Vec<
        Vec<u32>,
    >)
        requires
            self.wf(),
        ensures
            conductors@.len() > 0 ==> self.is_valid_plan(conductors@, plan@),
            conductors@.len() == 0 ==> plan@.len() == 0,
    {
        let mut plan: Vec<Vec<u32>> = Vec::new();
        if conductors.len() == 0 {
            return plan;
        }
        let mut i: usize = 0;
        while i < self.frontier.len()
            invariant
                self.wf(),
                conductors@.len() > 0,
                i <= self.frontier@.len(),
                plan@.len() == i,
                forall|j: int|
                    0 <= j < i ==> {
                        &&& branch_bounds_spec(j == 0, self.config).0 <= (#[trigger] plan@[j])@.len()
                            <= branch_bounds_spec(j == 0, self.config).1
                        &&& is_valid_lengths(
                            plan@[j]@,
                            self.config.step_length_range.0 as int,
                            step_length_cap_spec(
                                attraction_of(
                                    self.frontier@[j],
                                    conductors@,
                                    self.config.targeting,
                                ).remaining_distance as int,
                                self.config,
                            ),
                        )
                    },
            decreases self.frontier@.len() - i,
        {
            let a = pull(self.frontier[i], conductors, self.config.targeting);
            let bounds = branch_bounds(i == 0, &self.config);
            let count: u32 = draw_between(rng, bounds.0, bounds.1);
            let cap: u32 = step_length_cap(a.remaining_distance, &self.config);
            let mut lengths: Vec<u32> = Vec::new();
            let mut b: u32 = 0;
            while b < count
                invariant
                    b <= count,
                    lengths@.len() == b,
                    self.config.step_length_range.0 < cap,
                    is_valid_lengths(lengths@, self.config.step_length_range.0 as int, cap as int),
                decreases count - b,
            {
                let length: u32 = draw_between(rng, self.config.step_length_range.0, cap);
                lengths.push(length);
                b = b + 1;
            }
            plan.push(lengths);
            i = i + 1;
        }
        plan
    }

    /// Takes one growth step with a plan drawn from `rng`. Whatever is
    /// drawn, the step is the one that `grow_with` takes with some plan that
    /// may be drawn; the first tip always grows a segment.
    pub fn grow(
        &mut self,
        conductors: &Vec<Vec3>,
        rng: &mut rand::rngs::StdRng,
        noise: &Vec<Vec3>,
        offset: usize,
    ) -> (r: Result<Vec<Event>, StrikeError>)
        requires
            old(self).wf(),
        ensures
            final(self).wf(),
            r is Err <==> old(self).phase == Phase::Growing && conductors@.len() == 0,
            r is Err ==> r->Err_0 == StrikeError::NoConductors && *final(self) == *old(self),
            old(self).phase != Phase::Growing ==> r is Ok && r->Ok_0@.len() == 0 && *final(self)
                == *old(self),
            old(self).phase == Phase::Growing && r is Ok ==> r->Ok_0@.len() >= 1 && exists|
                plan: Seq<Vec<u32>>,
            |
                old(self).is_valid_plan(conductors@, plan) && #[trigger] old(self).is_growth_step(
                    final(self),
                    r->Ok_0@,
                    old(self).charge,
                    conductors@,
                    plan,
                    noise@,
                    offset as int,
                ),
            final(self).charge == old(self).charge,
            final(self).elapsed_since_step == old(self).elapsed_since_step,
    {
        let plan = self.draw_plan(conductors, rng);
        let r = self.grow_with(conductors, &plan, noise, offset);
        proof {
            if old(self).phase == Phase::Growing && r is Ok {
                lemma_first_tip_grows(
                    old(self).config,
                    old(self).frontier@,
                    conductors@,
                    plan@,
                    noise@,
                    offset as int,
                    old(self).frontier@.len() as int,
                );
            }
        }
        r
    }

    /// Removes the bolt, whatever its phase, and hands back the handles of
    /// its segments. A bolt that is removed already is left as it is.
    pub fn despawn(&mut self) -> (r: Option<Event>)
        requires
            old(self).wf(),
        ensures
            final(self).wf(),
            final(self).phase == Phase::Removed,
            old(self).despawned_to(final(self), r),
    {
        if self.phase == Phase::Removed {
            return None;
        }
        let mut handles: Vec<usize> = Vec::new();
        std::mem::swap(&mut self.segments_emitted, &mut handles);
        self.frontier = Vec::new();
        self.phase = Phase::Removed;
        Some(Event::InstanceRemoved { instance_id: self.id, segment_ids: handles })
    }

    /// Advances the bolt by one tick of `delta_time` microseconds. A
    /// decaying bolt loses charge on every tick; everything else happens
    /// when the bolt's timer fires: a growing bolt gains charge and takes a
    /// growth step, unless no conductor is present, in which case it waits;
    /// a bolt that has touched flashes and starts to decay; a decaying bolt
    /// whose charge is spent is removed.
    pub fn advance(
        &mut self,
        delta_time: u32,
        conductors: &Vec<Vec3>,
        rng: &mut rand::rngs::StdRng,
        noise: &Vec<Vec3>,
        offset: usize,
    ) -> (events: Vec<Event>)
        requires
            old(self).wf(),
        ensures
            final(self).wf(),
            old(self).ticked_to(
                final(self),
                events@,
                delta_time,
                conductors@,
                noise@,
                offset as int,
            ),
            phase_follows(old(self).phase, final(self).phase),
            final(self).remaining_steps <= old(self).remaining_steps,
            old(self).phase == Phase::Decaying ==> final(self).charge <= old(self).charge,
            (old(self).phase == Phase::Growing || old(self).phase == Phase::Touched)
                ==> final(self).charge >= old(self).charge,
    {
        let mut events: Vec<Event> = Vec::new();
        if self.phase == Phase::Removed {
            return events;
        }
        let elapsed: u64 = if delta_time as u64 > u64::MAX - self.elapsed_since_step {
            u64::MAX
        } else {
            self.elapsed_since_step + delta_time as u64
        };
        let fires: bool = elapsed > self.step_interval;
        match self.phase {
            Phase::Removed => {},
            Phase::Decaying => {
                self.charge = decayed(self.charge, self.config.decay_rate, delta_time);
                events.push(Event::ChargeUpdated { instance_id: self.id, charge: self.charge });
                self.elapsed_since_step = elapsed;
                if fires {
                    self.elapsed_since_step = 0;
                    if self.charge < CHARGE_EPSILON {
                        match self.despawn() {
                            Some(removal) => {
                                events.push(removal);
                            },
                            None => {},
                        }
                    }
                }
            },
            Phase::Touched => {
                self.elapsed_since_step = elapsed;
                if fires {
                    self.elapsed_since_step = 0;
                    self.charge = spiked(self.charge, self.config.charge_spike_factor);
                    self.step_interval = self.config.step_interval_decaying;
                    self.phase = Phase::Decaying;
                    events.push(Event::ChargeUpdated { instance_id: self.id, charge: self.charge });
                    assert(events@ =~= seq![
                        Event::ChargeUpdated { instance_id: self.id, charge: self.charge },
                    ]);
                }
            },
            Phase::Growing => {
                self.elapsed_since_step = elapsed;
                if fires && conductors.len() > 0 {
                    self.elapsed_since_step = 0;
                    self.charge = ramped(self.charge, self.config.decay_rate, delta_time);
                    events.push(Event::ChargeUpdated { instance_id: self.id, charge: self.charge });
                    let ghost mid = *self;
                    match self.grow(conductors, rng, noise, offset) {
                        Ok(mut grown_events) => {
                            let ghost tail = grown_events@;
                            events.append(&mut grown_events);
                            assert(events@.subrange(1, events@.len() as int) =~= tail);
                            proof {
                                let plan = choose|plan: Seq<Vec<u32>>|
                                    mid.is_valid_plan(conductors@, plan) && #[trigger] mid.is_growth_step(
                                        self,
                                        tail,
                                        mid.charge,
                                        conductors@,
                                        plan,
                                        noise@,
                                        offset as int,
                                    );
                                assert(old(self).is_valid_plan(conductors@, plan));
                                assert(old(self).is_growth_step(
                                    self,
                                    events@.subrange(1, events@.len() as int),
                                    self.charge,
                                    conductors@,
                                    plan,
                                    noise@,
                                    offset as int,
                                ));
                            }
                        },
                        Err(_) => {},
                    }
                }
            },
        }
        events
    }
}

/// The first tip of a step always grows a segment: with a plan that gives it
/// a branch, a step over at least one tip is never empty.
pub proof fn lemma_first_tip_grows(
    cfg: Config,
    frontier: Seq<Vec3>,
    conductors: Seq<Vec3>,
    plan: Seq<Vec<u32>>,
    noise: Seq<Vec3>,
    offset: int,
    n: int,
)
    requires
        n >= 1,
        plan.len() >= 1,
        plan[0]@.len() >= 1,
    ensures
        grown(cfg, frontier, conductors, plan, noise, offset, n).0.len() >= 1,
    decreases n,
{
    if n > 1 {
        lemma_first_tip_grows(cfg, frontier, conductors, plan, noise, offset, n - 1);
    } else {
        assert(grown(cfg, frontier, conductors, plan, noise, offset, 0).0.len() == 0);
    }
}

} // verus!

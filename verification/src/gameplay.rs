use vstd::prelude::*;
use std::collections::HashSet;

verus! {

broadcast use vstd::std_specs::hash::group_hash_axioms;

/// The progress of a run: how far the player got in the level, in percent,
/// and how many attempts failed.
#[derive(Clone, Copy, Debug, PartialEq, Eq, Structural)]
pub struct RunStats {
    pub percent: u8,
    pub attempts: u32,
}

impl Default for RunStats {
    /// A run that has not started.
    fn default() -> (stats: RunStats)
        ensures
            stats.percent == 0,
            stats.attempts == 0,
    {
        RunStats { percent: 0, attempts: 0 }
    }
}

impl RunStats {
    /// Counts a failed attempt.
    pub fn record_death(&mut self)
        requires
            old(self).attempts < u32::MAX,
        ensures
            final(self).attempts == old(self).attempts + 1,
            final(self).percent == old(self).percent,
    {
        self.attempts = self.attempts + 1;
    }

    /// Whether the player reached the end of the level.
    pub fn is_victory(&self) -> (won: bool)
        ensures
            won == (self.percent >= 100),
    {
        self.percent >= 100
    }
}

/// When a trigger object acts on the player.
#[derive(Clone, Copy, Debug, PartialEq, Eq, Structural)]
pub enum TriggerActivation {
    /// As soon as the player touches it.
    Touch,
    /// When the player touches it from the side (across gravity).
    TouchOnSide,
    /// When the player touches it while pressing jump.
    JumpPressed,
}

impl TriggerActivation {
    /// Whether a touched trigger acts, given whether jump is pressed and
    /// whether the contact is on the player's side.
    pub fn is_active(self, jump_pressed: bool, touching_side: bool) -> (active: bool)
        ensures
            active == match self {
                TriggerActivation::Touch => true,
                TriggerActivation::JumpPressed => jump_pressed,
                TriggerActivation::TouchOnSide => touching_side,
            },
    {
        match self {
            TriggerActivation::Touch => true,
            TriggerActivation::JumpPressed => jump_pressed,
            TriggerActivation::TouchOnSide => touching_side,
        }
    }
}

/// A trigger that the player overlaps in this frame, and whether it acts.
#[derive(Clone, Copy, Debug, PartialEq, Eq, Structural)]
pub struct TriggerHit {
    pub entity: u64,
    pub active: bool,
}

/// The triggers among `hits` that act.
pub open spec fn active_entities(hits: Seq<TriggerHit>) -> Set<u64> {
    Set::new(|e: u64| exists|i: int| 0 <= i < hits.len() && hits[i].entity == e && hits[i].active)
}

/// The triggers among `hits` whose effect runs, in order: those that act and
/// were not already acting in the last frame (`before`).
pub open spec fn fired_entities(hits: Seq<TriggerHit>, before: Set<u64>) -> Seq<u64>
    decreases hits.len(),
{
    if hits.len() == 0 {
        Seq::empty()
    } else {
        let rest = fired_entities(hits.drop_last(), before);
        let hit = hits.last();
        if hit.active && !before.contains(hit.entity) {
            rest.push(hit.entity)
        } else {
            rest
        }
    }
}

/// The triggers that `hits` names.
pub open spec fn hit_entities(hits: Seq<TriggerHit>) -> Set<u64> {
    Set::new(|e: u64| exists|i: int| 0 <= i < hits.len() && hits[i].entity == e)
}

/// No trigger is named twice in `hits` (as in a set of overlapped triggers).
pub open spec fn distinct_entities(hits: Seq<TriggerHit>) -> bool {
    forall|i: int, j: int| 0 <= i < j < hits.len() ==> hits[i].entity != hits[j].entity
}

/// The remembered triggers after visiting `hit`: an acting trigger is
/// remembered, one that does not act is forgotten.
pub open spec fn visited(inside: Set<u64>, hit: TriggerHit) -> Set<u64> {
    if hit.active {
        inside.insert(hit.entity)
    } else {
        inside.remove(hit.entity)
    }
}

/// The remembered triggers after visiting `hits` in order, from `inside`.
pub open spec fn visits_state(inside: Set<u64>, hits: Seq<TriggerHit>) -> Set<u64>
    decreases hits.len(),
{
    if hits.len() == 0 {
        inside
    } else {
        visited(visits_state(inside, hits.drop_last()), hits.last())
    }
}

/// The triggers whose effect runs while visiting `hits` in order, from
/// `inside`: each acting one that is not remembered when it is visited.
pub open spec fn visits_fired(inside: Set<u64>, hits: Seq<TriggerHit>) -> Seq<u64>
    decreases hits.len(),
{
    if hits.len() == 0 {
        Seq::empty()
    } else {
        let rest = visits_fired(inside, hits.drop_last());
        let hit = hits.last();
        if hit.active && !visits_state(inside, hits.drop_last()).contains(hit.entity) {
            rest.push(hit.entity)
        } else {
            rest
        }
    }
}

/// The triggers the player stayed inside of since their effect last ran, so
/// that an effect runs once per entry.
pub struct TriggerState {
    inside: HashSet<u64>,
}

impl View for TriggerState {
    type V = Set<u64>;

    closed spec fn view(&self) -> Set<u64> {
        self.inside@
    }
}

impl TriggerState {
    /// No trigger has acted.
    pub fn new() -> (state: TriggerState)
        ensures
            state@ == Set::<u64>::empty(),
    {
        TriggerState { inside: HashSet::new() }
    }

    /// Forgets every trigger, on leaving the game.
    pub fn clear(&mut self)
        ensures
            final(self)@ == Set::<u64>::empty(),
    {
        self.inside.clear();
    }

    /// Whether the effect of `entity` ran and the player is still inside it.
    pub fn contains(&self, entity: u64) -> (inside: bool)
        ensures
            inside == self@.contains(entity),
    {
        self.inside.contains(&entity)
    }

    /// Forgets the remembered triggers that the player no longer overlaps:
    /// keeps those among `entities`.
    pub fn retain_hits(&mut self, entities: &Vec<u64>)
        ensures
            final(self)@ == old(self)@.intersect(entities@.to_set()),
    {
        let mut kept: HashSet<u64> = HashSet::new();
        let mut i: usize = 0;
        while i < entities.len()
            invariant
                0 <= i <= entities.len(),
                kept@ == self.inside@.intersect(entities@.take(i as int).to_set()),
            decreases entities.len() - i,
        {
            let entity = entities[i];
            proof {
                assert(entities@.take(i + 1) =~= entities@.take(i as int).push(entity));
                entities@.take(i as int).lemma_push_to_set_commute(entity);
            }
            if self.inside.contains(&entity) {
                kept.insert(entity);
            }
            proof {
                assert(kept@ =~= self.inside@.intersect(entities@.take(i + 1).to_set()));
            }
            i = i + 1;
        }
        proof {
            assert(entities@.take(entities@.len() as int) =~= entities@);
        }
        self.inside = kept;
    }

    /// Visits one overlapped trigger, with whether it acts now: gives whether
    /// its effect runs (it acts and was not remembered), and remembers it if
    /// it acts, else forgets it.
    pub fn visit(&mut self, entity: u64, active: bool) -> (fire: bool)
        ensures
            fire == (active && !old(self)@.contains(entity)),
            final(self)@ == visited(old(self)@, TriggerHit { entity, active }),
    {
        if !active {
            self.inside.remove(&entity);
            return false;
        }
        let known = self.inside.contains(&entity);
        self.inside.insert(entity);
        !known
    }

    /// Takes this frame's overlapped triggers: gives the triggers whose effect
    /// is to run now (those that act and did not act in the last frame), and
    /// remembers the ones that act. A trigger the player left, or that does
    /// not act, is forgotten, so its effect runs again on the next entry.
    pub fn step(&mut self, hits: &Vec<TriggerHit>) -> (fired: Vec<u64>)
        ensures
            final(self)@ == active_entities(hits@),
            fired@ == fired_entities(hits@, old(self)@),
    {
        let mut inside: HashSet<u64> = HashSet::new();
        let mut fired: Vec<u64> = Vec::new();
        let mut i: usize = 0;
        while i < hits.len()
            invariant
                0 <= i <= hits.len(),
                inside@ == active_entities(hits@.take(i as int)),
                fired@ == fired_entities(hits@.take(i as int), self.inside@),
            decreases hits.len() - i,
        {
            let hit = hits[i];
            proof {
                assert(hits@.take(i + 1).drop_last() =~= hits@.take(i as int));
                assert(hits@.take(i + 1).last() == hit);
            }
            if hit.active {
                if !self.inside.contains(&hit.entity) {
                    fired.push(hit.entity);
                }
                inside.insert(hit.entity);
            }
            proof {
                let now = hits@.take(i + 1);
                let was = hits@.take(i as int);
                assert forall|e: u64| inside@.contains(e) <==> active_entities(now).contains(e) by {
                    if active_entities(was).contains(e) {
                        let k = choose|k: int|
                            0 <= k < was.len() && was[k].entity == e && was[k].active;
                        assert(now[k] == was[k]);
                    }
                    if active_entities(now).contains(e) {
                        let k = choose|k: int|
                            0 <= k < now.len() && now[k].entity == e && now[k].active;
                        if k < i {
                            assert(was[k] == now[k]);
                        }
                    }
                }
                assert(inside@ =~= active_entities(now));
            }
            i = i + 1;
        }
        proof {
            assert(hits@.take(hits@.len() as int) =~= hits@);
        }
        self.inside = inside;
        fired
    }
}

/// An effect runs once per entry: a second frame with the same overlapped
/// triggers runs no effect.
pub proof fn lemma_effects_run_once(hits: Seq<TriggerHit>)
    ensures
        fired_entities(hits, active_entities(hits)) == Seq::<u64>::empty(),
{
    lemma_fired_only_new(hits, active_entities(hits), hits);
}

proof fn lemma_fired_only_new(hits: Seq<TriggerHit>, before: Set<u64>, all: Seq<TriggerHit>)
    requires
        before == active_entities(all),
        forall|i: int| 0 <= i < hits.len() ==> exists|j: int| 0 <= j < all.len() && all[j] == #[trigger] hits[i],
    ensures
        fired_entities(hits, before) == Seq::<u64>::empty(),
    decreases hits.len(),
{
    if hits.len() > 0 {
        let h = hits.last();
        assert(hits[hits.len() - 1] == h);
        let j = choose|j: int| 0 <= j < all.len() && all[j] == h;
        if h.active {
            assert(active_entities(all).contains(h.entity));
        }
        assert forall|i: int| 0 <= i < hits.drop_last().len() implies exists|j: int|
            0 <= j < all.len() && all[j] == #[trigger] hits.drop_last()[i] by {
            assert(hits.drop_last()[i] == hits[i]);
        }
        lemma_fired_only_new(hits.drop_last(), before, all);
    }
}

/// A trigger that is not overlapped, or does not act, is not remembered: its
/// effect runs again when the player next enters it while it acts.
pub proof fn lemma_left_trigger_fires_again(
    first: Seq<TriggerHit>,
    later: Seq<TriggerHit>,
    entity: u64,
)
    requires
        forall|i: int| 0 <= i < first.len() ==> !(#[trigger] first[i].entity == entity && first[i].active),
        later.len() == 1,
        later[0] == (TriggerHit { entity, active: true }),
    ensures
        fired_entities(later, active_entities(first)) == seq![entity],
{
    assert(!active_entities(first).contains(entity));
    assert(later.drop_last() =~= Seq::<TriggerHit>::empty());
    assert(fired_entities(later.drop_last(), active_entities(first)) =~= Seq::<u64>::empty());
    assert(Seq::<u64>::empty().push(entity) =~= seq![entity]);
}


/// The triggers and acting triggers of `hits` are those of all but its last
/// hit, and the last one's.
proof fn lemma_entities_of_last(hits: Seq<TriggerHit>)
    requires
        hits.len() > 0,
    ensures
        hit_entities(hits) == hit_entities(hits.drop_last()).insert(hits.last().entity),
        active_entities(hits) == if hits.last().active {
            active_entities(hits.drop_last()).insert(hits.last().entity)
        } else {
            active_entities(hits.drop_last())
        },
{
    let init = hits.drop_last();
    let last = hits.len() - 1;
    assert forall|e: u64| hit_entities(hits).contains(e) <==> hit_entities(init).insert(
        hits.last().entity,
    ).contains(e) by {
        if hit_entities(hits).contains(e) {
            let k = choose|k: int| 0 <= k < hits.len() && hits[k].entity == e;
            if k < last {
                assert(init[k] == hits[k]);
            }
        }
        if hit_entities(init).contains(e) {
            let k = choose|k: int| 0 <= k < init.len() && init[k].entity == e;
            assert(hits[k] == init[k]);
        }
        if e == hits.last().entity {
            assert(hits[last].entity == e);
        }
    }
    let expected = if hits.last().active {
        active_entities(init).insert(hits.last().entity)
    } else {
        active_entities(init)
    };
    assert forall|e: u64| active_entities(hits).contains(e) <==> expected.contains(e) by {
        if active_entities(hits).contains(e) {
            let k = choose|k: int| 0 <= k < hits.len() && hits[k].entity == e && hits[k].active;
            if k < last {
                assert(init[k] == hits[k]);
            }
        }
        if active_entities(init).contains(e) {
            let k = choose|k: int| 0 <= k < init.len() && init[k].entity == e && init[k].active;
            assert(hits[k] == init[k]);
        }
        if e == hits.last().entity && hits.last().active {
            assert(hits[last].entity == e && hits[last].active);
        }
    }
    assert(hit_entities(hits) =~= hit_entities(init).insert(hits.last().entity));
    assert(active_entities(hits) =~= expected);
}

/// Visiting the overlapped triggers one by one, from the remembered ones in
/// `inside` that agree with `before` on every overlapped trigger, remembers
/// the acting ones (besides what `inside` held of the others) and runs the
/// same effects, in the same order, as the frame rule of `step`.
proof fn lemma_visits(inside: Set<u64>, before: Set<u64>, hits: Seq<TriggerHit>)
    requires
        distinct_entities(hits),
        forall|e: u64| #[trigger] hit_entities(hits).contains(e) ==> (inside.contains(e)
            == before.contains(e)),
    ensures
        visits_state(inside, hits) == active_entities(hits).union(
            inside.difference(hit_entities(hits)),
        ),
        visits_fired(inside, hits) == fired_entities(hits, before),
    decreases hits.len(),
{
    if hits.len() == 0 {
        assert(active_entities(hits) =~= Set::<u64>::empty());
        assert(hit_entities(hits) =~= Set::<u64>::empty());
        assert(visits_state(inside, hits) =~= active_entities(hits).union(
            inside.difference(hit_entities(hits)),
        ));
    } else {
        let init = hits.drop_last();
        let hit = hits.last();
        let last = hits.len() - 1;
        lemma_entities_of_last(hits);
        assert forall|i: int, j: int| 0 <= i < j < init.len() implies init[i].entity
            != init[j].entity by {
            assert(init[i] == hits[i] && init[j] == hits[j]);
        }
        assert forall|e: u64| #[trigger] hit_entities(init).contains(e) implies (inside.contains(e)
            == before.contains(e)) by {
            assert(hit_entities(hits).contains(e));
        }
        lemma_visits(inside, before, init);
        assert(!hit_entities(init).contains(hit.entity)) by {
            if hit_entities(init).contains(hit.entity) {
                let k = choose|k: int| 0 <= k < init.len() && init[k].entity == hit.entity;
                assert(hits[k].entity == hits[last].entity);
            }
        }
        assert(!active_entities(init).contains(hit.entity)) by {
            if active_entities(init).contains(hit.entity) {
                let k = choose|k: int|
                    0 <= k < init.len() && init[k].entity == hit.entity && init[k].active;
                assert(hit_entities(init).contains(hit.entity));
            }
        }
        assert(hit_entities(hits).contains(hit.entity));
        let s = visits_state(inside, init);
        assert(s.contains(hit.entity) == before.contains(hit.entity));
        assert(visits_state(inside, hits) =~= active_entities(hits).union(
            inside.difference(hit_entities(hits)),
        ));
    }
}

/// Visiting the overlapped triggers of a frame one by one, after forgetting
/// the remembered triggers that are not overlapped, remembers the same
/// triggers and runs the same effects in the same order as `step` does with
/// the whole frame, when no trigger is named twice.
pub proof fn lemma_visits_match_step(before: Set<u64>, hits: Seq<TriggerHit>)
    requires
        distinct_entities(hits),
    ensures
        visits_state(before.intersect(hit_entities(hits)), hits) == active_entities(hits),
        visits_fired(before.intersect(hit_entities(hits)), hits) == fired_entities(hits, before),
{
    let inside = before.intersect(hit_entities(hits));
    lemma_visits(inside, before, hits);
    assert(inside.difference(hit_entities(hits)) =~= Set::<u64>::empty());
    assert forall|e: u64| active_entities(hits).contains(e) implies hit_entities(hits).contains(e) by {
        let k = choose|k: int| 0 <= k < hits.len() && hits[k].entity == e && hits[k].active;
        assert(hits[k].entity == e);
    }
    assert(active_entities(hits).union(inside.difference(hit_entities(hits))) =~= active_entities(
        hits,
    ));
}

impl Default for TriggerState {
    /// No trigger has acted.
    fn default() -> (state: TriggerState)
        ensures
            state@ == Set::<u64>::empty(),
    {
        TriggerState::new()
    }
}

} // verus!

//! Axis-aligned bounding-box collision: AABB computation from rectangle
//! colliders, the all-pairs broad phase with contact events, and the
//! rollback resolution for colliders that may not intersect anything.

use vstd::prelude::*;

use crate::keyed::KeyedList;

verus! {

/// A point or translation in the 2D plane, in integer world units.
#[derive(Clone, Copy, PartialEq, Eq, Structural, Debug)]
pub struct Vec2i {
    pub x: i64,
    pub y: i64,
}

/// A rectangle described by its half extents, centred on whatever entity
/// carries it.
#[derive(Clone, Copy, PartialEq, Eq, Structural, Debug)]
pub struct Rect {
    pub half_width: i64,
    pub half_height: i64,
}

impl Rect {
    pub open spec fn wf(self) -> bool {
        self.half_width >= 0 && self.half_height >= 0
    }

    /// Rectangle of the given full size; odd sizes lose the half unit
    /// to integer division.
    pub fn from_size(width: i64, height: i64) -> (r: Rect)
        requires
            width >= 0,
            height >= 0,
        ensures
            r.half_width == width / 2,
            r.half_height == height / 2,
            r.wf(),
    {
        Rect { half_width: width / 2, half_height: height / 2 }
    }
}

/// The shape an entity collides with.
#[derive(Clone, Copy, PartialEq, Eq, Structural, Debug)]
pub enum Collider {
    Rectangle(Rect),
}

/// Marks a collider that never moves; the broad phase revisits it every
/// step, where moving colliders are revisited when their box changes.
#[derive(Clone, Copy, PartialEq, Eq, Structural, Debug)]
pub struct ColliderStatic;

/// Whether a collider tolerates overlapping another.
#[derive(Clone, Copy, PartialEq, Eq, Structural, Debug)]
pub enum ColliderIntersectionMode {
    /// May overlap any other collider.
    AllowAll,
    /// May overlap no other collider: an overlap is rolled back.
    Disallow,
}

/// An axis-aligned bounding box, as the closed region
/// `[min.x, max.x] x [min.y, max.y]`.
#[derive(Clone, Copy, PartialEq, Eq, Structural, Debug)]
pub struct Aabb {
    pub min: Vec2i,
    pub max: Vec2i,
}

impl Aabb {
    pub open spec fn wf(self) -> bool {
        self.min.x <= self.max.x && self.min.y <= self.max.y
    }

    /// Whether the two closed boxes share at least one point.
    pub open spec fn overlaps(self, other: Aabb) -> bool {
        self.min.x <= other.max.x && self.max.x >= other.min.x
            && self.min.y <= other.max.y && self.max.y >= other.min.y
    }

    /// The box of a rectangle collider whose centre sits at `translation`.
    pub fn of_rect(rect: Rect, translation: Vec2i) -> (r: Aabb)
        requires
            rect.wf(),
            translation.x - rect.half_width >= i64::MIN,
            translation.x + rect.half_width <= i64::MAX,
            translation.y - rect.half_height >= i64::MIN,
            translation.y + rect.half_height <= i64::MAX,
        ensures
            r.min.x == translation.x - rect.half_width,
            r.min.y == translation.y - rect.half_height,
            r.max.x == translation.x + rect.half_width,
            r.max.y == translation.y + rect.half_height,
            r.wf(),
    {
        Aabb {
            min: Vec2i { x: translation.x - rect.half_width, y: translation.y - rect.half_height },
            max: Vec2i { x: translation.x + rect.half_width, y: translation.y + rect.half_height },
        }
    }

    /// Closed-interval overlap test on both axes.
    pub fn intersects(&self, other: &Aabb) -> (r: bool)
        ensures
            r == self.overlaps(*other),
    {
        self.min.x <= other.max.x && self.max.x >= other.min.x
            && self.min.y <= other.max.y && self.max.y >= other.min.y
    }
}

/// Overlap is symmetric: a box touches another exactly when that other
/// touches it.
pub proof fn lemma_overlaps_symmetric(a: Aabb, b: Aabb)
    ensures
        a.overlaps(b) == b.overlaps(a),
{
}

/// Straight-line speed of an entity along its facing, in world units per
/// step.
#[derive(Clone, Copy, PartialEq, Eq, Structural, Debug)]
pub struct Velocity(pub i64);

/// Whether an entity that fell to `y` has left the play area below the
/// window and is to be despawned.
pub fn below_despawn_line(y: i64, window_height: i64) -> (r: bool)
    requires
        window_height >= 0,
    ensures
        r == (y < -(window_height / 2) - 50),
{
    y < -(window_height / 2) - 50
}

/// The collision-relevant state of one entity, as the broad phase reads it:
/// its identity, its current box (absent until first computed), how it
/// tolerates overlap, and its translation (for rollback).
#[derive(Clone, Copy, PartialEq, Eq, Structural, Debug)]
pub struct ColliderState {
    pub entity: u64,
    pub aabb: Option<Aabb>,
    pub mode: ColliderIntersectionMode,
    pub translation: Vec2i,
}

/// A per-step message that two colliders' boxes overlapped.
#[derive(Clone, Copy, PartialEq, Eq, Structural, Debug)]
pub struct ColliderContactEvent {
    pub a: u64,
    pub b: u64,
}

impl ColliderContactEvent {
    /// The first of the two entities that satisfies a caller-side test,
    /// `a` before `b`; the caller passes the test's outcome for each side.
    pub fn either_entity(&self, a_matches: bool, b_matches: bool) -> (r: Option<u64>)
        ensures
            a_matches ==> r == Some(self.a),
            !a_matches && b_matches ==> r == Some(self.b),
            !a_matches && !b_matches ==> r is None,
    {
        if a_matches {
            Some(self.a)
        } else if b_matches {
            Some(self.b)
        } else {
            None
        }
    }

    /// Pairs the event's entities against two caller-side tests: which of
    /// `a`, `b` passes the first test (`a` preferred), and which passes the
    /// second (`a` preferred); both must be found for a pair to come back.
    pub fn between(
        &self,
        a_in_first: bool,
        b_in_first: bool,
        a_in_second: bool,
        b_in_second: bool,
    ) -> (r: Option<(u64, u64)>)
        ensures
            r is Some <==> (a_in_first || b_in_first) && (a_in_second || b_in_second),
            r is Some ==> (r->0).0 == if a_in_first { self.a } else { self.b },
            r is Some ==> (r->0).1 == if a_in_second { self.a } else { self.b },
    {
        let first = if a_in_first {
            Some(self.a)
        } else if b_in_first {
            Some(self.b)
        } else {
            None
        };
        let second = if a_in_second {
            Some(self.a)
        } else if b_in_second {
            Some(self.b)
        } else {
            None
        };
        match (first, second) {
            (Some(x), Some(y)) => Some((x, y)),
            _ => None,
        }
    }
}

/// Whether two colliders' boxes are both present and overlap.
pub open spec fn touching(a: ColliderState, b: ColliderState) -> bool {
    a.aabb is Some && b.aabb is Some && a.aabb->0.overlaps(b.aabb->0)
}

/// Whether an overlap of these two colliders is rolled back: both forbid
/// any intersection.
pub open spec fn both_disallow(a: ColliderState, b: ColliderState) -> bool {
    a.mode == ColliderIntersectionMode::Disallow && b.mode == ColliderIntersectionMode::Disallow
}

/// The contact events for the pairs `(i, j)`, `i < j < s.len()`, read off in
/// the order the all-pairs walk visits them: `j` ascending within `i`
/// ascending.
pub open spec fn row_events(s: Seq<ColliderState>, i: int, j: int) -> Seq<ColliderContactEvent>
    decreases s.len() - j,
{
    if j < 0 || j >= s.len() || i < 0 || i >= s.len() {
        Seq::empty()
    } else {
        let rest = row_events(s, i, j + 1);
        if touching(s[i], s[j]) {
            seq![ColliderContactEvent { a: s[i].entity, b: s[j].entity }] + rest
        } else {
            rest
        }
    }
}

/// All contact events from the rows `i, i+1, ...` of the all-pairs walk.
pub open spec fn contact_events(s: Seq<ColliderState>, i: int) -> Seq<ColliderContactEvent>
    decreases s.len() - i,
{
    if i < 0 || i >= s.len() {
        Seq::empty()
    } else {
        row_events(s, i, i + 1) + contact_events(s, i + 1)
    }
}

/// The entities pushed for rollback while walking the pairs `(i, j)` of one
/// row: for each touching pair where both sides disallow intersection,
/// first `s[i].entity`, then `s[j].entity`.
pub open spec fn row_rollback(s: Seq<ColliderState>, i: int, j: int) -> Seq<u64>
    decreases s.len() - j,
{
    if j < 0 || j >= s.len() || i < 0 || i >= s.len() {
        Seq::empty()
    } else {
        let rest = row_rollback(s, i, j + 1);
        if touching(s[i], s[j]) && both_disallow(s[i], s[j]) {
            seq![s[i].entity, s[j].entity] + rest
        } else {
            rest
        }
    }
}

/// All entities pushed for rollback from the rows `i, i+1, ...`.
pub open spec fn contact_rollback(s: Seq<ColliderState>, i: int) -> Seq<u64>
    decreases s.len() - i,
{
    if i < 0 || i >= s.len() {
        Seq::empty()
    } else {
        row_rollback(s, i, i + 1) + contact_rollback(s, i + 1)
    }
}

/// The entities that stand in some touching pair of colliders that both
/// forbid intersection.
pub open spec fn rollback_entities(s: Seq<ColliderState>) -> Set<u64> {
    Set::new(
        |e: u64|
            exists|i: int, j: int|
                0 <= i < j < s.len() && touching(s[i], s[j]) && both_disallow(s[i], s[j]) && (
                s[i].entity == e || s[j].entity == e),
    )
}

/// The all-pairs broad phase: one contact event for each unordered pair of
/// colliders whose boxes overlap, in walk order, and the list of entities
/// whose overlap is to be rolled back.
pub fn find_contacts(colliders: &Vec<ColliderState>) -> (r: (
    Vec<ColliderContactEvent>,
    Vec<u64>,
))
    ensures
        r.0@ == contact_events(colliders@, 0),
        r.1@ == contact_rollback(colliders@, 0),
{
    let ghost s = colliders@;
    let mut events: Vec<ColliderContactEvent> = Vec::new();
    let mut rollback: Vec<u64> = Vec::new();
    let n = colliders.len();
    let mut i: usize = 0;
    while i < n
        invariant
            n == s.len(),
            s == colliders@,
            i <= n,
            events@ + contact_events(s, i as int) == contact_events(s, 0),
            rollback@ + contact_rollback(s, i as int) == contact_rollback(s, 0),
        decreases n - i,
    {
        proof {
            assert(contact_events(s, i as int) == row_events(s, i as int, i as int + 1)
                + contact_events(s, i as int + 1));
            assert(events@ + (row_events(s, i as int, i as int + 1) + contact_events(
                s,
                i as int + 1,
            )) =~= events@ + row_events(s, i as int, i as int + 1) + contact_events(
                s,
                i as int + 1,
            ));
            assert(contact_rollback(s, i as int) == row_rollback(s, i as int, i as int + 1)
                + contact_rollback(s, i as int + 1));
            assert(rollback@ + (row_rollback(s, i as int, i as int + 1) + contact_rollback(
                s,
                i as int + 1,
            )) =~= rollback@ + row_rollback(s, i as int, i as int + 1) + contact_rollback(
                s,
                i as int + 1,
            ));
        }
        let mut j: usize = i + 1;
        while j < n
            invariant
                n == s.len(),
                s == colliders@,
                i < n,
                i < j <= n,
                events@ + row_events(s, i as int, j as int) + contact_events(s, i as int + 1)
                    == contact_events(s, 0),
                rollback@ + row_rollback(s, i as int, j as int) + contact_rollback(
                    s,
                    i as int + 1,
                ) == contact_rollback(s, 0),
            decreases n - j,
        {
            let ghost pre_events = events@;
            let ghost pre_rollback = rollback@;
            let ca = colliders[i];
            let cb = colliders[j];
            let mut touched = false;
            if let (Some(a_box), Some(b_box)) = (ca.aabb, cb.aabb) {
                if a_box.intersects(&b_box) {
                    touched = true;
                    events.push(ColliderContactEvent { a: ca.entity, b: cb.entity });
                    if ca.mode == ColliderIntersectionMode::Disallow && cb.mode
                        == ColliderIntersectionMode::Disallow {
                        rollback.push(ca.entity);
                        rollback.push(cb.entity);
                    }
                }
            }
            proof {
                let ii = i as int;
                let jj = j as int;
                assert(touched == touching(s[ii], s[jj]));
                if touching(s[ii], s[jj]) {
                    let ev = ColliderContactEvent { a: s[ii].entity, b: s[jj].entity };
                    assert(row_events(s, ii, jj) == seq![ev] + row_events(s, ii, jj + 1));
                    assert(events@ =~= pre_events + seq![ev]);
                    assert(events@ + row_events(s, ii, jj + 1) =~= pre_events + row_events(
                        s,
                        ii,
                        jj,
                    ));
                    if both_disallow(s[ii], s[jj]) {
                        assert(row_rollback(s, ii, jj) == seq![s[ii].entity, s[jj].entity]
                            + row_rollback(s, ii, jj + 1));
                        assert(rollback@ =~= pre_rollback + seq![s[ii].entity, s[jj].entity]);
                        assert(rollback@ + row_rollback(s, ii, jj + 1) =~= pre_rollback
                            + row_rollback(s, ii, jj));
                    } else {
                        assert(row_rollback(s, ii, jj) == row_rollback(s, ii, jj + 1));
                    }
                } else {
                    assert(row_events(s, ii, jj) == row_events(s, ii, jj + 1));
                    assert(row_rollback(s, ii, jj) == row_rollback(s, ii, jj + 1));
                }
                assert(events@ + row_events(s, ii, jj + 1) + contact_events(s, ii + 1)
                    =~= pre_events + row_events(s, ii, jj) + contact_events(s, ii + 1));
                assert(rollback@ + row_rollback(s, ii, jj + 1) + contact_rollback(s, ii + 1)
                    =~= pre_rollback + row_rollback(s, ii, jj) + contact_rollback(s, ii + 1));
            }
            j += 1;
        }
        proof {
            assert(row_events(s, i as int, n as int) == Seq::<ColliderContactEvent>::empty());
            assert(events@ + row_events(s, i as int, n as int) =~= events@);
            assert(row_rollback(s, i as int, n as int) == Seq::<u64>::empty());
            assert(rollback@ + row_rollback(s, i as int, n as int) =~= rollback@);
        }
        i += 1;
    }
    proof {
        assert(contact_events(s, n as int) == Seq::<ColliderContactEvent>::empty());
        assert(events@ + contact_events(s, n as int) =~= events@);
        assert(contact_rollback(s, n as int) == Seq::<u64>::empty());
        assert(rollback@ + contact_rollback(s, n as int) =~= rollback@);
    }
    (events, rollback)
}

impl View for Vec2i {
    type V = Vec2i;

    open spec fn view(&self) -> Vec2i {
        *self
    }
}

/// The translations the colliders had before their last accepted move, keyed
/// by entity; rollback restores these when a forbidden overlap appears.
pub type PrevTransforms = KeyedList<Vec2i>;

/// Whether each collider stands for a different entity, as an
/// entity-component host guarantees of a query's rows.
pub open spec fn entities_unique(s: Seq<ColliderState>) -> bool {
    forall|i: int, j: int|
        0 <= i < j < s.len() ==> (#[trigger] s[i]).entity != (#[trigger] s[j]).entity
}

/// Linear scan for a value.
pub fn vec_contains_u64(v: &Vec<u64>, x: u64) -> (r: bool)
    ensures
        r == v@.contains(x),
{
    let mut k: usize = 0;
    while k < v.len()
        invariant
            k <= v@.len(),
            forall|m: int| 0 <= m < k ==> v@[m] != x,
        decreases v@.len() - k,
    {
        if v[k] == x {
            return true;
        }
        k += 1;
    }
    false
}

/// Resets every collider that overlapped where it may not to the translation
/// it last held outside any such overlap, and records the translations of
/// all the others as the positions to fall back on next step.
pub fn apply_rollback(
    colliders: &mut Vec<ColliderState>,
    colliding: &Vec<u64>,
    prev: &mut PrevTransforms,
)
    requires
        entities_unique(old(colliders)@),
        old(prev).wf(),
    ensures
        final(prev).wf(),
        final(colliders)@.len() == old(colliders)@.len(),
        forall|i: int|
            0 <= i < old(colliders)@.len() ==> {
                let c = #[trigger] old(colliders)@[i];
                final(colliders)@[i] == ColliderState {
                    translation: if colliding@.contains(c.entity) {
                        if old(prev)@.dom().contains(c.entity) {
                            old(prev)@[c.entity]
                        } else {
                            c.translation
                        }
                    } else {
                        c.translation
                    },
                    ..c
                }
            },
        forall|i: int|
            0 <= i < old(colliders)@.len() && !colliding@.contains(
                (#[trigger] old(colliders)@[i]).entity)
                ==> final(prev)@.dom().contains(old(colliders)@[i].entity)
                    && final(prev)@[old(colliders)@[i].entity] == old(colliders)@[i].translation,
        forall|e: u64|
            !(exists|i: int|
                0 <= i < old(colliders)@.len() && (#[trigger] old(colliders)@[i]).entity == e
                    && !colliding@.contains(e)) ==> (#[trigger] final(prev)@.dom().contains(e)
                == old(prev)@.dom().contains(e)) && (old(prev)@.dom().contains(e)
                ==> final(prev)@[e] == old(prev)@[e]),
{
    let n = colliders.len();
    let mut k: usize = 0;
    while k < n
        invariant
            n == old(colliders)@.len(),
            colliders@.len() == n,
            k <= n,
            prev.wf(),
            entities_unique(old(colliders)@),
            forall|i: int| k <= i < n ==> colliders@[i] == old(colliders)@[i],
            forall|i: int|
                0 <= i < k ==> {
                    let c = #[trigger] old(colliders)@[i];
                    colliders@[i] == ColliderState {
                        translation: if colliding@.contains(c.entity) {
                            if old(prev)@.dom().contains(c.entity) {
                                old(prev)@[c.entity]
                            } else {
                                c.translation
                            }
                        } else {
                            c.translation
                        },
                        ..c
                    }
                },
            forall|i: int|
                0 <= i < k && !colliding@.contains((#[trigger] old(colliders)@[i]).entity)
                    ==> prev@.dom().contains(old(colliders)@[i].entity)
                        && prev@[old(colliders)@[i].entity] == old(colliders)@[i].translation,
            forall|e: u64|
                !(exists|i: int|
                    0 <= i < k && (#[trigger] old(colliders)@[i]).entity == e
                        && !colliding@.contains(e)) ==> (#[trigger] prev@.dom().contains(e)
                    == old(prev)@.dom().contains(e)) && (old(prev)@.dom().contains(e)
                    ==> prev@[e] == old(prev)@[e]),
        decreases n - k,
    {
        let c = colliders[k];
        if vec_contains_u64(colliding, c.entity) {
            match prev.get(c.entity) {
                Some(p) => {
                    let restored = *p;
                    colliders.set(k, ColliderState { translation: restored, ..c });
                },
                None => {},
            }
        } else {
            prev.put(c.entity, c.translation);
        }
        k += 1;
    }
}

/// Forgets the fallback translations of entities that have left the world.
pub fn prune_removed(prev: &mut PrevTransforms, removed: &Vec<u64>)
    requires
        old(prev).wf(),
    ensures
        final(prev).wf(),
        forall|e: u64|
            removed@.contains(e) ==> !(#[trigger] final(prev)@.dom().contains(e)),
        forall|e: u64|
            !removed@.contains(e) ==> (#[trigger] final(prev)@.dom().contains(e)
                == old(prev)@.dom().contains(e)) && (old(prev)@.dom().contains(e)
                ==> final(prev)@[e] == old(prev)@[e]),
{
    let n = removed.len();
    let mut k: usize = 0;
    while k < n
        invariant
            n == removed@.len(),
            k <= n,
            prev.wf(),
            forall|e: u64|
                removed@.take(k as int).contains(e) ==> !(#[trigger] prev@.dom().contains(e)),
            forall|e: u64|
                !removed@.take(k as int).contains(e) ==> (#[trigger] prev@.dom().contains(e)
                    == old(prev)@.dom().contains(e)) && (old(prev)@.dom().contains(e)
                    ==> prev@[e] == old(prev)@[e]),
        decreases n - k,
    {
        let e = removed[k];
        prev.remove_key(e);
        proof {
            let pre = removed@.take(k as int);
            let cur = removed@.take(k as int + 1);
            assert(cur =~= pre.push(removed@[k as int]));
            assert forall|x: u64| cur.contains(x) implies !prev@.dom().contains(x) by {
                if pre.contains(x) {
                } else {
                    assert(x == removed@[k as int]);
                }
            }
            assert forall|x: u64| !cur.contains(x) implies (#[trigger] prev@.dom().contains(x)
                == old(prev)@.dom().contains(x)) && (old(prev)@.dom().contains(x) ==> prev@[x]
                == old(prev)@[x]) by {
                assert(cur[k as int] == removed@[k as int]);
                assert(cur.contains(removed@[k as int]));
                assert(x != removed@[k as int]);
                if pre.contains(x) {
                    let m = choose|m: int| 0 <= m < pre.len() && pre[m] == x;
                    assert(cur[m] == x);
                    assert(cur.contains(x));
                }
                assert(!pre.contains(x));
            }
        }
        k += 1;
    }
    proof {
        assert(removed@.take(n as int) =~= removed@);
    }
}

/// The contact event of the pair `(i, j)`.
pub open spec fn event_of(s: Seq<ColliderState>, i: int, j: int) -> ColliderContactEvent {
    ColliderContactEvent { a: s[i].entity, b: s[j].entity }
}

proof fn lemma_row_events_member(s: Seq<ColliderState>, i: int, j: int)
    requires
        0 <= i < s.len(),
        i < j,
    ensures
        forall|ev: ColliderContactEvent|
            #[trigger] row_events(s, i, j).contains(ev) <==> exists|jj: int|
                j <= jj < s.len() && touching(s[i], #[trigger] s[jj]) && ev == event_of(s, i, jj),
    decreases s.len() - j,
{
    if j >= s.len() {
    } else {
        lemma_row_events_member(s, i, j + 1);
        let rest = row_events(s, i, j + 1);
        assert forall|ev: ColliderContactEvent| #[trigger] row_events(s, i, j).contains(ev)
            implies exists|jj: int|
            j <= jj < s.len() && touching(s[i], #[trigger] s[jj]) && ev == event_of(s, i, jj) by {
            let row = row_events(s, i, j);
            let m = choose|m: int| 0 <= m < row.len() && row[m] == ev;
            if touching(s[i], s[j]) {
                if m == 0 {
                    assert(touching(s[i], s[j]) && ev == event_of(s, i, j));
                } else {
                    assert(rest[m - 1] == ev);
                    assert(rest.contains(ev));
                }
            } else {
                assert(rest[m] == ev);
                assert(rest.contains(ev));
            }
        }
        assert forall|ev: ColliderContactEvent|
            (exists|jj: int|
                j <= jj < s.len() && touching(s[i], #[trigger] s[jj]) && ev == event_of(s, i, jj))
            implies #[trigger] row_events(s, i, j).contains(ev) by {
            let jj = choose|jj: int|
                j <= jj < s.len() && touching(s[i], #[trigger] s[jj]) && ev == event_of(s, i, jj);
            let row = row_events(s, i, j);
            if jj == j {
                assert(row[0] == ev);
            } else {
                assert(rest.contains(ev));
                let m = choose|m: int| 0 <= m < rest.len() && rest[m] == ev;
                if touching(s[i], s[j]) {
                    assert(row[m + 1] == ev);
                } else {
                    assert(row[m] == ev);
                }
            }
        }
    }
}

proof fn lemma_contact_events_member(s: Seq<ColliderState>, i: int)
    requires
        0 <= i,
    ensures
        forall|ev: ColliderContactEvent|
            #[trigger] contact_events(s, i).contains(ev) <==> exists|ii: int, jj: int|
                i <= ii < jj < s.len() && touching(#[trigger] s[ii], #[trigger] s[jj]) && ev
                    == event_of(s, ii, jj),
    decreases s.len() - i,
{
    if i >= s.len() {
    } else {
        lemma_contact_events_member(s, i + 1);
        lemma_row_events_member(s, i, i + 1);
        let row = row_events(s, i, i + 1);
        let rest = contact_events(s, i + 1);
        assert forall|ev: ColliderContactEvent| #[trigger] contact_events(s, i).contains(ev)
            implies exists|ii: int, jj: int|
            i <= ii < jj < s.len() && touching(#[trigger] s[ii], #[trigger] s[jj]) && ev
                == event_of(s, ii, jj) by {
            let whole = contact_events(s, i);
            let m = choose|m: int| 0 <= m < whole.len() && whole[m] == ev;
            if m < row.len() {
                assert(row[m] == ev);
                assert(row.contains(ev));
                let jj = choose|jj: int|
                    i + 1 <= jj < s.len() && touching(s[i], #[trigger] s[jj]) && ev == event_of(
                        s,
                        i,
                        jj,
                    );
                assert(i <= i < jj < s.len() && touching(s[i], s[jj]) && ev == event_of(s, i, jj));
            } else {
                assert(rest[m - row.len()] == ev);
                assert(rest.contains(ev));
            }
        }
        assert forall|ev: ColliderContactEvent|
            (exists|ii: int, jj: int|
                i <= ii < jj < s.len() && touching(#[trigger] s[ii], #[trigger] s[jj]) && ev
                    == event_of(s, ii, jj)) implies #[trigger] contact_events(s, i).contains(
            ev,
        ) by {
            let (ii, jj): (int, int) = choose|ii: int, jj: int|
                i <= ii < jj < s.len() && touching(#[trigger] s[ii], #[trigger] s[jj]) && ev
                    == event_of(s, ii, jj);
            let whole = contact_events(s, i);
            if ii == i {
                assert(row.contains(ev));
                let m = choose|m: int| 0 <= m < row.len() && row[m] == ev;
                assert(whole[m] == ev);
            } else {
                assert(rest.contains(ev));
                let m = choose|m: int| 0 <= m < rest.len() && rest[m] == ev;
                assert(whole[row.len() + m] == ev);
            }
        }
    }
}

/// The broad phase reports exactly the overlapping pairs: an event stands in
/// `contact_events` exactly when some pair of colliders, in the given order,
/// both have boxes and the boxes overlap.
pub proof fn lemma_contact_events_complete(s: Seq<ColliderState>)
    ensures
        forall|ev: ColliderContactEvent|
            #[trigger] contact_events(s, 0).contains(ev) <==> exists|i: int, j: int|
                0 <= i < j < s.len() && touching(#[trigger] s[i], #[trigger] s[j]) && ev
                    == event_of(s, i, j),
{
    lemma_contact_events_member(s, 0);
}

proof fn lemma_row_rollback_member(s: Seq<ColliderState>, i: int, j: int)
    requires
        0 <= i < s.len(),
        i < j,
    ensures
        forall|e: u64|
            #[trigger] row_rollback(s, i, j).contains(e) <==> exists|jj: int|
                j <= jj < s.len() && touching(s[i], #[trigger] s[jj]) && both_disallow(
                    s[i],
                    s[jj],
                ) && (s[i].entity == e || s[jj].entity == e),
    decreases s.len() - j,
{
    if j >= s.len() {
    } else {
        lemma_row_rollback_member(s, i, j + 1);
        let rest = row_rollback(s, i, j + 1);
        let hit = touching(s[i], s[j]) && both_disallow(s[i], s[j]);
        assert forall|e: u64| #[trigger] row_rollback(s, i, j).contains(e) implies exists|jj: int|
            j <= jj < s.len() && touching(s[i], #[trigger] s[jj]) && both_disallow(s[i], s[jj])
                && (s[i].entity == e || s[jj].entity == e) by {
            let row = row_rollback(s, i, j);
            let m = choose|m: int| 0 <= m < row.len() && row[m] == e;
            if hit {
                if m == 0 || m == 1 {
                    assert(touching(s[i], s[j]) && both_disallow(s[i], s[j]) && (s[i].entity == e
                        || s[j].entity == e));
                } else {
                    assert(rest[m - 2] == e);
                    assert(rest.contains(e));
                }
            } else {
                assert(rest[m] == e);
                assert(rest.contains(e));
            }
        }
        assert forall|e: u64|
            (exists|jj: int|
                j <= jj < s.len() && touching(s[i], #[trigger] s[jj]) && both_disallow(s[i], s[jj])
                    && (s[i].entity == e || s[jj].entity == e)) implies #[trigger] row_rollback(
            s,
            i,
            j,
        ).contains(e) by {
            let jj = choose|jj: int|
                j <= jj < s.len() && touching(s[i], #[trigger] s[jj]) && both_disallow(s[i], s[jj])
                    && (s[i].entity == e || s[jj].entity == e);
            let row = row_rollback(s, i, j);
            if jj == j {
                if s[i].entity == e {
                    assert(row[0] == e);
                } else {
                    assert(row[1] == e);
                }
            } else {
                assert(rest.contains(e));
                let m = choose|m: int| 0 <= m < rest.len() && rest[m] == e;
                if hit {
                    assert(row[m + 2] == e);
                } else {
                    assert(row[m] == e);
                }
            }
        }
    }
}

proof fn lemma_contact_rollback_member(s: Seq<ColliderState>, i: int)
    requires
        0 <= i,
    ensures
        forall|e: u64|
            #[trigger] contact_rollback(s, i).contains(e) <==> exists|ii: int, jj: int|
                i <= ii < jj < s.len() && touching(#[trigger] s[ii], #[trigger] s[jj])
                    && both_disallow(s[ii], s[jj]) && (s[ii].entity == e || s[jj].entity == e),
    decreases s.len() - i,
{
    if i >= s.len() {
    } else {
        lemma_contact_rollback_member(s, i + 1);
        lemma_row_rollback_member(s, i, i + 1);
        let row = row_rollback(s, i, i + 1);
        let rest = contact_rollback(s, i + 1);
        assert forall|e: u64| #[trigger] contact_rollback(s, i).contains(e) implies exists|
            ii: int,
            jj: int,
        |
            i <= ii < jj < s.len() && touching(#[trigger] s[ii], #[trigger] s[jj])
                && both_disallow(s[ii], s[jj]) && (s[ii].entity == e || s[jj].entity == e) by {
            let whole = contact_rollback(s, i);
            let m = choose|m: int| 0 <= m < whole.len() && whole[m] == e;
            if m < row.len() {
                assert(row[m] == e);
                assert(row.contains(e));
                let jj = choose|jj: int|
                    i + 1 <= jj < s.len() && touching(s[i], #[trigger] s[jj]) && both_disallow(
                        s[i],
                        s[jj],
                    ) && (s[i].entity == e || s[jj].entity == e);
                assert(i <= i < jj < s.len() && touching(s[i], s[jj]) && both_disallow(s[i], s[jj])
                    && (s[i].entity == e || s[jj].entity == e));
            } else {
                assert(rest[m - row.len()] == e);
                assert(rest.contains(e));
            }
        }
        assert forall|e: u64|
            (exists|ii: int, jj: int|
                i <= ii < jj < s.len() && touching(#[trigger] s[ii], #[trigger] s[jj])
                    && both_disallow(s[ii], s[jj]) && (s[ii].entity == e || s[jj].entity == e))
            implies #[trigger] contact_rollback(s, i).contains(e) by {
            let (ii, jj): (int, int) = choose|ii: int, jj: int|
                i <= ii < jj < s.len() && touching(#[trigger] s[ii], #[trigger] s[jj])
                    && both_disallow(s[ii], s[jj]) && (s[ii].entity == e || s[jj].entity == e);
            let whole = contact_rollback(s, i);
            if ii == i {
                assert(row.contains(e));
                let m = choose|m: int| 0 <= m < row.len() && row[m] == e;
                assert(whole[m] == e);
            } else {
                assert(rest.contains(e));
                let m = choose|m: int| 0 <= m < rest.len() && rest[m] == e;
                assert(whole[row.len() + m] == e);
            }
        }
    }
}

/// The rollback list names exactly the entities that stand in some
/// overlapping pair whose two sides both forbid intersection.
pub proof fn lemma_contact_rollback_complete(s: Seq<ColliderState>)
    ensures
        forall|e: u64|
            #[trigger] contact_rollback(s, 0).contains(e) == rollback_entities(s).contains(e),
{
    lemma_contact_rollback_member(s, 0);
    assert forall|e: u64| #[trigger] contact_rollback(s, 0).contains(e) == rollback_entities(
        s,
    ).contains(e) by {
        if contact_rollback(s, 0).contains(e) {
            assert(rollback_entities(s).contains(e));
        }
        if rollback_entities(s).contains(e) {
            let (i, j): (int, int) = choose|i: int, j: int|
                0 <= i < j < s.len() && touching(#[trigger] s[i], #[trigger] s[j]) && both_disallow(
                    s[i],
                    s[j],
                ) && (s[i].entity == e || s[j].entity == e);
            assert(contact_rollback(s, 0).contains(e));
        }
    }
}

/// One full collision step, as the physics schedule runs it between moves:
/// find every overlapping pair and report it; where both sides of an overlap
/// forbid intersection, put those entities back on their last good
/// translation; remember every other collider's translation as its fallback;
/// and forget the fallbacks of entities that have been removed.
pub fn collider_contact(
    colliders: &mut Vec<ColliderState>,
    prev: &mut PrevTransforms,
    removed: &Vec<u64>,
) -> (events: Vec<ColliderContactEvent>)
    requires
        entities_unique(old(colliders)@),
        old(prev).wf(),
    ensures
        final(prev).wf(),
        events@ == contact_events(old(colliders)@, 0),
        final(colliders)@.len() == old(colliders)@.len(),
        forall|i: int|
            0 <= i < old(colliders)@.len() ==> {
                let c = #[trigger] old(colliders)@[i];
                final(colliders)@[i] == ColliderState {
                    translation: if rollback_entities(old(colliders)@).contains(c.entity) {
                        if old(prev)@.dom().contains(c.entity) {
                            old(prev)@[c.entity]
                        } else {
                            c.translation
                        }
                    } else {
                        c.translation
                    },
                    ..c
                }
            },
        forall|e: u64|
            removed@.contains(e) ==> !(#[trigger] final(prev)@.dom().contains(e)),
        forall|i: int|
            0 <= i < old(colliders)@.len() && !rollback_entities(old(colliders)@).contains(
                (#[trigger] old(colliders)@[i]).entity)
                && !removed@.contains(old(colliders)@[i].entity)
                ==> final(prev)@.dom().contains(old(colliders)@[i].entity)
                    && final(prev)@[old(colliders)@[i].entity] == old(colliders)@[i].translation,
        forall|e: u64|
            !removed@.contains(e) && !(exists|i: int|
                0 <= i < old(colliders)@.len() && (#[trigger] old(colliders)@[i]).entity == e
                    && !rollback_entities(old(colliders)@).contains(e))
                ==> (#[trigger] final(prev)@.dom().contains(e) == old(prev)@.dom().contains(e))
                    && (old(prev)@.dom().contains(e) ==> final(prev)@[e] == old(prev)@[e]),
{
    let (events, colliding) = find_contacts(colliders);
    proof {
        lemma_contact_rollback_complete(colliders@);
    }
    apply_rollback(colliders, &colliding, prev);
    prune_removed(prev, removed);
    events
}

} // verus!


//! Arena-wide properties, proved once over the arena's mathematical model.
//!
//! Every executable operation of [`crate::ecs::ECS`] ties its result to the
//! model through its contract (`push_state`, `remove_state`, the
//! `set_*_state` functions), so each lemma here carries over to any
//! sequence of calls on a real arena.

use vstd::prelude::*;
use crate::ecs::{ArenaView, Gen, ID};
use crate::ecs::{lemma_push_preserves_wf, lemma_remove_preserves_wf};

verus! {

/// Generation safety at the moment of freeing: freeing a live record
/// leaves its handle permanently dead — no longer valid, and with a
/// generation strictly below the counter, so no future occupant of any
/// slot can ever be stamped with it again. The one excluded input is a
/// handle carrying the largest representable generation, where the
/// counter saturates instead of advancing.
pub proof fn lemma_free_invalidates<Pos, Rot, Light, Vel, Poly>(
    v: ArenaView<Pos, Rot, Light, Vel, Poly>,
    id: ID,
)
    requires
        v.wf(),
        v.valid(id),
        id.gen < u64::MAX,
    ensures
        !v.remove_state(id).valid(id),
        v.remove_state(id).stale(id),
{
    assert(v.slots[id.index as int] is Occupied);
}

/// Staleness survives allocation: a dead handle stays dead even when an
/// allocation reuses its slot index, because the new occupant is stamped
/// with a strictly newer generation.
pub proof fn lemma_stale_after_push<Pos, Rot, Light, Vel, Poly>(
    v: ArenaView<Pos, Rot, Light, Vel, Poly>,
    id: ID,
    position: Option<Pos>,
    rotation: Option<Rot>,
    light: Option<Light>,
    velocity: Option<Vel>,
    polygon: Option<Poly>,
)
    requires
        v.wf(),
        v.stale(id),
    ensures
        v.push_state(position, rotation, light, velocity, polygon).stale(id),
        !v.push_state(position, rotation, light, velocity, polygon).valid(id),
{
    let v1 = v.push_state(position, rotation, light, velocity, polygon);
    match v.last {
        Some(i) => {
            assert(v.free_entry_ok(0));
            assert((i as int) < v.slots.len());
            if id.index == i {
                assert(v1.slots[i as int] == Gen::Occupied { generation: v.next_gen });
            } else if id.index < v.slots.len() {
                assert(v1.slots[id.index as int] == v.slots[id.index as int]);
            }
        },
        None => {
            if id.index < v.slots.len() {
                assert(v1.slots[id.index as int] == v.slots[id.index as int]);
            } else if (id.index as int) < v1.slots.len() {
                assert(v1.slots[id.index as int] == Gen::Occupied { generation: v.next_gen });
            }
        },
    }
}

/// Staleness survives freeing: whatever handle is freed next, a dead
/// handle stays dead, because the generation counter never decreases and
/// freed slots hold no generation at all.
pub proof fn lemma_stale_after_remove<Pos, Rot, Light, Vel, Poly>(
    v: ArenaView<Pos, Rot, Light, Vel, Poly>,
    id: ID,
    other: ID,
)
    requires
        v.wf(),
        v.stale(id),
    ensures
        v.remove_state(other).stale(id),
{
}

/// Staleness survives column writes: writing any attribute cell of any
/// record touches neither the slot table nor the generation counter.
pub proof fn lemma_stale_after_column_write<Pos, Rot, Light, Vel, Poly>(
    v: ArenaView<Pos, Rot, Light, Vel, Poly>,
    id: ID,
    other: ID,
    position: Option<Pos>,
    rotation: Option<Rot>,
    light: Option<Light>,
    velocity: Option<Vel>,
    polygon: Option<Poly>,
)
    requires
        v.stale(id),
    ensures
        v.set_position_state(other, position).stale(id),
        v.set_rotation_state(other, rotation).stale(id),
        v.set_light_state(other, light).stale(id),
        v.set_velocity_state(other, velocity).stale(id),
        v.set_polygon_state(other, polygon).stale(id),
{
}

/// No cross-talk: freeing one record changes neither the validity nor any
/// attribute value of any other live record.
pub proof fn lemma_remove_no_crosstalk<Pos, Rot, Light, Vel, Poly>(
    v: ArenaView<Pos, Rot, Light, Vel, Poly>,
    a: ID,
    b: ID,
)
    requires
        v.wf(),
        v.valid(a),
        v.valid(b),
        a != b,
    ensures
        ({
            let v1 = v.remove_state(a);
            &&& a.index != b.index
            &&& v1.valid(b)
            &&& v1.position[b.index as int] == v.position[b.index as int]
            &&& v1.rotation[b.index as int] == v.rotation[b.index as int]
            &&& v1.light[b.index as int] == v.light[b.index as int]
            &&& v1.velocity[b.index as int] == v.velocity[b.index as int]
            &&& v1.polygon[b.index as int] == v.polygon[b.index as int]
        }),
{
    assert(a.index != b.index);
}

/// LIFO reuse: after freeing three live records in order, the next three
/// allocations reuse their slot indices in reverse order of freeing,
/// whatever attribute values those allocations carry.
pub proof fn lemma_lifo_reuse<Pos, Rot, Light, Vel, Poly>(
    v: ArenaView<Pos, Rot, Light, Vel, Poly>,
    h1: ID,
    h2: ID,
    h3: ID,
    a: (Option<Pos>, Option<Rot>, Option<Light>, Option<Vel>, Option<Poly>),
    b: (Option<Pos>, Option<Rot>, Option<Light>, Option<Vel>, Option<Poly>),
)
    requires
        v.wf(),
        v.valid(h1),
        v.valid(h2),
        v.valid(h3),
        h1 != h2,
        h1 != h3,
        h2 != h3,
    ensures
        ({
            let f = v.remove_state(h1).remove_state(h2).remove_state(h3);
            let s1 = f.push_state(a.0, a.1, a.2, a.3, a.4);
            let s2 = s1.push_state(b.0, b.1, b.2, b.3, b.4);
            &&& f.push_index() == h3.index
            &&& s1.push_index() == h2.index
            &&& s2.push_index() == h1.index
        }),
{
    lemma_remove_no_crosstalk(v, h1, h2);
    lemma_remove_no_crosstalk(v, h1, h3);
    lemma_remove_preserves_wf(v, h1);
    let v1 = v.remove_state(h1);
    lemma_remove_no_crosstalk(v1, h2, h3);
    let v2 = v1.remove_state(h2);
    let v3 = v2.remove_state(h3);
    assert(v1.last == Some(h1.index));
    assert(v2.last == Some(h2.index));
    assert(v3.last == Some(h3.index));
}

/// Attribute independence: allocating with a position and no rotation
/// yields a record whose rotation reads absent and whose position reads
/// the given value; writing its rotation afterwards leaves every position
/// cell untouched. The bounds on the table size only rule out model states
/// that no machine-resident arena can reach.
pub proof fn lemma_attribute_independence<Pos, Rot, Light, Vel, Poly>(
    v: ArenaView<Pos, Rot, Light, Vel, Poly>,
    p: Pos,
    r: Rot,
    light: Option<Light>,
    velocity: Option<Vel>,
    polygon: Option<Poly>,
)
    requires
        v.wf(),
        v.last is Some ==> v.slots.len() <= usize::MAX,
        v.last is None ==> v.slots.len() < usize::MAX,
    ensures
        ({
            let v1 = v.push_state(Some(p), None, light, velocity, polygon);
            let id = (ID { index: v.push_index(), gen: v.next_gen });
            let v2 = v1.set_rotation_state(id, Some(r));
            &&& v1.valid(id)
            &&& v1.position[id.index as int] == Some(p)
            &&& v1.rotation[id.index as int] is None
            &&& v2.position == v1.position
            &&& v2.rotation[id.index as int] == Some(r)
            &&& v2.valid(id)
        }),
{
    lemma_push_preserves_wf(v, Some(p), None, light, velocity, polygon);
}

/// Idempotent-failure freeing: a second free through the same handle finds
/// it invalid and leaves the arena — and so its occupied count — exactly
/// unchanged.
pub proof fn lemma_double_free<Pos, Rot, Light, Vel, Poly>(
    v: ArenaView<Pos, Rot, Light, Vel, Poly>,
    id: ID,
)
    requires
        v.wf(),
        v.valid(id),
    ensures
        ({
            let v1 = v.remove_state(id);
            &&& !v1.valid(id)
            &&& v1.remove_state(id) == v1
            &&& v1.remove_state(id).len == v1.len
        }),
{
}

} // verus!

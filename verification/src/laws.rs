use vstd::prelude::*;
use crate::camera::{div_trunc, eye_movable, forward_x, forward_y, moved_eye, world_dx, world_dy,
    world_dz};
use crate::geometry::{dist_sq_3d, Eye, Instance, Vec3, COORD_LIMIT, SCALE};
use crate::mesh::ThingV;
use crate::renderer::{apply_add_batch, apply_add_instance, apply_render_clear, apply_update_thing,
    lemma_insert_scene_wf, lemma_render_clear_wf, lemma_scene_of_wf, render_notes, renderer_wf,
    scene_render_notes, scene_setup_notes, setup_notes, AddInstance, Notification, RenderToScene,
    SetupInScene};
use crate::scene::{cleared_batches, scene_wf, BatchV, SceneV, ThingEntryV};
use crate::store::{has_key, key_index, keys_unique, lemma_key_at, lemma_store_insert,
    store_insert, value_of};

verus! {

// The library's laws: statements that tie several operations together,
// proved once and for all over the same models the operations' contracts
// use.

/// What one `AddBatch` does, key by key: the named scene's batch table gets
/// the new batch (prototype as sent, no instances) under `batch_id`, and
/// nothing else anywhere changes.
pub proof fn lemma_add_batch_effect(r: Seq<(usize, SceneV)>, sid: usize, bid: usize, t: ThingV)
    requires
        renderer_wf(r),
        has_key(r, sid),
        crate::mesh::mesh_wf(t),
    ensures
        renderer_wf(apply_add_batch(r, sid, bid, t)),
        has_key(apply_add_batch(r, sid, bid, t), sid),
        value_of(apply_add_batch(r, sid, bid, t), sid) =~~= (SceneV {
            batches: store_insert(
                value_of(r, sid).batches,
                bid,
                BatchV { prototype: t, instances: Seq::empty() },
            ),
            ..value_of(r, sid)
        }),
        has_key(value_of(apply_add_batch(r, sid, bid, t), sid).batches, bid),
        value_of(value_of(apply_add_batch(r, sid, bid, t), sid).batches, bid) =~~= (BatchV {
            prototype: t,
            instances: Seq::empty(),
        }),
        keys_unique(value_of(apply_add_batch(r, sid, bid, t), sid).batches),
        forall|k2: usize|
            k2 != sid ==> #[trigger] has_key(apply_add_batch(r, sid, bid, t), k2) == has_key(
                r,
                k2,
            ),
        forall|k2: usize|
            k2 != sid && has_key(r, k2) ==> #[trigger] value_of(apply_add_batch(r, sid, bid, t), k2)
                == value_of(r, k2),
{
    lemma_scene_of_wf(r, sid);
    let s = value_of(r, sid);
    let b = BatchV { prototype: t, instances: Seq::empty() };
    lemma_store_insert(s.batches, bid, b);
    let s2 = SceneV { batches: store_insert(s.batches, bid, b), ..s };
    assert(scene_wf(s2)) by {
        assert forall|i: int| 0 <= i < s2.batches.len() implies crate::mesh::mesh_wf(
            (#[trigger] s2.batches[i]).1.prototype,
        ) by {
            if has_key(s.batches, bid) {
                if i != key_index(s.batches, bid) {
                    assert(s2.batches[i] == s.batches[i]);
                }
            } else {
                if i < s.batches.len() {
                    assert(s2.batches[i] == s.batches[i]);
                }
            }
        }
    }
    lemma_insert_scene_wf(r, sid, s2);
}

/// What one `AddInstance` does: the named batch keeps its prototype and
/// gains exactly the one placement at the end of its instance list.
pub proof fn lemma_add_instance_effect(r: Seq<(usize, SceneV)>, sid: usize, bid: usize, p: Instance)
    requires
        renderer_wf(r),
        has_key(r, sid),
        has_key(value_of(r, sid).batches, bid),
    ensures
        renderer_wf(apply_add_instance(r, sid, bid, p)),
        has_key(apply_add_instance(r, sid, bid, p), sid),
        has_key(value_of(apply_add_instance(r, sid, bid, p), sid).batches, bid),
        keys_unique(value_of(apply_add_instance(r, sid, bid, p), sid).batches),
        value_of(value_of(apply_add_instance(r, sid, bid, p), sid).batches, bid).prototype
            == value_of(value_of(r, sid).batches, bid).prototype,
        value_of(value_of(apply_add_instance(r, sid, bid, p), sid).batches, bid).instances
            =~= value_of(value_of(r, sid).batches, bid).instances.push(p),
        forall|k2: usize|
            k2 != sid ==> #[trigger] has_key(apply_add_instance(r, sid, bid, p), k2) == has_key(
                r,
                k2,
            ),
        forall|k2: usize|
            k2 != sid && has_key(r, k2) ==> #[trigger] value_of(
                apply_add_instance(r, sid, bid, p),
                k2,
            ) == value_of(r, k2),
{
    lemma_scene_of_wf(r, sid);
    let s = value_of(r, sid);
    let b = value_of(s.batches, bid);
    let b2 = BatchV { prototype: b.prototype, instances: b.instances.push(p) };
    lemma_store_insert(s.batches, bid, b2);
    let s2 = SceneV { batches: store_insert(s.batches, bid, b2), ..s };
    assert(scene_wf(s2)) by {
        assert forall|i: int| 0 <= i < s2.batches.len() implies crate::mesh::mesh_wf(
            (#[trigger] s2.batches[i]).1.prototype,
        ) by {
            let ki = key_index(s.batches, bid);
            lemma_key_at(s.batches, bid, ki);
            if i == ki {
                assert(crate::mesh::mesh_wf(s.batches[ki].1.prototype));
            } else {
                assert(s2.batches[i] == s.batches[i]);
            }
        }
    }
    lemma_insert_scene_wf(r, sid, s2);
}

/// What one `UpdateThing` does: the entry under `thing_id` is exactly the
/// sent mesh and placement, whatever was there before.
pub proof fn lemma_update_thing_effect(
    r: Seq<(usize, SceneV)>,
    sid: usize,
    tid: usize,
    t: ThingV,
    p: Instance,
)
    requires
        renderer_wf(r),
        has_key(r, sid),
        crate::mesh::mesh_wf(t),
    ensures
        renderer_wf(apply_update_thing(r, sid, tid, t, p)),
        has_key(apply_update_thing(r, sid, tid, t, p), sid),
        has_key(value_of(apply_update_thing(r, sid, tid, t, p), sid).things, tid),
        keys_unique(value_of(apply_update_thing(r, sid, tid, t, p), sid).things),
        value_of(value_of(apply_update_thing(r, sid, tid, t, p), sid).things, tid)
            =~~= (ThingEntryV { thing: t, instance: p }),
        value_of(apply_update_thing(r, sid, tid, t, p), sid).things.len() == if has_key(
            value_of(r, sid).things,
            tid,
        ) {
            value_of(r, sid).things.len()
        } else {
            value_of(r, sid).things.len() + 1
        },
        value_of(apply_update_thing(r, sid, tid, t, p), sid).batches == value_of(r, sid).batches,
{
    lemma_scene_of_wf(r, sid);
    let s = value_of(r, sid);
    let e2 = ThingEntryV { thing: t, instance: p };
    lemma_store_insert(s.things, tid, e2);
    let s2 = SceneV { things: store_insert(s.things, tid, e2), ..s };
    assert(scene_wf(s2)) by {
        assert forall|i: int| 0 <= i < s2.things.len() implies crate::mesh::mesh_wf(
            (#[trigger] s2.things[i]).1.thing,
        ) by {
            if has_key(s.things, tid) {
                if i != key_index(s.things, tid) {
                    assert(s2.things[i] == s.things[i]);
                }
            } else {
                if i < s.things.len() {
                    assert(s2.things[i] == s.things[i]);
                }
            }
        }
    }
    lemma_insert_scene_wf(r, sid, s2);
}

/// Applying a whole sequence of `AddInstance` messages, oldest first.
pub open spec fn apply_add_instances(r: Seq<(usize, SceneV)>, msgs: Seq<AddInstance>) -> Seq<
    (usize, SceneV),
>
    decreases msgs.len(),
{
    if msgs.len() == 0 {
        r
    } else {
        apply_add_instance(
            apply_add_instances(r, msgs.drop_last()),
            msgs.last().scene_id,
            msgs.last().batch_id,
            msgs.last().position,
        )
    }
}

/// Accumulation: a run of `AddInstance` messages addressed to one batch
/// appends exactly their placements, in order, to that batch's instance
/// list; the prototype never changes.
pub proof fn lemma_add_instances_effect(
    r: Seq<(usize, SceneV)>,
    sid: usize,
    bid: usize,
    msgs: Seq<AddInstance>,
)
    requires
        renderer_wf(r),
        has_key(r, sid),
        has_key(value_of(r, sid).batches, bid),
        forall|i: int|
            0 <= i < msgs.len() ==> (#[trigger] msgs[i]).scene_id == sid && msgs[i].batch_id
                == bid,
    ensures
        renderer_wf(apply_add_instances(r, msgs)),
        has_key(apply_add_instances(r, msgs), sid),
        has_key(value_of(apply_add_instances(r, msgs), sid).batches, bid),
        value_of(value_of(apply_add_instances(r, msgs), sid).batches, bid).prototype == value_of(
            value_of(r, sid).batches,
            bid,
        ).prototype,
        value_of(value_of(apply_add_instances(r, msgs), sid).batches, bid).instances =~= value_of(
            value_of(r, sid).batches,
            bid,
        ).instances + msgs.map_values(|m: AddInstance| m.position),
    decreases msgs.len(),
{
    let base = value_of(value_of(r, sid).batches, bid).instances;
    if msgs.len() == 0 {
        assert(msgs.map_values(|m: AddInstance| m.position) =~= Seq::<Instance>::empty());
        assert(base + msgs.map_values(|m: AddInstance| m.position) =~= base);
    } else {
        let dl = msgs.drop_last();
        let m = msgs.last();
        lemma_add_instances_effect(r, sid, bid, dl);
        let r1 = apply_add_instances(r, dl);
        lemma_add_instance_effect(r1, sid, bid, m.position);
        assert(m.scene_id == sid && m.batch_id == bid);
        assert(apply_add_instances(r, msgs) == apply_add_instance(r1, sid, bid, m.position));
        assert(value_of(value_of(apply_add_instances(r, msgs), sid).batches, bid).instances
            =~= (base + dl.map_values(|m2: AddInstance| m2.position)).push(m.position));
        assert((base + dl.map_values(|m2: AddInstance| m2.position)).push(m.position) =~= base
            + msgs.map_values(|m2: AddInstance| m2.position));
    }
}

/// Accumulation, counted: after `AddBatch` and then N `AddInstance`
/// messages addressed to that batch (with no Render in between), the batch
/// holds exactly N instances and the prototype from the `AddBatch`.
pub proof fn law_instance_accumulation(
    r: Seq<(usize, SceneV)>,
    sid: usize,
    bid: usize,
    t: ThingV,
    msgs: Seq<AddInstance>,
)
    requires
        renderer_wf(r),
        has_key(r, sid),
        crate::mesh::mesh_wf(t),
        forall|i: int|
            0 <= i < msgs.len() ==> (#[trigger] msgs[i]).scene_id == sid && msgs[i].batch_id
                == bid,
    ensures
        value_of(
            value_of(apply_add_instances(apply_add_batch(r, sid, bid, t), msgs), sid).batches,
            bid,
        ).instances.len() == msgs.len(),
        value_of(
            value_of(apply_add_instances(apply_add_batch(r, sid, bid, t), msgs), sid).batches,
            bid,
        ).prototype == t,
{
    lemma_add_batch_effect(r, sid, bid, t);
    let r1 = apply_add_batch(r, sid, bid, t);
    lemma_add_instances_effect(r1, sid, bid, msgs);
}

/// The Render phase resets every batch of every scene to an empty instance
/// list, whatever it held, and touches nothing else: keys, prototypes,
/// things, cameras and registrations all survive.
pub proof fn law_render_clears(r: Seq<(usize, SceneV)>, sid: usize, bid: usize)
    requires
        renderer_wf(r),
        has_key(r, sid),
        has_key(value_of(r, sid).batches, bid),
    ensures
        has_key(apply_render_clear(r), sid),
        has_key(value_of(apply_render_clear(r), sid).batches, bid),
        value_of(value_of(apply_render_clear(r), sid).batches, bid).instances =~= Seq::<
            Instance,
        >::empty(),
        value_of(value_of(apply_render_clear(r), sid).batches, bid).prototype == value_of(
            value_of(r, sid).batches,
            bid,
        ).prototype,
        value_of(apply_render_clear(r), sid).things == value_of(r, sid).things,
        value_of(apply_render_clear(r), sid).eye == value_of(r, sid).eye,
        value_of(apply_render_clear(r), sid).renderables == value_of(r, sid).renderables,
{
    lemma_render_clear_wf(r);
    let r2 = apply_render_clear(r);
    let i = key_index(r, sid);
    lemma_key_at(r, sid, i);
    assert(r2[i].0 == sid);
    lemma_key_at(r2, sid, i);
    let s = value_of(r, sid);
    let s2 = value_of(r2, sid);
    assert(s2 == (SceneV { batches: cleared_batches(s.batches), ..s }));
    let j = key_index(s.batches, bid);
    lemma_key_at(s.batches, bid, j);
    assert(s2.batches[j].0 == bid);
    assert forall|a: int, b: int| 0 <= a < b < s2.batches.len() implies (
    #[trigger] s2.batches[a]).0 != (#[trigger] s2.batches[b]).0 by {
        assert(s.batches[a].0 != s.batches[b].0);
    }
    lemma_key_at(s2.batches, bid, j);
    assert(value_of(s2.batches, bid) == s2.batches[j].1);
}

/// Replacement of unique geometry: two `UpdateThing` messages for the same
/// `thing_id` leave exactly one entry for that id, carrying the mesh and
/// placement of the second message.
pub proof fn law_update_thing_replaces(
    r: Seq<(usize, SceneV)>,
    sid: usize,
    tid: usize,
    t1: ThingV,
    p1: Instance,
    t2: ThingV,
    p2: Instance,
)
    requires
        renderer_wf(r),
        has_key(r, sid),
        crate::mesh::mesh_wf(t1),
        crate::mesh::mesh_wf(t2),
    ensures
        ({
            let r2 = apply_update_thing(apply_update_thing(r, sid, tid, t1, p1), sid, tid, t2, p2);
            let things = value_of(r2, sid).things;
            &&& has_key(things, tid)
            &&& value_of(things, tid) =~~= (ThingEntryV { thing: t2, instance: p2 })
            &&& forall|a: int, b: int|
                0 <= a < things.len() && 0 <= b < things.len() && (#[trigger] things[a]).0 == tid
                    && (#[trigger] things[b]).0 == tid ==> a == b
            &&& things.len() == value_of(
                apply_update_thing(r, sid, tid, t1, p1),
                sid,
            ).things.len()
        }),
{
    lemma_update_thing_effect(r, sid, tid, t1, p1);
    let r1 = apply_update_thing(r, sid, tid, t1, p1);
    lemma_update_thing_effect(r1, sid, tid, t2, p2);
    let r2 = apply_update_thing(r1, sid, tid, t2, p2);
    let things = value_of(r2, sid).things;
    assert forall|a: int, b: int|
        0 <= a < things.len() && 0 <= b < things.len() && (#[trigger] things[a]).0 == tid && (
        #[trigger] things[b]).0 == tid implies a == b by {
        if a < b {
            assert(things[a].0 != things[b].0);
        }
        if b < a {
            assert(things[b].0 != things[a].0);
        }
    }
}

/// Last write wins for batches: two `AddBatch` messages for the same
/// `(scene_id, batch_id)` leave one batch there, with the second prototype
/// and an empty instance list.
pub proof fn law_add_batch_replaces(
    r: Seq<(usize, SceneV)>,
    sid: usize,
    bid: usize,
    t1: ThingV,
    t2: ThingV,
)
    requires
        renderer_wf(r),
        has_key(r, sid),
        crate::mesh::mesh_wf(t1),
        crate::mesh::mesh_wf(t2),
    ensures
        ({
            let r2 = apply_add_batch(apply_add_batch(r, sid, bid, t1), sid, bid, t2);
            let batches = value_of(r2, sid).batches;
            &&& has_key(batches, bid)
            &&& value_of(batches, bid) =~~= (BatchV { prototype: t2, instances: Seq::empty() })
            &&& forall|a: int, b: int|
                0 <= a < batches.len() && 0 <= b < batches.len() && (#[trigger] batches[a]).0 == bid
                    && (#[trigger] batches[b]).0 == bid ==> a == b
            &&& batches.len() == value_of(apply_add_batch(r, sid, bid, t1), sid).batches.len()
        }),
{
    lemma_add_batch_effect(r, sid, bid, t1);
    let r1 = apply_add_batch(r, sid, bid, t1);
    lemma_add_batch_effect(r1, sid, bid, t2);
    let r2 = apply_add_batch(r1, sid, bid, t2);
    let batches = value_of(r2, sid).batches;
    lemma_store_insert(
        value_of(r1, sid).batches,
        bid,
        BatchV { prototype: t2, instances: Seq::empty() },
    );
    assert forall|a: int, b: int|
        0 <= a < batches.len() && 0 <= b < batches.len() && (#[trigger] batches[a]).0 == bid && (
        #[trigger] batches[b]).0 == bid implies a == b by {
        if a < b {
            assert(batches[a].0 != batches[b].0);
        }
        if b < a {
            assert(batches[b].0 != batches[a].0);
        }
    }
}

/// A zero delta moves nothing: position and target (and everything else)
/// come back unchanged.
pub proof fn law_move_eye_zero(eye: Eye)
    requires
        eye_movable(eye),
    ensures
        moved_eye(eye, Vec3 { x: 0, y: 0, z: 0 }) == eye,
{
    let delta = Vec3 { x: 0, y: 0, z: 0 };
    assert(delta.x * forward_x(eye) == 0);
    assert(delta.y * forward_y(eye) == 0);
    assert(delta.x * forward_y(eye) == 0);
    assert(delta.y * forward_x(eye) == 0);
    assert(world_dx(eye, delta) == div_trunc(0, SCALE as int));
    assert(div_trunc(0, SCALE as int) == 0) by {
        vstd::arithmetic::div_mod::lemma_div_of0(SCALE as int);
    }
    assert(world_dy(eye, delta) == 0);
    assert(world_dz(eye, delta) == 0);
}

/// Every eye movement is a pure translation: position and target shift by
/// one and the same world vector (so the squared camera-to-target distance
/// is invariant, and a well-defined view stays well defined), and the up
/// vector and field of view are untouched.
pub proof fn law_move_eye_translates(eye: Eye, delta: Vec3)
    requires
        eye_movable(eye),
        delta.in_bounds(),
    ensures
        ({
            let e2 = moved_eye(eye, delta);
            &&& e2.position.x - eye.position.x == world_dx(eye, delta)
            &&& e2.position.y - eye.position.y == world_dy(eye, delta)
            &&& e2.position.z - eye.position.z == world_dz(eye, delta)
            &&& e2.target.x - eye.target.x == world_dx(eye, delta)
            &&& e2.target.y - eye.target.y == world_dy(eye, delta)
            &&& e2.target.z - eye.target.z == world_dz(eye, delta)
            &&& dist_sq_3d(e2.position, e2.target) == dist_sq_3d(eye.position, eye.target)
            &&& e2.view_defined() == eye.view_defined()
            &&& e2.up == eye.up
            &&& e2.field_of_view == eye.field_of_view
        }),
{
    crate::camera::lemma_world_delta_bounds(eye, delta);
    let e2 = moved_eye(eye, delta);
    assert(e2.position.x - eye.position.x == world_dx(eye, delta));
    assert(e2.position.x - e2.target.x == eye.position.x - eye.target.x);
    assert(e2.position.y - e2.target.y == eye.position.y - eye.target.y);
    assert(e2.position.z - e2.target.z == eye.position.z - eye.target.z);
}

/// A purely forward delta `(d, 0, 0)` moves the camera along the
/// ground-projected look direction: the offset is the fixed-point product
/// of `d` with the unit forward vector, and its vertical component is zero.
pub proof fn law_move_eye_forward(eye: Eye, d: i64)
    requires
        eye_movable(eye),
        -COORD_LIMIT <= d <= COORD_LIMIT,
    ensures
        ({
            let delta = Vec3 { x: d, y: 0, z: 0 };
            let e2 = moved_eye(eye, delta);
            &&& e2.position.x - eye.position.x == div_trunc(d * forward_x(eye), SCALE as int)
            &&& e2.position.y - eye.position.y == div_trunc(d * forward_y(eye), SCALE as int)
            &&& e2.position.z == eye.position.z
            &&& e2.target.x - eye.target.x == div_trunc(d * forward_x(eye), SCALE as int)
            &&& e2.target.y - eye.target.y == div_trunc(d * forward_y(eye), SCALE as int)
            &&& e2.target.z == eye.target.z
        }),
{
    let delta = Vec3 { x: d, y: 0, z: 0 };
    assert(delta.in_bounds());
    law_move_eye_translates(eye, delta);
    assert(delta.y * forward_y(eye) == 0);
    assert(delta.y * forward_x(eye) == 0);
    assert(world_dx(eye, delta) == div_trunc(d * forward_x(eye), SCALE as int));
    assert(world_dy(eye, delta) == div_trunc(d * forward_y(eye), SCALE as int));
}

/// Number of (scene, registration) pairs a renderer holds; the Setup and
/// Render phases send exactly this many notifications.
pub open spec fn total_registrations(r: Seq<(usize, SceneV)>) -> int
    decreases r.len(),
{
    if r.len() == 0 {
        0
    } else {
        total_registrations(r.drop_last()) + r.last().1.renderables.len()
    }
}

/// Both notification lists are exactly one entry long per registration.
pub proof fn lemma_notes_count(renderer_id: u64, r: Seq<(usize, SceneV)>)
    ensures
        setup_notes(renderer_id, r).len() == total_registrations(r),
        render_notes(renderer_id, r).len() == total_registrations(r),
    decreases r.len(),
{
    if r.len() == 0 {
    } else {
        lemma_notes_count(renderer_id, r.drop_last());
    }
}

/// Exactly one notification per registration, in both phases: registration
/// `j` of the scene at table position `i` receives one Setup (one Render)
/// notification carrying that scene's id, at the list position given by
/// the registrations before it — and nothing else is sent, since the
/// list's length is the total number of registrations.
pub proof fn law_one_notification_per_registration(
    renderer_id: u64,
    r: Seq<(usize, SceneV)>,
    i: int,
    j: int,
)
    requires
        0 <= i < r.len(),
        0 <= j < r[i].1.renderables.len(),
    ensures
        setup_notes(renderer_id, r).len() == total_registrations(r),
        render_notes(renderer_id, r).len() == total_registrations(r),
        0 <= total_registrations(r.take(i)) + j < total_registrations(r),
        setup_notes(renderer_id, r)[total_registrations(r.take(i)) + j] == (Notification::Setup {
            recipient: r[i].1.renderables[j],
            message: SetupInScene { renderer_id, scene_id: r[i].0 },
        }),
        render_notes(renderer_id, r)[total_registrations(r.take(i)) + j] == (Notification::Render {
            recipient: r[i].1.renderables[j],
            message: RenderToScene { renderer_id, scene_id: r[i].0 },
        }),
    decreases r.len(),
{
    lemma_notes_count(renderer_id, r);
    let dl = r.drop_last();
    lemma_notes_count(renderer_id, dl);
    let ssn = scene_setup_notes(renderer_id, r.last().0, r.last().1);
    let srn = scene_render_notes(renderer_id, r.last().0, r.last().1);
    assert(setup_notes(renderer_id, r) == setup_notes(renderer_id, dl) + ssn);
    assert(render_notes(renderer_id, r) == render_notes(renderer_id, dl) + srn);
    if i == r.len() - 1 {
        assert(r.take(i) =~= dl);
        assert(r.last() == r[i]);
        let k = total_registrations(r.take(i)) + j;
        assert(k == setup_notes(renderer_id, dl).len() + j);
        assert((setup_notes(renderer_id, dl) + ssn)[k] == ssn[j]);
        assert(ssn[j] == (Notification::Setup {
            recipient: r[i].1.renderables[j],
            message: SetupInScene { renderer_id, scene_id: r[i].0 },
        }));
        assert((render_notes(renderer_id, dl) + srn)[k] == srn[j]);
        assert(srn[j] == (Notification::Render {
            recipient: r[i].1.renderables[j],
            message: RenderToScene { renderer_id, scene_id: r[i].0 },
        }));
    } else {
        law_one_notification_per_registration(renderer_id, dl, i, j);
        assert(dl[i] == r[i]);
        assert(r.take(i) =~= dl.take(i));
        let k = total_registrations(r.take(i)) + j;
        assert(k == total_registrations(dl.take(i)) + j);
        assert(k < total_registrations(dl));
        assert((setup_notes(renderer_id, dl) + ssn)[k] == setup_notes(renderer_id, dl)[k]);
        assert((render_notes(renderer_id, dl) + srn)[k] == render_notes(renderer_id, dl)[k]);
    }
}

} // verus!

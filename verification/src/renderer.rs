use vstd::prelude::*;
use crate::camera::{eye_movable, moved_eye};
use crate::frame::Frame;
use crate::geometry::{Instance, Vec3};
use crate::mesh::{mesh_wf, Thing};
use crate::scene::{cleared_batches, scene_wf, Batch, BatchV, Scene, SceneV, ThingEntry,
    ThingEntryV};
use crate::store::{has_key, keys_unique, lemma_key_at, lemma_store_insert, store_insert,
    value_of, KeyedStore};

verus! {

// The renderer: sole owner of every scene, driven purely by messages.  The
// driver sends `Control` messages; renderables answer the resulting
// notifications with `AddBatch` / `AddInstance` / `UpdateThing`; input
// moves cameras with `MoveEye`.  Delivering the messages (and upholding the
// quiescence barrier between the Render and Submit phases of one frame) is
// the surrounding program's job; every handler here is a plain, total
// function of the renderer state and one message.

/// The per-frame protocol messages the driver sends.
#[derive(Clone, Copy, Debug, PartialEq, Eq, Structural)]
pub enum Control {
    Setup,
    Render,
    Submit,
}

/// Tells a renderable it may register up-front geometry in a scene.
#[derive(Clone, Copy, Debug, PartialEq, Eq, Structural)]
pub struct SetupInScene {
    pub renderer_id: u64,
    pub scene_id: usize,
}

/// Tells a renderable it may contribute geometry to a scene this frame.
#[derive(Clone, Copy, Debug, PartialEq, Eq, Structural)]
pub struct RenderToScene {
    pub renderer_id: u64,
    pub scene_id: usize,
}

/// Inserts (or wholesale replaces) a batch: the prototype mesh is handed
/// over by value and the instance list starts empty.
#[derive(Clone, Debug, PartialEq)]
pub struct AddBatch {
    pub scene_id: usize,
    pub batch_id: usize,
    pub thing: Thing,
}

impl AddBatch {
    pub fn new(scene_id: usize, batch_id: usize, thing: Thing) -> (m: AddBatch)
        ensures
            m.scene_id == scene_id,
            m.batch_id == batch_id,
            m.thing@ == thing@,
    {
        AddBatch { scene_id, batch_id, thing }
    }
}

/// Appends one placement to an existing batch.
#[derive(Clone, Copy, Debug, PartialEq)]
pub struct AddInstance {
    pub scene_id: usize,
    pub batch_id: usize,
    pub position: Instance,
}

/// Replaces (or inserts) the unique-geometry entry under `thing_id` with a
/// fresh mesh and placement; nothing accumulates.
#[derive(Clone, Debug, PartialEq)]
pub struct UpdateThing {
    pub scene_id: usize,
    pub thing_id: usize,
    pub thing: Thing,
    pub instance: Instance,
}

impl UpdateThing {
    pub fn new(scene_id: usize, thing_id: usize, thing: Thing, instance: Instance) -> (m:
        UpdateThing)
        ensures
            m.scene_id == scene_id,
            m.thing_id == thing_id,
            m.thing@ == thing@,
            m.instance == instance,
    {
        UpdateThing { scene_id, thing_id, thing, instance }
    }
}

/// Moves a scene's camera by a camera-relative delta (see [`crate::camera`]).
#[derive(Clone, Copy, Debug, PartialEq)]
pub struct MoveEye {
    pub scene_id: usize,
    pub delta: Vec3,
}

/// One notification the renderer asks the surrounding program to deliver.
#[derive(Clone, Copy, Debug, PartialEq, Eq, Structural)]
pub enum Notification {
    Setup { recipient: u64, message: SetupInScene },
    Render { recipient: u64, message: RenderToScene },
}

/// Everything one `Control` message produces: notifications to renderables
/// and, for `Submit`, one frame description per scene.
#[derive(Clone, Debug, PartialEq)]
pub struct Effects {
    pub notifications: Vec<Notification>,
    pub frames: Vec<Frame>,
}

/// A well-formed renderer: unique scene keys, and every scene well formed.
pub open spec fn renderer_wf(r: Seq<(usize, SceneV)>) -> bool {
    &&& keys_unique(r)
    &&& forall|i: int| 0 <= i < r.len() ==> scene_wf((#[trigger] r[i]).1)
}

/// What `AddBatch` does to the model.
pub open spec fn apply_add_batch(
    r: Seq<(usize, SceneV)>,
    scene_id: usize,
    batch_id: usize,
    thing: crate::mesh::ThingV,
) -> Seq<(usize, SceneV)> {
    let s = value_of(r, scene_id);
    store_insert(
        r,
        scene_id,
        SceneV {
            batches: store_insert(
                s.batches,
                batch_id,
                BatchV { prototype: thing, instances: Seq::empty() },
            ),
            ..s
        },
    )
}

/// What `AddInstance` does to the model.
pub open spec fn apply_add_instance(
    r: Seq<(usize, SceneV)>,
    scene_id: usize,
    batch_id: usize,
    position: Instance,
) -> Seq<(usize, SceneV)> {
    let s = value_of(r, scene_id);
    let b = value_of(s.batches, batch_id);
    store_insert(
        r,
        scene_id,
        SceneV {
            batches: store_insert(
                s.batches,
                batch_id,
                BatchV { prototype: b.prototype, instances: b.instances.push(position) },
            ),
            ..s
        },
    )
}

/// What `UpdateThing` does to the model.
pub open spec fn apply_update_thing(
    r: Seq<(usize, SceneV)>,
    scene_id: usize,
    thing_id: usize,
    thing: crate::mesh::ThingV,
    instance: Instance,
) -> Seq<(usize, SceneV)> {
    let s = value_of(r, scene_id);
    store_insert(
        r,
        scene_id,
        SceneV {
            things: store_insert(s.things, thing_id, ThingEntryV { thing, instance }),
            ..s
        },
    )
}

/// What `MoveEye` does to the model.
pub open spec fn apply_move_eye(r: Seq<(usize, SceneV)>, scene_id: usize, delta: Vec3) -> Seq<
    (usize, SceneV),
> {
    let s = value_of(r, scene_id);
    store_insert(r, scene_id, SceneV { eye: moved_eye(s.eye, delta), ..s })
}

/// What the Render phase does to the model: every batch's instance list in
/// every scene becomes empty; nothing else changes.
pub open spec fn apply_render_clear(r: Seq<(usize, SceneV)>) -> Seq<(usize, SceneV)> {
    r.map_values(
        |e: (usize, SceneV)| (e.0, SceneV { batches: cleared_batches(e.1.batches), ..e.1 }),
    )
}

/// The Setup notifications one scene asks for: one per registered
/// renderable, in registration order.
pub open spec fn scene_setup_notes(renderer_id: u64, scene_id: usize, s: SceneV) -> Seq<
    Notification,
> {
    s.renderables.map_values(
        |rid: u64| Notification::Setup {
            recipient: rid,
            message: SetupInScene { renderer_id, scene_id },
        },
    )
}

/// The Render notifications one scene asks for.
pub open spec fn scene_render_notes(renderer_id: u64, scene_id: usize, s: SceneV) -> Seq<
    Notification,
> {
    s.renderables.map_values(
        |rid: u64| Notification::Render {
            recipient: rid,
            message: RenderToScene { renderer_id, scene_id },
        },
    )
}

/// All Setup notifications, scene by scene in table order.
pub open spec fn setup_notes(renderer_id: u64, r: Seq<(usize, SceneV)>) -> Seq<Notification>
    decreases r.len(),
{
    if r.len() == 0 {
        Seq::empty()
    } else {
        setup_notes(renderer_id, r.drop_last()) + scene_setup_notes(
            renderer_id,
            r.last().0,
            r.last().1,
        )
    }
}

/// All Render notifications, scene by scene in table order.
pub open spec fn render_notes(renderer_id: u64, r: Seq<(usize, SceneV)>) -> Seq<Notification>
    decreases r.len(),
{
    if r.len() == 0 {
        Seq::empty()
    } else {
        render_notes(renderer_id, r.drop_last()) + scene_render_notes(
            renderer_id,
            r.last().0,
            r.last().1,
        )
    }
}

/// Inserting a well-formed scene keeps the renderer well formed.
pub proof fn lemma_insert_scene_wf(r: Seq<(usize, SceneV)>, k: usize, s: SceneV)
    requires
        renderer_wf(r),
        scene_wf(s),
    ensures
        renderer_wf(store_insert(r, k, s)),
        has_key(store_insert(r, k, s), k),
        value_of(store_insert(r, k, s), k) == s,
        forall|k2: usize|
            k2 != k ==> #[trigger] has_key(store_insert(r, k, s), k2) == has_key(r, k2),
        forall|k2: usize|
            k2 != k && has_key(r, k2) ==> #[trigger] value_of(store_insert(r, k, s), k2)
                == value_of(r, k2),
{
    lemma_store_insert(r, k, s);
    let r2 = store_insert(r, k, s);
    assert forall|i: int| 0 <= i < r2.len() implies scene_wf((#[trigger] r2[i]).1) by {
        if has_key(r, k) {
            if i == crate::store::key_index(r, k) {
                assert(r2[i].1 == s);
            } else {
                assert(r2[i] == r[i]);
            }
        } else {
            if i < r.len() {
                assert(r2[i] == r[i]);
            } else {
                assert(r2[i].1 == s);
            }
        }
    }
}

/// A scene taken out of a well-formed renderer is well formed.
pub proof fn lemma_scene_of_wf(r: Seq<(usize, SceneV)>, k: usize)
    requires
        renderer_wf(r),
        has_key(r, k),
    ensures
        scene_wf(value_of(r, k)),
{
    let i = crate::store::key_index(r, k);
    assert(0 <= i < r.len() && r[i].0 == k);
    assert(scene_wf(r[i].1));
}

/// The renderer: the scene table.  The GPU context and the message
/// transport live outside; they drive this state machine and carry its
/// effects.
#[derive(Clone, Debug, PartialEq)]
pub struct Renderer {
    pub scenes: KeyedStore<Scene>,
}

impl View for Renderer {
    type V = Seq<(usize, SceneV)>;

    open spec fn view(&self) -> Seq<(usize, SceneV)> {
        self.scenes@
    }
}

impl Renderer {
    /// A renderer with no scenes yet.
    pub fn new() -> (r: Renderer)
        ensures
            r@ =~= Seq::<(usize, SceneV)>::empty(),
            renderer_wf(r@),
    {
        Renderer { scenes: KeyedStore::new() }
    }

    /// Registration interface: inserts (or replaces) a scene under a small
    /// integer key.
    pub fn add_scene(&mut self, scene_id: usize, scene: Scene)
        requires
            renderer_wf(old(self)@),
            scene_wf(scene@),
        ensures
            final(self)@ =~~= store_insert(old(self)@, scene_id, scene@),
            renderer_wf(final(self)@),
    {
        proof {
            lemma_insert_scene_wf(old(self)@, scene_id, scene@);
        }
        self.scenes.insert(scene_id, scene);
    }

    /// Whether a scene with this key exists.
    pub fn has_scene(&self, scene_id: usize) -> (b: bool)
        ensures
            b == has_key(self@, scene_id),
    {
        self.scenes.contains_key(scene_id)
    }

    /// Read access to one scene.
    pub fn get_scene(&self, scene_id: usize) -> (r: Option<&Scene>)
        requires
            renderer_wf(self@),
        ensures
            match r {
                Some(s) => has_key(self@, scene_id) && s@ == value_of(self@, scene_id),
                None => !has_key(self@, scene_id),
            },
    {
        self.scenes.get(scene_id)
    }

    /// Inserts a new batch under `(scene_id, batch_id)`: prototype taken
    /// over by value, instance list empty.  Replaces any previous batch at
    /// that key.  An unknown scene id is a contract violation.
    pub fn receive_add_batch(&mut self, msg: AddBatch)
        requires
            renderer_wf(old(self)@),
            has_key(old(self)@, msg.scene_id),
            mesh_wf(msg.thing@),
        ensures
            final(self)@ =~~= apply_add_batch(
                old(self)@,
                msg.scene_id,
                msg.batch_id,
                msg.thing@,
            ),
            renderer_wf(final(self)@),
    {
        let AddBatch { scene_id, batch_id, thing } = msg;
        proof {
            lemma_scene_of_wf(self@, scene_id);
        }
        let scene = self.scenes.get_mut(scene_id);
        let ghost sv = (*scene)@;
        scene.batches.insert(batch_id, Batch::new(thing, Vec::new()));
        proof {
            crate::store::lemma_store_insert(
                sv.batches,
                batch_id,
                BatchV { prototype: msg.thing@, instances: Seq::empty() },
            );
            let s2 = SceneV {
                batches: store_insert(
                    sv.batches,
                    batch_id,
                    BatchV { prototype: msg.thing@, instances: Seq::empty() },
                ),
                ..sv
            };
            assert(scene_wf(s2)) by {
                assert forall|i: int| 0 <= i < s2.batches.len() implies mesh_wf(
                    (#[trigger] s2.batches[i]).1.prototype,
                ) by {
                    if has_key(sv.batches, batch_id) {
                        if i == crate::store::key_index(sv.batches, batch_id) {
                        } else {
                            assert(s2.batches[i] == sv.batches[i]);
                        }
                    } else {
                        if i < sv.batches.len() {
                            assert(s2.batches[i] == sv.batches[i]);
                        }
                    }
                }
            }
            lemma_insert_scene_wf(old(self)@, scene_id, s2);
        }
    }

    /// Appends one placement to an existing batch's instance list.  Unknown
    /// scene or batch ids are contract violations.
    pub fn receive_add_instance(&mut self, msg: AddInstance)
        requires
            renderer_wf(old(self)@),
            has_key(old(self)@, msg.scene_id),
            has_key(value_of(old(self)@, msg.scene_id).batches, msg.batch_id),
        ensures
            final(self)@ =~~= apply_add_instance(
                old(self)@,
                msg.scene_id,
                msg.batch_id,
                msg.position,
            ),
            renderer_wf(final(self)@),
    {
        proof {
            lemma_scene_of_wf(self@, msg.scene_id);
        }
        let scene = self.scenes.get_mut(msg.scene_id);
        let ghost sv = (*scene)@;
        let batch = scene.batches.get_mut(msg.batch_id);
        let ghost bv = (*batch)@;
        batch.instances.push(msg.position);
        proof {
            let b2 = BatchV { prototype: bv.prototype, instances: bv.instances.push(msg.position) };
            crate::store::lemma_store_insert(sv.batches, msg.batch_id, b2);
            let s2 = SceneV { batches: store_insert(sv.batches, msg.batch_id, b2), ..sv };
            assert(scene_wf(s2)) by {
                assert forall|i: int| 0 <= i < s2.batches.len() implies mesh_wf(
                    (#[trigger] s2.batches[i]).1.prototype,
                ) by {
                    let ki = crate::store::key_index(sv.batches, msg.batch_id);
                    lemma_key_at(sv.batches, msg.batch_id, ki);
                    if i == ki {
                        assert(mesh_wf(sv.batches[ki].1.prototype));
                    } else {
                        assert(s2.batches[i] == sv.batches[i]);
                    }
                }
            }
            lemma_insert_scene_wf(old(self)@, msg.scene_id, s2);
        }
    }

    /// Replaces (or inserts) the unique-geometry entry under `thing_id`
    /// with the given mesh and placement; the previous entry, if any, is
    /// discarded whole.  An unknown scene id is a contract violation.
    pub fn receive_update_thing(&mut self, msg: UpdateThing)
        requires
            renderer_wf(old(self)@),
            has_key(old(self)@, msg.scene_id),
            mesh_wf(msg.thing@),
        ensures
            final(self)@ =~~= apply_update_thing(
                old(self)@,
                msg.scene_id,
                msg.thing_id,
                msg.thing@,
                msg.instance,
            ),
            renderer_wf(final(self)@),
    {
        let UpdateThing { scene_id, thing_id, thing, instance } = msg;
        proof {
            lemma_scene_of_wf(self@, scene_id);
        }
        let scene = self.scenes.get_mut(scene_id);
        let ghost sv = (*scene)@;
        scene.things.insert(thing_id, ThingEntry::new(thing, instance));
        proof {
            let e2 = ThingEntryV { thing: msg.thing@, instance: msg.instance };
            crate::store::lemma_store_insert(sv.things, thing_id, e2);
            let s2 = SceneV { things: store_insert(sv.things, thing_id, e2), ..sv };
            assert(scene_wf(s2)) by {
                assert forall|i: int| 0 <= i < s2.things.len() implies mesh_wf(
                    (#[trigger] s2.things[i]).1.thing,
                ) by {
                    if has_key(sv.things, thing_id) {
                        if i == crate::store::key_index(sv.things, thing_id) {
                        } else {
                            assert(s2.things[i] == sv.things[i]);
                        }
                    } else {
                        if i < sv.things.len() {
                            assert(s2.things[i] == sv.things[i]);
                        }
                    }
                }
            }
            lemma_insert_scene_wf(old(self)@, scene_id, s2);
        }
    }

    /// Moves a scene's camera by a camera-relative delta; position and
    /// target translate together, so the view direction is kept.  An
    /// unknown scene id is a contract violation, and the scene's camera
    /// must be in a movable state (see [`eye_movable`]).
    pub fn receive_move_eye(&mut self, msg: MoveEye)
        requires
            renderer_wf(old(self)@),
            has_key(old(self)@, msg.scene_id),
            eye_movable(value_of(old(self)@, msg.scene_id).eye),
            msg.delta.in_bounds(),
        ensures
            final(self)@ =~~= apply_move_eye(old(self)@, msg.scene_id, msg.delta),
            renderer_wf(final(self)@),
    {
        proof {
            lemma_scene_of_wf(self@, msg.scene_id);
        }
        let scene = self.scenes.get_mut(msg.scene_id);
        let ghost sv = (*scene)@;
        crate::camera::move_eye(&mut scene.eye, msg.delta);
        proof {
            let s2 = SceneV { eye: moved_eye(sv.eye, msg.delta), ..sv };
            assert(scene_wf(s2));
            lemma_insert_scene_wf(old(self)@, msg.scene_id, s2);
        }
    }
    /// The Setup notifications for every scene, in table order, then
    /// registration order.
    fn setup_notifications(&self, self_id: u64) -> (out: Vec<Notification>)
        ensures
            out@ == setup_notes(self_id, self@),
    {
        let mut out: Vec<Notification> = Vec::new();
        let n = self.scenes.len();
        let mut i: usize = 0;
        while i < n
            invariant
                n == self.scenes@.len(),
                i <= n,
                out@ =~= setup_notes(self_id, self.scenes@.take(i as int)),
            decreases n - i,
        {
            let scene_id = self.scenes.key_at(i);
            let ghost sv = self.scenes@[i as int].1;
            let ghost base = out@;
            let ghost ssn = scene_setup_notes(self_id, scene_id, sv);
            let nr = self.scenes.value_at(i).renderables.len();
            let mut j: usize = 0;
            while j < nr
                invariant
                    n == self.scenes@.len(),
                    i < n,
                    scene_id == self.scenes@[i as int].0,
                    sv == self.scenes@[i as int].1,
                    nr == sv.renderables.len(),
                    j <= nr,
                    ssn == scene_setup_notes(self_id, scene_id, sv),
                    out@ =~= base + ssn.take(j as int),
                decreases nr - j,
            {
                let rid = self.scenes.value_at(i).renderables[j];
                out.push(
                    Notification::Setup {
                        recipient: rid,
                        message: SetupInScene { renderer_id: self_id, scene_id },
                    },
                );
                proof {
                    assert(ssn[j as int] == Notification::Setup {
                        recipient: rid,
                        message: SetupInScene { renderer_id: self_id, scene_id },
                    });
                    assert(out@ =~= base + ssn.take(j + 1));
                }
                j += 1;
            }
            proof {
                assert(ssn.take(nr as int) =~= ssn);
                lemma_notes_step(self_id, self.scenes@, i as int);
                assert(out@ =~= setup_notes(self_id, self.scenes@.take(i + 1)));
            }
            i += 1;
        }
        proof {
            assert(self.scenes@.take(n as int) =~= self.scenes@);
        }
        out
    }

    /// The Render notifications for every scene, in table order, then
    /// registration order.
    fn render_notifications(&self, self_id: u64) -> (out: Vec<Notification>)
        ensures
            out@ == render_notes(self_id, self@),
    {
        let mut out: Vec<Notification> = Vec::new();
        let n = self.scenes.len();
        let mut i: usize = 0;
        while i < n
            invariant
                n == self.scenes@.len(),
                i <= n,
                out@ =~= render_notes(self_id, self.scenes@.take(i as int)),
            decreases n - i,
        {
            let scene_id = self.scenes.key_at(i);
            let ghost sv = self.scenes@[i as int].1;
            let ghost base = out@;
            let ghost srn = scene_render_notes(self_id, scene_id, sv);
            let nr = self.scenes.value_at(i).renderables.len();
            let mut j: usize = 0;
            while j < nr
                invariant
                    n == self.scenes@.len(),
                    i < n,
                    scene_id == self.scenes@[i as int].0,
                    sv == self.scenes@[i as int].1,
                    nr == sv.renderables.len(),
                    j <= nr,
                    srn == scene_render_notes(self_id, scene_id, sv),
                    out@ =~= base + srn.take(j as int),
                decreases nr - j,
            {
                let rid = self.scenes.value_at(i).renderables[j];
                out.push(
                    Notification::Render {
                        recipient: rid,
                        message: RenderToScene { renderer_id: self_id, scene_id },
                    },
                );
                proof {
                    assert(srn[j as int] == Notification::Render {
                        recipient: rid,
                        message: RenderToScene { renderer_id: self_id, scene_id },
                    });
                    assert(out@ =~= base + srn.take(j + 1));
                }
                j += 1;
            }
            proof {
                assert(srn.take(nr as int) =~= srn);
                lemma_notes_step(self_id, self.scenes@, i as int);
                assert(out@ =~= render_notes(self_id, self.scenes@.take(i + 1)));
            }
            i += 1;
        }
        proof {
            assert(self.scenes@.take(n as int) =~= self.scenes@);
        }
        out
    }

    /// Clears every batch's instance list in every scene.
    fn clear_all_batches(&mut self)
        ensures
            final(self)@ =~~= apply_render_clear(old(self)@),
    {
        let n = self.scenes.len();
        let mut i: usize = 0;
        while i < n
            invariant
                n == self.scenes@.len(),
                n == old(self)@.len(),
                i <= n,
                forall|j: int|
                    0 <= j < i ==> #[trigger] self.scenes@[j] == apply_render_clear(old(self)@)[j],
                forall|j: int| i <= j < n ==> #[trigger] self.scenes@[j] == old(self)@[j],
            decreases n - i,
        {
            let ghost pre = self.scenes@;
            let sc = self.scenes.value_at_mut(i);
            sc.clear_batch_instances();
            proof {
                assert(self.scenes@[i as int].1 =~~= (SceneV {
                    batches: cleared_batches(pre[i as int].1.batches),
                    ..pre[i as int].1
                }));
                assert(pre[i as int] == old(self)@[i as int]);
                assert(self.scenes@[i as int].0 == pre[i as int].0);
                assert(apply_render_clear(old(self)@)[i as int] == (
                    old(self)@[i as int].0,
                    SceneV {
                        batches: cleared_batches(old(self)@[i as int].1.batches),
                        ..old(self)@[i as int].1
                    },
                ));
                assert(self.scenes@[i as int] == apply_render_clear(old(self)@)[i as int]);
                assert forall|j: int| 0 <= j < i implies #[trigger] self.scenes@[j]
                    == apply_render_clear(old(self)@)[j] by {
                    assert(self.scenes@[j] == pre[j]);
                }
            }
            i += 1;
        }
        proof {
            assert(self@ =~~= apply_render_clear(old(self)@));
        }
    }

    /// The frame descriptions of every scene, in table order.
    fn submit_frames(&self) -> (frames: Vec<Frame>)
        ensures
            frames@.len() == self@.len(),
            forall|i: int|
                0 <= i < self@.len() ==> (#[trigger] frames@[i])@ =~~= crate::frame::frame_of(
                    self@[i].1,
                ),
    {
        let mut frames: Vec<Frame> = Vec::new();
        let n = self.scenes.len();
        let mut i: usize = 0;
        while i < n
            invariant
                n == self.scenes@.len(),
                i <= n,
                frames@.len() == i,
                forall|j: int|
                    0 <= j < i ==> (#[trigger] frames@[j])@ =~~= crate::frame::frame_of(
                        self.scenes@[j].1,
                    ),
            decreases n - i,
        {
            let f = crate::frame::build_frame(self.scenes.value_at(i));
            frames.push(f);
            i += 1;
        }
        frames
    }

    /// The per-frame protocol.  `Setup` and `Render` ask the surrounding
    /// program to notify every registered renderable of every scene;
    /// `Render` first resets every batch's instance list to empty;
    /// `Submit` produces one frame description per scene and changes
    /// nothing.
    pub fn react_to(&mut self, msg: Control, self_id: u64) -> (out: Effects)
        requires
            renderer_wf(old(self)@),
        ensures
            renderer_wf(final(self)@),
            match msg {
                Control::Setup => {
                    &&& final(self)@ =~~= old(self)@
                    &&& out.notifications@ == setup_notes(self_id, old(self)@)
                    &&& out.frames@.len() == 0
                },
                Control::Render => {
                    &&& final(self)@ =~~= apply_render_clear(old(self)@)
                    &&& out.notifications@ == render_notes(self_id, old(self)@)
                    &&& out.frames@.len() == 0
                },
                Control::Submit => {
                    &&& final(self)@ =~~= old(self)@
                    &&& out.notifications@.len() == 0
                    &&& out.frames@.len() == old(self)@.len()
                    &&& forall|i: int|
                        0 <= i < old(self)@.len() ==> (#[trigger] out.frames@[i])@
                            =~~= crate::frame::frame_of(old(self)@[i].1)
                },
            },
    {
        match msg {
            Control::Setup => {
                let notifications = self.setup_notifications(self_id);
                Effects { notifications, frames: Vec::new() }
            },
            Control::Render => {
                let notifications = self.render_notifications(self_id);
                self.clear_all_batches();
                proof {
                    lemma_render_clear_wf(old(self)@);
                }
                Effects { notifications, frames: Vec::new() }
            },
            Control::Submit => {
                let frames = self.submit_frames();
                Effects { notifications: Vec::new(), frames }
            },
        }
    }
}

/// Both notification sequences extend scene by scene.
proof fn lemma_notes_step(renderer_id: u64, r: Seq<(usize, SceneV)>, i: int)
    requires
        0 <= i < r.len(),
    ensures
        setup_notes(renderer_id, r.take(i + 1)) == setup_notes(renderer_id, r.take(i))
            + scene_setup_notes(renderer_id, r[i].0, r[i].1),
        render_notes(renderer_id, r.take(i + 1)) == render_notes(renderer_id, r.take(i))
            + scene_render_notes(renderer_id, r[i].0, r[i].1),
{
    let t = r.take(i + 1);
    assert(t.drop_last() =~= r.take(i));
    assert(t.last() == r[i]);
    assert(t.len() == i + 1);
}

/// Clearing every batch keeps the renderer well formed: keys, prototypes,
/// things and registrations are untouched.
pub proof fn lemma_render_clear_wf(r: Seq<(usize, SceneV)>)
    requires
        renderer_wf(r),
    ensures
        renderer_wf(apply_render_clear(r)),
        apply_render_clear(r).len() == r.len(),
        forall|i: int| 0 <= i < r.len() ==> (#[trigger] apply_render_clear(r)[i]).0 == r[i].0,
{
    let r2 = apply_render_clear(r);
    assert forall|i: int, j: int| 0 <= i < j < r2.len() implies (#[trigger] r2[i]).0
        != (#[trigger] r2[j]).0 by {
        assert(r[i].0 != r[j].0);
    }
    assert forall|i: int| 0 <= i < r2.len() implies scene_wf((#[trigger] r2[i]).1) by {
        assert(scene_wf(r[i].1));
        let s = r[i].1;
        let s2 = r2[i].1;
        assert(s2.batches == cleared_batches(s.batches));
        assert forall|a: int, b: int| 0 <= a < b < s2.batches.len() implies (
        #[trigger] s2.batches[a]).0 != (#[trigger] s2.batches[b]).0 by {
            assert(s.batches[a].0 != s.batches[b].0);
        }
        assert forall|a: int| 0 <= a < s2.batches.len() implies crate::mesh::mesh_wf(
            (#[trigger] s2.batches[a]).1.prototype,
        ) by {
            assert(crate::mesh::mesh_wf(s.batches[a].1.prototype));
        }
    }
}

} // verus!

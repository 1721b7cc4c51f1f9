use vstd::prelude::*;
use crate::geometry::{Eye, Instance, Vec3};
use crate::mesh::{mesh_wf, Thing, ThingV};
use crate::store::{keys_unique, KeyedStore};

verus! {

/// Mathematical model of a batch.
#[verifier::ext_equal]
pub struct BatchV {
    pub prototype: ThingV,
    pub instances: Seq<Instance>,
}

/// One prototype mesh plus the placements added during the current frame;
/// the whole batch is drawn as a single instanced draw call.
#[derive(Clone, Debug, PartialEq)]
pub struct Batch {
    pub prototype: Thing,
    pub instances: Vec<Instance>,
}

impl View for Batch {
    type V = BatchV;

    open spec fn view(&self) -> BatchV {
        BatchV { prototype: self.prototype@, instances: self.instances@ }
    }
}

impl Batch {
    pub fn new(prototype: Thing, instances: Vec<Instance>) -> (b: Batch)
        ensures
            b@ == (BatchV { prototype: prototype@, instances: instances@ }),
    {
        Batch { prototype, instances }
    }
}

/// Mathematical model of a unique-geometry entry.
#[verifier::ext_equal]
pub struct ThingEntryV {
    pub thing: ThingV,
    pub instance: Instance,
}

/// A one-off mesh together with its single placement; replaced wholesale on
/// every update.
#[derive(Clone, Debug, PartialEq)]
pub struct ThingEntry {
    pub thing: Thing,
    pub instance: Instance,
}

impl View for ThingEntry {
    type V = ThingEntryV;

    open spec fn view(&self) -> ThingEntryV {
        ThingEntryV { thing: self.thing@, instance: self.instance }
    }
}

impl ThingEntry {
    pub fn new(thing: Thing, instance: Instance) -> (e: ThingEntry)
        ensures
            e@ == (ThingEntryV { thing: thing@, instance }),
    {
        ThingEntry { thing, instance }
    }
}

/// Mathematical model of a scene.
#[verifier::ext_equal]
pub struct SceneV {
    pub eye: Eye,
    pub batches: Seq<(usize, BatchV)>,
    pub things: Seq<(usize, ThingEntryV)>,
    pub renderables: Seq<u64>,
    pub debug_text: Seq<char>,
}

/// A scene is well formed when its two tables have unique keys and every
/// stored mesh is well formed.
pub open spec fn scene_wf(s: SceneV) -> bool {
    &&& keys_unique(s.batches)
    &&& keys_unique(s.things)
    &&& forall|i: int| 0 <= i < s.batches.len() ==> mesh_wf((#[trigger] s.batches[i]).1.prototype)
    &&& forall|i: int| 0 <= i < s.things.len() ==> mesh_wf((#[trigger] s.things[i]).1.thing)
}

/// The starting camera: at (−5, −5, 5) scene units, looking at the origin,
/// up along +z, vertical field of view 0.3·π radians — all in fixed point.
pub open spec fn default_eye() -> Eye {
    Eye {
        position: Vec3 { x: -327680i64, y: -327680i64, z: 327680i64 },
        target: Vec3 { x: 0i64, y: 0i64, z: 0i64 },
        up: Vec3 { x: 0i64, y: 0i64, z: 65536i64 },
        field_of_view: 61766i64,
    }
}

/// A camera, a table of batches, a table of unique things, the registered
/// renderable participants, and a debug-text overlay string.
#[derive(Clone, Debug, PartialEq)]
pub struct Scene {
    pub eye: Eye,
    pub batches: KeyedStore<Batch>,
    pub things: KeyedStore<ThingEntry>,
    pub renderables: Vec<u64>,
    pub debug_text: String,
}

impl View for Scene {
    type V = SceneV;

    open spec fn view(&self) -> SceneV {
        SceneV {
            eye: self.eye,
            batches: self.batches@,
            things: self.things@,
            renderables: self.renderables@,
            debug_text: self.debug_text@,
        }
    }
}

impl Scene {
    /// An empty scene with the default camera.
    pub fn new() -> (s: Scene)
        ensures
            s@.eye == default_eye(),
            s@.batches =~= Seq::<(usize, BatchV)>::empty(),
            s@.things =~= Seq::<(usize, ThingEntryV)>::empty(),
            s@.renderables =~= Seq::<u64>::empty(),
            s@.debug_text =~= Seq::<char>::empty(),
            s@.eye.view_defined(),
            scene_wf(s@),
    {
        Scene {
            eye: Eye {
                position: Vec3 { x: -327680, y: -327680, z: 327680 },
                target: Vec3 { x: 0, y: 0, z: 0 },
                up: Vec3 { x: 0, y: 0, z: 65536 },
                field_of_view: 61766,
            },
            batches: KeyedStore::new(),
            things: KeyedStore::new(),
            renderables: Vec::new(),
            debug_text: String::new(),
        }
    }

    /// Registers a renderable participant; it will be notified in every
    /// later Setup and Render phase.
    pub fn add_renderable(&mut self, id: u64)
        ensures
            final(self)@ =~~= (SceneV {
                renderables: old(self)@.renderables.push(id),
                ..old(self)@
            }),
    {
        self.renderables.push(id);
    }

    /// Resets every batch's instance list to empty; prototypes, keys and
    /// their order are untouched.
    pub fn clear_batch_instances(&mut self)
        ensures
            final(self)@ =~~= (SceneV {
                batches: cleared_batches(old(self)@.batches),
                ..old(self)@
            }),
    {
        let ghost orig = self@.batches;
        let n = self.batches.len();
        let mut i: usize = 0;
        while i < n
            invariant
                n == self.batches@.len(),
                orig.len() == n,
                self.eye == old(self).eye,
                self.things@ =~= old(self)@.things,
                self.renderables@ =~= old(self)@.renderables,
                self.debug_text@ =~= old(self)@.debug_text,
                orig =~= old(self)@.batches,
                i <= n,
                forall|j: int| 0 <= j < i ==> self.batches@[j] == cleared_batches(orig)[j],
                forall|j: int| i <= j < n ==> self.batches@[j] == orig[j],
            decreases n - i,
        {
            let b = self.batches.value_at_mut(i);
            b.instances.clear();
            i += 1;
        }
        proof {
            assert(self@.batches =~= cleared_batches(orig));
        }
    }
}

/// What the Render phase does to a scene's batch table: every instance list
/// becomes empty, everything else stays.
pub open spec fn cleared_batches(s: Seq<(usize, BatchV)>) -> Seq<(usize, BatchV)> {
    s.map_values(
        |e: (usize, BatchV)| (e.0, BatchV { prototype: e.1.prototype, instances: Seq::empty() }),
    )
}

} // verus!

use vstd::prelude::*;
use crate::geometry::{copy_vec, Eye, Instance, Vertex};
use crate::scene::{BatchV, Scene, SceneV, ThingEntryV};

verus! {

// The submission backend's verified half: a deterministic translation of
// one scene snapshot into a frame description — one instanced draw call per
// batch (in table order), then one draw call per unique thing.  Turning the
// description into GPU buffer uploads, the view and projection matrices and
// an actual present is the surrounding program's job.

/// Model of one draw call.
#[verifier::ext_equal]
pub struct DrawCallV {
    pub vertices: Seq<Vertex>,
    pub indices: Seq<u16>,
    pub instances: Seq<Instance>,
}

/// One instanced draw call: the mesh's buffers plus the per-instance buffer.
#[derive(Clone, Debug, PartialEq)]
pub struct DrawCall {
    pub vertices: Vec<Vertex>,
    pub indices: Vec<u16>,
    pub instances: Vec<Instance>,
}

impl View for DrawCall {
    type V = DrawCallV;

    open spec fn view(&self) -> DrawCallV {
        DrawCallV {
            vertices: self.vertices@,
            indices: self.indices@,
            instances: self.instances@,
        }
    }
}

/// Model of a frame.
#[verifier::ext_equal]
pub struct FrameV {
    pub eye: Eye,
    pub draws: Seq<DrawCallV>,
    pub debug_text: Seq<char>,
}

/// Everything one `Submit` of a scene hands to the GPU layer: the camera,
/// the draw calls in order, and the debug-text overlay.
#[derive(Clone, Debug, PartialEq)]
pub struct Frame {
    pub eye: Eye,
    pub draws: Vec<DrawCall>,
    pub debug_text: String,
}

impl View for Frame {
    type V = FrameV;

    open spec fn view(&self) -> FrameV {
        FrameV {
            eye: self.eye,
            draws: self.draws@.map_values(|d: DrawCall| d@),
            debug_text: self.debug_text@,
        }
    }
}

/// The draw call a batch produces: its prototype's buffers and the
/// instances gathered this frame.
pub open spec fn batch_draw(b: BatchV) -> DrawCallV {
    DrawCallV {
        vertices: b.prototype.vertices,
        indices: b.prototype.indices,
        instances: b.instances,
    }
}

/// The draw call a unique-geometry entry produces: its mesh with exactly
/// its one placement.
pub open spec fn thing_draw(e: ThingEntryV) -> DrawCallV {
    DrawCallV {
        vertices: e.thing.vertices,
        indices: e.thing.indices,
        instances: seq![e.instance],
    }
}

/// The frame a scene submits: every batch in table order, then every unique
/// thing in table order.
pub open spec fn frame_of(s: SceneV) -> FrameV {
    FrameV {
        eye: s.eye,
        draws: s.batches.map_values(|e: (usize, BatchV)| batch_draw(e.1)) + s.things.map_values(
            |e: (usize, ThingEntryV)| thing_draw(e.1),
        ),
        debug_text: s.debug_text,
    }
}

/// Builds the frame description of one scene snapshot.
pub fn build_frame(scene: &Scene) -> (f: Frame)
    ensures
        f@ =~~= frame_of(scene@),
{
    let ghost bdraws = scene.batches@.map_values(|e: (usize, BatchV)| batch_draw(e.1));
    let ghost tdraws = scene.things@.map_values(|e: (usize, ThingEntryV)| thing_draw(e.1));
    let mut draws: Vec<DrawCall> = Vec::new();
    let nb = scene.batches.len();
    let mut i: usize = 0;
    while i < nb
        invariant
            nb == scene.batches@.len(),
            i <= nb,
            bdraws == scene.batches@.map_values(|e: (usize, BatchV)| batch_draw(e.1)),
            draws@.len() == i,
            forall|k: int| 0 <= k < i ==> (#[trigger] draws@[k])@ == bdraws[k],
        decreases nb - i,
    {
        let b = scene.batches.value_at(i);
        let dc = DrawCall {
            vertices: copy_vec(&b.prototype.vertices),
            indices: copy_vec(&b.prototype.indices),
            instances: copy_vec(&b.instances),
        };
        proof {
            assert(dc@ =~~= batch_draw(scene.batches@[i as int].1));
        }
        draws.push(dc);
        i += 1;
    }
    let nt = scene.things.len();
    let mut j: usize = 0;
    while j < nt
        invariant
            nb == scene.batches@.len(),
            nt == scene.things@.len(),
            j <= nt,
            bdraws == scene.batches@.map_values(|e: (usize, BatchV)| batch_draw(e.1)),
            tdraws == scene.things@.map_values(|e: (usize, ThingEntryV)| thing_draw(e.1)),
            draws@.len() == nb + j,
            forall|k: int| 0 <= k < nb ==> (#[trigger] draws@[k])@ == bdraws[k],
            forall|k: int| nb <= k < nb + j ==> (#[trigger] draws@[k])@ == tdraws[k - nb],
        decreases nt - j,
    {
        let e = scene.things.value_at(j);
        let mut one: Vec<Instance> = Vec::new();
        one.push(e.instance);
        let dc = DrawCall {
            vertices: copy_vec(&e.thing.vertices),
            indices: copy_vec(&e.thing.indices),
            instances: one,
        };
        proof {
            assert(dc@ =~~= thing_draw(scene.things@[j as int].1));
        }
        draws.push(dc);
        j += 1;
    }
    let f = Frame { eye: scene.eye, draws, debug_text: scene.debug_text.clone() };
    proof {
        assert(f@.draws =~~= bdraws + tdraws);
        assert(f@ =~~= frame_of(scene@));
    }
    f
}

} // verus!

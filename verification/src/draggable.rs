use vstd::prelude::*;
use crate::geometry::{copy_vec, dist_sq_2d, Vec2, Vec3};

verus! {

// An interactive drag handle for a selected stroke of the current plan.
// The handle itself holds no editing logic: it reacts to pointer events by
// emitting commands — to the plan editor (move, maximize, commit the
// selection) and to the user-interface layer (register or remove its hit
// shape).  Delivering events and commands is the surrounding program's job.

/// Width of the band around the handle's path that reacts to the pointer,
/// in fixed-point scene units (5 units).
pub const BAND_WIDTH: i64 = 5 * 65536;

/// How close (in fixed-point scene units) a drag's end must be to its start
/// to count as "roughly in place" (3 units).
pub const DRAG_SNAP_TOLERANCE: i64 = 3 * 65536;

/// Opaque reference to the selectable stroke a handle stands for.
#[derive(Clone, Copy, Debug, PartialEq, Eq, Structural)]
pub struct SelectableStrokeRef(pub u64);

/// A polyline path in the ground plane; the handle's hit shape runs along
/// it.
#[derive(Clone, Debug, PartialEq)]
pub struct Path {
    pub points: Vec<Vec2>,
}

impl View for Path {
    type V = Seq<Vec2>;

    open spec fn view(&self) -> Seq<Vec2> {
        self.points@
    }
}

/// Tells a handle which stroke it stands for from now on.
#[derive(Clone, Copy, Debug, PartialEq, Eq, Structural)]
pub struct Become(pub SelectableStrokeRef);

/// Whether the handle lives on after reacting to a message.
#[derive(Clone, Copy, Debug, PartialEq, Eq, Structural)]
pub enum Fate {
    Live,
    Die,
}

/// Pointer events in the scene, with positions in fixed-point scene units.
#[derive(Clone, Copy, Debug, PartialEq)]
pub enum Event3d {
    HoverStarted { at: Vec3 },
    HoverOngoing { at: Vec3 },
    HoverStopped,
    DragStarted { at: Vec3 },
    DragOngoing { from: Vec3, to: Vec3 },
    DragFinished { from: Vec3, to: Vec3 },
}

/// Commands the handle sends to the plan editor.
#[derive(Clone, Copy, Debug, PartialEq)]
pub enum PlanCommand {
    MoveSelection(Vec2),
    MaximizeSelection,
    Commit(bool, Vec2),
}

/// Registration commands for the user-interface layer: a hit band of
/// `width` around `path` on the given layer, keyed by the handle's id.
#[derive(Clone, Debug, PartialEq)]
pub enum UiCommand {
    AddInteractable3d { id: u64, path: Path, width: i64, layer: usize },
    RemoveInteractable3d { id: u64 },
}

/// Ground-plane projection of an event position.
pub open spec fn ground(v: Vec3) -> Vec2 {
    Vec2 { x: v.x, y: v.y }
}

/// The ground-plane displacement of a drag.
pub open spec fn drag_delta(from: Vec3, to: Vec3) -> Vec2 {
    Vec2 { x: (to.x - from.x) as i64, y: (to.y - from.y) as i64 }
}

/// Whether two ground points lie within `tol` of each other (by squared
/// distance, so the comparison is exact in integers).
pub open spec fn roughly_within(a: Vec2, b: Vec2, tol: int) -> bool {
    dist_sq_2d(a, b) <= tol * tol
}

/// A drag handle: its id once registered, the stroke it stands for, and its
/// hit path.
#[derive(Clone, Debug, PartialEq)]
pub struct Draggable {
    pub id: Option<u64>,
    pub stroke_ref: SelectableStrokeRef,
    pub path: Path,
}

impl Draggable {
    /// A fresh, not yet registered handle.
    pub fn new(stroke_ref: SelectableStrokeRef, path: Path) -> (d: Draggable)
        ensures
            d.id is None,
            d.stroke_ref == stroke_ref,
            d.path@ == path@,
    {
        Draggable { id: None, stroke_ref, path }
    }

    /// Registration: the surrounding program assigns the handle its stable
    /// id.
    pub fn set_id(&mut self, id: u64)
        ensures
            final(self).id == Some(id),
            final(self).stroke_ref == old(self).stroke_ref,
            final(self).path@ == old(self).path@,
    {
        self.id = Some(id);
    }

    /// Re-points the handle at another stroke; everything else stays.
    pub fn receive_become(&mut self, msg: Become) -> (f: Fate)
        ensures
            f == Fate::Live,
            final(self).stroke_ref == msg.0,
            final(self).id == old(self).id,
            final(self).path@ == old(self).path@,
    {
        let Become(stroke_ref) = msg;
        self.stroke_ref = stroke_ref;
        Fate::Live
    }

    /// Asks the user-interface layer to register the handle's hit band.
    /// The handle must have been given its id first.
    pub fn receive_add_to_ui(&self) -> (r: (Vec<UiCommand>, Fate))
        requires
            self.id is Some,
        ensures
            r.1 == Fate::Live,
            r.0@.len() == 1,
            r.0@[0] matches UiCommand::AddInteractable3d { id, path, width, layer }
                && Some(id) == self.id && path@ == self.path@ && width == BAND_WIDTH && layer == 2,
    {
        let id = match self.id {
            Some(id) => id,
            None => {
                proof {
                    assert(false);
                }
                vstd::pervasive::unreached()
            },
        };
        let mut out: Vec<UiCommand> = Vec::new();
        out.push(
            UiCommand::AddInteractable3d {
                id,
                path: Path { points: copy_vec(&self.path.points) },
                width: BAND_WIDTH,
                layer: 2,
            },
        );
        (out, Fate::Live)
    }

    /// Asks the user-interface layer to remove the handle's hit band, and
    /// dies.
    pub fn receive_clear_draggables(&self) -> (r: (Vec<UiCommand>, Fate))
        requires
            self.id is Some,
        ensures
            r.1 == Fate::Die,
            r.0@.len() == 1,
            r.0@[0] matches UiCommand::RemoveInteractable3d { id } && Some(id) == self.id,
    {
        let id = match self.id {
            Some(id) => id,
            None => {
                proof {
                    assert(false);
                }
                vstd::pervasive::unreached()
            },
        };
        let mut out: Vec<UiCommand> = Vec::new();
        out.push(UiCommand::RemoveInteractable3d { id });
        (out, Fate::Die)
    }

    /// Reacts to a pointer event.  While a drag goes on, the selection
    /// follows the ground-plane displacement; when it finishes, a drag that
    /// ended roughly where it started maximizes the selection first, and
    /// either way the selection is committed at the end point.  All other
    /// events are ignored.  The handle always lives on.
    pub fn receive_event3d(&self, msg: Event3d) -> (r: (Vec<PlanCommand>, Fate))
        requires
            match msg {
                Event3d::DragOngoing { from, to } => from.in_bounds() && to.in_bounds(),
                Event3d::DragFinished { from, to } => from.in_bounds() && to.in_bounds(),
                _ => true,
            },
        ensures
            r.1 == Fate::Live,
            msg matches Event3d::DragOngoing { from, to } ==> r.0@.len() == 1 && r.0@[0]
                == PlanCommand::MoveSelection(drag_delta(from, to)),
            msg matches Event3d::DragFinished { from, to } ==> if roughly_within(
                ground(from),
                ground(to),
                DRAG_SNAP_TOLERANCE as int,
            ) {
                r.0@.len() == 2 && r.0@[0] == PlanCommand::MaximizeSelection && r.0@[1]
                    == PlanCommand::Commit(true, ground(to))
            } else {
                r.0@.len() == 1 && r.0@[0] == PlanCommand::Commit(true, ground(to))
            },
            !(msg matches Event3d::DragOngoing { .. }) && !(msg
                matches Event3d::DragFinished { .. }) ==> r.0@.len() == 0,
    {
        let mut out: Vec<PlanCommand> = Vec::new();
        match msg {
            Event3d::DragOngoing { from, to } => {
                let delta = Vec2 { x: to.x - from.x, y: to.y - from.y };
                out.push(PlanCommand::MoveSelection(delta));
                proof {
                    assert(delta == drag_delta(from, to));
                }
            },
            Event3d::DragFinished { from, to } => {
                let dx = to.x - from.x;
                let dy = to.y - from.y;
                proof {
                    assert(dx * dx <= 0x1000000000000000 && dx * dx >= 0) by (nonlinear_arith)
                        requires
                            -0x40000000 <= (dx as int) <= 0x40000000,
                    ;
                    assert(dy * dy <= 0x1000000000000000 && dy * dy >= 0) by (nonlinear_arith)
                        requires
                            -0x40000000 <= (dy as int) <= 0x40000000,
                    ;
                }
                proof {
                    let a = ground(from);
                    let b = ground(to);
                    assert((a.x - b.x) * (a.x - b.x) == (dx as int) * (dx as int))
                        by (nonlinear_arith)
                        requires
                            (dx as int) == (b.x as int) - (a.x as int),
                    ;
                    assert((a.y - b.y) * (a.y - b.y) == (dy as int) * (dy as int))
                        by (nonlinear_arith)
                        requires
                            (dy as int) == (b.y as int) - (a.y as int),
                    ;
                    assert(dist_sq_2d(a, b) == (dx as int) * (dx as int) + (dy as int) * (
                    dy as int));
                }
                if dx * dx + dy * dy <= DRAG_SNAP_TOLERANCE * DRAG_SNAP_TOLERANCE {
                    out.push(PlanCommand::MaximizeSelection);
                }
                out.push(PlanCommand::Commit(true, Vec2 { x: to.x, y: to.y }));
            },
            _ => {},
        }
        (out, Fate::Live)
    }
}

} // verus!

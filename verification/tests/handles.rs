use monet::draggable::{Become, Draggable, Event3d, Fate, Path, PlanCommand, SelectableStrokeRef,
    UiCommand, BAND_WIDTH, DRAG_SNAP_TOLERANCE};
use monet::geometry::{Vec2, Vec3, SCALE};

fn handle() -> Draggable {
    let path = Path {
        points: vec![Vec2 { x: 0, y: 0 }, Vec2 { x: 10 * SCALE, y: 0 }],
    };
    Draggable::new(SelectableStrokeRef(3), path)
}

#[test]
fn new_handle_has_no_id() {
    let d = handle();
    assert_eq!(d.id, None);
    assert_eq!(d.stroke_ref, SelectableStrokeRef(3));
}

#[test]
fn become_changes_stroke_only() {
    let mut d = handle();
    let fate = d.receive_become(Become(SelectableStrokeRef(8)));
    assert_eq!(fate, Fate::Live);
    assert_eq!(d.stroke_ref, SelectableStrokeRef(8));
    assert_eq!(d.id, None);
    assert_eq!(d.path.points.len(), 2);
}

#[test]
fn add_to_ui_registers_band() {
    let mut d = handle();
    d.set_id(9);
    let (commands, fate) = d.receive_add_to_ui();
    assert_eq!(fate, Fate::Live);
    assert_eq!(commands.len(), 1);
    match &commands[0] {
        UiCommand::AddInteractable3d { id, path, width, layer } => {
            assert_eq!(*id, 9);
            assert_eq!(path.points, d.path.points);
            assert_eq!(*width, BAND_WIDTH);
            assert_eq!(*layer, 2);
        },
        other => panic!("unexpected command {:?}", other),
    }
}

#[test]
fn clear_draggables_removes_and_dies() {
    let mut d = handle();
    d.set_id(9);
    let (commands, fate) = d.receive_clear_draggables();
    assert_eq!(fate, Fate::Die);
    assert_eq!(commands.len(), 1);
    assert_eq!(commands[0], UiCommand::RemoveInteractable3d { id: 9 });
}

#[test]
fn drag_ongoing_moves_selection() {
    let d = handle();
    let (commands, fate) = d.receive_event3d(Event3d::DragOngoing {
        from: Vec3 { x: SCALE, y: SCALE, z: 0 },
        to: Vec3 { x: 3 * SCALE, y: 4 * SCALE, z: 0 },
    });
    assert_eq!(fate, Fate::Live);
    assert_eq!(
        commands,
        vec![PlanCommand::MoveSelection(Vec2 { x: 2 * SCALE, y: 3 * SCALE })]
    );
}

#[test]
fn drag_finished_nearby_maximizes_then_commits() {
    let d = handle();
    // End point one unit diagonally away: within the 3-unit tolerance.
    let (commands, fate) = d.receive_event3d(Event3d::DragFinished {
        from: Vec3 { x: 0, y: 0, z: 0 },
        to: Vec3 { x: SCALE, y: SCALE, z: 0 },
    });
    assert_eq!(fate, Fate::Live);
    assert_eq!(
        commands,
        vec![
            PlanCommand::MaximizeSelection,
            PlanCommand::Commit(true, Vec2 { x: SCALE, y: SCALE }),
        ]
    );
}

#[test]
fn drag_finished_far_away_only_commits() {
    let d = handle();
    let (commands, fate) = d.receive_event3d(Event3d::DragFinished {
        from: Vec3 { x: 0, y: 0, z: 0 },
        to: Vec3 { x: 5 * SCALE, y: 0, z: 0 },
    });
    assert_eq!(fate, Fate::Live);
    assert_eq!(commands, vec![PlanCommand::Commit(true, Vec2 { x: 5 * SCALE, y: 0 })]);
}

#[test]
fn drag_finished_on_tolerance_boundary_maximizes() {
    let d = handle();
    // Exactly 3 units along one axis: squared distance equals the squared
    // tolerance, so it still counts as "roughly in place".
    let (commands, _) = d.receive_event3d(Event3d::DragFinished {
        from: Vec3 { x: 0, y: 0, z: 0 },
        to: Vec3 { x: DRAG_SNAP_TOLERANCE, y: 0, z: 0 },
    });
    assert_eq!(commands.len(), 2);
    assert_eq!(commands[0], PlanCommand::MaximizeSelection);
}

#[test]
fn hover_events_are_ignored() {
    let d = handle();
    let (commands, fate) = d.receive_event3d(Event3d::HoverOngoing {
        at: Vec3 { x: 0, y: 0, z: 0 },
    });
    assert_eq!(fate, Fate::Live);
    assert!(commands.is_empty());
    let (commands, fate) = d.receive_event3d(Event3d::DragStarted {
        at: Vec3 { x: 0, y: 0, z: 0 },
    });
    assert_eq!(fate, Fate::Live);
    assert!(commands.is_empty());
}

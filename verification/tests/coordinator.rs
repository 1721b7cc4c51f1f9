use monet::geometry::{Instance, Vec2, Vec3, SCALE};
use monet::mesh::Thing;
use monet::renderer::{AddBatch, AddInstance, Control, MoveEye, Notification, Renderer,
    RenderToScene, SetupInScene, UpdateThing};
use monet::scene::Scene;

fn triangle() -> Thing {
    let vertices = vec![
        monet::geometry::Vertex { position: Vec3 { x: 0, y: 0, z: 0 } },
        monet::geometry::Vertex { position: Vec3 { x: SCALE, y: 0, z: 0 } },
        monet::geometry::Vertex { position: Vec3 { x: 0, y: SCALE, z: 0 } },
    ];
    Thing::try_new(vertices, vec![0, 1, 2]).unwrap()
}

fn quad() -> Thing {
    let vertices = vec![
        monet::geometry::Vertex { position: Vec3 { x: 0, y: 0, z: 0 } },
        monet::geometry::Vertex { position: Vec3 { x: SCALE, y: 0, z: 0 } },
        monet::geometry::Vertex { position: Vec3 { x: SCALE, y: SCALE, z: 0 } },
        monet::geometry::Vertex { position: Vec3 { x: 0, y: SCALE, z: 0 } },
    ];
    Thing::try_new(vertices, vec![0, 1, 2, 0, 2, 3]).unwrap()
}

fn placement(x: i64, y: i64) -> Instance {
    Instance {
        instance_position: Vec3 { x, y, z: 0 },
        instance_direction: Vec2 { x: SCALE, y: 0 },
        instance_color: Vec3 { x: SCALE, y: 0, z: 0 },
    }
}

fn one_scene_renderer() -> Renderer {
    let mut r = Renderer::new();
    r.add_scene(0, Scene::new());
    r
}

#[test]
fn instance_count_accumulates() {
    let mut r = one_scene_renderer();
    r.receive_add_batch(AddBatch::new(0, 1, triangle()));
    for i in 0..5 {
        r.receive_add_instance(AddInstance {
            scene_id: 0,
            batch_id: 1,
            position: placement(i * SCALE, 0),
        });
    }
    let scene = r.get_scene(0).unwrap();
    let batch = scene.batches.get(1).unwrap();
    assert_eq!(batch.instances.len(), 5);
    assert_eq!(batch.instances[2], placement(2 * SCALE, 0));
}

#[test]
fn render_resets_every_batch() {
    let mut r = one_scene_renderer();
    r.receive_add_batch(AddBatch::new(0, 1, triangle()));
    r.receive_add_batch(AddBatch::new(0, 2, quad()));
    r.receive_add_instance(AddInstance { scene_id: 0, batch_id: 1, position: placement(0, 0) });
    r.receive_add_instance(AddInstance { scene_id: 0, batch_id: 2, position: placement(SCALE, 0) });
    r.receive_add_instance(AddInstance { scene_id: 0, batch_id: 2, position: placement(0, SCALE) });
    let out = r.react_to(Control::Render, 9);
    assert!(out.frames.is_empty());
    let scene = r.get_scene(0).unwrap();
    assert_eq!(scene.batches.get(1).unwrap().instances.len(), 0);
    assert_eq!(scene.batches.get(2).unwrap().instances.len(), 0);
    assert_eq!(scene.batches.get(1).unwrap().prototype, triangle());
    assert_eq!(scene.batches.get(2).unwrap().prototype, quad());
}

#[test]
fn update_thing_replaces_wholesale() {
    let mut r = one_scene_renderer();
    r.receive_update_thing(UpdateThing::new(0, 7, triangle(), placement(0, 0)));
    r.receive_update_thing(UpdateThing::new(0, 7, quad(), placement(SCALE, SCALE)));
    let scene = r.get_scene(0).unwrap();
    assert_eq!(scene.things.len(), 1);
    let entry = scene.things.get(7).unwrap();
    assert_eq!(entry.thing, quad());
    assert_eq!(entry.instance, placement(SCALE, SCALE));
}

#[test]
fn update_thing_distinct_ids_accumulate() {
    let mut r = one_scene_renderer();
    r.receive_update_thing(UpdateThing::new(0, 7, triangle(), placement(0, 0)));
    r.receive_update_thing(UpdateThing::new(0, 8, quad(), placement(SCALE, 0)));
    let scene = r.get_scene(0).unwrap();
    assert_eq!(scene.things.len(), 2);
    assert_eq!(scene.things.get(7).unwrap().thing, triangle());
    assert_eq!(scene.things.get(8).unwrap().thing, quad());
}

#[test]
fn add_batch_twice_replaces_and_clears() {
    let mut r = one_scene_renderer();
    r.receive_add_batch(AddBatch::new(0, 1, triangle()));
    r.receive_add_instance(AddInstance { scene_id: 0, batch_id: 1, position: placement(0, 0) });
    r.receive_add_batch(AddBatch::new(0, 1, quad()));
    let scene = r.get_scene(0).unwrap();
    assert_eq!(scene.batches.len(), 1);
    let batch = scene.batches.get(1).unwrap();
    assert_eq!(batch.prototype, quad());
    assert_eq!(batch.instances.len(), 0);
}

#[test]
fn add_batch_leaves_other_batches_alone() {
    let mut r = one_scene_renderer();
    r.receive_add_batch(AddBatch::new(0, 1, triangle()));
    r.receive_add_instance(AddInstance { scene_id: 0, batch_id: 1, position: placement(0, 0) });
    r.receive_add_batch(AddBatch::new(0, 2, quad()));
    let scene = r.get_scene(0).unwrap();
    assert_eq!(scene.batches.get(1).unwrap().instances.len(), 1);
    assert_eq!(scene.batches.get(1).unwrap().prototype, triangle());
    assert_eq!(scene.batches.get(2).unwrap().instances.len(), 0);
}

#[test]
fn move_eye_zero_delta_changes_nothing() {
    let mut r = one_scene_renderer();
    let before = r.get_scene(0).unwrap().eye;
    r.receive_move_eye(MoveEye { scene_id: 0, delta: Vec3 { x: 0, y: 0, z: 0 } });
    let after = r.get_scene(0).unwrap().eye;
    assert_eq!(before, after);
}

#[test]
fn move_eye_forward_along_axis() {
    // Eye straight behind the origin on the x axis: the ground-projected
    // look direction is exactly +x, so a forward delta translates exactly.
    let mut scene = Scene::new();
    scene.eye.position = Vec3 { x: -5 * SCALE, y: 0, z: 2 * SCALE };
    scene.eye.target = Vec3 { x: 0, y: 0, z: 0 };
    let mut r = Renderer::new();
    r.add_scene(0, scene);
    r.receive_move_eye(MoveEye { scene_id: 0, delta: Vec3 { x: 2 * SCALE, y: 0, z: 0 } });
    let eye = r.get_scene(0).unwrap().eye;
    assert_eq!(eye.position, Vec3 { x: -3 * SCALE, y: 0, z: 2 * SCALE });
    assert_eq!(eye.target, Vec3 { x: 2 * SCALE, y: 0, z: 0 });
}

#[test]
fn move_eye_translates_position_and_target_together() {
    let mut r = one_scene_renderer();
    let before = r.get_scene(0).unwrap().eye;
    r.receive_move_eye(MoveEye {
        scene_id: 0,
        delta: Vec3 { x: 3 * SCALE, y: -2 * SCALE, z: SCALE },
    });
    let after = r.get_scene(0).unwrap().eye;
    let dp = (
        after.position.x - before.position.x,
        after.position.y - before.position.y,
        after.position.z - before.position.z,
    );
    let dt = (
        after.target.x - before.target.x,
        after.target.y - before.target.y,
        after.target.z - before.target.z,
    );
    assert_eq!(dp, dt);
    assert_eq!(dp.2, SCALE);
    let dist =
        |a: Vec3, b: Vec3| (a.x - b.x).pow(2) + (a.y - b.y).pow(2) + (a.z - b.z).pow(2);
    assert_eq!(dist(before.position, before.target), dist(after.position, after.target));
    assert_eq!(after.up, before.up);
    assert_eq!(after.field_of_view, before.field_of_view);
}

#[test]
fn move_eye_sideways_is_horizontal() {
    let mut r = one_scene_renderer();
    let before = r.get_scene(0).unwrap().eye;
    r.receive_move_eye(MoveEye { scene_id: 0, delta: Vec3 { x: 0, y: 4 * SCALE, z: 0 } });
    let after = r.get_scene(0).unwrap().eye;
    assert_eq!(after.position.z, before.position.z);
    assert_eq!(after.target.z, before.target.z);
    assert_ne!(after.position, before.position);
}

#[test]
fn end_to_end_frame_protocol() {
    let renderable_id: u64 = 7;
    let renderer_id: u64 = 42;
    let mut scene = Scene::new();
    // The default camera sits at (−5, −5, 5), looks at the origin, up +z,
    // with a vertical field of view of 0.3·π — all in fixed point.
    assert_eq!(scene.eye.position, Vec3 { x: -5 * SCALE, y: -5 * SCALE, z: 5 * SCALE });
    assert_eq!(scene.eye.target, Vec3 { x: 0, y: 0, z: 0 });
    assert_eq!(scene.eye.up, Vec3 { x: 0, y: 0, z: SCALE });
    assert_eq!(scene.eye.field_of_view, 61766);
    scene.add_renderable(renderable_id);
    let mut r = Renderer::new();
    r.add_scene(0, scene);

    let setup = r.react_to(Control::Setup, renderer_id);
    assert_eq!(setup.notifications.len(), 1);
    assert_eq!(
        setup.notifications[0],
        Notification::Setup {
            recipient: renderable_id,
            message: SetupInScene { renderer_id, scene_id: 0 },
        }
    );
    assert!(setup.frames.is_empty());

    let render = r.react_to(Control::Render, renderer_id);
    assert_eq!(render.notifications.len(), 1);
    assert_eq!(
        render.notifications[0],
        Notification::Render {
            recipient: renderable_id,
            message: RenderToScene { renderer_id, scene_id: 0 },
        }
    );

    // The renderable reacts: one batch, two instances.
    r.receive_add_batch(AddBatch::new(0, 1, triangle()));
    let a = placement(0, 0);
    r.receive_add_instance(AddInstance { scene_id: 0, batch_id: 1, position: a });
    r.receive_add_instance(AddInstance { scene_id: 0, batch_id: 1, position: a });
    {
        let scene = r.get_scene(0).unwrap();
        let batch = scene.batches.get(1).unwrap();
        assert_eq!(batch.prototype, triangle());
        assert_eq!(batch.instances.len(), 2);
    }

    let submit = r.react_to(Control::Submit, renderer_id);
    assert!(submit.notifications.is_empty());
    assert_eq!(submit.frames.len(), 1);
    let frame = &submit.frames[0];
    assert_eq!(frame.draws.len(), 1);
    assert_eq!(frame.draws[0].instances.len(), 2);
    assert_eq!(frame.draws[0].vertices, triangle().vertices);
    assert_eq!(frame.draws[0].indices, triangle().indices);
    assert_eq!(frame.eye, r.get_scene(0).unwrap().eye);
}

#[test]
fn submit_draws_batches_then_things() {
    let mut r = one_scene_renderer();
    r.receive_update_thing(UpdateThing::new(0, 9, quad(), placement(0, 0)));
    r.receive_add_batch(AddBatch::new(0, 1, triangle()));
    r.receive_add_instance(AddInstance { scene_id: 0, batch_id: 1, position: placement(0, 0) });
    let submit = r.react_to(Control::Submit, 1);
    assert_eq!(submit.frames.len(), 1);
    let draws = &submit.frames[0].draws;
    assert_eq!(draws.len(), 2);
    // Batches come first, then unique things with exactly one instance.
    assert_eq!(draws[0].vertices, triangle().vertices);
    assert_eq!(draws[0].instances.len(), 1);
    assert_eq!(draws[1].vertices, quad().vertices);
    assert_eq!(draws[1].instances.len(), 1);
    assert_eq!(draws[1].instances[0], placement(0, 0));
}

#[test]
fn setup_notifies_every_scene_in_order() {
    let mut r = Renderer::new();
    let mut s0 = Scene::new();
    s0.add_renderable(10);
    s0.add_renderable(11);
    let mut s1 = Scene::new();
    s1.add_renderable(20);
    r.add_scene(0, s0);
    r.add_scene(1, s1);
    let out = r.react_to(Control::Setup, 5);
    assert_eq!(out.notifications.len(), 3);
    assert_eq!(
        out.notifications[0],
        Notification::Setup { recipient: 10, message: SetupInScene { renderer_id: 5, scene_id: 0 } }
    );
    assert_eq!(
        out.notifications[1],
        Notification::Setup { recipient: 11, message: SetupInScene { renderer_id: 5, scene_id: 0 } }
    );
    assert_eq!(
        out.notifications[2],
        Notification::Setup { recipient: 20, message: SetupInScene { renderer_id: 5, scene_id: 1 } }
    );
}

#[test]
fn empty_scene_submits_empty_frame() {
    let mut r = one_scene_renderer();
    let out = r.react_to(Control::Submit, 1);
    assert_eq!(out.frames.len(), 1);
    assert!(out.frames[0].draws.is_empty());
    assert_eq!(out.frames[0].debug_text, String::new());
}

#[test]
fn mesh_with_out_of_range_index_is_rejected() {
    let vertices = vec![
        monet::geometry::Vertex { position: Vec3 { x: 0, y: 0, z: 0 } },
        monet::geometry::Vertex { position: Vec3 { x: SCALE, y: 0, z: 0 } },
        monet::geometry::Vertex { position: Vec3 { x: 0, y: SCALE, z: 0 } },
    ];
    assert!(Thing::try_new(vertices.clone(), vec![0, 1, 3]).is_none());
    assert!(Thing::try_new(vertices.clone(), vec![0, 1, 2]).is_some());
    // The boundary index (== vertex count) is out of range too.
    assert!(Thing::try_new(vertices, vec![2, 2, 3]).is_none());
}

#[test]
fn mesh_accessors_report_sizes() {
    let t = quad();
    assert_eq!(t.vertex_count(), 4);
    assert_eq!(t.index_count(), 6);
}

#[test]
fn batch_replacement_keeps_draw_order() {
    let mut r = one_scene_renderer();
    r.receive_add_batch(AddBatch::new(0, 1, triangle()));
    r.receive_add_batch(AddBatch::new(0, 2, quad()));
    // Replacing batch 1 must keep its slot: draw order stays 1 then 2.
    r.receive_add_batch(AddBatch::new(0, 1, quad()));
    let submit = r.react_to(Control::Submit, 1);
    let draws = &submit.frames[0].draws;
    assert_eq!(draws.len(), 2);
    assert_eq!(draws[0].vertices, quad().vertices);
    assert_eq!(draws[1].vertices, quad().vertices);
    let scene = r.get_scene(0).unwrap();
    assert_eq!(scene.batches.key_at(0), 1);
    assert_eq!(scene.batches.key_at(1), 2);
}

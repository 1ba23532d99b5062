use arena_scene::arena::arena_layout;
use arena_scene::entity::Transform as Pose;
use arena_scene::facing::face_toward;
use arena_scene::rotation::Rotation;
use arena_scene::scalar::{from_units, ONE};
use arena_scene::startup::camera_pose;
use arena_scene::vector::Vec3 as Ticks;
use bevy::math::{Quat, Vec3};
use bevy::transform::components::Transform;

const TOLERANCE: f32 = 1e-5;

fn units(ticks: i64) -> f32 {
    (ticks as f64 / ONE as f64) as f32
}

fn ticks(units: f32) -> i64 {
    (f64::from(units) * ONE as f64).round() as i64
}

fn point(v: &Ticks) -> Vec3 {
    Vec3::new(units(v.x), units(v.y), units(v.z))
}

fn position(v: Vec3) -> Ticks {
    Ticks { x: ticks(v.x), y: ticks(v.y), z: ticks(v.z) }
}

fn close(a: Vec3, b: Vec3) -> bool {
    (a - b).abs().max_element() <= TOLERANCE
}

#[test]
fn camera_agrees_with_the_renderer_looking_at_the_target() {
    let eye = Vec3::new(10.0, 13.0, 0.0);
    let target = Vec3::new(1.0, 0.0, 0.0);
    let seen = Transform::from_translation(eye).looking_at(target, Vec3::Y);
    let pose = camera_pose();
    assert!(close(point(&pose.position), eye));
    // The renderer's camera looks along its negative z axis, so its right
    // axis is the opposite of the frame's.
    assert!(close(point(&pose.rotation.forward), *seen.forward()));
    assert!(close(point(&pose.rotation.up), *seen.up()));
    assert!(close(point(&pose.rotation.right), -*seen.right()));
}

#[test]
fn look_at_agrees_with_the_renderer() {
    let cases = [
        (Vec3::new(0.0, 0.0, 0.0), Vec3::new(0.0, 0.0, 5.0), Vec3::Y),
        (Vec3::new(1.0, 2.0, 3.0), Vec3::new(-4.0, 0.5, 9.0), Vec3::Y),
        (Vec3::new(-7.25, 1.0, 0.0), Vec3::new(7.25, 3.0, 0.125), Vec3::Y),
        (Vec3::new(100.0, -50.0, 25.0), Vec3::new(-3.0, 8.0, -2.0), Vec3::new(0.0, 0.6, 0.8)),
        (Vec3::new(0.5, 0.5, 0.5), Vec3::new(0.5, 0.75, -90.0), Vec3::X),
    ];
    for (eye, target, up) in cases {
        let seen = Transform::from_translation(eye).looking_at(target, up);
        let frame = Rotation::look_at(&position(eye), &position(target), &position(up))
            .expect("the line of sight is not along up");
        assert!(frame.is_orthonormal());
        assert!(close(point(&frame.forward), *seen.forward()), "forward from {eye} to {target}");
        assert!(close(point(&frame.up), *seen.up()), "up from {eye} to {target}");
        assert!(close(point(&frame.right), -*seen.right()), "right from {eye} to {target}");
    }
}

#[test]
fn facing_agrees_with_a_rotation_about_the_vertical() {
    let entity = Vec3::new(0.5, 1.0, -2.0);
    let viewpoints = [
        Vec3::new(5.0, 1.0, -2.0),
        Vec3::new(0.5, 9.0, 3.0),
        Vec3::new(-3.0, 0.0, -2.0),
        Vec3::new(0.5, 1.0, -7.0),
        Vec3::new(4.5, 13.0, 1.0),
        Vec3::new(-11.0, -2.0, 30.0),
        Vec3::new(0.5 + 1e-4, 1.0, -2.0 - 1e-4),
    ];
    for viewpoint in viewpoints {
        let mut pose = Pose::at(position(entity));
        // Start turned away, so that every case writes a rotation.
        pose.rotation = Rotation::facing(&Ticks { x: -ONE, y: 0, z: 0 });
        // The angle is taken from the positions as the library sees them: a
        // difference of two f32 loses more than the library does.
        let (from, to) = (position(entity), position(viewpoint));
        let yaw = ((to.x - from.x) as f64).atan2((to.z - from.z) as f64);
        let expected = Quat::from_rotation_y(yaw as f32);
        let outcome = face_toward(&mut pose, &position(viewpoint));
        assert!(outcome.is_ok(), "facing {viewpoint}");
        assert!(close(point(&pose.rotation.forward), expected * Vec3::Z), "forward to {viewpoint}");
        assert!(close(point(&pose.rotation.right), expected * Vec3::X), "right to {viewpoint}");
        assert!(close(point(&pose.rotation.up), expected * Vec3::Y), "up to {viewpoint}");
        assert!(close(point(&pose.rotation.up), Vec3::Y));
    }
}

#[test]
fn layout_agrees_with_the_sum_in_floating_point() {
    for size in [15.0_f32, 1.0, 2.5, 40.0, 1024.0, 0.5] {
        let arena = arena_layout(ticks(size)).unwrap();
        let offset = size / 2.0 - 0.25;
        assert!(close(point(&arena[0].position), Vec3::ZERO));
        assert!(close(point(&arena[1].position), Vec3::new(0.0, 1.0, -size / 2.0 + 0.25)));
        assert!(close(point(&arena[2].position), Vec3::new(0.0, 1.0, offset)));
        assert!(close(point(&arena[3].position), Vec3::new(-size / 2.0 + 0.25, 1.0, 0.0)));
        assert!(close(point(&arena[4].position), Vec3::new(offset, 1.0, 0.0)));
        assert!(close(point(&arena[5].position), Vec3::new(0.0, 11.0, 0.0)));
    }
    assert_eq!(from_units(15), ticks(15.0));
}

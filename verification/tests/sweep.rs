use arena_scene::entity::Transform;
use arena_scene::facing::face_toward;
use arena_scene::rotation::{Rotation, AXIS_SLACK, ROTATION_EPSILON};
use arena_scene::scalar::{isqrt, ONE, SPAN_LIMIT, WORLD_LIMIT};
use arena_scene::vector::Vec3;

/// A small generator of numbers that look random and are the same on every
/// run.
struct Numbers(u64);

impl Numbers {
    fn next(&mut self) -> u64 {
        self.0 = self.0.wrapping_mul(6_364_136_223_846_793_005).wrapping_add(1_442_695_040_888_963_407);
        self.0 ^ (self.0 >> 29)
    }

    /// A number within `limit` of zero, small ones as likely as large ones.
    fn within(&mut self, limit: i64) -> i64 {
        let bits = self.next() % 43;
        let magnitude = (self.next() % (1 << bits).max(1).min(limit as u64 + 1)) as i64;
        if self.next() % 2 == 0 {
            magnitude
        } else {
            -magnitude
        }
    }

    fn vector(&mut self, limit: i64) -> Vec3 {
        Vec3 { x: self.within(limit), y: self.within(limit), z: self.within(limit) }
    }
}

fn reach(v: &Vec3) -> i128 {
    [v.x, v.y, v.z].iter().map(|c| (*c as i128).abs()).max().unwrap()
}

fn cross(a: &Vec3, b: &Vec3) -> [i128; 3] {
    let (ax, ay, az) = (a.x as i128, a.y as i128, a.z as i128);
    let (bx, by, bz) = (b.x as i128, b.y as i128, b.z as i128);
    [ay * bz - az * by, az * bx - ax * bz, ax * by - ay * bx]
}

fn dot(a: &Vec3, b: &Vec3) -> i128 {
    a.x as i128 * b.x as i128 + a.y as i128 * b.y as i128 + a.z as i128 * b.z as i128
}

#[test]
fn square_roots_of_many_numbers() {
    let mut numbers = Numbers(1);
    for _ in 0..20_000 {
        let q = numbers.next() >> (numbers.next() % 64);
        let r = isqrt(q) as u128;
        assert!(r * r <= q as u128 && (q as u128) < (r + 1) * (r + 1), "root of {q}");
    }
}

#[test]
fn unit_vectors_of_many_vectors() {
    let mut numbers = Numbers(2);
    for _ in 0..20_000 {
        let v = numbers.vector(SPAN_LIMIT);
        match v.normalize() {
            None => assert_eq!(v, Vec3::zero()),
            Some(u) => {
                assert!(u.within(ONE));
                let length = dot(&u, &u);
                let one = (ONE as i128) * (ONE as i128);
                assert!(one - 6 * ONE as i128 - 2 <= length && length <= one, "unit of {v:?}");
                // Parallel to the vector, and the same way.
                for component in cross(&v, &u) {
                    assert!(component.abs() <= reach(&v), "unit of {v:?}");
                }
                assert!(dot(&v, &u) > 0);
            }
        }
    }
}

#[test]
fn look_at_from_many_places() {
    let mut numbers = Numbers(3);
    let mut defined = 0;
    for _ in 0..20_000 {
        let eye = numbers.vector(WORLD_LIMIT);
        let target = numbers.vector(WORLD_LIMIT);
        let up = numbers.vector(ONE);
        if let Some(rotation) = Rotation::look_at(&eye, &target, &up) {
            defined += 1;
            assert!(rotation.is_orthonormal(), "from {eye:?} at {target:?} with {up:?}");
            let line = target.minus(&eye);
            assert_eq!(Some(rotation.forward), line.normalize());
            assert_eq!(Some(rotation.right), up.cross(&rotation.forward).normalize());
            assert_eq!(rotation.up, rotation.forward.cross(&rotation.right).scaled_down());
            for pair in [
                rotation.right.dot(&rotation.up),
                rotation.up.dot(&rotation.forward),
                rotation.forward.dot(&rotation.right),
            ] {
                assert!(pair.abs() <= AXIS_SLACK);
            }
        } else {
            let parallel = match target.minus(&eye).normalize() {
                Some(forward) => up.cross(&forward) == Vec3::zero(),
                None => true,
            };
            assert!(parallel, "from {eye:?} at {target:?} with {up:?}");
        }
    }
    assert!(defined > 15_000);
}

#[test]
fn facing_from_many_places() {
    let mut numbers = Numbers(4);
    let starts = [
        Rotation::identity(),
        Rotation::facing(&Vec3 { x: ONE, y: 0, z: 0 }),
        Rotation::facing(&Vec3 { x: -629_145, y: 0, z: 838_860 }),
    ];
    for round in 0..20_000 {
        let position = numbers.vector(WORLD_LIMIT);
        let viewpoint = numbers.vector(WORLD_LIMIT);
        let start = starts[round % starts.len()];
        let mut transform = Transform { position, rotation: start };
        let first = face_toward(&mut transform, &viewpoint);
        assert_eq!(transform.position, position);
        assert!(transform.rotation.is_orthonormal());
        if position.x == viewpoint.x && position.z == viewpoint.z {
            assert!(first.is_err());
        } else {
            let heading = viewpoint.minus(&position).horizontal().normalize().unwrap();
            let target = Rotation::facing(&heading);
            assert_eq!(first, Ok(target.differs_beyond(&start, ROTATION_EPSILON)));
            assert!(!transform.rotation.differs_beyond(&target, ROTATION_EPSILON));
            assert_eq!(transform.rotation.up, Vec3 { x: 0, y: ONE, z: 0 });
        }
        if first != Ok(true) {
            assert_eq!(transform.rotation, start);
        }
        let after_first = transform;
        let second = face_toward(&mut transform, &viewpoint);
        assert_ne!(second, Ok(true));
        assert_eq!(transform, after_first);
        if first.is_err() {
            assert_eq!(second, first);
        }
    }
}

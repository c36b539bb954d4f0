use pixels_ray::color::Color;
use pixels_ray::fixed::{tenths, times, ONE};
use pixels_ray::world::{Camera, Finish, Material, Object, Point, Sphere, World, JITTER_SPAN};
use pixels_ray::random::{draw_color, draw_unit};
use rand::rngs::StdRng;
use rand::{Rng, SeedableRng};

const ONE_I: i64 = 1 << 32;

fn cell_of(p: &Point) -> (i64, i64) {
    (p.x.div_euclid(ONE_I), p.z.div_euclid(ONE_I))
}

fn is_pebble(o: &Object) -> bool {
    let c = o.sphere.center;
    let (a, b) = cell_of(&c);
    let jx = c.x - a * ONE_I;
    let jz = c.z - b * ONE_I;
    let material_fits = match o.material {
        Material::Lambertian { albedo } => albedo.r < ONE && albedo.g < ONE && albedo.b < ONE,
        Material::Metal { albedo, fuzz } => {
            ONE / 2 <= albedo.r
                && albedo.r < ONE
                && ONE / 2 <= albedo.g
                && albedo.g < ONE
                && ONE / 2 <= albedo.b
                && albedo.b < ONE
                && 2 * fuzz < ONE
        }
        Material::Dielectric { refractive_index } => refractive_index == 3 * ONE / 2,
    };
    o.sphere.radius == tenths(2)
        && c.y == tenths(2) as i64
        && (-11..11).contains(&a)
        && (-11..11).contains(&b)
        && 10 * jx < 9 * ONE_I
        && 10 * jz < 9 * ONE_I
        && !c.is_crowded()
        && material_fits
}

#[test]
fn whole_points() {
    assert_eq!(Point::whole(13, 2, 3), Point { x: 13 * ONE_I, y: 2 * ONE_I, z: 3 * ONE_I });
    assert_eq!(Point::whole(0, -1000, 0), Point { x: 0, y: -1000 * ONE_I, z: 0 });
    assert_eq!(
        Point::whole(i32::MIN, i32::MAX, -1),
        Point { x: i64::MIN, y: (i32::MAX as i64) << 32, z: -ONE_I }
    );
}

#[test]
fn the_reserved_point_itself_is_crowded() {
    let p = Point { x: 4 * ONE_I, y: tenths(2) as i64, z: 0 };
    assert!(p.is_crowded());
}

#[test]
fn crowded_ends_at_nine_tenths() {
    // 100 d^2 < 81 holds up to d = 0.9 exclusive: raw 3865470566 is just
    // below 0.9, raw 3865470567 just above.
    let y = tenths(2) as i64;
    assert!(Point { x: 4 * ONE_I + 3_865_470_566, y, z: 0 }.is_crowded());
    assert!(!Point { x: 4 * ONE_I + 3_865_470_567, y, z: 0 }.is_crowded());
    assert!(Point { x: 4 * ONE_I, y, z: -3_865_470_566 }.is_crowded());
    assert!(!Point { x: 4 * ONE_I, y, z: -3_865_470_567 }.is_crowded());
}

#[test]
fn crowded_measures_all_three_axes() {
    // 0.6 on two axes is 0.72 squared; 0.9 and 0.6 is beyond.
    let y = tenths(2) as i64;
    let six = 6 * ONE_I / 10;
    let three = 3 * ONE_I / 10;
    assert!(Point { x: 4 * ONE_I + six, y, z: six }.is_crowded());
    assert!(!Point { x: 4 * ONE_I + six + three, y, z: six }.is_crowded());
    assert!(!Point { x: 4 * ONE_I, y: y + ONE_I, z: 0 }.is_crowded());
    assert!(Point { x: 4 * ONE_I, y: y + six, z: six }.is_crowded());
}

#[test]
fn far_points_are_not_crowded() {
    assert!(!Point { x: i64::MIN, y: i64::MAX, z: i64::MIN }.is_crowded());
    assert!(!Point { x: i64::MAX, y: 0, z: 0 }.is_crowded());
    assert!(!Point::whole(0, 0, 0).is_crowded());
}

#[test]
fn pebble_sits_in_its_cell() {
    let s = Sphere::pebble(-11, 10, 5, 7).unwrap();
    assert_eq!(s.radius, tenths(2));
    assert_eq!(s.center, Point { x: -11 * ONE_I + 5, y: tenths(2) as i64, z: 10 * ONE_I + 7 });
}

#[test]
fn pebble_near_the_reserved_point_is_dropped() {
    assert_eq!(Sphere::pebble(4, 0, 0, 0), None);
    assert_eq!(Sphere::pebble(3, 0, ONE / 2, 0), None);
    assert_eq!(Sphere::pebble(4, -1, 0, JITTER_SPAN - 1), None);
}

#[test]
fn pebble_in_a_near_cell_may_stay() {
    // cell (3, 0) with no jitter: its centre is 1.0 from the reserved point
    assert!(Sphere::pebble(3, 0, 0, 0).is_some());
    // cell (4, -1) with no jitter: centre (4, 0.2, -1)
    assert!(Sphere::pebble(4, -1, 0, 0).is_some());
}

#[test]
fn jitter_span_is_the_first_value_from_nine_tenths() {
    assert!(10 * (JITTER_SPAN as u128 - 1) < 9 * ONE as u128);
    assert!(10 * (JITTER_SPAN as u128) >= 9 * ONE as u128);
}

#[test]
fn classify_switches_at_eight_tenths() {
    assert_eq!(Finish::classify(0), Finish::Diffuse);
    assert_eq!(Finish::classify(3_435_973_836), Finish::Diffuse);
    assert_eq!(Finish::classify(3_435_973_837), Finish::Metallic);
}

#[test]
fn classify_switches_at_ninety_five_hundredths() {
    assert_eq!(Finish::classify(4_080_218_931), Finish::Metallic);
    assert_eq!(Finish::classify(4_080_218_932), Finish::Glass);
    assert_eq!(Finish::classify(ONE - 1), Finish::Glass);
    assert_eq!(Finish::classify(u64::MAX), Finish::Glass);
}

#[test]
fn diffuse_is_first_times_second_squared() {
    let first = Color::new(ONE / 2, ONE / 4, ONE - 1);
    let second = Color::new(ONE / 2, ONE / 2, ONE / 3);
    let expected = Color::new(
        ONE / 8,
        ONE / 16,
        times(ONE - 1, times(ONE / 3, ONE / 3)),
    );
    assert_eq!(Material::diffuse(first, second), Material::Lambertian { albedo: expected });
    assert_eq!(times(ONE - 1, times(ONE / 3, ONE / 3)), 477218587);
}

#[test]
fn metallic_lifts_the_colour_into_the_upper_half() {
    let m = Material::metallic(Color::new(0, ONE / 2, ONE - 1), 17);
    assert_eq!(
        m,
        Material::Metal { albedo: Color::new(ONE / 2, 3 * ONE / 4, ONE - 1), fuzz: 17 }
    );
}

#[test]
fn glass_has_index_one_and_a_half() {
    assert_eq!(Material::glass(), Material::Dielectric { refractive_index: 6_442_450_944 });
}

#[test]
fn attenuation_is_the_albedo_or_white() {
    let c = Color::new(1, 2, 3);
    assert_eq!(Material::Lambertian { albedo: c }.attenuation(), c);
    assert_eq!(Material::Metal { albedo: c, fuzz: 9 }.attenuation(), c);
    assert_eq!(Material::glass().attenuation(), Color::white());
}

#[test]
fn the_fixed_objects() {
    assert_eq!(
        Object::ground(),
        Object {
            sphere: Sphere { center: Point::whole(0, -1000, 0), radius: 1000 * ONE },
            material: Material::Lambertian { albedo: Color::new(ONE / 2, ONE / 2, ONE / 2) },
        }
    );
    assert_eq!(
        Object::glass_hero(),
        Object {
            sphere: Sphere { center: Point::whole(0, 1, 0), radius: ONE },
            material: Material::Dielectric { refractive_index: 3 * ONE / 2 },
        }
    );
    assert_eq!(
        Object::matte_hero(),
        Object {
            sphere: Sphere { center: Point::whole(-4, 1, 0), radius: ONE },
            material: Material::Lambertian {
                albedo: Color::new(1_717_986_918, 858_993_459, 429_496_730)
            },
        }
    );
    assert_eq!(
        Object::metal_hero(),
        Object {
            sphere: Sphere { center: Point::whole(4, 1, 0), radius: ONE },
            material: Material::Metal {
                albedo: Color::new(3_006_477_107, 2_576_980_378, ONE / 2),
                fuzz: 0
            },
        }
    );
}

#[test]
fn the_fixed_camera() {
    assert_eq!(
        Camera::fixed(600, 400),
        Camera {
            look_from: Point::whole(13, 2, 3),
            look_at: Point::whole(0, 0, 0),
            vertical_fov_degrees: 20,
            aspect_width: 600,
            aspect_height: 400,
            aperture: 429_496_730,
        }
    );
}

#[test]
fn generated_scene_is_arranged() {
    for seed in 0..20u64 {
        let mut rng = StdRng::seed_from_u64(seed);
        let world = World::from_rng(&mut rng, 3, 2);
        let n = world.objects.len();
        assert!(n >= 484 && n <= 488, "{}", n);
        assert_eq!(world.camera, Camera::fixed(3, 2));
        assert_eq!(world.objects[0], Object::ground());
        assert_eq!(world.objects[n - 3], Object::glass_hero());
        assert_eq!(world.objects[n - 2], Object::matte_hero());
        assert_eq!(world.objects[n - 1], Object::metal_hero());
        let mut last_rank = -1i64;
        for o in &world.objects[1..n - 3] {
            assert!(is_pebble(o));
            let (a, b) = cell_of(&o.sphere.center);
            let rank = (a + 11) * 22 + (b + 11);
            assert!(rank > last_rank);
            last_rank = rank;
        }
    }
}

#[test]
fn generated_scene_fills_every_clear_cell() {
    let mut rng = StdRng::seed_from_u64(2024);
    let world = World::from_rng(&mut rng, 600, 400);
    let n = world.objects.len();
    for a in -11..11i64 {
        for b in -11..11i64 {
            let near = (3..=4).contains(&a) && (-1..=0).contains(&b);
            let found = world.objects[1..n - 3].iter().any(|o| cell_of(&o.sphere.center) == (a, b));
            if !near {
                assert!(found, "cell ({}, {}) is empty", a, b);
            }
        }
    }
}

#[test]
fn generated_scene_has_all_three_kinds() {
    let mut rng = StdRng::seed_from_u64(1);
    let world = World::from_rng(&mut rng, 600, 400);
    let n = world.objects.len();
    let pebbles = &world.objects[1..n - 3];
    assert!(pebbles.iter().any(|o| matches!(o.material, Material::Lambertian { .. })));
    assert!(pebbles.iter().any(|o| matches!(o.material, Material::Metal { .. })));
    assert!(pebbles.iter().any(|o| matches!(o.material, Material::Dielectric { .. })));
}

#[test]
fn same_seed_same_scene() {
    let mut first = StdRng::seed_from_u64(77);
    let mut second = StdRng::seed_from_u64(77);
    let a = World::from_rng(&mut first, 600, 400);
    let b = World::from_rng(&mut second, 600, 400);
    assert_eq!(a.objects, b.objects);
    assert_eq!(a.camera, b.camera);
}

#[test]
fn other_seed_other_scene() {
    let mut first = StdRng::seed_from_u64(77);
    let mut second = StdRng::seed_from_u64(78);
    let a = World::from_rng(&mut first, 600, 400);
    let b = World::from_rng(&mut second, 600, 400);
    assert_ne!(a.objects, b.objects);
}

#[test]
fn draw_material_fits_a_pebble() {
    let mut rng = StdRng::seed_from_u64(5);
    for _ in 0..200 {
        let m = World::draw_material(&mut rng);
        let o = Object { sphere: Sphere::pebble(0, 0, 0, 0).unwrap(), material: m };
        assert!(is_pebble(&o));
    }
}

#[test]
fn draw_material_is_made_of_its_draws() {
    let mut rng = StdRng::seed_from_u64(31);
    let mut kinds = [0u32; 3];
    for _ in 0..300 {
        let mut replay = rng.clone();
        let m = World::draw_material(&mut rng);
        let kind = draw_unit(&mut replay);
        let expected = match Finish::classify(kind) {
            Finish::Diffuse => {
                kinds[0] += 1;
                let first = draw_color(&mut replay);
                let second = draw_color(&mut replay);
                Material::diffuse(first, second)
            }
            Finish::Metallic => {
                kinds[1] += 1;
                let base = draw_color(&mut replay);
                let fuzz: u64 = replay.gen_range(0..ONE / 2);
                Material::metallic(base, fuzz)
            }
            Finish::Glass => {
                kinds[2] += 1;
                Material::glass()
            }
        };
        assert_eq!(m, expected);
        assert_eq!(rng, replay);
    }
    assert!(kinds.iter().all(|n| *n > 0), "{:?}", kinds);
}

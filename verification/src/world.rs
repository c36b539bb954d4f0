//! The scene: spheres with their materials, the camera's parameters, and the
//! procedural generator that lays them out.

use vstd::prelude::*;
use rand::rngs::StdRng;
use crate::color::Color;
use crate::fixed::{lemma_product_shrinks, tenths, tenths_spec, ONE};
use crate::random::{below, draw_color, draw_unit};

verus! {

/// A point in space, each coordinate a signed fixed-point number.
#[derive(Clone, Copy, Debug, PartialEq, Eq, Structural)]
pub struct Point {
    pub x: i64,
    pub y: i64,
    pub z: i64,
}

/// A sphere; the radius is a positive fixed-point number.
#[derive(Clone, Copy, Debug, PartialEq, Eq, Structural)]
pub struct Sphere {
    pub center: Point,
    pub radius: u64,
}

/// How a surface scatters light.
#[derive(Clone, Copy, Debug, PartialEq, Eq, Structural)]
pub enum Material {
    /// Diffuse.
    Lambertian { albedo: Color },
    /// Specular, perturbed by `fuzz` in [0, 1].
    Metal { albedo: Color, fuzz: u64 },
    /// Glass.
    Dielectric { refractive_index: u64 },
}

/// The three kinds of material that a small sphere may get.
#[derive(Clone, Copy, Debug, PartialEq, Eq, Structural)]
pub enum Finish {
    Diffuse,
    Metallic,
    Glass,
}

/// A sphere together with its material.
#[derive(Clone, Copy, Debug, PartialEq, Eq, Structural)]
pub struct Object {
    pub sphere: Sphere,
    pub material: Material,
}

/// What the camera is built from. The aspect ratio is `aspect_width` to
/// `aspect_height`; the field of view is in whole degrees.
#[derive(Clone, Copy, Debug, PartialEq, Eq, Structural)]
pub struct Camera {
    pub look_from: Point,
    pub look_at: Point,
    pub vertical_fov_degrees: u32,
    pub aspect_width: u32,
    pub aspect_height: u32,
    pub aperture: u64,
}

/// The camera and the objects, in scene order: the order in which a ray is
/// tried against them.
pub struct World {
    pub camera: Camera,
    pub objects: Vec<Object>,
}

/// Exclusive upper bound of a jitter draw: the least raw value that stands
/// for 0.9 or more.
pub const JITTER_SPAN: u64 = 3865470567;

/// The grid holds the cells (a, b) with both offsets in -11..11.
pub open spec fn in_grid(a: int, b: int) -> bool {
    -11 <= a < 11 && -11 <= b < 11
}

/// A jitter lies in [0, 0.9).
pub open spec fn is_jitter(j: int) -> bool {
    0 <= j && 10 * j < 9 * ONE
}

/// The position of a cell in the order in which the grid is walked.
pub open spec fn cell_rank(a: int, b: int) -> int {
    (a + 11) * 22 + (b + 11)
}

impl Point {
    /// The point whose coordinates are the given whole numbers.
    pub open spec fn whole_spec(x: int, y: int, z: int) -> Point {
        Point { x: (x * ONE) as i64, y: (y * ONE) as i64, z: (z * ONE) as i64 }
    }

    /// The point whose coordinates are the given whole numbers.
    pub fn whole(x: i32, y: i32, z: i32) -> (p: Point)
        ensures
            p == Point::whole_spec(x as int, y as int, z as int),
    {
        let one: i64 = 4294967296;
        Point { x: (x as i64) * one, y: (y as i64) * one, z: (z as i64) * one }
    }

    /// The grid offsets of the cell that this point lies in.
    pub open spec fn cell(self) -> (int, int) {
        (self.x as int / (ONE as int), self.z as int / (ONE as int))
    }

    /// Whether the point lies within 0.9 of (4, 0.2, 0), the room kept free
    /// for the large spheres.
    pub open spec fn crowded(self) -> bool {
        let dx = self.x - 4 * ONE;
        let dy = self.y - tenths_spec(2);
        let dz = self.z as int;
        100 * (dx * dx + dy * dy + dz * dz) < 81 * (ONE * ONE)
    }

    /// Decides `crowded`.
    pub fn is_crowded(&self) -> (r: bool)
        ensures
            r == self.crowded(),
    {
        let fifth: u64 = tenths(2);
        let dx: i128 = self.x as i128 - 4 * (ONE as i128);
        let dy: i128 = self.y as i128 - fifth as i128;
        let dz: i128 = self.z as i128;
        let one: i128 = ONE as i128;
        if dx >= one || dx <= -one || dy >= one || dy <= -one || dz >= one || dz <= -one {
            proof {
                lemma_far_square(dx as int, dy as int, dz as int);
            }
            false
        } else {
            proof {
                lemma_near_square(dx as int);
                lemma_near_square(dy as int);
                lemma_near_square(dz as int);
            }
            let sum: i128 = dx * dx + dy * dy + dz * dz;
            100 * sum < 81 * (one * one)
        }
    }
}

/// A difference of at least one in any coordinate puts the squared distance
/// at one or more.
proof fn lemma_far_square(dx: int, dy: int, dz: int)
    requires
        dx >= ONE || dx <= -ONE || dy >= ONE || dy <= -ONE || dz >= ONE || dz <= -ONE,
    ensures
        100 * (dx * dx + dy * dy + dz * dz) >= 81 * (ONE * ONE),
{
    assert(dx * dx >= 0 && dy * dy >= 0 && dz * dz >= 0) by (nonlinear_arith);
    assert(dx >= ONE || dx <= -ONE ==> dx * dx >= ONE * ONE) by (nonlinear_arith);
    assert(dy >= ONE || dy <= -ONE ==> dy * dy >= ONE * ONE) by (nonlinear_arith);
    assert(dz >= ONE || dz <= -ONE ==> dz * dz >= ONE * ONE) by (nonlinear_arith);
}

/// The square of a difference below one is below one squared.
proof fn lemma_near_square(d: int)
    requires
        -ONE < d < ONE,
    ensures
        0 <= d * d < ONE * ONE,
{
    assert(0 <= d * d < ONE * ONE) by (nonlinear_arith)
        requires
            -ONE < d < ONE,
    ;
}

impl Sphere {
    /// The small sphere of cell (a, b) with the jitters `jx` and `jz`, or
    /// nothing where it would crowd the large spheres.
    pub open spec fn pebble_spec(a: int, b: int, jx: int, jz: int) -> Option<Sphere> {
        let center = Point {
            x: (a * ONE + jx) as i64,
            y: tenths_spec(2) as i64,
            z: (b * ONE + jz) as i64,
        };
        if center.crowded() {
            None
        } else {
            Some(Sphere { center, radius: tenths_spec(2) as u64 })
        }
    }

    /// Places the small sphere of one grid cell.
    pub fn pebble(a: i64, b: i64, jx: u64, jz: u64) -> (s: Option<Sphere>)
        requires
            in_grid(a as int, b as int),
            is_jitter(jx as int),
            is_jitter(jz as int),
        ensures
            s == Sphere::pebble_spec(a as int, b as int, jx as int, jz as int),
    {
        let fifth: u64 = tenths(2);
        let one: i64 = 4294967296;
        let center = Point { x: a * one + jx as i64, y: fifth as i64, z: b * one + jz as i64 };
        if center.is_crowded() {
            None
        } else {
            Some(Sphere { center, radius: fifth })
        }
    }
}

impl Finish {
    /// The kind that the draw `r` selects: diffuse below 0.8, metallic below
    /// 0.95, glass otherwise.
    pub open spec fn classify_spec(r: u64) -> Finish {
        if 10 * r < 8 * ONE {
            Finish::Diffuse
        } else if 100 * r < 95 * ONE {
            Finish::Metallic
        } else {
            Finish::Glass
        }
    }

    /// Selects the kind of material from a draw.
    pub fn classify(r: u64) -> (f: Finish)
        ensures
            f == Finish::classify_spec(r),
    {
        let wide: u128 = r as u128;
        let one: u128 = ONE as u128;
        if 10 * wide < 8 * one {
            Finish::Diffuse
        } else if 100 * wide < 95 * one {
            Finish::Metallic
        } else {
            Finish::Glass
        }
    }
}

/// Half of a channel, lifted into the upper half of the range.
pub open spec fn brighten(v: u64) -> u64 {
    (v / 2 + ONE / 2) as u64
}

impl Material {
    /// The diffuse material of two colour draws: the first times the square
    /// of the second.
    pub open spec fn diffuse_spec(first: Color, second: Color) -> Material {
        Material::Lambertian { albedo: first.attenuate_spec(second.attenuate_spec(second)) }
    }

    /// The metal of a colour draw and a fuzz draw.
    pub open spec fn metallic_spec(base: Color, fuzz: u64) -> Material {
        Material::Metal {
            albedo: Color { r: brighten(base.r), g: brighten(base.g), b: brighten(base.b) },
            fuzz,
        }
    }

    /// Glass of refractive index 1.5.
    pub open spec fn glass_spec() -> Material {
        Material::Dielectric { refractive_index: tenths_spec(15) as u64 }
    }

    pub fn diffuse(first: Color, second: Color) -> (m: Material)
        ensures
            m == Material::diffuse_spec(first, second),
    {
        Material::Lambertian { albedo: first.attenuate(second.attenuate(second)) }
    }

    pub fn metallic(base: Color, fuzz: u64) -> (m: Material)
        ensures
            m == Material::metallic_spec(base, fuzz),
    {
        let half: u64 = ONE / 2;
        Material::Metal {
            albedo: Color { r: base.r / 2 + half, g: base.g / 2 + half, b: base.b / 2 + half },
            fuzz,
        }
    }

    pub fn glass() -> (m: Material)
        ensures
            m == Material::glass_spec(),
    {
        Material::Dielectric { refractive_index: tenths(15) }
    }

    /// What a ray scattered by this material keeps of the light it carries:
    /// the albedo, or everything for glass.
    pub open spec fn attenuation_spec(self) -> Color {
        match self {
            Material::Lambertian { albedo } => albedo,
            Material::Metal { albedo, .. } => albedo,
            Material::Dielectric { .. } => Color::white_spec(),
        }
    }

    pub fn attenuation(&self) -> (c: Color)
        ensures
            c == self.attenuation_spec(),
    {
        match self {
            Material::Lambertian { albedo } => *albedo,
            Material::Metal { albedo, .. } => *albedo,
            Material::Dielectric { .. } => Color::white(),
        }
    }

    /// The parameters are in range: no channel of the albedo above one, the
    /// fuzz at most one, the refractive index positive.
    pub open spec fn valid(self) -> bool {
        match self {
            Material::Lambertian { albedo } => albedo.r <= ONE && albedo.g <= ONE && albedo.b <= ONE,
            Material::Metal { albedo, fuzz } => {
                &&& albedo.r <= ONE
                &&& albedo.g <= ONE
                &&& albedo.b <= ONE
                &&& fuzz <= ONE
            },
            Material::Dielectric { refractive_index } => refractive_index > 0,
        }
    }

    /// Draws as the generator makes them for one small sphere: a number in
    /// [0, 1) for the kind, two colours with every channel in [0, 1), and a
    /// fuzz in [0, 0.5).
    pub open spec fn are_draws(kind: u64, first: Color, second: Color, fuzz: u64) -> bool {
        &&& kind < ONE
        &&& first.r < ONE && first.g < ONE && first.b < ONE
        &&& second.r < ONE && second.g < ONE && second.b < ONE
        &&& 2 * fuzz < ONE
    }

    /// The material that the draws make. `kind` selects among the three: a
    /// diffuse one takes both colours, a metal the first colour and the
    /// fuzz, glass nothing.
    pub open spec fn from_draws(kind: u64, first: Color, second: Color, fuzz: u64) -> Material {
        match Finish::classify_spec(kind) {
            Finish::Diffuse => Material::diffuse_spec(first, second),
            Finish::Metallic => Material::metallic_spec(first, fuzz),
            Finish::Glass => Material::glass_spec(),
        }
    }

    /// What the generator may give a small sphere.
    pub open spec fn fit_for_pebble(self) -> bool {
        match self {
            Material::Lambertian { albedo } => albedo.r < ONE && albedo.g < ONE && albedo.b < ONE,
            Material::Metal { albedo, fuzz } => {
                &&& ONE / 2 <= albedo.r < ONE
                &&& ONE / 2 <= albedo.g < ONE
                &&& ONE / 2 <= albedo.b < ONE
                &&& 2 * fuzz < ONE
            },
            Material::Dielectric { refractive_index } => refractive_index == tenths_spec(15),
        }
    }
}

impl Object {
    /// The huge sphere that serves as the ground, in grey.
    pub open spec fn ground_spec() -> Object {
        Object {
            sphere: Sphere { center: Point::whole_spec(0, -1000, 0), radius: (1000 * ONE) as u64 },
            material: Material::Lambertian {
                albedo: Color { r: tenths_spec(5) as u64, g: tenths_spec(5) as u64, b: tenths_spec(5) as u64 },
            },
        }
    }

    /// The large glass sphere in the middle.
    pub open spec fn glass_hero_spec() -> Object {
        Object {
            sphere: Sphere { center: Point::whole_spec(0, 1, 0), radius: ONE },
            material: Material::glass_spec(),
        }
    }

    /// The large brown diffuse sphere behind it.
    pub open spec fn matte_hero_spec() -> Object {
        Object {
            sphere: Sphere { center: Point::whole_spec(-4, 1, 0), radius: ONE },
            material: Material::Lambertian {
                albedo: Color { r: tenths_spec(4) as u64, g: tenths_spec(2) as u64, b: tenths_spec(1) as u64 },
            },
        }
    }

    /// The large polished bronze sphere in front.
    pub open spec fn metal_hero_spec() -> Object {
        Object {
            sphere: Sphere { center: Point::whole_spec(4, 1, 0), radius: ONE },
            material: Material::Metal {
                albedo: Color { r: tenths_spec(7) as u64, g: tenths_spec(6) as u64, b: tenths_spec(5) as u64 },
                fuzz: 0,
            },
        }
    }

    pub fn ground() -> (o: Object)
        ensures
            o == Object::ground_spec(),
    {
        let grey: u64 = tenths(5);
        Object {
            sphere: Sphere { center: Point::whole(0, -1000, 0), radius: 1000 * ONE },
            material: Material::Lambertian { albedo: Color { r: grey, g: grey, b: grey } },
        }
    }

    pub fn glass_hero() -> (o: Object)
        ensures
            o == Object::glass_hero_spec(),
    {
        Object { sphere: Sphere { center: Point::whole(0, 1, 0), radius: ONE }, material: Material::glass() }
    }

    pub fn matte_hero() -> (o: Object)
        ensures
            o == Object::matte_hero_spec(),
    {
        Object {
            sphere: Sphere { center: Point::whole(-4, 1, 0), radius: ONE },
            material: Material::Lambertian { albedo: Color { r: tenths(4), g: tenths(2), b: tenths(1) } },
        }
    }

    pub fn metal_hero() -> (o: Object)
        ensures
            o == Object::metal_hero_spec(),
    {
        Object {
            sphere: Sphere { center: Point::whole(4, 1, 0), radius: ONE },
            material: Material::Metal { albedo: Color { r: tenths(7), g: tenths(6), b: tenths(5) }, fuzz: 0 },
        }
    }

    /// A sphere of positive radius with a material in range.
    pub open spec fn valid(self) -> bool {
        self.sphere.radius > 0 && self.material.valid()
    }

    /// The position, in the walk of the grid, of the cell that holds this
    /// object's centre.
    pub open spec fn rank(self) -> int {
        cell_rank(self.sphere.center.cell().0, self.sphere.center.cell().1)
    }

    /// A small sphere as the generator makes them: of radius 0.2, resting on
    /// the ground inside a grid cell, at most 0.9 from the cell's corner on
    /// either axis, clear of the large spheres, with a material of one of
    /// the three kinds.
    pub open spec fn is_pebble(self) -> bool {
        let c = self.sphere.center;
        &&& self.sphere.radius == tenths_spec(2)
        &&& c.y == tenths_spec(2)
        &&& in_grid(c.cell().0, c.cell().1)
        &&& is_jitter(c.x - c.cell().0 * ONE)
        &&& is_jitter(c.z - c.cell().1 * ONE)
        &&& !c.crowded()
        &&& self.material.fit_for_pebble()
    }
}

impl Camera {
    /// The camera of every generated scene: at (13, 2, 3), looking at the
    /// origin, 20 degrees of vertical field of view, aperture 0.1.
    pub open spec fn fixed_spec(aspect_width: u32, aspect_height: u32) -> Camera {
        Camera {
            look_from: Point::whole_spec(13, 2, 3),
            look_at: Point::whole_spec(0, 0, 0),
            vertical_fov_degrees: 20,
            aspect_width,
            aspect_height,
            aperture: tenths_spec(1) as u64,
        }
    }

    pub fn fixed(aspect_width: u32, aspect_height: u32) -> (c: Camera)
        ensures
            c == Camera::fixed_spec(aspect_width, aspect_height),
    {
        Camera {
            look_from: Point::whole(13, 2, 3),
            look_at: Point::whole(0, 0, 0),
            vertical_fov_degrees: 20,
            aspect_width,
            aspect_height,
            aperture: tenths(1),
        }
    }
}

/// The cells that no jitter can bring within 0.9 of (4, 0.2, 0): all but
/// the four around that point.
pub open spec fn always_clear(a: int, b: int) -> bool {
    a <= 2 || a >= 5 || b <= -2 || b >= 1
}

/// How many of the cells of rank below `bound` are not always clear: the
/// four around (4, 0.2, 0) have the ranks 318, 319, 340 and 341.
pub open spec fn near_below(bound: int) -> int {
    (if bound > 318 {
        1int
    } else {
        0int
    }) + (if bound > 319 {
        1int
    } else {
        0int
    }) + (if bound > 340 {
        1int
    } else {
        0int
    }) + (if bound > 341 {
        1int
    } else {
        0int
    })
}

/// Whether one of the objects after the first has its centre in cell (a, b).
pub open spec fn holds_cell(objects: Seq<Object>, a: int, b: int) -> bool {
    exists|i: int| 1 <= i < objects.len() && (#[trigger] objects[i]).sphere.center.cell() == (a, b)
}

/// The ground followed by small spheres from the cells of rank below
/// `bound`: at most one per cell, in the order of the walk, and none
/// missing from a cell that is always clear.
pub open spec fn laid_out(objects: Seq<Object>, bound: int) -> bool {
    &&& 1 + bound - near_below(bound) <= objects.len() <= 1 + bound
    &&& objects[0] == Object::ground_spec()
    &&& forall|i: int|
        1 <= i < objects.len() ==> (#[trigger] objects[i]).is_pebble() && objects[i].rank() < bound
    &&& forall|i: int, j: int|
        #![trigger objects[i], objects[j]]
        1 <= i < j < objects.len() ==> objects[i].rank() < objects[j].rank()
    &&& forall|a: int, b: int|
        in_grid(a, b) && always_clear(a, b) && cell_rank(a, b) < bound ==> #[trigger] holds_cell(
            objects,
            a,
            b,
        )
}

/// In a cell that is always clear every placement succeeds.
pub proof fn lemma_clear_cell_is_kept(a: int, b: int, jx: int, jz: int)
    requires
        in_grid(a, b),
        always_clear(a, b),
        is_jitter(jx),
        is_jitter(jz),
    ensures
        Sphere::pebble_spec(a, b, jx, jz) is Some,
{
    let dx = a * ONE + jx - 4 * ONE;
    let dz = b * ONE + jz;
    lemma_far_square(dx, 0, dz);
}

/// What held a cell's sphere still holds it after one more object.
proof fn lemma_push_keeps_cells(objects: Seq<Object>, next: Object, bound: int)
    requires
        laid_out(objects, bound),
    ensures
        forall|a: int, b: int|
            in_grid(a, b) && always_clear(a, b) && cell_rank(a, b) < bound ==> #[trigger] holds_cell(
                objects.push(next),
                a,
                b,
            ),
{
    assert forall|a: int, b: int|
        in_grid(a, b) && always_clear(a, b) && cell_rank(a, b) < bound implies #[trigger] holds_cell(
        objects.push(next),
        a,
        b,
    ) by {
        assert(holds_cell(objects, a, b));
        let i = choose|i: int|
            1 <= i < objects.len() && (#[trigger] objects[i]).sphere.center.cell() == (a, b);
        assert(objects.push(next)[i] == objects[i]);
    }
}

impl World {
    /// A generated scene: the ground, then the small spheres of the whole
    /// grid, then the three large spheres. Of the 484 cells at most the four
    /// around (4, 0.2, 0) are empty.
    pub open spec fn arranged(objects: Seq<Object>) -> bool {
        let n = objects.len() as int;
        &&& 484 <= n <= 488
        &&& laid_out(objects.subrange(0, n - 3), 484)
        &&& objects[n - 3] == Object::glass_hero_spec()
        &&& objects[n - 2] == Object::matte_hero_spec()
        &&& objects[n - 1] == Object::metal_hero_spec()
    }

    /// Generates the scene from a random source.
    ///
    /// The grid is walked by rows; each cell draws two jitters, and, unless
    /// its sphere would crowd the large ones, a number that selects the kind
    /// of material, then what that material needs.
    pub fn from_rng(rng: &mut StdRng, aspect_width: u32, aspect_height: u32) -> (w: World)
        ensures
            w.camera == Camera::fixed_spec(aspect_width, aspect_height),
            World::arranged(w.objects@),
    {
        let mut objects: Vec<Object> = Vec::new();
        objects.push(Object::ground());
        let mut a: i64 = -11;
        while a < 11
            invariant
                -11 <= a <= 11,
                laid_out(objects@, cell_rank(a as int, -11)),
            decreases 11 - a,
        {
            let mut b: i64 = -11;
            while b < 11
                invariant
                    -11 <= a < 11,
                    -11 <= b <= 11,
                    laid_out(objects@, cell_rank(a as int, b as int)),
                decreases 11 - b,
            {
                let jx: u64 = below(rng, JITTER_SPAN);
                let jz: u64 = below(rng, JITTER_SPAN);
                match Sphere::pebble(a, b, jx, jz) {
                    None => {
                        proof {
                            if always_clear(a as int, b as int) {
                                lemma_clear_cell_is_kept(a as int, b as int, jx as int, jz as int);
                            }
                        }
                    },
                    Some(sphere) => {
                        let material = World::draw_material(rng);
                        let pebble = Object { sphere, material };
                        proof {
                            lemma_push_keeps_cells(objects@, pebble, cell_rank(a as int, b as int));
                        }
                        let ghost at = objects@.len() as int;
                        objects.push(pebble);
                        assert(objects@[at].sphere.center.cell() == (a as int, b as int));
                    },
                }
                assert forall|a2: int, b2: int|
                    in_grid(a2, b2) && always_clear(a2, b2) && cell_rank(a2, b2) < cell_rank(
                        a as int,
                        b as int,
                    ) + 1 implies #[trigger] holds_cell(objects@, a2, b2) by {
                    if cell_rank(a2, b2) == cell_rank(a as int, b as int) {
                        assert(a2 == a && b2 == b);
                    }
                }
                b = b + 1;
            }
            a = a + 1;
        }
        let ghost small = objects@;
        objects.push(Object::glass_hero());
        objects.push(Object::matte_hero());
        objects.push(Object::metal_hero());
        assert(objects@.subrange(0, objects@.len() - 3) =~= small);
        World { camera: Camera::fixed(aspect_width, aspect_height), objects }
    }

    /// Draws the material of one small sphere: a number for the kind, then
    /// two colours for a diffuse one, or a colour and a fuzz for a metal.
    /// The result is the material that those draws make.
    pub fn draw_material(rng: &mut StdRng) -> (m: Material)
        ensures
            exists|kind: u64, first: Color, second: Color, fuzz: u64|
                Material::are_draws(kind, first, second, fuzz) && m == #[trigger] Material::from_draws(
                    kind,
                    first,
                    second,
                    fuzz,
                ),
            m.fit_for_pebble(),
    {
        let r: u64 = draw_unit(rng);
        match Finish::classify(r) {
            Finish::Diffuse => {
                let first = draw_color(rng);
                let second = draw_color(rng);
                proof {
                    lemma_drawn_material_fits(r, first, second, 0);
                }
                Material::diffuse(first, second)
            },
            Finish::Metallic => {
                let base = draw_color(rng);
                let fuzz: u64 = below(rng, ONE / 2);
                proof {
                    lemma_drawn_material_fits(r, base, base, fuzz);
                }
                Material::metallic(base, fuzz)
            },
            Finish::Glass => {
                proof {
                    lemma_drawn_material_fits(r, Color::black_spec(), Color::black_spec(), 0);
                }
                Material::glass()
            },
        }
    }
}

/// Whatever the draws, the material that they make is one that a small
/// sphere may have.
pub proof fn lemma_drawn_material_fits(kind: u64, first: Color, second: Color, fuzz: u64)
    requires
        Material::are_draws(kind, first, second, fuzz),
    ensures
        Material::from_draws(kind, first, second, fuzz).fit_for_pebble(),
{
    lemma_diffuse_fits(first, second);
}

/// Every object of a generated scene is valid: whatever reads the scene can
/// rely on it.
pub proof fn lemma_arranged_is_valid(objects: Seq<Object>)
    requires
        World::arranged(objects),
    ensures
        forall|i: int| 0 <= i < objects.len() ==> (#[trigger] objects[i]).valid(),
{
    let n = objects.len() as int;
    let front = objects.subrange(0, n - 3);
    assert forall|i: int| 0 <= i < objects.len() implies (#[trigger] objects[i]).valid() by {
        if i < n - 3 {
            assert(front[i] == objects[i]);
            if i > 0 {
                assert(front[i].is_pebble());
            }
        }
    }
}

/// The diffuse material of two draws below one has its albedo below one.
pub proof fn lemma_diffuse_fits(first: Color, second: Color)
    requires
        first.r < ONE && first.g < ONE && first.b < ONE,
        second.r <= ONE && second.g <= ONE && second.b <= ONE,
    ensures
        Material::diffuse_spec(first, second).fit_for_pebble(),
{
    lemma_product_shrinks(second.r as int, second.r as int);
    lemma_product_shrinks(second.g as int, second.g as int);
    lemma_product_shrinks(second.b as int, second.b as int);
    let sq = second.attenuate_spec(second);
    lemma_product_shrinks(first.r as int, sq.r as int);
    lemma_product_shrinks(first.g as int, sq.g as int);
    lemma_product_shrinks(first.b as int, sq.b as int);
}

} // verus!

//! The course of one light path: what colour it brings back, given what its
//! ray meets bounce after bounce.
//!
//! The geometry itself (where a ray meets a sphere, where it scatters to) is
//! the caller's; this module holds the rules that turn those findings into a
//! colour.

use vstd::prelude::*;
use crate::color::Color;

verus! {

/// How many times a path may bounce, unless the caller says otherwise.
pub const DEFAULT_DEPTH: u32 = 50;

/// What a ray met.
#[derive(Clone, Copy, Debug, PartialEq, Eq, Structural)]
pub enum Encounter {
    /// Nothing: the ray left the scene and sees the sky in this colour.
    Miss { background: Color },
    /// A surface that swallowed it.
    Absorbed,
    /// A surface that sent it on, keeping this share of the light.
    Scattered { attenuation: Color },
}

/// The colour that a path brings back when it may bounce `depth` times and
/// its ray meets `seen` in turn; nothing while the path is still under way.
///
/// A path that has used up its bounces is black. A miss ends it with the
/// background, an absorption with black; a scattering multiplies the colour
/// of the rest of the path by the attenuation.
pub open spec fn ray_color(depth: nat, seen: Seq<Encounter>) -> Option<Color>
    decreases depth,
{
    if depth == 0 {
        Some(Color::black_spec())
    } else if seen.len() == 0 {
        None
    } else {
        match seen[0] {
            Encounter::Miss { background } => Some(background),
            Encounter::Absorbed => Some(Color::black_spec()),
            Encounter::Scattered { attenuation } => match ray_color((depth - 1) as nat, seen.skip(1)) {
                Some(rest) => Some(attenuation.attenuate_spec(rest)),
                None => None,
            },
        }
    }
}

/// A path without any bounce left is black, whatever its ray would meet.
pub proof fn lemma_no_bounce_is_black(seen: Seq<Encounter>)
    ensures
        ray_color(0, seen) == Some(Color::black_spec()),
{
}

/// A path has its colour after at most `depth` encounters.
pub proof fn lemma_path_ends_within_depth(depth: nat, seen: Seq<Encounter>)
    requires
        seen.len() >= depth,
    ensures
        ray_color(depth, seen) is Some,
    decreases depth,
{
    if depth > 0 {
        lemma_path_ends_within_depth((depth - 1) as nat, seen.skip(1));
    }
}

/// Once a path has its colour, nothing that its ray would meet later
/// changes it.
pub proof fn lemma_finished_path_is_settled(depth: nat, seen: Seq<Encounter>, next: Encounter)
    requires
        ray_color(depth, seen) is Some,
    ensures
        ray_color(depth, seen.push(next)) == ray_color(depth, seen),
    decreases depth,
{
    if depth > 0 {
        assert(seen.len() > 0);
        assert(seen.push(next)[0] == seen[0]);
        assert(seen.push(next).skip(1) =~= seen.skip(1).push(next));
        if seen[0] is Scattered {
            lemma_finished_path_is_settled((depth - 1) as nat, seen.skip(1), next);
        }
    }
}

/// Black stays black, whatever it is attenuated by.
pub proof fn lemma_black_stays_black(by: Color)
    ensures
        by.attenuate_spec(Color::black_spec()) == Color::black_spec(),
{
    assert(by.r * 0 == 0 && by.g * 0 == 0 && by.b * 0 == 0);
}

/// Only the sky gives light: a finished path whose ray never left the scene
/// is black.
pub proof fn lemma_no_miss_is_black(depth: nat, seen: Seq<Encounter>)
    requires
        ray_color(depth, seen) is Some,
        forall|i: int| 0 <= i < seen.len() ==> !((#[trigger] seen[i]) is Miss),
    ensures
        ray_color(depth, seen) == Some(Color::black_spec()),
    decreases depth,
{
    if depth > 0 {
        match seen[0] {
            Encounter::Scattered { attenuation } => {
                let rest = seen.skip(1);
                assert forall|i: int| 0 <= i < rest.len() implies !((#[trigger] rest[i]) is Miss) by {
                    assert(rest[i] == seen[i + 1]);
                }
                lemma_no_miss_is_black((depth - 1) as nat, rest);
                lemma_black_stays_black(attenuation);
            },
            _ => {},
        }
    }
}

/// With a single bounce the path sees the sky or nothing: it brings the
/// background where its ray leaves the scene at once, and black where the
/// ray meets any surface.
pub proof fn lemma_single_bounce(seen: Seq<Encounter>)
    requires
        seen.len() > 0,
    ensures
        ray_color(1, seen) == Some(
            match seen[0] {
                Encounter::Miss { background } => background,
                _ => Color::black_spec(),
            },
        ),
{
    reveal_with_fuel(ray_color, 2);
    match seen[0] {
        Encounter::Scattered { attenuation } => {
            lemma_black_stays_black(attenuation);
        },
        _ => {},
    }
}

/// A path under way: the bounce budget it started with and what its ray has
/// met so far.
pub struct Path {
    depth: u32,
    attenuations: Vec<Color>,
    result: Option<Color>,
    seen: Ghost<Seq<Encounter>>,
}

impl Path {
    /// The bounce budget that the path started with.
    pub closed spec fn depth(&self) -> nat {
        self.depth as nat
    }

    /// What the path's ray has met so far, in order.
    pub closed spec fn seen(&self) -> Seq<Encounter> {
        self.seen@
    }

    /// The path holds the colour of what it has seen; while it is under way,
    /// it holds the attenuations of its scatterings.
    pub closed spec fn wf(&self) -> bool {
        &&& self.result == ray_color(self.depth as nat, self.seen@)
        &&& self.result is None ==> {
            &&& self.attenuations@.len() < self.depth
            &&& self.seen@.len() == self.attenuations@.len()
            &&& forall|i: int|
                0 <= i < self.seen@.len() ==> #[trigger] self.seen@[i] == (Encounter::Scattered {
                    attenuation: self.attenuations@[i],
                })
        }
    }

    /// Starts a path that may bounce `depth` times.
    pub fn new(depth: u32) -> (p: Path)
        ensures
            p.wf(),
            p.depth() == depth,
            p.seen() == Seq::<Encounter>::empty(),
    {
        let result = if depth == 0 {
            Some(Color::black())
        } else {
            None
        };
        Path { depth, attenuations: Vec::new(), result, seen: Ghost(Seq::empty()) }
    }

    /// The colour of the path, once it has one.
    pub fn color(&self) -> (c: Option<Color>)
        requires
            self.wf(),
        ensures
            c == ray_color(self.depth(), self.seen()),
    {
        self.result
    }

    /// Whether the path still waits for what its ray meets next.
    pub fn is_open(&self) -> (open: bool)
        requires
            self.wf(),
        ensures
            open == (ray_color(self.depth(), self.seen()) is None),
    {
        self.result.is_none()
    }

    /// Takes note of what the ray met. On a scattering the caller goes on
    /// with the scattered ray, as long as the path is open.
    pub fn record(&mut self, met: Encounter)
        requires
            old(self).wf(),
        ensures
            final(self).wf(),
            final(self).depth() == old(self).depth(),
            final(self).seen() == old(self).seen().push(met),
    {
        let ghost before = self.seen@;
        if self.result.is_some() {
            proof {
                lemma_finished_path_is_settled(self.depth as nat, before, met);
            }
            self.seen = Ghost(before.push(met));
            return ;
        }
        self.seen = Ghost(before.push(met));
        match met {
            Encounter::Miss { background } => {
                let c = self.settle(background);
                self.result = Some(c);
            },
            Encounter::Absorbed => {
                let c = self.settle(Color::black());
                self.result = Some(c);
            },
            Encounter::Scattered { attenuation } => {
                self.attenuations.push(attenuation);
                if self.attenuations.len() == self.depth as usize {
                    let c = self.settle(Color::black());
                    self.result = Some(c);
                } else {
                    proof {
                        lemma_scatterings_leave_open(self.depth as nat, self.seen@);
                    }
                }
            },
        }
    }

    /// Carries the colour at the path's end back through its scatterings,
    /// the last one first.
    fn settle(&self, end: Color) -> (c: Color)
        requires
            self.attenuations@.len() <= self.depth,
            self.seen@.len() >= self.attenuations@.len(),
            forall|i: int|
                0 <= i < self.attenuations@.len() ==> #[trigger] self.seen@[i] == (
                Encounter::Scattered { attenuation: self.attenuations@[i] }),
            ray_color(
                (self.depth - self.attenuations@.len()) as nat,
                self.seen@.skip(self.attenuations@.len() as int),
            ) == Some(end),
        ensures
            ray_color(self.depth as nat, self.seen@) == Some(c),
    {
        let mut c = end;
        let mut i: usize = self.attenuations.len();
        while i > 0
            invariant
                i <= self.attenuations@.len() <= self.depth,
                self.seen@.len() >= self.attenuations@.len(),
                forall|k: int|
                    0 <= k < self.attenuations@.len() ==> #[trigger] self.seen@[k] == (
                    Encounter::Scattered { attenuation: self.attenuations@[k] }),
                ray_color((self.depth - i) as nat, self.seen@.skip(i as int)) == Some(c),
            decreases i,
        {
            i = i - 1;
            proof {
                let rest = self.seen@.skip(i as int);
                assert(rest[0] == self.seen@[i as int]);
                assert(rest.skip(1) =~= self.seen@.skip(i + 1));
            }
            c = self.attenuations[i].attenuate(c);
        }
        assert(self.seen@.skip(0) =~= self.seen@);
        c
    }
}

/// A path that has only scattered, fewer times than it may bounce, is still
/// under way.
proof fn lemma_scatterings_leave_open(depth: nat, seen: Seq<Encounter>)
    requires
        seen.len() < depth,
        forall|i: int| 0 <= i < seen.len() ==> (#[trigger] seen[i]) is Scattered,
    ensures
        ray_color(depth, seen) is None,
    decreases depth,
{
    if seen.len() > 0 {
        lemma_scatterings_leave_open((depth - 1) as nat, seen.skip(1));
    }
}

} // verus!

use vstd::prelude::*;
use vstd::seq_lib::*;
use crate::scalar::{Scalar, ONE_BITS};
use crate::vector::Vec3;

verus! {

/// The number of lattice points of the noise, and the length of each of
/// its tables.
pub const POINT_COUNT: usize = 256;

/// The numbers from zero up to `n`, in order.
pub open spec fn identity(n: nat) -> Seq<usize> {
    Seq::new(n, |i: int| i as usize)
}

/// `table` holds each of the numbers below its length exactly once.
pub open spec fn is_shuffle(table: Seq<usize>) -> bool {
    table.to_multiset() == identity(table.len()).to_multiset()
}

/// The cell, out of 256, of the lattice coordinate `i + step`.
pub open spec fn cell(i: i64, step: u64) -> int {
    ((i & 255) + step) % 256
}

/// `Rng::sample` with `Uniform::new_inclusive(0, high)`: a number drawn
/// from zero up to `high`, both counted. Which one is not said.
#[verifier::external_body]
fn draw_index<R: rand::Rng>(rng: &mut R, high: usize) -> (r: usize)
    ensures
        r <= high,
{
    rng.sample(rand::distributions::Uniform::new_inclusive(0, high))
}

/// A table that holds the same entries as the identity holds only numbers
/// below its length.
pub proof fn lemma_shuffle_bounded(table: Seq<usize>)
    requires
        is_shuffle(table),
    ensures
        forall|k: int| 0 <= k < table.len() ==> #[trigger] table[k] < table.len(),
{
    broadcast use group_to_multiset_ensures;

    let id = identity(table.len());
    assert forall|k: int| 0 <= k < table.len() implies #[trigger] table[k] < table.len() by {
        assert(id.to_multiset().count(table[k]) > 0);
    }
}

/// Exchanges two entries of a table. The table holds afterwards what it
/// held before.
pub fn exchange(table: &mut Vec<usize>, i: usize, target: usize)
    requires
        i < old(table)@.len(),
        target < old(table)@.len(),
    ensures
        final(table)@ == old(table)@.update(i as int, old(table)@[target as int]).update(
            target as int,
            old(table)@[i as int],
        ),
        final(table)@.to_multiset() == old(table)@.to_multiset(),
{
    broadcast use {
        to_multiset_update,
        to_multiset_contains,
        vstd::multiset::group_multiset_axioms,
        vstd::multiset::group_multiset_properties,
    };

    let at_i: usize = table[i];
    let at_target: usize = table[target];
    table.set(i, at_target);
    table.set(target, at_i);
}

/// Shuffles the first `n` entries of a table: from the last of them down,
/// each is exchanged with an entry drawn from those up to it. Whatever is
/// drawn, the table holds afterwards what it held before, and the entries
/// from `n` on stay where they are.
pub fn permute<R: rand::Rng>(table: &mut Vec<usize>, n: usize, rng: &mut R)
    requires
        n <= old(table)@.len(),
    ensures
        final(table)@.len() == old(table)@.len(),
        final(table)@.to_multiset() == old(table)@.to_multiset(),
        forall|k: int| n <= k < old(table)@.len() ==> final(table)@[k] == old(table)@[k],
{
    let mut i: usize = n;
    while i > 0
        invariant
            i <= n <= table@.len(),
            table@.len() == old(table)@.len(),
            table@.to_multiset() == old(table)@.to_multiset(),
            forall|k: int| n <= k < table@.len() ==> table@[k] == old(table)@[k],
        decreases i,
    {
        i = i - 1;
        let target = draw_index(rng, i);
        exchange(table, i, target);
    }
}

/// A table of the numbers below `POINT_COUNT` in a drawn order.
pub fn generate_perm<R: rand::Rng>(rng: &mut R) -> (table: Vec<usize>)
    ensures
        table@.len() == POINT_COUNT,
        is_shuffle(table@),
{
    let mut table: Vec<usize> = Vec::with_capacity(POINT_COUNT);
    let mut i: usize = 0;
    while i < POINT_COUNT
        invariant
            i <= POINT_COUNT,
            table@.len() == i,
            forall|k: int| 0 <= k < i ==> table@[k] == k,
        decreases POINT_COUNT - i,
    {
        table.push(i);
        i = i + 1;
    }
    assert(table@ =~= identity(POINT_COUNT as nat));
    permute(&mut table, POINT_COUNT, rng);
    table
}

/// The tables of a gradient noise: a unit vector for each lattice point
/// and, for each axis, a shuffle that scrambles the lattice coordinates.
#[derive(Debug)]
pub struct PerlinData {
    ranvec: Vec<Vec3>,
    perm_x: Vec<usize>,
    perm_y: Vec<usize>,
    perm_z: Vec<usize>,
}

/// A table of `POINT_COUNT` entries that holds each number below it once.
spec fn is_axis_table(table: Seq<usize>) -> bool {
    &&& table.len() == POINT_COUNT
    &&& is_shuffle(table)
    &&& forall|k: int| 0 <= k < table.len() ==> #[trigger] table[k] < POINT_COUNT
}

impl PerlinData {
    #[verifier::type_invariant]
    spec fn inv(self) -> bool {
        self.well_formed()
    }

    /// There is a gradient for each lattice point, and each axis has a
    /// shuffle of the lattice.
    pub closed spec fn well_formed(self) -> bool {
        &&& self.ranvec@.len() == POINT_COUNT
        &&& is_axis_table(self.perm_x@)
        &&& is_axis_table(self.perm_y@)
        &&& is_axis_table(self.perm_z@)
    }

    /// The gradients, by lattice point.
    pub closed spec fn gradients(self) -> Seq<Vec3> {
        self.ranvec@
    }

    /// The shuffle of an axis: 0 for x, 1 for y, anything else for z.
    pub closed spec fn shuffle(self, axis: usize) -> Seq<usize> {
        if axis == 0 {
            self.perm_x@
        } else if axis == 1 {
            self.perm_y@
        } else {
            self.perm_z@
        }
    }

    /// The lattice point whose gradient stands at the corner that lies
    /// `di`, `dj` and `dk` cells beyond the cell `(i, j, k)`.
    pub open spec fn spec_lattice_point(
        self,
        i: i64,
        j: i64,
        k: i64,
        di: u64,
        dj: u64,
        dk: u64,
    ) -> int {
        (self.shuffle(0)[cell(i, di)] as u64 ^ self.shuffle(1)[cell(j, dj)] as u64
            ^ self.shuffle(2)[cell(k, dk)] as u64) as int
    }

    /// The properties of well-formed tables that the contracts rest on.
    pub proof fn lemma_tables(self)
        requires
            self.well_formed(),
        ensures
            self.gradients().len() == POINT_COUNT,
            forall|axis: usize| (#[trigger] self.shuffle(axis)).len() == POINT_COUNT,
            forall|axis: usize| is_shuffle(#[trigger] self.shuffle(axis)),
            forall|axis: usize, at: int|
                0 <= at < POINT_COUNT ==> (#[trigger] self.shuffle(axis)[at]) < POINT_COUNT,
    {
    }

    /// The tables over the given gradients, with a freshly drawn shuffle
    /// for each axis.
    pub fn new<R: rand::Rng>(gradients: Vec<Vec3>, rng: &mut R) -> (data: PerlinData)
        requires
            gradients@.len() == POINT_COUNT,
        ensures
            data.well_formed(),
            data.gradients() == gradients@,
    {
        let perm_x = generate_perm(rng);
        let perm_y = generate_perm(rng);
        let perm_z = generate_perm(rng);
        proof {
            lemma_shuffle_bounded(perm_x@);
            lemma_shuffle_bounded(perm_y@);
            lemma_shuffle_bounded(perm_z@);
        }
        PerlinData { ranvec: gradients, perm_x, perm_y, perm_z }
    }

    /// The gradient at one corner of the cell `(i, j, k)`; `di`, `dj` and
    /// `dk` are 0 or 1 and say which.
    pub fn corner(&self, i: i64, j: i64, k: i64, di: u64, dj: u64, dk: u64) -> (g: Vec3)
        requires
            di <= 1,
            dj <= 1,
            dk <= 1,
        ensures
            self.well_formed(),
            0 <= self.spec_lattice_point(i, j, k, di, dj, dk) < POINT_COUNT,
            g == self.gradients()[self.spec_lattice_point(i, j, k, di, dj, dk)],
    {
        proof {
            use_type_invariant(self);
        }
        let cx: u64 = wrap(i, di);
        let cy: u64 = wrap(j, dj);
        let cz: u64 = wrap(k, dk);
        let a: u64 = self.perm_x[cx as usize] as u64;
        let b: u64 = self.perm_y[cy as usize] as u64;
        let c: u64 = self.perm_z[cz as usize] as u64;
        assert((a ^ b ^ c) < 256) by (bit_vector)
            requires
                a < 256,
                b < 256,
                c < 256,
        ;
        self.ranvec[(a ^ b ^ c) as usize]
    }

    /// The gradients at the eight corners of the cell `(i, j, k)`: the
    /// corner `(di, dj, dk)` stands at `4 * di + 2 * dj + dk`.
    pub fn corners(&self, i: i64, j: i64, k: i64) -> (c: Vec<Vec3>)
        ensures
            self.well_formed(),
            c@.len() == 8,
            forall|di: u64, dj: u64, dk: u64|
                di <= 1 && dj <= 1 && dk <= 1 ==> c@[4 * di + 2 * dj + dk]
                    == self.gradients()[#[trigger] self.spec_lattice_point(i, j, k, di, dj, dk)],
    {
        proof {
            use_type_invariant(self);
        }
        let mut c: Vec<Vec3> = Vec::with_capacity(8);
        c.push(self.corner(i, j, k, 0, 0, 0));
        c.push(self.corner(i, j, k, 0, 0, 1));
        c.push(self.corner(i, j, k, 0, 1, 0));
        c.push(self.corner(i, j, k, 0, 1, 1));
        c.push(self.corner(i, j, k, 1, 0, 0));
        c.push(self.corner(i, j, k, 1, 0, 1));
        c.push(self.corner(i, j, k, 1, 1, 0));
        c.push(self.corner(i, j, k, 1, 1, 1));
        c
    }
}

/// The cell of the lattice in which a point lies, and the place of the
/// point within the cell: for each coordinate its floor and what is left
/// above the floor.
#[derive(Clone, Copy, Debug, PartialEq, Eq, Structural)]
pub struct Cell {
    pub i: i64,
    pub j: i64,
    pub k: i64,
    pub u: Scalar,
    pub v: Scalar,
    pub w: Scalar,
}

/// The arithmetic of noise, which the library leaves to its caller.
///
/// `lattice` gives the cell of a point. `interp` gives the noise within a
/// cell from the gradients at its eight corners and the place within the
/// cell. `fold` gives the sum so far plus a weight times a noise. `halve`
/// gives half a weight and `double` twice a point.
pub struct Waves<L, I, F, H, D> {
    pub lattice: L,
    pub interp: I,
    pub fold: F,
    pub halve: H,
    pub double: D,
}

impl<L, I, F, H, D> Waves<L, I, F, H, D> where
    L: Fn(Vec3) -> Cell,
    I: Fn(&Vec<Vec3>, Scalar, Scalar, Scalar) -> Scalar,
    F: Fn(Scalar, Scalar, Scalar) -> Scalar,
    H: Fn(Scalar) -> Scalar,
    D: Fn(Vec3) -> Vec3,
 {
    /// Every function takes every argument.
    pub open spec fn total(self) -> bool {
        &&& forall|p: Vec3| call_requires(self.lattice, (p,))
        &&& forall|c: &Vec<Vec3>, u: Scalar, v: Scalar, w: Scalar|
            call_requires(self.interp, (c, u, v, w))
        &&& forall|a: Scalar, w: Scalar, n: Scalar| call_requires(self.fold, (a, w, n))
        &&& forall|w: Scalar| call_requires(self.halve, (w,))
        &&& forall|p: Vec3| call_requires(self.double, (p,))
    }
}

impl PerlinData {
    /// Whether `c` holds the gradients at the eight corners of a cell, the
    /// corner `(di, dj, dk)` at `4 * di + 2 * dj + dk`.
    pub open spec fn corners_of(self, cell: Cell, c: Seq<Vec3>) -> bool {
        &&& c.len() == 8
        &&& forall|di: u64, dj: u64, dk: u64|
            #![trigger self.spec_lattice_point(cell.i, cell.j, cell.k, di, dj, dk)]
            di <= 1 && dj <= 1 && dk <= 1 ==> c[4 * di + 2 * dj + dk]
                == self.gradients()[self.spec_lattice_point(cell.i, cell.j, cell.k, di, dj, dk)]
    }

    /// Whether `n` can be the noise at a point: what `interp` makes of the
    /// gradients at the corners of the point's cell and of the point's
    /// place within the cell.
    pub open spec fn noises<L, I, F, H, D>(
        self,
        p: Vec3,
        waves: Waves<L, I, F, H, D>,
        n: Scalar,
    ) -> bool where
        L: Fn(Vec3) -> Cell,
        I: Fn(&Vec<Vec3>, Scalar, Scalar, Scalar) -> Scalar,
        F: Fn(Scalar, Scalar, Scalar) -> Scalar,
        H: Fn(Scalar) -> Scalar,
        D: Fn(Vec3) -> Vec3,
     {
        exists|cell: Cell, c: Vec<Vec3>|
            {
                &&& call_ensures(waves.lattice, (p,), cell)
                &&& self.corners_of(cell, c@)
                &&& call_ensures(waves.interp, (&c, cell.u, cell.v, cell.w), n)
            }
    }

    /// Whether `total` can be the sum of `octaves` octaves of noise from the
    /// point `p` on, the first of them with the weight `weight`, on top of
    /// `accum`: each octave adds its weight times the noise at its point,
    /// and hands half its weight and twice its point to the next.
    pub open spec fn sums<L, I, F, H, D>(
        self,
        p: Vec3,
        weight: Scalar,
        accum: Scalar,
        octaves: nat,
        waves: Waves<L, I, F, H, D>,
        total: Scalar,
    ) -> bool where
        L: Fn(Vec3) -> Cell,
        I: Fn(&Vec<Vec3>, Scalar, Scalar, Scalar) -> Scalar,
        F: Fn(Scalar, Scalar, Scalar) -> Scalar,
        H: Fn(Scalar) -> Scalar,
        D: Fn(Vec3) -> Vec3,

        decreases octaves,
    {
        if octaves == 0 {
            total == accum
        } else {
            exists|n: Scalar, folded: Scalar, halved: Scalar, doubled: Vec3|
                {
                    &&& self.noises(p, waves, n)
                    &&& call_ensures(waves.fold, (accum, weight, n), folded)
                    &&& call_ensures(waves.halve, (weight,), halved)
                    &&& call_ensures(waves.double, (p,), doubled)
                    &&& self.sums(doubled, halved, folded, (octaves - 1) as nat, waves, total)
                }
        }
    }

    /// Whether `t` can be the turbulence at a point: the magnitude of the
    /// sum of `depth` octaves, the first of weight one.
    pub open spec fn turbs<L, I, F, H, D>(
        self,
        p: Vec3,
        depth: usize,
        waves: Waves<L, I, F, H, D>,
        t: Scalar,
    ) -> bool where
        L: Fn(Vec3) -> Cell,
        I: Fn(&Vec<Vec3>, Scalar, Scalar, Scalar) -> Scalar,
        F: Fn(Scalar, Scalar, Scalar) -> Scalar,
        H: Fn(Scalar) -> Scalar,
        D: Fn(Vec3) -> Vec3,
     {
        exists|total: Scalar|
            self.sums(
                p,
                Scalar { bits: ONE_BITS },
                Scalar { bits: 0 },
                depth as nat,
                waves,
                total,
            ) && t == total.spec_abs()
    }

    /// The noise at a point.
    pub fn noise<L, I, F, H, D>(&self, p: Vec3, waves: &Waves<L, I, F, H, D>) -> (n: Scalar) where
        L: Fn(Vec3) -> Cell,
        I: Fn(&Vec<Vec3>, Scalar, Scalar, Scalar) -> Scalar,
        F: Fn(Scalar, Scalar, Scalar) -> Scalar,
        H: Fn(Scalar) -> Scalar,
        D: Fn(Vec3) -> Vec3,

        requires
            waves.total(),
        ensures
            self.noises(p, *waves, n),
    {
        let cell = (waves.lattice)(p);
        let c = self.corners(cell.i, cell.j, cell.k);
        let n = (waves.interp)(&c, cell.u, cell.v, cell.w);
        proof {
            assert(self.corners_of(cell, c@));
        }
        n
    }

    /// The turbulence at a point: the magnitude of the sum of `depth`
    /// octaves of noise.
    pub fn turb<L, I, F, H, D>(&self, p: Vec3, depth: usize, waves: &Waves<L, I, F, H, D>) -> (t:
        Scalar) where
        L: Fn(Vec3) -> Cell,
        I: Fn(&Vec<Vec3>, Scalar, Scalar, Scalar) -> Scalar,
        F: Fn(Scalar, Scalar, Scalar) -> Scalar,
        H: Fn(Scalar) -> Scalar,
        D: Fn(Vec3) -> Vec3,

        requires
            waves.total(),
        ensures
            self.turbs(p, depth, *waves, t),
    {
        let mut accum = Scalar { bits: 0 };
        let mut temp_p = p;
        let mut weight = Scalar { bits: ONE_BITS };
        let mut left: usize = depth;
        while left > 0
            invariant
                waves.total(),
                forall|total: Scalar| #[trigger]
                    self.sums(temp_p, weight, accum, left as nat, *waves, total) ==> self.sums(
                        p,
                        Scalar { bits: ONE_BITS },
                        Scalar { bits: 0 },
                        depth as nat,
                        *waves,
                        total,
                    ),
            decreases left,
        {
            let n = self.noise(temp_p, waves);
            let folded = (waves.fold)(accum, weight, n);
            let halved = (waves.halve)(weight);
            let doubled = (waves.double)(temp_p);
            let rest: usize = left - 1;
            proof {
                assert forall|total: Scalar| #[trigger]
                    self.sums(doubled, halved, folded, rest as nat, *waves, total)
                    implies self.sums(temp_p, weight, accum, left as nat, *waves, total) by {}
            }
            accum = folded;
            weight = halved;
            temp_p = doubled;
            left = rest;
        }
        proof {
            assert(self.sums(temp_p, weight, accum, 0, *waves, accum));
        }
        accum.abs()
    }
}

/// The cell of a lattice coordinate.
fn wrap(i: i64, step: u64) -> (c: u64)
    requires
        step <= 1,
    ensures
        c == cell(i, step),
        c < 256,
{
    let low: i64 = i & 255;
    assert(0 <= low < 256) by (bit_vector)
        requires
            low == i & 255,
    ;
    let sum: u64 = low as u64 + step;
    let c: u64 = sum & 255;
    assert(c == sum % 256) by (bit_vector)
        requires
            c == sum & 255,
    ;
    c
}

/// A noise function over the points of space.
#[derive(Debug)]
pub enum Noise {
    /// Gradient noise as it comes.
    Perlin(PerlinData),
    /// The sum of the given number of octaves of gradient noise, each of
    /// half the weight and twice the frequency of the one before.
    Turbulent(PerlinData, usize),
}

impl Noise {
    pub fn perlin<R: rand::Rng>(gradients: Vec<Vec3>, rng: &mut R) -> (noise: Noise)
        requires
            gradients@.len() == POINT_COUNT,
        ensures
            noise matches Noise::Perlin(data) && data.well_formed() && data.gradients()
                == gradients@,
    {
        Noise::Perlin(PerlinData::new(gradients, rng))
    }

    pub fn turbulent<R: rand::Rng>(gradients: Vec<Vec3>, rng: &mut R, depth: usize) -> (noise:
        Noise)
        requires
            gradients@.len() == POINT_COUNT,
        ensures
            noise matches Noise::Turbulent(data, octaves) && data.well_formed() && data.gradients()
                == gradients@ && octaves == depth,
    {
        Noise::Turbulent(PerlinData::new(gradients, rng), depth)
    }

    /// Whether `n` can be the sample of the noise at a point: the noise as
    /// it comes, or the turbulence of the given number of octaves.
    pub open spec fn samples<L, I, F, H, D>(
        self,
        p: Vec3,
        waves: Waves<L, I, F, H, D>,
        n: Scalar,
    ) -> bool where
        L: Fn(Vec3) -> Cell,
        I: Fn(&Vec<Vec3>, Scalar, Scalar, Scalar) -> Scalar,
        F: Fn(Scalar, Scalar, Scalar) -> Scalar,
        H: Fn(Scalar) -> Scalar,
        D: Fn(Vec3) -> Vec3,
     {
        match self {
            Noise::Perlin(data) => data.noises(p, waves, n),
            Noise::Turbulent(data, depth) => data.turbs(p, depth, waves, n),
        }
    }

    /// The sample of the noise at a point.
    pub fn sample<L, I, F, H, D>(&self, p: Vec3, waves: &Waves<L, I, F, H, D>) -> (n: Scalar) where
        L: Fn(Vec3) -> Cell,
        I: Fn(&Vec<Vec3>, Scalar, Scalar, Scalar) -> Scalar,
        F: Fn(Scalar, Scalar, Scalar) -> Scalar,
        H: Fn(Scalar) -> Scalar,
        D: Fn(Vec3) -> Vec3,

        requires
            waves.total(),
        ensures
            self.samples(p, *waves, n),
    {
        match self {
            Noise::Perlin(data) => data.noise(p, waves),
            Noise::Turbulent(data, depth) => data.turb(p, *depth, waves),
        }
    }

    /// The tables of the noise.
    pub fn data(&self) -> (data: &PerlinData)
        ensures
            *data == (match *self {
                Noise::Perlin(d) => d,
                Noise::Turbulent(d, _) => d,
            }),
    {
        match self {
            Noise::Perlin(d) => d,
            Noise::Turbulent(d, _) => d,
        }
    }

    /// The number of octaves that a sample sums: none for the plain noise,
    /// which is taken as it comes.
    pub fn octaves(&self) -> (n: Option<usize>)
        ensures
            n == (match *self {
                Noise::Perlin(_) => None,
                Noise::Turbulent(_, depth) => Some(depth),
            }),
    {
        match self {
            Noise::Perlin(_) => None,
            Noise::Turbulent(_, depth) => Some(*depth),
        }
    }
}

} // verus!

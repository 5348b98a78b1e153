use vstd::prelude::*;
use crate::image::Rgba;
use crate::key::TextureKey;
use crate::noise::Noise;
use crate::pool::{canonical, Pool};
use crate::scalar::{Scalar, HALF_BITS};
use crate::vector::Vec3;

verus! {

/// A rule that gives each point of a surface a colour.
#[derive(Debug)]
pub enum Texture {
    /// One colour everywhere.
    Solid { color: Rgba },
    /// A checker in space between two other textures of the pool.
    Checker { odd: TextureKey, even: TextureKey, scale: Scalar },
    /// Stripes driven by a noise function.
    Noise { noise: Box<Noise>, scale: Scalar },
}

impl Default for Texture {
    /// A solid grey, every channel one half.
    fn default() -> (t: Texture)
        ensures
            t == (Texture::Solid { color: Rgba::spec_splat(Scalar { bits: HALF_BITS }) }),
    {
        Texture::Solid { color: Rgba::splat(Scalar { bits: HALF_BITS }) }
    }
}

/// The texture that a checker hands a point over to: `sines` is the product
/// of the sines of the point's three scaled coordinates; where it is below
/// zero the odd texture is taken, in every other case the even one.
pub open spec fn checker_branch(odd: TextureKey, even: TextureKey, sines: Scalar) -> TextureKey {
    if sines.spec_lt(Scalar { bits: 0 }) {
        odd
    } else {
        even
    }
}

/// Whether a texture is followed to its end through at most `depth`
/// checkers, whichever branches are taken.
pub open spec fn nests(textures: Map<u64, Texture>, t: Texture, depth: nat) -> bool
    decreases depth,
{
    match t {
        Texture::Checker { odd, even, .. } => {
            if depth == 0 {
                false
            } else {
                &&& textures.contains_key(canonical(odd.id)) ==> nests(
                    textures,
                    textures[canonical(odd.id)],
                    (depth - 1) as nat,
                )
                &&& textures.contains_key(canonical(even.id)) ==> nests(
                    textures,
                    textures[canonical(even.id)],
                    (depth - 1) as nat,
                )
            }
        },
        _ => true,
    }
}

/// Whether a texture is followed to its end at all: no checker below it
/// leads back to itself.
pub open spec fn settles(textures: Map<u64, Texture>, t: Texture) -> bool {
    exists|depth: nat| nests(textures, t, depth)
}

/// Whether every texture of a pool settles.
pub open spec fn pool_settles(textures: Map<u64, Texture>) -> bool {
    forall|id: u64| textures.contains_key(id) ==> settles(textures, #[trigger] textures[id])
}

/// The least number of checkers through which a texture that settles is
/// followed to its end.
pub closed spec fn height(textures: Map<u64, Texture>, t: Texture) -> nat {
    choose|d: nat| nests(textures, t, d) && forall|k: nat| k < d ==> !nests(textures, t, k)
}

proof fn lemma_least(textures: Map<u64, Texture>, t: Texture, d: nat)
    requires
        nests(textures, t, d),
    ensures
        exists|m: nat| nests(textures, t, m) && forall|k: nat| k < m ==> !nests(textures, t, k),
    decreases d,
{
    if exists|k: nat| k < d && nests(textures, t, k) {
        let k = choose|k: nat| k < d && nests(textures, t, k);
        lemma_least(textures, t, k);
    }
}

proof fn lemma_height(textures: Map<u64, Texture>, t: Texture)
    requires
        settles(textures, t),
    ensures
        nests(textures, t, height(textures, t)),
        forall|k: nat| k < height(textures, t) ==> !nests(textures, t, k),
{
    let d = choose|d: nat| nests(textures, t, d);
    lemma_least(textures, t, d);
}

/// The texture under a branch of a checker that settles settles too, and
/// sooner.
proof fn lemma_branch_height(textures: Map<u64, Texture>, t: Texture, key: TextureKey)
    requires
        settles(textures, t),
        t matches Texture::Checker { odd, even, .. } && (key == odd || key == even),
        textures.contains_key(canonical(key.id)),
    ensures
        settles(textures, textures[canonical(key.id)]),
        height(textures, textures[canonical(key.id)]) < height(textures, t),
{
    lemma_height(textures, t);
    let h = height(textures, t);
    let next = textures[canonical(key.id)];
    assert(nests(textures, next, (h - 1) as nat));
    lemma_height(textures, next);
}

/// Whether `color` is what a texture can give at a point within `fuel`
/// checkers.
///
/// A solid texture gives its colour. A noise texture gives what `stripes`
/// makes of its noise, its scale and the point. A checker asks `sines` for
/// the product of the sines of the point's scaled coordinates and gives what
/// the texture of its branch gives: magenta where the pool holds none.
pub open spec fn values<Z, N>(
    t: Texture,
    u: Scalar,
    v: Scalar,
    p: Vec3,
    textures: Map<u64, Texture>,
    sines: Z,
    stripes: N,
    fuel: nat,
    color: Rgba,
) -> bool where Z: Fn(Scalar, Vec3) -> Scalar, N: Fn(&Noise, Scalar, Vec3) -> Rgba
    decreases fuel,
{
    match t {
        Texture::Solid { color: c } => color == c,
        Texture::Noise { noise, scale } => call_ensures(stripes, (&*noise, scale, p), color),
        Texture::Checker { odd, even, scale } => exists|s: Scalar|
            {
                &&& call_ensures(sines, (scale, p), s)
                &&& if textures.contains_key(canonical(checker_branch(odd, even, s).id)) {
                    if fuel == 0 {
                        false
                    } else {
                        values(
                            textures[canonical(checker_branch(odd, even, s).id)],
                            u,
                            v,
                            p,
                            textures,
                            sines,
                            stripes,
                            (fuel - 1) as nat,
                            color,
                        )
                    }
                } else {
                    color == Rgba::spec_missing()
                }
            },
    }
}

/// Whether `color` is what a texture can give at a point.
pub open spec fn gives<Z, N>(
    t: Texture,
    u: Scalar,
    v: Scalar,
    p: Vec3,
    textures: Map<u64, Texture>,
    sines: Z,
    stripes: N,
    color: Rgba,
) -> bool where Z: Fn(Scalar, Vec3) -> Scalar, N: Fn(&Noise, Scalar, Vec3) -> Rgba {
    exists|fuel: nat| values(t, u, v, p, textures, sines, stripes, fuel, color)
}

/// Whether each of the textures that came to a pool is followed to its end
/// through at most `depth` checkers. A pool of which this holds settles.
pub fn textures_nest(textures: &Pool<Texture>, depth: usize) -> (r: bool)
    requires
        textures.well_formed(),
    ensures
        r == (forall|i: int|
            0 <= i < textures.items().len() ==> nests(
                textures@,
                #[trigger] textures.items()[i],
                depth as nat,
            )),
        r ==> pool_settles(textures@),
{
    let n: usize = textures.len();
    let mut i: usize = 0;
    while i < n
        invariant
            i <= n,
            n == textures.spec_len(),
            n == textures.items().len(),
            textures.well_formed(),
            forall|k: int|
                0 <= k < i ==> nests(textures@, #[trigger] textures.items()[k], depth as nat),
        decreases n - i,
    {
        proof {
            textures.lemma_items();
        }
        match textures.item(i) {
            Some(t) => {
                if !t.nests_within(textures, depth) {
                    return false;
                }
            },
            None => {},
        }
        i = i + 1;
    }
    proof {
        textures.lemma_items();
    }
    true
}

impl Texture {
    /// Decides `nests`.
    pub fn nests_within(&self, textures: &Pool<Texture>, depth: usize) -> (r: bool)
        requires
            textures.well_formed(),
        ensures
            r == nests(textures@, *self, depth as nat),
        decreases depth,
    {
        match self {
            Texture::Checker { odd, even, .. } => {
                if depth == 0 {
                    return false;
                }
                let odd_nests = match textures.get(odd.id) {
                    Some(next) => next.nests_within(textures, depth - 1),
                    None => true,
                };
                if !odd_nests {
                    return false;
                }
                match textures.get(even.id) {
                    Some(next) => next.nests_within(textures, depth - 1),
                    None => true,
                }
            },
            _ => true,
        }
    }

    /// The colour of the texture at the surface coordinates `u` and `v`
    /// and the point `p`.
    pub fn value<Z, N>(
        &self,
        u: Scalar,
        v: Scalar,
        p: Vec3,
        textures: &Pool<Texture>,
        sines: &Z,
        stripes: &N,
    ) -> (color: Rgba) where Z: Fn(Scalar, Vec3) -> Scalar, N: Fn(&Noise, Scalar, Vec3) -> Rgba
        requires
            textures.well_formed(),
            settles(textures@, *self),
            forall|s: Scalar, q: Vec3| call_requires(*sines, (s, q)),
            forall|n: &Noise, s: Scalar, q: Vec3| call_requires(*stripes, (n, s, q)),
        ensures
            gives(*self, u, v, p, textures@, *sines, *stripes, color),
        decreases height(textures@, *self),
    {
        match self {
            Texture::Solid { color } => {
                assert(values(*self, u, v, p, textures@, *sines, *stripes, 0, *color));
                *color
            },
            Texture::Noise { noise, scale } => {
                let color = stripes(&**noise, *scale, p);
                assert(values(*self, u, v, p, textures@, *sines, *stripes, 0, color));
                color
            },
            Texture::Checker { odd, even, scale } => {
                let s = sines(*scale, p);
                let key = if s.lt(Scalar { bits: 0 }) {
                    *odd
                } else {
                    *even
                };
                assert(key == checker_branch(*odd, *even, s));
                match textures.get(key.id) {
                    Some(next) => {
                        proof {
                            lemma_branch_height(textures@, *self, key);
                        }
                        let color = next.value(u, v, p, textures, sines, stripes);
                        proof {
                            let fuel = choose|fuel: nat|
                                values(*next, u, v, p, textures@, *sines, *stripes, fuel, color);
                            assert(values(
                                *self,
                                u,
                                v,
                                p,
                                textures@,
                                *sines,
                                *stripes,
                                fuel + 1,
                                color,
                            ));
                        }
                        color
                    },
                    None => {
                        let color = Rgba::missing();
                        proof {
                            assert(values(*self, u, v, p, textures@, *sines, *stripes, 0, color));
                        }
                        color
                    },
                }
            },
        }
    }

    /// The handle of the texture that a checker hands over to; a texture
    /// that is no checker hands over to none.
    pub open spec fn spec_branch(self, sines: Scalar) -> Option<TextureKey> {
        match self {
            Texture::Checker { odd, even, .. } => Some(checker_branch(odd, even, sines)),
            _ => None,
        }
    }

    pub fn branch(&self, sines: Scalar) -> (key: Option<TextureKey>)
        ensures
            key == self.spec_branch(sines),
    {
        match self {
            Texture::Checker { odd, even, .. } => {
                if sines.lt(Scalar { bits: 0 }) {
                    Some(*odd)
                } else {
                    Some(*even)
                }
            },
            _ => None,
        }
    }
}

} // verus!

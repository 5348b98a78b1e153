use vstd::prelude::*;
use crate::image::{Image, Rgba};
use crate::material::{Optics, Reflection, Refraction};
use crate::noise::Noise;
use crate::scalar::Scalar;
use crate::shape::{HitRecord, Hittable, Ray};
use crate::vector::Vec3;
use crate::world::{radiance, Scene};

verus! {

/// Whether `pixel` is what one more pass can make of the pixel in column
/// `i` of row `j`.
///
/// The camera sends a ray through the pixel, the ray brings its light from
/// the world, and `tone` turns the light into the sample. In the first pass
/// the sample is the pixel. In a later pass the pixel is what `mix` makes of
/// the pixel `before`, the sample and the number of passes so far.
pub open spec fn rendered<T: Hittable, K, Z, N, D, R, G, C, P, M>(
    scene: Scene<T, K>,
    width: usize,
    height: usize,
    depth: usize,
    passes: usize,
    optics: Optics<Z, N, D, R, G, C>,
    tone: P,
    mix: M,
    i: usize,
    j: usize,
    before: Rgba,
    pixel: Rgba,
) -> bool where
    K: Fn(usize, usize, usize, usize) -> Ray,
    Z: Fn(Scalar, Vec3) -> Scalar,
    N: Fn(&Noise, Scalar, Vec3) -> Rgba,
    D: Fn(HitRecord) -> Vec3,
    R: Fn(Ray, HitRecord, Scalar) -> Reflection,
    G: Fn(Ray, HitRecord, Scalar) -> Refraction,
    C: Fn(Rgba, Rgba, Rgba) -> Rgba,
    P: Fn(Rgba) -> Rgba,
    M: Fn(Rgba, Rgba, usize) -> Rgba,
 {
    exists|ray: Ray, light: Rgba, sample: Rgba|
        {
            &&& call_ensures(scene.sampler, (i, j, width, height), ray)
            &&& radiance(scene.world, ray, depth, optics, light)
            &&& call_ensures(tone, (light,), sample)
            &&& if passes == 0 {
                pixel == sample
            } else {
                call_ensures(mix, (before, sample, passes), pixel)
            }
        }
}

/// Whether `mix` hands a value back where the value so far and the fresh
/// one are the same, as the exact mean of equal values does.
pub open spec fn keeps_equal<V, M: Fn(V, V, usize) -> V>(mix: M) -> bool {
    forall|v: V, count: usize, mixed: V| call_ensures(mix, (v, v, count), mixed) ==> mixed == v
}

/// Renders one sample of each pixel at a time, pixel by pixel, into a
/// picture that holds the mean of the samples so far.
#[derive(Debug)]
pub struct ProgressiveRenderer {
    width: usize,
    height: usize,
    max_ray_depth: usize,
    image: Image,
    num_samples: usize,
}

impl ProgressiveRenderer {
    /// The picture has the renderer's size.
    pub closed spec fn well_formed(&self) -> bool {
        &&& self.image.width == self.width
        &&& self.image.height == self.height
        &&& self.image.well_formed()
    }

    pub closed spec fn spec_width(&self) -> usize {
        self.width
    }

    pub closed spec fn spec_height(&self) -> usize {
        self.height
    }

    pub closed spec fn spec_max_ray_depth(&self) -> usize {
        self.max_ray_depth
    }

    /// The number of passes that the picture holds.
    pub closed spec fn spec_num_samples(&self) -> usize {
        self.num_samples
    }

    /// The picture so far.
    pub closed spec fn picture(&self) -> Image {
        self.image
    }

    /// The properties of a well-formed renderer that the contracts rest on.
    pub proof fn lemma_picture(&self)
        requires
            self.well_formed(),
        ensures
            self.picture().width == self.spec_width(),
            self.picture().height == self.spec_height(),
            self.picture().well_formed(),
    {
    }

    /// A renderer whose picture is black and holds no pass.
    pub fn new(width: usize, height: usize, max_ray_depth: usize) -> (r: ProgressiveRenderer)
        requires
            width * height * 4 <= usize::MAX,
        ensures
            r.well_formed(),
            r.spec_width() == width,
            r.spec_height() == height,
            r.spec_max_ray_depth() == max_ray_depth,
            r.spec_num_samples() == 0,
            forall|i: int| 0 <= i < r.picture().data@.len() ==> r.picture().data@[i] == 0,
    {
        ProgressiveRenderer {
            width,
            height,
            max_ray_depth,
            image: Image::new(width, height),
            num_samples: 0,
        }
    }

    #[verifier::when_used_as_spec(spec_width)]
    pub fn width(&self) -> (w: usize)
        ensures
            w == self.spec_width(),
    {
        self.width
    }

    #[verifier::when_used_as_spec(spec_height)]
    pub fn height(&self) -> (h: usize)
        ensures
            h == self.spec_height(),
    {
        self.height
    }

    #[verifier::when_used_as_spec(spec_max_ray_depth)]
    pub fn max_ray_depth(&self) -> (d: usize)
        ensures
            d == self.spec_max_ray_depth(),
    {
        self.max_ray_depth
    }

    #[verifier::when_used_as_spec(spec_num_samples)]
    pub fn num_samples(&self) -> (n: usize)
        ensures
            n == self.spec_num_samples(),
    {
        self.num_samples
    }

    pub fn image(&self) -> (image: &Image)
        ensures
            *image == self.picture(),
    {
        &self.image
    }

    /// Takes one fresh sample of the pixel in column `i` of row `j`. In the
    /// first pass the sample becomes the pixel. In a later pass the pixel
    /// becomes what `mix` makes of the pixel so far, the sample and the
    /// number of passes so far: their mean, where `mix` is the update of a
    /// running mean. No other pixel changes.
    pub fn accumulate<F: Fn(Rgba, Rgba, usize) -> Rgba>(
        &mut self,
        i: usize,
        j: usize,
        sample: Rgba,
        mix: F,
    )
        requires
            old(self).well_formed(),
            i < old(self).spec_width(),
            j < old(self).spec_height(),
            forall|before: Rgba, fresh: Rgba, count: usize|
                call_requires(mix, (before, fresh, count)),
        ensures
            final(self).well_formed(),
            final(self).spec_width() == old(self).spec_width(),
            final(self).spec_height() == old(self).spec_height(),
            final(self).spec_max_ray_depth() == old(self).spec_max_ray_depth(),
            final(self).spec_num_samples() == old(self).spec_num_samples(),
            old(self).spec_num_samples() == 0 ==> final(self).picture().pixel(i, j) == sample,
            old(self).spec_num_samples() != 0 ==> call_ensures(
                mix,
                (old(self).picture().pixel(i, j), sample, old(self).spec_num_samples()),
                final(self).picture().pixel(i, j),
            ),
            keeps_equal(mix) && sample == old(self).picture().pixel(i, j) ==> sample == final(
                self
            ).picture().pixel(i, j),
            final(self).picture().data@.len() == old(self).picture().data@.len(),
            forall|k: int|
                0 <= k < old(self).picture().data@.len() && !(old(self).picture().offset(i, j) <= k
                    < old(self).picture().offset(i, j) + 4) ==> final(self).picture().data@[k]
                    == old(self).picture().data@[k],
    {
        proof {
            self.image.lemma_offset(i, j);
        }
        if self.num_samples == 0 {
            self.image.set_pixel_color(i, j, sample);
        } else {
            let before = self.image.get_pixel_color(i, j);
            let mixed = mix(before, sample, self.num_samples);
            self.image.set_pixel_color(i, j, mixed);
        }
    }

    /// Renders one more pass: one fresh sample of every pixel, row by row,
    /// each folded into the pixel as `rendered` says; then the pass is
    /// counted.
    pub fn render<T: Hittable, K, Z, N, D, R, G, C, P, M>(
        &mut self,
        scene: &Scene<T, K>,
        optics: &Optics<Z, N, D, R, G, C>,
        tone: &P,
        mix: &M,
    ) -> (image: &Image) where
        K: Fn(usize, usize, usize, usize) -> Ray,
        Z: Fn(Scalar, Vec3) -> Scalar,
        N: Fn(&Noise, Scalar, Vec3) -> Rgba,
        D: Fn(HitRecord) -> Vec3,
        R: Fn(Ray, HitRecord, Scalar) -> Reflection,
        G: Fn(Ray, HitRecord, Scalar) -> Refraction,
        C: Fn(Rgba, Rgba, Rgba) -> Rgba,
        P: Fn(Rgba) -> Rgba,
        M: Fn(Rgba, Rgba, usize) -> Rgba,

        requires
            old(self).well_formed(),
            old(self).spec_num_samples() < usize::MAX,
            forall|i: usize, j: usize, w: usize, h: usize|
                call_requires(scene.sampler, (i, j, w, h)),
            optics.total(),
            forall|l: Rgba| call_requires(*tone, (l,)),
            forall|b: Rgba, f: Rgba, n: usize| call_requires(*mix, (b, f, n)),
        ensures
            *image == final(self).picture(),
            final(self).well_formed(),
            final(self).spec_width() == old(self).spec_width(),
            final(self).spec_height() == old(self).spec_height(),
            final(self).spec_max_ray_depth() == old(self).spec_max_ray_depth(),
            final(self).spec_num_samples() == old(self).spec_num_samples() + 1,
            forall|i: usize, j: usize|
                i < old(self).spec_width() && j < old(self).spec_height() ==> rendered(
                    *scene,
                    old(self).spec_width(),
                    old(self).spec_height(),
                    old(self).spec_max_ray_depth(),
                    old(self).spec_num_samples(),
                    *optics,
                    *tone,
                    *mix,
                    i,
                    j,
                    old(self).picture().pixel(i, j),
                    #[trigger] final(self).picture().pixel(i, j),
                ),
    {
        let width: usize = self.width;
        let height: usize = self.height;
        let depth: usize = self.max_ray_depth;
        let ghost start = self.image;
        let ghost mut p: int = 0;
        let mut j: usize = 0;
        while j < height
            invariant
                j <= height,
                p == j * width,
                self.well_formed(),
                self.width == width,
                self.height == height,
                self.max_ray_depth == depth,
                self.num_samples == old(self).num_samples,
                start == old(self).image,
                self.image.data@.len() == start.data@.len(),
                forall|i: usize, j: usize, w: usize, h: usize|
                    call_requires(scene.sampler, (i, j, w, h)),
                optics.total(),
                forall|l: Rgba| call_requires(*tone, (l,)),
                forall|b: Rgba, f: Rgba, n: usize| call_requires(*mix, (b, f, n)),
                forall|k: int|
                    4 * p <= k < start.data@.len() ==> self.image.data@[k] == start.data@[k],
                forall|a: usize, b: usize|
                    a < width && b < j ==> rendered(
                        *scene,
                        width,
                        height,
                        depth,
                        self.num_samples,
                        *optics,
                        *tone,
                        *mix,
                        a,
                        b,
                        start.texel(b * width + a),
                        #[trigger] self.image.texel(b * width + a),
                    ),
            decreases height - j,
        {
            let mut i: usize = 0;
            while i < width
                invariant
                    i <= width,
                    j < height,
                    p == j * width + i,
                    self.well_formed(),
                    self.width == width,
                    self.height == height,
                    self.max_ray_depth == depth,
                    self.num_samples == old(self).num_samples,
                    start == old(self).image,
                    self.image.data@.len() == start.data@.len(),
                    forall|i: usize, j: usize, w: usize, h: usize|
                        call_requires(scene.sampler, (i, j, w, h)),
                    optics.total(),
                    forall|l: Rgba| call_requires(*tone, (l,)),
                    forall|b: Rgba, f: Rgba, n: usize| call_requires(*mix, (b, f, n)),
                    forall|k: int|
                        4 * p <= k < start.data@.len() ==> self.image.data@[k] == start.data@[k],
                    forall|a: usize, b: usize|
                        a < width && (b < j || (b == j && a < i)) ==> rendered(
                            *scene,
                            width,
                            height,
                            depth,
                            self.num_samples,
                            *optics,
                            *tone,
                            *mix,
                            a,
                            b,
                            start.texel(b * width + a),
                            #[trigger] self.image.texel(b * width + a),
                        ),
                decreases width - i,
            {
                let ray = (scene.sampler)(i, j, width, height);
                let light = scene.world.ray_color(&ray, optics, depth);
                let sample = tone(light);
                let ghost before = self.image;
                proof {
                    self.image.lemma_offset(i, j);
                }
                self.accumulate(i, j, sample, mix);
                proof {
                    self.image.lemma_offset(i, j);
                    assert forall|a: usize, b: usize|
                        a < width && (b < j || (b == j && a < i + 1)) implies rendered(
                        *scene,
                        width,
                        height,
                        depth,
                        self.num_samples,
                        *optics,
                        *tone,
                        *mix,
                        a,
                        b,
                        start.texel(b * width + a),
                        #[trigger] self.image.texel(b * width + a),
                    ) by {
                        if !(b == j && a == i) {
                            assert(b * width + a < j * width + i) by (nonlinear_arith)
                                requires
                                    a < width,
                                    i < width,
                                    b < j || (b == j && a < i),
                            ;
                            assert(self.image.texel(b * width + a) == before.texel(b * width + a));
                        }
                    }
                }
                i = i + 1;
                proof {
                    p = p + 1;
                }
            }
            proof {
                assert(j * width + width == (j + 1) * width) by (nonlinear_arith);
            }
            j = j + 1;
        }
        self.num_samples = self.num_samples + 1;
        proof {
            assert forall|i: usize, j: usize|
                i < width && j < height implies rendered(
                *scene,
                width,
                height,
                depth,
                old(self).num_samples,
                *optics,
                *tone,
                *mix,
                i,
                j,
                old(self).picture().pixel(i, j),
                #[trigger] self.picture().pixel(i, j),
            ) by {
                start.lemma_offset(i, j);
                self.image.lemma_offset(i, j);
            }
        }
        &self.image
    }

    /// Closes a pass: the picture holds one sample more of every pixel.
    pub fn finish_pass(&mut self)
        requires
            old(self).spec_num_samples() < usize::MAX,
        ensures
            final(self).spec_num_samples() == old(self).spec_num_samples() + 1,
            final(self).well_formed() == old(self).well_formed(),
            final(self).spec_width() == old(self).spec_width(),
            final(self).spec_height() == old(self).spec_height(),
            final(self).spec_max_ray_depth() == old(self).spec_max_ray_depth(),
            final(self).picture() == old(self).picture(),
    {
        self.num_samples = self.num_samples + 1;
    }
}

/// Renders one sample of each pixel at a time, all pixels of a pass at
/// once, into a picture that holds the mean of the samples so far.
#[derive(Debug)]
pub struct ParallelRenderer {
    width: usize,
    height: usize,
    max_ray_depth: usize,
    image: Image,
    num_samples: usize,
}

impl ParallelRenderer {
    /// The picture has the renderer's size.
    pub closed spec fn well_formed(&self) -> bool {
        &&& self.image.width == self.width
        &&& self.image.height == self.height
        &&& self.image.well_formed()
    }

    pub closed spec fn spec_width(&self) -> usize {
        self.width
    }

    pub closed spec fn spec_height(&self) -> usize {
        self.height
    }

    pub closed spec fn spec_max_ray_depth(&self) -> usize {
        self.max_ray_depth
    }

    /// The number of passes that the picture holds.
    pub closed spec fn spec_num_samples(&self) -> usize {
        self.num_samples
    }

    /// The picture so far.
    pub closed spec fn picture(&self) -> Image {
        self.image
    }

    /// A renderer whose picture is black and holds no pass.
    pub fn new(width: usize, height: usize, max_ray_depth: usize) -> (r: ParallelRenderer)
        requires
            width * height * 4 <= usize::MAX,
        ensures
            r.well_formed(),
            r.spec_width() == width,
            r.spec_height() == height,
            r.spec_max_ray_depth() == max_ray_depth,
            r.spec_num_samples() == 0,
            r.picture().data@.len() == width * height * 4,
            forall|i: int| 0 <= i < r.picture().data@.len() ==> r.picture().data@[i] == 0,
    {
        ParallelRenderer {
            width,
            height,
            max_ray_depth,
            image: Image::new(width, height),
            num_samples: 0,
        }
    }

    #[verifier::when_used_as_spec(spec_width)]
    pub fn width(&self) -> (w: usize)
        ensures
            w == self.spec_width(),
    {
        self.width
    }

    #[verifier::when_used_as_spec(spec_height)]
    pub fn height(&self) -> (h: usize)
        ensures
            h == self.spec_height(),
    {
        self.height
    }

    #[verifier::when_used_as_spec(spec_max_ray_depth)]
    pub fn max_ray_depth(&self) -> (d: usize)
        ensures
            d == self.spec_max_ray_depth(),
    {
        self.max_ray_depth
    }

    #[verifier::when_used_as_spec(spec_num_samples)]
    pub fn num_samples(&self) -> (n: usize)
        ensures
            n == self.spec_num_samples(),
    {
        self.num_samples
    }

    pub fn image(&self) -> (image: &Image)
        ensures
            *image == self.picture(),
    {
        &self.image
    }

    /// Whether `after` is what one more pass can make of `before`, given the
    /// samples of the pass: the samples themselves after the first pass,
    /// what `mix` makes of each channel and its sample after a later one; and
    /// nothing changes where the samples are not as many as the channels.
    pub open spec fn merged<M: Fn(u32, u32, usize) -> u32>(
        before: ParallelRenderer,
        frame: Seq<u32>,
        mix: M,
        after: ParallelRenderer,
    ) -> bool {
        if frame.len() != before.picture().data@.len() {
            after == before
        } else {
            &&& after.spec_width() == before.spec_width()
            &&& after.spec_height() == before.spec_height()
            &&& after.spec_max_ray_depth() == before.spec_max_ray_depth()
            &&& after.spec_num_samples() == before.spec_num_samples() + 1
            &&& after.picture().data@.len() == frame.len()
            &&& before.spec_num_samples() == 0 ==> after.picture().data@ == frame
            &&& before.spec_num_samples() != 0 ==> forall|k: int|
                0 <= k < frame.len() ==> call_ensures(
                    mix,
                    (before.picture().data@[k], frame[k], before.spec_num_samples()),
                    #[trigger] after.picture().data@[k],
                )
        }
    }

    /// Renders one more pass: `pass` gives one sample for each channel of
    /// each pixel, from the picture's width and height and the budget of
    /// bounces, and may hand the rows out to threads; the samples are folded
    /// into the picture as `merge` does it.
    pub fn render<F, M>(&mut self, pass: &F, mix: &M) -> (image: &Image) where
        F: Fn(usize, usize, usize) -> Vec<u32>,
        M: Fn(u32, u32, usize) -> u32,

        requires
            old(self).spec_num_samples() < usize::MAX,
            forall|w: usize, h: usize, d: usize| call_requires(*pass, (w, h, d)),
            forall|before: u32, fresh: u32, count: usize|
                call_requires(*mix, (before, fresh, count)),
        ensures
            *image == final(self).picture(),
            final(self).well_formed() == old(self).well_formed(),
            exists|frame: Vec<u32>|
                {
                    &&& call_ensures(
                        *pass,
                        (
                            old(self).spec_width(),
                            old(self).spec_height(),
                            old(self).spec_max_ray_depth(),
                        ),
                        frame,
                    )
                    &&& Self::merged(*old(self), frame@, *mix, *final(self))
                },
    {
        let frame = pass(self.width, self.height, self.max_ray_depth);
        self.merge(frame, mix);
        &self.image
    }

    /// Takes the samples of one more pass, one for each channel of each
    /// pixel. After the first pass the picture is the samples. After a
    /// later pass each channel is what `mix` makes of the channel so far,
    /// its sample and the number of passes so far: their mean, where `mix`
    /// is the update of a running mean. Samples for a picture of another
    /// size are refused and handed back.
    pub fn merge<F: Fn(u32, u32, usize) -> u32>(&mut self, frame: Vec<u32>, mix: F) -> (refused:
        Option<Vec<u32>>)
        requires
            old(self).spec_num_samples() < usize::MAX,
            forall|before: u32, fresh: u32, count: usize|
                call_requires(mix, (before, fresh, count)),
        ensures
            final(self).spec_width() == old(self).spec_width(),
            final(self).spec_height() == old(self).spec_height(),
            final(self).spec_max_ray_depth() == old(self).spec_max_ray_depth(),
            final(self).well_formed() == old(self).well_formed(),
            frame@.len() != old(self).picture().data@.len() ==> {
                &&& refused == Some(frame)
                &&& *final(self) == *old(self)
            },
            frame@.len() == old(self).picture().data@.len() ==> {
                &&& refused is None
                &&& final(self).spec_num_samples() == old(self).spec_num_samples() + 1
                &&& final(self).picture().data@.len() == frame@.len()
                &&& old(self).spec_num_samples() == 0 ==> final(self).picture().data == frame
                &&& old(self).spec_num_samples() != 0 ==> forall|k: int|
                    0 <= k < frame@.len() ==> call_ensures(
                        mix,
                        (old(self).picture().data@[k], frame@[k], old(self).spec_num_samples()),
                        #[trigger] final(self).picture().data@[k],
                    )
                &&& keeps_equal(mix) && frame@ == old(self).picture().data@ ==> frame@ == final(
                    self
                ).picture().data@
            },
    {
        let n: usize = self.image.data.len();
        if frame.len() != n {
            return Some(frame);
        }
        if self.num_samples == 0 {
            self.image.data = frame;
        } else {
            let mut k: usize = 0;
            while k < n
                invariant
                    k <= n,
                    n == frame@.len(),
                    n == self.image.data@.len(),
                    self.image.data@.len() == old(self).image.data@.len(),
                    self.image.width == old(self).image.width,
                    self.image.height == old(self).image.height,
                    self.width == old(self).width,
                    self.height == old(self).height,
                    self.max_ray_depth == old(self).max_ray_depth,
                    self.num_samples == old(self).num_samples,
                    forall|before: u32, fresh: u32, count: usize|
                        call_requires(mix, (before, fresh, count)),
                    forall|m: int|
                        0 <= m < k ==> call_ensures(
                            mix,
                            (old(self).image.data@[m], frame@[m], self.num_samples),
                            #[trigger] self.image.data@[m],
                        ),
                    forall|m: int| k <= m < n ==> self.image.data@[m] == old(self).image.data@[m],
                decreases n - k,
            {
                let mixed: u32 = mix(self.image.data[k], frame[k], self.num_samples);
                self.image.data.set(k, mixed);
                k = k + 1;
            }
        }
        self.num_samples = self.num_samples + 1;
        None
    }
}

} // verus!

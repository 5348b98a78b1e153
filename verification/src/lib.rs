//! The core of a path tracer: the tree of boxes that finds what a ray
//! strikes, the pools of textures and materials, the rules by which a ray is
//! scattered, and the passes that fold samples into a picture.
//!
//! A number is carried as the pattern of a single-precision float. The
//! library compares and negates such numbers exactly; sums, products, roots
//! and sines are handed in by the caller as functions, and every contract
//! says what is done with whatever those functions give.

pub mod bounds;
pub mod bvh;
pub mod image;
pub mod key;
pub mod material;
pub mod noise;
pub mod pool;
pub mod primative;
pub mod render;
pub mod scalar;
pub mod shape;
pub mod texture;
pub mod vector;
pub mod world;

pub use bounds::{BoundingBox, Slabs};
pub use bvh::{Bvh, Hit};
pub use image::{Image, Rgba};
pub use key::{MaterialKey, TextureKey};
pub use material::{
    dielectric_scatter, lambertian_scatter, metal_scatter, Material, Optics, Reflection,
    Refraction, ScatterResult,
};
pub use noise::{Cell, Noise, PerlinData, Waves};
pub use pool::Pool;
pub use primative::{
    check_indices, index_triples, sphere_root, triangle_accepts, Crossing, Geometry, Mesh,
    Primative, Roots, Sphere, Strike, Triangle,
};
pub use render::{ParallelRenderer, ProgressiveRenderer};
pub use scalar::Scalar;
pub use shape::{get_face, Face, HitRecord, Hittable, Ray};
pub use texture::{textures_nest, Texture};
pub use vector::{near_zero, Vec3};
pub use world::{Scene, Trace, World, WorldBuilder};

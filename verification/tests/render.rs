//! Materials, textures and the integrator end to end.

use std::sync::Arc;

use rand::SeedableRng;

use pathtracer::bvh::BVHNode;
use pathtracer::light::DiffuseLight;
use pathtracer::material::{Dielectric, Lambert, Material, Metal};
use pathtracer::ray::Ray;
use pathtracer::sphere::Sphere;
use pathtracer::texture::{CheckerTex, ImageTex, SolidColorTex, Texture, UVDebugTex};
use pathtracer::trace::trace_ray;
use pathtracer::traceable::{RayHit, Traceable};
use pathtracer::vec3::Vec3;
use pathtracer::world::World;

const ONE: i64 = 65536;

fn hit_at(p: Vec3, normal: Vec3, u: i64, v: i64, front_face: bool) -> RayHit {
    RayHit {
        p,
        normal,
        t: ONE,
        u,
        v,
        front_face,
        material: Arc::new(Material::Solid(pathtracer::material::SolidColor {
            color: Vec3::new(ONE, ONE, ONE),
        })),
    }
}

#[test]
fn solid_texture_samples_its_color() {
    let t = SolidColorTex::new(ONE / 2, ONE / 4, ONE / 8);
    let hit = hit_at(Vec3::zero(), Vec3::up(), 0, 0, true);
    assert_eq!(t.sample(&hit), Vec3::new(ONE / 2, ONE / 4, ONE / 8));
}

#[test]
fn uv_texture_shows_coordinates() {
    let t = UVDebugTex {};
    let hit = hit_at(Vec3::zero(), Vec3::up(), ONE / 4, ONE / 2, true);
    assert_eq!(t.sample(&hit), Vec3::new(ONE / 4, ONE / 2, 0));
}

#[test]
fn checker_alternates_between_cells() {
    let t = CheckerTex {
        color1: Vec3::new(ONE, 0, 0),
        color2: Vec3::new(0, ONE, 0),
        scale: ONE,
    };
    // pi/2 ~ 102943: sin positive in (0, pi), negative in (pi, 2 pi)
    let inside_first = hit_at(Vec3::new(102943, 102943, 102943), Vec3::up(), 0, 0, true);
    let inside_second = hit_at(Vec3::new(102943 * 3, 102943, 102943), Vec3::up(), 0, 0, true);
    let a = t.sample(&inside_first);
    let b = t.sample(&inside_second);
    assert_ne!(a, b);
}

#[test]
fn image_texture_picks_nearest_pixel() {
    // a 2 x 1 raster: red then blue
    let rgba = vec![255u8, 0, 0, 255, 0, 0, 255, 255];
    let t = ImageTex::new(2, 1, rgba);
    let left = hit_at(Vec3::zero(), Vec3::up(), 0, 0, true);
    let right = hit_at(Vec3::zero(), Vec3::up(), ONE - 1, 0, true);
    assert_eq!(t.sample(&left), Vec3::new(ONE, 0, 0));
    assert_eq!(t.sample(&right), Vec3::new(0, 0, ONE));
}

#[test]
fn metal_bounce_never_points_into_surface() {
    let m = Metal { albedo: Vec3::new(ONE, ONE, ONE), roughness: ONE / 2 };
    let mut rng = rand::rngs::StdRng::seed_from_u64(11);
    let hit = hit_at(Vec3::zero(), Vec3::up(), 0, 0, true);
    let incoming = Ray::new(Vec3::new(0, 2 * ONE, 0), Vec3::new(0, -ONE, ONE / 8).unit_vector());
    for _ in 0..64 {
        let res = m.bsdf(&incoming, &hit, &mut rng);
        if let Some(b) = res.bounce {
            assert!(b.dir.dot(hit.normal) > 0);
        }
    }
}

#[test]
fn dielectric_always_bounces() {
    let m = Dielectric { albedo: Vec3::new(ONE, ONE, ONE), ior: 3 * ONE / 2 };
    let mut rng = rand::rngs::StdRng::seed_from_u64(13);
    let hit = hit_at(Vec3::zero(), Vec3::up(), 0, 0, true);
    let incoming = Ray::new(Vec3::new(0, 2 * ONE, 0), Vec3::new(ONE / 4, -ONE, 0).unit_vector());
    for _ in 0..64 {
        let res = m.bsdf(&incoming, &hit, &mut rng);
        let b = res.bounce.expect("a dielectric always continues the path");
        assert_eq!(b.origin, hit.p);
        assert!(b.dir.length_squared() > 0);
    }
}

#[test]
fn light_never_bounces() {
    let m = DiffuseLight::color(Vec3::new(ONE, ONE, ONE), 5 * ONE);
    let hit = hit_at(Vec3::zero(), Vec3::up(), 0, 0, true);
    let incoming = Ray::new(Vec3::new(0, 2 * ONE, 0), Vec3::new(0, -ONE, 0));
    let res = m.bsdf(&incoming, &hit);
    assert!(res.bounce.is_none());
    assert_eq!(res.emissive, Vec3::new(5 * ONE, 5 * ONE, 5 * ONE));
    assert_eq!(res.diffuse, Vec3::new(5 * ONE, 5 * ONE, 5 * ONE));
}

#[test]
fn smooth_metal_always_reflects_outward_rays() {
    let m = Metal { albedo: Vec3::new(ONE, ONE, ONE), roughness: 0 };
    let mut rng = rand::rngs::StdRng::seed_from_u64(17);
    let hit = hit_at(Vec3::zero(), Vec3::up(), 0, 0, true);
    let incoming = Ray::new(Vec3::new(0, 2 * ONE, 0), Vec3::new(0, -ONE, 0));
    let res = m.bsdf(&incoming, &hit, &mut rng);
    let b = res.bounce.expect("a smooth outward reflection is always kept");
    assert_eq!(b.dir, Vec3::new(0, ONE, 0));
}

#[test]
fn trace_depth_zero_is_black() {
    let mut world = World::new();
    world.add(Arc::new(Traceable::Sphere(Sphere::new(
        Vec3::new(0, 0, -3 * ONE),
        ONE,
        Arc::new(Material::Light(DiffuseLight::color(Vec3::new(ONE, ONE, ONE), 10 * ONE))),
    ))));
    let scene = Traceable::World(world);
    let mut rng = rand::rngs::StdRng::seed_from_u64(3);
    let r = Ray::new(Vec3::zero(), Vec3::new(0, 0, -ONE));
    let c = trace_ray(&r, &scene, 0, &Vec3::new(ONE, ONE, ONE), &mut rng);
    assert_eq!(c, Vec3::zero());
}

#[test]
fn trace_empty_world_is_background() {
    let scene = Traceable::World(World::new());
    let background = Vec3::new(ONE / 2, ONE / 4, ONE / 8);
    let mut rng = rand::rngs::StdRng::seed_from_u64(3);
    for dir in [Vec3::new(0, 0, -ONE), Vec3::new(ONE, ONE, 0), Vec3::new(-ONE, 0, ONE)] {
        let c = trace_ray(&Ray::new(Vec3::zero(), dir), &scene, 8, &background, &mut rng);
        assert_eq!(c, background);
    }
}

#[test]
fn lit_side_outshines_shadowed_side() {
    // a unit emissive sphere above a diffuse unit ground sphere
    let mut world = World::new();
    world.add(Arc::new(Traceable::Sphere(Sphere::new(
        Vec3::new(0, 3 * ONE, 0),
        ONE,
        Arc::new(Material::Light(DiffuseLight::color(Vec3::new(ONE, ONE, ONE), 20 * ONE))),
    ))));
    world.add(Arc::new(Traceable::Sphere(Sphere::new(
        Vec3::zero(),
        ONE,
        Arc::new(Material::Lambert(Lambert::color(ONE / 2, ONE / 2, ONE / 2))),
    ))));
    let mut rng = rand::rngs::StdRng::seed_from_u64(5);
    let tree = BVHNode::build(&world, &mut rng).expect("build must succeed");
    let scene = Traceable::Bvh(tree);
    let background = Vec3::zero();

    // one sample per ray, two bounce levels
    let mut lit: i64 = 0;
    let mut shadowed: i64 = 0;
    for i in -6..7i64 {
        for j in -6..7i64 {
            let jitter = Vec3::new(i * ONE / 32, j * ONE / 32, 0);
            // from above, at the side the light faces
            let from_top = Ray::new(
                Vec3::new(0, 2 * ONE, 0).add(jitter),
                Vec3::new(i * ONE / 64, -ONE, j * ONE / 64).unit_vector(),
            );
            let c = trace_ray(&from_top, &scene, 2, &background, &mut rng);
            lit += c.x + c.y + c.z;
            // from below, at the self-occluded side
            let from_bottom = Ray::new(
                Vec3::new(0, -3 * ONE, 0).add(jitter),
                Vec3::new(i * ONE / 64, ONE, j * ONE / 64).unit_vector(),
            );
            let c = trace_ray(&from_bottom, &scene, 2, &background, &mut rng);
            shadowed += c.x + c.y + c.z;
        }
    }
    assert!(lit > shadowed, "lit = {}, shadowed = {}", lit, shadowed);
}

#[test]
fn direct_light_hit_is_exactly_its_emission() {
    let mut world = World::new();
    world.add(Arc::new(Traceable::Sphere(Sphere::new(
        Vec3::new(0, 0, -3 * ONE),
        ONE,
        Arc::new(Material::Light(DiffuseLight::color(Vec3::new(ONE, ONE, ONE), 5 * ONE))),
    ))));
    let scene = Traceable::World(world);
    let mut rng = rand::rngs::StdRng::seed_from_u64(9);
    let r = Ray::new(Vec3::zero(), Vec3::new(0, 0, -ONE));
    let c = trace_ray(&r, &scene, 1, &Vec3::zero(), &mut rng);
    assert_eq!(c, Vec3::new(5 * ONE, 5 * ONE, 5 * ONE));
}

#[test]
fn grazing_dielectric_always_reflects() {
    let m = Dielectric { albedo: Vec3::new(ONE, ONE, ONE), ior: 3 * ONE / 2 };
    let mut rng = rand::rngs::StdRng::seed_from_u64(19);
    let hit = hit_at(Vec3::zero(), Vec3::up(), 0, 0, true);
    // incidence exactly along the surface: reflectance is one, so
    // every draw reflects
    let incoming = Ray::new(Vec3::new(-2 * ONE, 0, 0), Vec3::new(ONE, 0, 0));
    for _ in 0..64 {
        let res = m.bsdf(&incoming, &hit, &mut rng);
        let b = res.bounce.expect("a dielectric always continues the path");
        assert_eq!(b.dir, Vec3::new(ONE, 0, 0));
    }
}

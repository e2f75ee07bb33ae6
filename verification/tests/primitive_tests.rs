use raytracer::cube::{check_axis, Cube};
use raytracer::cylinder::Cylinder;
use raytracer::matrix::{Matrix, Matrix2};
use raytracer::plane::Plane;
use raytracer::point::Point;
use raytracer::ray::Ray;
use raytracer::scalar::Scalar;
use raytracer::shape::{LocalShape, Shape};
use raytracer::sphere::Sphere;
use raytracer::transform::{translation, Affine};
use raytracer::vector::Vector;

/// The double that a scalar holds.
#[allow(dead_code)]
fn f(x: Scalar) -> f64 {
    f64::from_bits(x.to_bits())
}

/// The scalar that holds a double.
#[allow(dead_code)]
fn s(x: f64) -> Scalar {
    Scalar::from_bits(x.to_bits())
}

/// The comparison tolerance, which is the library's.
#[allow(dead_code)]
fn epsilon() -> f64 {
    f(Scalar::epsilon())
}

#[allow(dead_code)]
fn vector(x: f64, y: f64, z: f64) -> Vector {
    Vector::new(s(x), s(y), s(z))
}

#[allow(dead_code)]
fn dot(a: &Vector, b: &Vector) -> f64 {
    f(a.x) * f(b.x) + f(a.y) * f(b.y) + f(a.z) * f(b.z)
}

#[allow(dead_code)]
fn magnitude(v: &Vector) -> f64 {
    dot(v, v).sqrt()
}

#[allow(dead_code)]
fn normalize(v: &Vector) -> Vector {
    divided(v, magnitude(v))
}

#[allow(dead_code)]
fn cross(a: &Vector, b: &Vector) -> Vector {
    vector(
        f(a.y) * f(b.z) - f(a.z) * f(b.y),
        f(a.z) * f(b.x) - f(a.x) * f(b.z),
        f(a.x) * f(b.y) - f(a.y) * f(b.x),
    )
}

/// `a - b`.
#[allow(dead_code)]
fn difference(a: &Vector, b: &Vector) -> Vector {
    vector(f(a.x) - f(b.x), f(a.y) - f(b.y), f(a.z) - f(b.z))
}

/// `v * k`.
#[allow(dead_code)]
fn scaled(v: &Vector, k: f64) -> Vector {
    vector(f(v.x) * k, f(v.y) * k, f(v.z) * k)
}

/// `v / k`.
#[allow(dead_code)]
fn divided(v: &Vector, k: f64) -> Vector {
    vector(f(v.x) / k, f(v.y) / k, f(v.z) / k)
}

/// The direction `incoming` leaves in after it is mirrored at a surface
/// with the given normal.
#[allow(dead_code)]
fn reflect(incoming: &Vector, normal: &Vector) -> Vector {
    difference(incoming, &scaled(normal, 2.0 * dot(incoming, normal)))
}

#[allow(dead_code)]
fn point(x: f64, y: f64, z: f64) -> Point {
    Point::new(s(x), s(y), s(z))
}

/// `p + v`.
#[allow(dead_code)]
fn moved(p: &Point, v: &Vector) -> Point {
    point(f(p.x) + f(v.x), f(p.y) + f(v.y), f(p.z) + f(v.z))
}

/// `p - v`.
#[allow(dead_code)]
fn moved_back(p: &Point, v: &Vector) -> Point {
    point(f(p.x) - f(v.x), f(p.y) - f(v.y), f(p.z) - f(v.z))
}

/// `to - from`: the way from one point to another.
#[allow(dead_code)]
fn displacement(to: &Point, from: &Point) -> Vector {
    vector(f(to.x) - f(from.x), f(to.y) - f(from.y), f(to.z) - f(from.z))
}

#[allow(dead_code)]
fn matrix(rows: [[f64; 3]; 3]) -> Matrix {
    Matrix::new(rows.map(|row| row.map(s)))
}

#[allow(dead_code)]
fn entry(m: &Matrix, i: usize, j: usize) -> f64 {
    f(m.at(i, j))
}

/// `a * b`.
#[allow(dead_code)]
fn matrix_product(a: &Matrix, b: &Matrix) -> Matrix {
    let mut rows = [[0f64; 3]; 3];
    for i in 0..3 {
        for j in 0..3 {
            rows[i][j] = entry(a, i, 0) * entry(b, 0, j)
                + entry(a, i, 1) * entry(b, 1, j)
                + entry(a, i, 2) * entry(b, 2, j);
        }
    }
    matrix(rows)
}

/// `m * v`.
#[allow(dead_code)]
fn matrix_times_vector(m: &Matrix, v: &Vector) -> Vector {
    let (x, y, z) = (f(v.x), f(v.y), f(v.z));
    vector(
        entry(m, 0, 0) * x + entry(m, 0, 1) * y + entry(m, 0, 2) * z,
        entry(m, 1, 0) * x + entry(m, 1, 1) * y + entry(m, 1, 2) * z,
        entry(m, 2, 0) * x + entry(m, 2, 1) * y + entry(m, 2, 2) * z,
    )
}

/// `m * p`.
#[allow(dead_code)]
fn matrix_times_point(m: &Matrix, p: &Point) -> Point {
    let (x, y, z) = (f(p.x), f(p.y), f(p.z));
    point(
        entry(m, 0, 0) * x + entry(m, 0, 1) * y + entry(m, 0, 2) * z,
        entry(m, 1, 0) * x + entry(m, 1, 1) * y + entry(m, 1, 2) * z,
        entry(m, 2, 0) * x + entry(m, 2, 1) * y + entry(m, 2, 2) * z,
    )
}

#[allow(dead_code)]
fn determinant2(m: &Matrix2) -> f64 {
    f(m.elems[0][0]) * f(m.elems[1][1]) - f(m.elems[1][0]) * f(m.elems[0][1])
}

/// The determinant of what is left without row `i` and column `j`.
#[allow(dead_code)]
fn minor(m: &Matrix, i: usize, j: usize) -> f64 {
    assert!(i < 3 && j < 3, "index out of bounds");
    determinant2(&m.submatrix(i, j))
}

#[allow(dead_code)]
fn cofactor(m: &Matrix, i: usize, j: usize) -> f64 {
    f(Matrix::cofactor(i, j, s(minor(m, i, j))))
}

#[allow(dead_code)]
fn determinant(m: &Matrix) -> f64 {
    entry(m, 0, 0) * cofactor(m, 0, 0)
        + entry(m, 0, 1) * cofactor(m, 0, 1)
        + entry(m, 0, 2) * cofactor(m, 0, 2)
}

/// The inverse, or `None` where the determinant is zero up to the tolerance.
#[allow(dead_code)]
fn matrix_inverse(m: &Matrix) -> Option<Matrix> {
    let det = determinant(m);
    let mut quotients = [[0f64; 3]; 3];
    for i in 0..3 {
        for j in 0..3 {
            quotients[i][j] = cofactor(m, i, j) / det;
        }
    }
    Matrix::inverse(s(det), &matrix(quotients))
}

/// The inverse map, or `None` where the linear part has none.
#[allow(dead_code)]
fn affine_inverse(a: &Affine) -> Option<Affine> {
    matrix_inverse(&a.transform).map(|inverse| {
        Affine::new(inverse, matrix_times_vector(&inverse, &a.translate).neg())
    })
}

/// Where the map takes a point.
#[allow(dead_code)]
fn apply_to_point(a: &Affine, p: &Point) -> Point {
    moved(&matrix_times_point(&a.transform, p), &a.translate)
}

/// Where the map takes a vector: the translation does not move it.
#[allow(dead_code)]
fn apply_to_vector(a: &Affine, v: &Vector) -> Vector {
    matrix_times_vector(&a.transform, v)
}

/// The map that applies `second` after `first`: `second * first`.
#[allow(dead_code)]
fn compose(second: &Affine, first: &Affine) -> Affine {
    let moved_translate = matrix_times_vector(&second.transform, &first.translate);
    Affine::new(
        matrix_product(&second.transform, &first.transform),
        vector(
            f(moved_translate.x) + f(second.translate.x),
            f(moved_translate.y) + f(second.translate.y),
            f(moved_translate.z) + f(second.translate.z),
        ),
    )
}

#[allow(dead_code)]
fn rotation_x(r: f64) -> Affine {
    let cr = r.cos();
    let sr = r.sin();
    Affine::new(matrix([[1.0, 0.0, 0.0], [0.0, cr, -sr], [0.0, sr, cr]]), Vector::zero())
}

#[allow(dead_code)]
fn rotation_y(r: f64) -> Affine {
    let cr = r.cos();
    let sr = r.sin();
    Affine::new(matrix([[cr, 0.0, sr], [0.0, 1.0, 0.0], [-sr, 0.0, cr]]), Vector::zero())
}

#[allow(dead_code)]
fn rotation_z(r: f64) -> Affine {
    let cr = r.cos();
    let sr = r.sin();
    Affine::new(matrix([[cr, -sr, 0.0], [sr, cr, 0.0], [0.0, 0.0, 1.0]]), Vector::zero())
}

/// The map that takes the world to what an eye at `from` sees when it
/// looks at `to` with `up` above it.
#[allow(dead_code)]
fn view_transform(from: &Point, to: &Point, up: &Vector) -> Affine {
    let forward = normalize(&displacement(to, from));
    let upn = normalize(up);
    let left = cross(&forward, &upn);
    let true_up = cross(&left, &forward);
    let orientation = Affine::new(
        matrix([
            [f(left.x), f(left.y), f(left.z)],
            [f(true_up.x), f(true_up.y), f(true_up.z)],
            [-f(forward.x), -f(forward.y), -f(forward.z)],
        ]),
        Vector::zero(),
    );
    compose(&orientation, &translation(from.x.neg(), from.y.neg(), from.z.neg()))
}

/// The point of the ray at parameter `t`.
#[allow(dead_code)]
fn position(ray: &Ray, t: f64) -> Point {
    moved(&ray.origin, &scaled(&ray.direction, t))
}

/// The ray as the map sees it.
#[allow(dead_code)]
fn transform(ray: &Ray, map: &Affine) -> Ray {
    Ray::new(apply_to_point(map, &ray.origin), apply_to_vector(map, &ray.direction))
}

/// The shape placed by `transform`. Panics where the map has no inverse.
#[allow(dead_code)]
fn placed(shape: Shape, transform: &Affine) -> Shape {
    shape.set_transform(affine_inverse(transform)).expect("the transform has no inverse")
}

#[allow(dead_code)]
fn sphere_roots(sphere: &Sphere, ray: &Ray) -> Vec<Scalar> {
    let (ox, oy, oz) = (f(ray.origin.x), f(ray.origin.y), f(ray.origin.z));
    let (dx, dy, dz) = (f(ray.direction.x), f(ray.direction.y), f(ray.direction.z));
    let a = dx * dx + dy * dy + dz * dz;
    let b = 2.0 * (dx * ox + dy * oy + dz * oz);
    let c = (ox * ox + oy * oy + oz * oz) - 1.0;
    let discriminant = b * b - 4.0 * a * c;
    let root = discriminant.sqrt();
    let t1 = (-b - root) / (2.0 * a);
    let t2 = (-b + root) / (2.0 * a);
    sphere.local_intersect(s(discriminant), s(t1), s(t2))
}

#[allow(dead_code)]
fn plane_roots(plane: &Plane, ray: &Ray) -> Vec<Scalar> {
    let t = -f(ray.origin.y) / f(ray.direction.y);
    plane.local_intersect(ray.direction.y, s(t))
}

#[allow(dead_code)]
fn slab(origin: f64, direction: f64) -> (Scalar, Scalar) {
    // A direction of zero gives infinities, which order as they should.
    (s((-1.0 - origin) / direction), s((1.0 - origin) / direction))
}

#[allow(dead_code)]
fn cube_roots(cube: &Cube, ray: &Ray) -> Vec<Scalar> {
    cube.local_intersect(
        slab(f(ray.origin.x), f(ray.direction.x)),
        slab(f(ray.origin.y), f(ray.direction.y)),
        slab(f(ray.origin.z), f(ray.direction.z)),
    )
}

#[allow(dead_code)]
fn cylinder_roots(cylinder: &Cylinder, ray: &Ray) -> Vec<Scalar> {
    let (ox, oz) = (f(ray.origin.x), f(ray.origin.z));
    let (dx, dz) = (f(ray.direction.x), f(ray.direction.z));
    let a = dx * dx + dz * dz;
    let b = 2.0 * (ox * dx + oz * dz);
    let c = ox * ox + oz * oz - 1.0;
    let disc = b * b - 4.0 * a * c;
    let t1 = (-b - disc.sqrt()) / (2.0 * a);
    let t2 = (-b + disc.sqrt()) / (2.0 * a);
    cylinder.local_intersect(s(a), s(disc), s(t1), s(t2))
}

/// The roots of a ray with a primitive, both in the primitive's own space.
#[allow(dead_code)]
fn local_intersect(local_shape: &LocalShape, ray: &Ray) -> Vec<Scalar> {
    match local_shape {
        LocalShape::Sphere(sphere) => sphere_roots(sphere, ray),
        LocalShape::Plane(plane) => plane_roots(plane, ray),
        LocalShape::Cube(cube) => cube_roots(cube, ray),
        LocalShape::Cylinder(cylinder) => cylinder_roots(cylinder, ray),
    }
}

/// The roots of a ray of world space with a shape.
#[allow(dead_code)]
fn shape_intersect(shape: &Shape, ray: &Ray) -> Vec<Scalar> {
    let ray = transform(ray, shape.get_inverse_transform());
    local_intersect(&shape.local_shape, &ray)
}

/// The unit normal of a shape at a point of world space.
#[allow(dead_code)]
fn normal_at(shape: &Shape, point: &Point) -> Vector {
    let inverse = shape.get_inverse_transform();
    let local_point = apply_to_point(inverse, point);
    let local_normal = shape.local_normal_at(&local_point);
    let world_normal = matrix_times_vector(&inverse.get_transform().transpose(), &local_normal);
    normalize(&world_normal)
}

fn ray(origin: [f64; 3], direction: [f64; 3]) -> Ray {
    Ray::new(
        point(origin[0], origin[1], origin[2]),
        vector(direction[0], direction[1], direction[2]),
    )
}

fn roots(kind: LocalShape, origin: [f64; 3], direction: [f64; 3]) -> Vec<f64> {
    local_intersect(&kind, &ray(origin, direction)).into_iter().map(f).collect()
}

fn components(v: Vector) -> [f64; 3] {
    [f(v.x), f(v.y), f(v.z)]
}

fn close(got: &[f64], want: &[f64]) -> bool {
    got.len() == want.len() && got.iter().zip(want).all(|(a, b)| (a - b).abs() < epsilon())
}

fn normalized(v: [f64; 3]) -> [f64; 3] {
    components(normalize(&vector(v[0], v[1], v[2])))
}

#[test]
fn test_a_ray_intersects_a_sphere_at_two_points() {
    let xs = roots(LocalShape::Sphere(Sphere::new()), [0.0, 0.0, -5.0], [0.0, 0.0, 1.0]);
    assert!(close(&xs, &[4.0, 6.0]));
}

#[test]
fn test_a_ray_intersects_a_sphere_at_a_tangent() {
    let xs = roots(LocalShape::Sphere(Sphere::new()), [0.0, 1.0, -5.0], [0.0, 0.0, 1.0]);
    assert!(close(&xs, &[5.0, 5.0]));
}

#[test]
fn test_a_ray_misses_a_sphere() {
    let xs = roots(LocalShape::Sphere(Sphere::new()), [0.0, 2.0, -5.0], [0.0, 0.0, 1.0]);
    assert!(close(&xs, &[]));
}

#[test]
fn test_a_ray_originates_inside_a_sphere() {
    let xs = roots(LocalShape::Sphere(Sphere::new()), [0.0, 0.0, 0.0], [0.0, 0.0, 1.0]);
    assert!(close(&xs, &[-1.0, 1.0]));
}

#[test]
fn test_a_ray_is_behind_a_sphere() {
    let xs = roots(LocalShape::Sphere(Sphere::new()), [0.0, 0.0, 5.0], [0.0, 0.0, 1.0]);
    assert!(close(&xs, &[-6.0, -4.0]));
}

#[test]
fn test_the_normal_on_a_sphere_at_a_point_on_the_x_axis() {
    let n = Sphere::new().local_normal_at(&point(1.0, 0.0, 0.0));
    assert!(close(&normalized(components(n)), &[1.0, 0.0, 0.0]));
}

#[test]
fn test_the_normal_on_a_sphere_at_a_point_on_the_y_axis() {
    let n = Sphere::new().local_normal_at(&point(0.0, 1.0, 0.0));
    assert!(close(&normalized(components(n)), &[0.0, 1.0, 0.0]));
}

#[test]
fn test_the_normal_on_a_sphere_at_a_point_on_the_z_axis() {
    let n = Sphere::new().local_normal_at(&point(0.0, 0.0, 1.0));
    assert!(close(&normalized(components(n)), &[0.0, 0.0, 1.0]));
}

#[test]
fn test_the_normal_on_a_sphere_at_a_nonaxial_point() {
    let c = 3f64.sqrt() / 3.0;
    let n = Sphere::new().local_normal_at(&point(c, c, c));
    assert!(close(&normalized(components(n)), &[c, c, c]));
}

#[test]
fn test_the_normal_of_a_plane_is_constant_everywhere() {
    let p = Plane::new();
    assert_eq!(components(p.local_normal_at(&point(0.0, 0.0, 0.0))), [0.0, 1.0, 0.0]);
    assert_eq!(components(p.local_normal_at(&point(10.0, 0.0, -10.0))), [0.0, 1.0, 0.0]);
    assert_eq!(components(p.local_normal_at(&point(-5.0, 0.0, 150.0))), [0.0, 1.0, 0.0]);
}

#[test]
fn test_intersect_with_a_ray_parallel_to_the_plane() {
    let xs = roots(LocalShape::Plane(Plane::new()), [0.0, 10.0, 0.0], [0.0, 0.0, 1.0]);
    assert_eq!(xs.len(), 0);
}

#[test]
fn test_intersect_with_a_coplanar_ray() {
    let xs = roots(LocalShape::Plane(Plane::new()), [0.0, 0.0, 0.0], [0.0, 0.0, 1.0]);
    assert_eq!(xs.len(), 0);
}

#[test]
fn test_a_ray_intersecting_a_plane_from_above() {
    let xs = roots(LocalShape::Plane(Plane::new()), [0.0, 1.0, 0.0], [0.0, -1.0, 0.0]);
    assert!(close(&xs, &[1.0]));
}

#[test]
fn test_a_ray_intersecting_a_plane_from_below() {
    let xs = roots(LocalShape::Plane(Plane::new()), [0.0, -1.0, 0.0], [0.0, 1.0, 0.0]);
    assert!(close(&xs, &[1.0]));
}

#[test]
fn a_ray_just_inside_the_tolerance_is_parallel_to_the_plane() {
    assert_eq!(roots(LocalShape::Plane(Plane::new()), [0.0, 1.0, 0.0], [0.0, 0.000009, 1.0]).len(), 0);
    assert_eq!(roots(LocalShape::Plane(Plane::new()), [0.0, 1.0, 0.0], [0.0, -0.000009, 1.0]).len(), 0);
    assert_eq!(roots(LocalShape::Plane(Plane::new()), [0.0, 1.0, 0.0], [0.0, 0.00001, 1.0]).len(), 1);
    assert_eq!(roots(LocalShape::Plane(Plane::new()), [0.0, 1.0, 0.0], [0.0, -0.00001, 1.0]).len(), 1);
}

#[test]
fn test_a_ray_intersects_a_cube() {
    assert!(close(&roots(LocalShape::Cube(Cube::new()), [5.0, 0.5, 0.0], [-1.0, 0.0, 0.0]), &[4.0, 6.0]));
    assert!(close(&roots(LocalShape::Cube(Cube::new()), [-5.0, 0.5, 0.0], [1.0, 0.0, 0.0]), &[4.0, 6.0]));
    assert!(close(&roots(LocalShape::Cube(Cube::new()), [0.5, 5.0, 0.0], [0.0, -1.0, 0.0]), &[4.0, 6.0]));
    assert!(close(&roots(LocalShape::Cube(Cube::new()), [0.5, -5.0, 0.0], [0.0, 1.0, 0.0]), &[4.0, 6.0]));
    assert!(close(&roots(LocalShape::Cube(Cube::new()), [0.5, 0.0, 5.0], [0.0, 0.0, -1.0]), &[4.0, 6.0]));
    assert!(close(&roots(LocalShape::Cube(Cube::new()), [0.5, 0.0, -5.0], [0.0, 0.0, 1.0]), &[4.0, 6.0]));
    assert!(close(&roots(LocalShape::Cube(Cube::new()), [0.0, 0.5, 0.0], [0.0, 0.0, 1.0]), &[-1.0, 1.0]));
}

#[test]
fn test_a_ray_misses_a_cube() {
    assert!(close(&roots(LocalShape::Cube(Cube::new()), [-2.0, 0.0, 0.0], [0.2673, 0.5345, 0.8018]), &[]));
    assert!(close(&roots(LocalShape::Cube(Cube::new()), [0.0, -2.0, 0.0], [0.8018, 0.2673, 0.5345]), &[]));
    assert!(close(&roots(LocalShape::Cube(Cube::new()), [0.0, 0.0, -2.0], [0.5345, 0.8018, 0.2673]), &[]));
    assert!(close(&roots(LocalShape::Cube(Cube::new()), [2.0, 0.0, 2.0], [0.0, 0.0, -1.0]), &[]));
    assert!(close(&roots(LocalShape::Cube(Cube::new()), [0.0, 2.0, 2.0], [0.0, -1.0, 0.0]), &[]));
    assert!(close(&roots(LocalShape::Cube(Cube::new()), [2.0, 2.0, 0.0], [-1.0, 0.0, 0.0]), &[]));
}

#[test]
fn test_the_normal_on_the_surface_of_a_cube() {
    let c = Cube::new();
    assert_eq!(components(c.local_normal_at(&point(1.0, 0.5, -0.8))), [1.0, 0.0, 0.0]);
    assert_eq!(components(c.local_normal_at(&point(-1.0, -0.2, 0.9))), [-1.0, 0.0, 0.0]);
    assert_eq!(components(c.local_normal_at(&point(-0.4, 1.0, -0.1))), [0.0, 1.0, 0.0]);
    assert_eq!(components(c.local_normal_at(&point(0.3, -1.0, -0.7))), [0.0, -1.0, 0.0]);
    assert_eq!(components(c.local_normal_at(&point(-0.6, 0.3, 1.0))), [0.0, 0.0, 1.0]);
    assert_eq!(components(c.local_normal_at(&point(0.4, 0.4, -1.0))), [0.0, 0.0, -1.0]);
    assert_eq!(components(c.local_normal_at(&point(1.0, 1.0, 1.0))), [1.0, 0.0, 0.0]);
    assert_eq!(components(c.local_normal_at(&point(-1.0, -1.0, -1.0))), [-1.0, 0.0, 0.0]);
}

#[test]
fn the_cube_normal_breaks_ties_by_axis_order() {
    let c = Cube::new();
    assert_eq!(components(c.local_normal_at(&point(0.5, -1.0, 1.0))), [0.0, -1.0, 0.0]);
    assert_eq!(components(c.local_normal_at(&point(-1.0, 0.5, 1.0))), [-1.0, 0.0, 0.0]);
}

#[test]
fn check_axis_puts_the_lesser_first() {
    let (a, b) = check_axis(s(6.0), s(4.0));
    assert_eq!((f(a), f(b)), (4.0, 6.0));
    let (a, b) = check_axis(s(4.0), s(6.0));
    assert_eq!((f(a), f(b)), (4.0, 6.0));
    let (a, b) = check_axis(s(f64::INFINITY), s(f64::NEG_INFINITY));
    assert_eq!((f(a), f(b)), (f64::NEG_INFINITY, f64::INFINITY));
    let (a, b) = check_axis(s(f64::NAN), s(1.0));
    assert!(f(a).is_nan());
    assert_eq!(f(b), 1.0);
}

#[test]
fn a_ray_along_a_face_of_the_cube_is_decided_by_the_other_axes() {
    // origin on the plane x = 1, direction without x: the x slab gives 0/0 and an infinity
    assert!(close(&roots(LocalShape::Cube(Cube::new()), [1.0, 0.0, -5.0], [0.0, 0.0, 1.0]), &[4.0, 6.0]));
}

#[test]
fn test_a_ray_misses_a_cylinder() {
    assert!(roots(LocalShape::Cylinder(Cylinder::new()), [1.0, 0.0, 0.0], [0.0, 1.0, 0.0]).is_empty());
    assert!(roots(LocalShape::Cylinder(Cylinder::new()), [0.0, 0.0, 0.0], [0.0, 1.0, 0.0]).is_empty());
    assert!(roots(LocalShape::Cylinder(Cylinder::new()), [0.0, 0.0, -5.0], normalized([1.0, 1.0, 1.0])).is_empty());
}

#[test]
fn test_a_ray_strikes_a_cylinder() {
    assert!(close(&roots(LocalShape::Cylinder(Cylinder::new()), [1.0, 0.0, -5.0], [0.0, 0.0, 1.0]), &[5.0, 5.0]));
    assert!(close(&roots(LocalShape::Cylinder(Cylinder::new()), [0.0, 0.0, -5.0], [0.0, 0.0, 1.0]), &[4.0, 6.0]));
    assert!(close(
        &roots(LocalShape::Cylinder(Cylinder::new()), [0.5, 0.0, -5.0], normalized([0.1, 1.0, 1.0])),
        &[6.80798, 7.08872]
    ));
}

#[test]
fn test_normal_vector_on_a_cylinder() {
    let cyl = Cylinder::new();
    assert_eq!(components(cyl.local_normal_at(&point(1.0, 0.0, 0.0))), [1.0, 0.0, 0.0]);
    assert_eq!(components(cyl.local_normal_at(&point(0.0, 5.0, -1.0))), [0.0, 0.0, -1.0]);
    assert_eq!(components(cyl.local_normal_at(&point(0.0, -2.0, 1.0))), [0.0, 0.0, 1.0]);
    assert_eq!(components(cyl.local_normal_at(&point(-1.0, 1.0, 0.0))), [-1.0, 0.0, 0.0]);
}

#[test]
fn every_kind_gives_its_own_normal() {
    let p = point(0.25, -1.0, 0.5);
    assert_eq!(
        components(LocalShape::Sphere(Sphere::new()).local_normal_at(&p)),
        [0.25, -1.0, 0.5]
    );
    assert_eq!(components(LocalShape::Plane(Plane::new()).local_normal_at(&p)), [0.0, 1.0, 0.0]);
    assert_eq!(components(LocalShape::Cube(Cube::new()).local_normal_at(&p)), [0.0, -1.0, 0.0]);
    assert_eq!(
        components(LocalShape::Cylinder(Cylinder::new()).local_normal_at(&p)),
        [0.25, 0.0, 0.5]
    );
}



fn rays() -> Vec<([f64; 3], [f64; 3])> {
    let mut out = Vec::new();
    for origin in [[0.0, 0.0, -5.0], [0.3, 0.2, -4.0], [-0.5, 0.7, 3.0], [0.1, -0.9, 0.2], [2.0, 0.1, 0.4]] {
        for direction in [[0.0, 0.0, 1.0], [0.1, 0.05, 1.0], [-0.2, 0.1, -1.0], [-1.0, 0.02, -0.1]] {
            out.push((origin, normalized(direction)));
        }
    }
    out
}

#[test]
fn normals_where_rays_meet_round_shapes_have_unit_length() {
    let mut met = 0;
    for (origin, direction) in rays() {
        for t in roots(LocalShape::Sphere(Sphere::new()), origin, direction) {
            let n = Sphere::new().local_normal_at(&position(&ray(origin, direction), t));
            assert!((magnitude(&n) - 1.0).abs() < epsilon());
            met += 1;
        }
        for t in roots(LocalShape::Cylinder(Cylinder::new()), origin, direction) {
            let n = Cylinder::new().local_normal_at(&position(&ray(origin, direction), t));
            assert!((magnitude(&n) - 1.0).abs() < epsilon());
            met += 1;
        }
    }
    assert!(met >= 20);
}

#[test]
fn normals_where_rays_meet_flat_shapes_stand_on_an_axis() {
    let mut met = 0;
    for (origin, direction) in rays() {
        for t in roots(LocalShape::Cube(Cube::new()), origin, direction) {
            let n = components(Cube::new().local_normal_at(&position(&ray(origin, direction), t)));
            let zeros = n.iter().filter(|c| **c == 0.0).count();
            let ones = n.iter().filter(|c| (c.abs() - 1.0).abs() < epsilon()).count();
            assert_eq!((zeros, ones), (2, 1), "{:?}", n);
            met += 1;
        }
        for t in roots(LocalShape::Plane(Plane::new()), origin, direction) {
            let n = components(Plane::new().local_normal_at(&position(&ray(origin, direction), t)));
            assert_eq!(n, [0.0, 1.0, 0.0]);
            met += 1;
        }
    }
    assert!(met >= 20);
}

#[test]
fn the_cube_normal_is_a_unit_vector_wherever_the_point_lies() {
    let c = Cube::new();
    assert_eq!(components(c.local_normal_at(&point(2.0, 0.5, -0.3))), [1.0, 0.0, 0.0]);
    assert_eq!(components(c.local_normal_at(&point(-0.2, 0.1, 0.15))), [-1.0, 0.0, 0.0]);
    assert_eq!(components(c.local_normal_at(&point(0.5, -7.0, 3.0))), [0.0, -1.0, 0.0]);
    assert_eq!(components(c.local_normal_at(&point(0.5, 0.25, -1e300))), [0.0, 0.0, -1.0]);
    assert_eq!(
        components(c.local_normal_at(&point(f64::NEG_INFINITY, 1.0, 1.0))),
        [-1.0, 0.0, 0.0]
    );
}

#[test]
fn the_cube_normal_goes_by_the_sign_bit_of_a_zero_and_passes_over_a_nan() {
    let c = Cube::new();
    assert_eq!(components(c.local_normal_at(&point(0.0, 0.0, 0.0))), [1.0, 0.0, 0.0]);
    assert_eq!(components(c.local_normal_at(&point(-0.0, 0.0, 0.0))), [-1.0, 0.0, 0.0]);
    assert_eq!(components(c.local_normal_at(&point(f64::NAN, -0.5, 0.25))), [0.0, -1.0, 0.0]);
    assert_eq!(components(c.local_normal_at(&point(0.5, f64::NAN, 0.25))), [1.0, 0.0, 0.0]);
    assert_eq!(components(c.local_normal_at(&point(f64::NAN, f64::NAN, -2.0))), [0.0, 0.0, -1.0]);
    let all = c.local_normal_at(&point(f64::NAN, f64::NAN, f64::NAN));
    assert_eq!(components(all), [0.0, 0.0, 1.0]);
    for n in [all, c.local_normal_at(&point(0.0, 0.0, 0.0))] {
        assert!([n.x, n.y, n.z].iter().all(|k| !k.is_sign_negative() || f(*k) == -1.0));
    }
}

#[test]
fn the_sign_of_a_scalar_is_plus_or_minus_one() {
    assert_eq!(f(s(3.5).sign()), 1.0);
    assert_eq!(f(s(-3.5).sign()), -1.0);
    assert_eq!(f(s(0.0).sign()), 1.0);
    assert_eq!(f(s(-0.0).sign()), -1.0);
    assert_eq!(f(s(f64::INFINITY).sign()), 1.0);
    assert_eq!(f(s(f64::NEG_INFINITY).sign()), -1.0);
    assert_eq!(f(s(f64::NAN).sign()).abs(), 1.0);
}

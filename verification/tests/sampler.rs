// The rejection sampler: every draw lies inside the unit ball, and over
// many draws no octant is left empty.

use seek_flee::fixed::SCALE;
use seek_flee::vector::Vector;

#[test]
fn samples_stay_inside_the_unit_ball() {
    let mut v = Vector::new(0, 0, 0);
    for _ in 0..2000 {
        v.gen_random_vector();
        assert!(v.magnitude_squared() <= SCALE * SCALE);
        assert!(v.x.abs() <= SCALE && v.y.abs() <= SCALE && v.z.abs() <= SCALE);
    }
}

#[test]
fn samples_cover_every_octant() {
    let mut counts = [0u32; 8];
    let mut v = Vector::new(0, 0, 0);
    for _ in 0..4000 {
        v.gen_random_vector();
        let mut octant = 0;
        if v.x < 0 {
            octant += 1;
        }
        if v.y < 0 {
            octant += 2;
        }
        if v.z < 0 {
            octant += 4;
        }
        counts[octant] += 1;
    }
    for &c in counts.iter() {
        assert!(c > 0);
    }
}

use bezier::{lerp, unlerp, BezierT, Curve2, Curve3, Curve4, LinearCombination, Surface3};

/// A floating-point scalar and value, to run the curves with fractions.
#[derive(Copy, Clone, Debug, PartialEq)]
struct F(f64);

impl BezierT for F {
    fn pow(self, exp: i32) -> F {
        F(self.0.powi(exp))
    }
    fn comp(self) -> F {
        F(1.0 - self.0)
    }
    fn prod(self, coeff: i32) -> F {
        F(self.0 * coeff as f64)
    }
    fn mul(self, other: F) -> F {
        F(self.0 * other.0)
    }
}

impl LinearCombination<F> for F {
    fn linear_combination<const N: usize>(terms: [(F, F); N]) -> F {
        F(terms.into_iter().fold(0.0, |c, n| c + n.1 .0 * n.0 .0))
    }
}

impl std::ops::Add for F {
    type Output = F;
    fn add(self, o: F) -> F {
        F(self.0 + o.0)
    }
}

impl std::ops::Sub for F {
    type Output = F;
    fn sub(self, o: F) -> F {
        F(self.0 - o.0)
    }
}

const EPS: f64 = 1e-9;

#[test]
fn quadratic_midpoint() {
    assert_eq!(Curve2::new(F(0.0), F(1.0), F(2.0)).sample(F(0.5)), F(1.0));
}

#[test]
fn affine_examples() {
    assert_eq!(lerp(0.5, 10.0, 20.0), 15.0);
    assert_eq!(unlerp(15.0, 10.0, 20.0), 0.5);
}

#[test]
fn unlerp_of_equal_bounds_is_not_finite() {
    assert!(!unlerp(1.0f64, 2.0, 2.0).is_finite());
    assert!(unlerp(2.0f64, 2.0, 2.0).is_nan());
}

#[test]
fn lerp_round_trip() {
    for &(t, a, b) in &[(0.25, -3.0, 5.0), (1.5, 2.0, 7.5), (-0.75, 10.0, 1.0)] {
        let x: f64 = lerp(t, a, b);
        assert!((unlerp(x, a, b) - t).abs() < EPS);
    }
}

#[test]
fn fractional_endpoints_and_symmetry() {
    let c = Curve4::new(F(0.3), F(-1.2), F(2.5), F(4.0), F(-0.7));
    assert!((c.sample(F(0.0)).0 - 0.3).abs() < EPS);
    assert!((c.sample(F(1.0)).0 + 0.7).abs() < EPS);
    let r = Curve4::new(F(-0.7), F(4.0), F(2.5), F(-1.2), F(0.3));
    for t in [0.1, 0.35, 0.8] {
        assert!((c.sample(F(t)).0 - r.sample(F(1.0 - t)).0).abs() < EPS);
    }
}

#[test]
fn derivative_matches_central_difference() {
    let h = 1e-3;
    let c3 = Curve3::new(F(0.3), F(-1.2), F(2.5), F(4.0));
    let c4 = Curve4::new(F(0.3), F(-1.2), F(2.5), F(4.0), F(-0.7));
    for t in [0.1, 0.5, 0.9] {
        let central = (c3.sample(F(t + h)).0 - c3.sample(F(t - h)).0) / (2.0 * h);
        assert!((c3.ddt().sample(F(t)).0 - central).abs() < 1e-4);
        let central = (c4.sample(F(t + h)).0 - c4.sample(F(t - h)).0) / (2.0 * h);
        assert!((c4.ddt().sample(F(t)).0 - central).abs() < 1e-4);
    }
}

#[test]
fn fractional_patch_is_separable() {
    let g = [[0.1, 2.0, -3.0, 4.5], [5.0, 0.7, 1.1, -1.3], [-1.0, 6.2, 0.8, 1.7], [1.9, -2.3, 2.9, 3.1]];
    let row = |r: [f64; 4]| Curve3::new(F(r[0]), F(r[1]), F(r[2]), F(r[3]));
    let col = |j: usize| Curve3::new(F(g[0][j]), F(g[1][j]), F(g[2][j]), F(g[3][j]));
    let s = Surface3::new(row(g[0]), row(g[1]), row(g[2]), row(g[3]));
    for (t, u) in [(0.2, 0.7), (0.5, 0.5), (0.9, 0.1)] {
        let by_columns = Curve3::new(col(0).sample(F(u)), col(1).sample(F(u)), col(2).sample(F(u)), col(3).sample(F(u)));
        assert!((s.sample(F(t), F(u)).0 - by_columns.sample(F(t)).0).abs() < EPS);
    }
}

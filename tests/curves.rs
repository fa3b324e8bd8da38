use bezier::{Bezier, BezierT, Curve1, Curve2, Curve3, Curve4, LinearCombination, Surface2, Surface3};

#[test]
fn integer_powers_and_complement() {
    assert_eq!(BezierT::pow(3i64, 0), 1);
    assert_eq!(BezierT::pow(3i64, 4), 81);
    assert_eq!(BezierT::pow(-2i64, 3), -8);
    assert_eq!(3i64.comp(), -2);
    assert_eq!(3i64.prod(4), 12);
    assert_eq!(3i64.mul(5), 15);
    // (1 - 2)^2 * 2^1 * 3
    assert_eq!(2i64.coeff(2, 1, 3), 6);
}

#[test]
fn integer_linear_combination() {
    assert_eq!(i64::linear_combination([(2i64, 3i64), (4, 5)]), 26);
    assert_eq!(i64::linear_combination::<0>([]), 0);
}

#[test]
fn bezier_trait_direct() {
    assert_eq!(Bezier::<i64>::lerp(2i64, 10i64, 20i64), 30);
    assert_eq!(2i64.bezier2(0i64, 1, 2), 4);
    // (1-t)^4 a + 4 t (1-t)^3 h0 + 6 t^2 (1-t)^2 h1 + 4 t^3 (1-t) h2 + t^4 b at t = 2
    assert_eq!(2i64.bezier4(1i64, 2, 3, 4, 5), 1 - 16 + 72 - 128 + 80);
}

#[test]
fn curve_endpoints() {
    assert_eq!(Curve1::new(4i64, 9).sample(0i64), 4);
    assert_eq!(Curve1::new(4i64, 9).sample(1i64), 9);
    assert_eq!(Curve2::new(4i64, -3, 9).sample(0i64), 4);
    assert_eq!(Curve2::new(4i64, -3, 9).sample(1i64), 9);
    assert_eq!(Curve3::new(4i64, -3, 8, 9).sample(0i64), 4);
    assert_eq!(Curve3::new(4i64, -3, 8, 9).sample(1i64), 9);
    assert_eq!(Curve4::new(4i64, -3, 8, 11, 9).sample(0i64), 4);
    assert_eq!(Curve4::new(4i64, -3, 8, 11, 9).sample(1i64), 9);
}

#[test]
fn curve_extrapolates_without_clamping() {
    // (1-2)^2 * 0 + 2 * 2 * (1-2) * 1 + 2^2 * 2
    assert_eq!(Curve2::new(0i64, 1, 2).sample(2i64), 4);
    assert_eq!(Curve1::new(10i64, 20).sample(-1i64), 0);
}

#[test]
fn weights_sum_to_one() {
    for t in -3i64..=3 {
        assert_eq!(Curve1::new(1i64, 1).sample(t), 1);
        assert_eq!(Curve2::new(1i64, 1, 1).sample(t), 1);
        assert_eq!(Curve3::new(1i64, 1, 1, 1).sample(t), 1);
        assert_eq!(Curve4::new(1i64, 1, 1, 1, 1).sample(t), 1);
    }
}

#[test]
fn reversed_curve_runs_backwards() {
    for t in -3i64..=3 {
        assert_eq!(Curve2::new(1i64, 5, -2).sample(t), Curve2::new(-2i64, 5, 1).sample(1 - t));
        assert_eq!(Curve3::new(1i64, 5, -2, 7).sample(t), Curve3::new(7i64, -2, 5, 1).sample(1 - t));
        assert_eq!(
            Curve4::new(1i64, 5, -2, 7, 3).sample(t),
            Curve4::new(3i64, 7, -2, 5, 1).sample(1 - t)
        );
    }
}

#[test]
fn derivative_of_cubic() {
    let c = Curve3::new(1i64, 5, -2, 7);
    let d = c.ddt();
    // control values 3 (h0 - a), 3 (h1 - h0), 3 (b - h1)
    assert_eq!(d.sample(0i64), 12);
    assert_eq!(d.sample(1i64), 27);
    // 3 [(1-t)^2 4 + 2 t (1-t) (-7) + t^2 9] at t = 2
    assert_eq!(d.sample(2i64), 204);
}

#[test]
fn derivative_of_quadratic_and_quartic() {
    let d = Curve2::new(0i64, 1, 4).ddt();
    assert_eq!(d.sample(0i64), 2);
    assert_eq!(d.sample(1i64), 6);
    let q = Curve4::new(0i64, 0, 0, 0, 1).ddt();
    // t^4 has derivative 4 t^3
    assert_eq!(q.sample(2i64), 32);
    assert_eq!(q.ddt().ddt().sample(5i64), 120);
}

#[test]
fn derivative_matches_central_difference_on_integers() {
    // For a quadratic the central difference is exact.
    let c = Curve2::new(3i64, -4, 10);
    for t in -2i64..=2 {
        let central = (c.sample(t + 1) - c.sample(t - 1)) / 2;
        assert_eq!(c.ddt().sample(t), central);
    }
}

fn grid3() -> [[i64; 4]; 4] {
    [[1, 2, 3, 4], [5, 7, 11, 13], [-1, -6, 8, 17], [19, 23, 29, 31]]
}

fn surface3(g: [[i64; 4]; 4]) -> Surface3<i64> {
    let row = |r: [i64; 4]| Curve3::new(r[0], r[1], r[2], r[3]);
    Surface3::new(row(g[0]), row(g[1]), row(g[2]), row(g[3]))
}

#[test]
fn bicubic_patch_corners() {
    let s = surface3(grid3());
    assert_eq!(s.sample(0i64, 0i64), 1);
    assert_eq!(s.sample(1i64, 0i64), 4);
    assert_eq!(s.sample(0i64, 1i64), 19);
    assert_eq!(s.sample(1i64, 1i64), 31);
}

#[test]
fn bicubic_patch_is_separable() {
    let g = grid3();
    let mut gt = [[0i64; 4]; 4];
    for i in 0..4 {
        for j in 0..4 {
            gt[j][i] = g[i][j];
        }
    }
    let s = surface3(g);
    let st = surface3(gt);
    for t in -2i64..=2 {
        for u in -2i64..=2 {
            assert_eq!(s.sample(t, u), st.sample(u, t));
            // rows reduced at t, then the column at u
            let rows = [0, 1, 2, 3].map(|i| Curve3::new(g[i][0], g[i][1], g[i][2], g[i][3]).sample(t));
            assert_eq!(s.sample(t, u), Curve3::new(rows[0], rows[1], rows[2], rows[3]).sample(u));
        }
    }
}

#[test]
fn biquadratic_patch() {
    let s = Surface2::new(Curve2::new(1i64, 2, 3), Curve2::new(4i64, 5, 6), Curve2::new(7i64, 8, 9));
    assert_eq!(s.sample(0i64, 0i64), 1);
    assert_eq!(s.sample(1i64, 1i64), 9);
    assert_eq!(s.sample(1i64, 0i64), 3);
    // a bilinear grid: the value is 1 + t * 2 + u * 6 at every (t, u)
    assert_eq!(s.sample(2i64, 3i64), 1 + 2 * 2 + 3 * 6);
}

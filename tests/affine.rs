use bezier::{lerp, unlerp, Unlerp};

#[test]
fn integer_lerp() {
    assert_eq!(lerp(3i64, 10, 20), 40);
    assert_eq!(lerp(0i64, 10, 20), 10);
    assert_eq!(lerp(1i64, 10, 20), 20);
    assert_eq!(lerp(-2i64, 10, 20), -10);
}

#[test]
fn integer_unlerp() {
    assert_eq!(unlerp(40i64, 10, 20), 3);
    assert_eq!(unlerp(10i64, 10, 20), 0);
    assert_eq!(40i64.unlerp(10, 20), 3);
    assert_eq!((-10i64).unlerp(20, 10), 3);
}

#[test]
fn integer_round_trip() {
    for t in -5i64..=5 {
        for &(a, b) in &[(10i64, 20i64), (7, -4), (-3, -2)] {
            assert_eq!(unlerp(lerp(t, a, b), a, b), t);
        }
    }
}

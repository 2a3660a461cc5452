use coordinate_stats::tally::{tally_add, tally_new, tally_scale, Tally};

#[test]
fn tally_new_is_zero() {
    let t = tally_new();
    assert_eq!(t, Tally { arbitrary: 0, public: 0 });
}

#[test]
fn tally_add_componentwise() {
    let a = Tally { arbitrary: 2, public: 5 };
    let b = Tally { arbitrary: 7, public: 11 };
    assert_eq!(tally_add(a, b), Tally { arbitrary: 9, public: 16 });
}

#[test]
fn tally_add_commutes() {
    let a = Tally { arbitrary: 3, public: 1 };
    let b = Tally { arbitrary: 4, public: 9 };
    assert_eq!(tally_add(a, b), tally_add(b, a));
}

#[test]
fn tally_add_associates() {
    let a = Tally { arbitrary: 1, public: 2 };
    let b = Tally { arbitrary: 3, public: 4 };
    let c = Tally { arbitrary: 5, public: 6 };
    assert_eq!(tally_add(tally_add(a, b), c), tally_add(a, tally_add(b, c)));
}

#[test]
fn tally_add_saturates() {
    let a = Tally { arbitrary: usize::MAX, public: usize::MAX - 1 };
    let b = Tally { arbitrary: 1, public: 5 };
    assert_eq!(tally_add(a, b), Tally { arbitrary: usize::MAX, public: usize::MAX });
}

#[test]
fn tally_scale_componentwise() {
    let t = Tally { arbitrary: 2, public: 3 };
    assert_eq!(tally_scale(t, 4), Tally { arbitrary: 8, public: 12 });
    assert_eq!(tally_scale(t, 0), Tally { arbitrary: 0, public: 0 });
}

#[test]
fn tally_scale_saturates() {
    let t = Tally { arbitrary: usize::MAX / 2 + 1, public: 1 };
    assert_eq!(tally_scale(t, 3), Tally { arbitrary: usize::MAX, public: 3 });
}

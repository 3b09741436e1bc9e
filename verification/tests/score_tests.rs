use rustpp::score::{count_300s, default_combo};

#[test]
fn missing_combo_is_the_full_combo_less_the_misses() {
    assert_eq!(default_combo(-1, 100, 3), 97);
    assert_eq!(default_combo(50, 100, 3), 50);
    assert_eq!(default_combo(0, 100, 3), 0);
}

#[test]
fn three_hundreds_are_the_objects_left() {
    assert_eq!(count_300s(100, 5, 2, 1), 92);
    assert_eq!(count_300s(10, 0, 0, 0), 10);
    assert_eq!(count_300s(3, 2, 2, 0), -1);
}

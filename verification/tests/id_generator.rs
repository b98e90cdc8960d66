use frog_dream::id_generator::IdGenerator;

#[test]
fn ids_are_issued_in_increasing_order() {
    let mut ids = IdGenerator::new();
    let a = ids.generate_id();
    let b = ids.generate_id();
    let c = ids.generate_id();
    assert_eq!(a.raw(), 0);
    assert_eq!(b.raw(), 1);
    assert_eq!(c.raw(), 2);
    assert!(a < b && b < c);
    assert_ne!(a, b);
}

#[test]
fn remaining_counts_down() {
    let mut ids = IdGenerator::new();
    assert_eq!(ids.remaining(), u64::MAX);
    let _ = ids.generate_id();
    assert_eq!(ids.remaining(), u64::MAX - 1);
}

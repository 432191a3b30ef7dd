use odds::{ptrdistance, PointerExt};

#[test]
fn offset_moves_both_ways() {
    let c: usize = 10;
    assert_eq!(c.offset(3), 13);
    assert_eq!(c.offset(-4), 6);
    assert_eq!(c.offset(0), 10);
    assert_eq!(c.offset(-10), 0);
}

#[test]
fn inc_and_dec_step_by_one() {
    let mut c: usize = 5;
    c.inc();
    assert_eq!(c, 6);
    c.dec();
    c.dec();
    assert_eq!(c, 4);
}

#[test]
fn post_increment_returns_old_value() {
    let mut c: usize = 7;
    let was = c.post_increment();
    assert_eq!(was, 7);
    assert_eq!(c, 8);
}

#[test]
fn stride_offset_multiplies() {
    let c: usize = 20;
    assert_eq!(c.stride_offset(3, 4), 32);
    assert_eq!(c.stride_offset(-2, 5), 10);
    assert_eq!(c.stride_offset(1, 0), 20);
}

#[test]
fn ptrdistance_counts_positions() {
    assert_eq!(ptrdistance(3, 10), 7);
    assert_eq!(ptrdistance(4, 4), 0);
}

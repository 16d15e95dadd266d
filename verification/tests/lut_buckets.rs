use vuzic::render::{hue_bucket, value_bucket};

#[test]
fn hue_wraps_into_the_table() {
    assert_eq!(hue_bucket(0), 0);
    assert_eq!(hue_bucket(359), 359);
    assert_eq!(hue_bucket(360), 0);
    assert_eq!(hue_bucket(370), 10);
    assert_eq!(hue_bucket(-30), 30);
    assert_eq!(hue_bucket(-360), 0);
    assert_eq!(hue_bucket(-725), 5);
    assert_eq!(hue_bucket(i64::MAX), (i64::MAX % 360) as usize);
    // the most negative index still wraps without panicking
    let h = hue_bucket(i64::MIN);
    assert!(h < 360);
    assert_eq!(h as i64, (i64::MIN % 360).abs());
}

#[test]
fn value_clamps_into_the_table() {
    assert_eq!(value_bucket(-1000), 0);
    assert_eq!(value_bucket(-1), 0);
    assert_eq!(value_bucket(0), 0);
    assert_eq!(value_bucket(128), 128);
    assert_eq!(value_bucket(255), 255);
    assert_eq!(value_bucket(256), 255);
    assert_eq!(value_bucket(i64::MAX), 255);
    assert_eq!(value_bucket(i64::MIN), 0);
}

#[test]
fn every_lookup_index_is_in_bounds() {
    for i in (-100000..100000).step_by(37) {
        assert!(hue_bucket(i) < 360);
        assert!(value_bucket(i) < 256);
    }
}

use ds_sweep::space::DiskSpace;

#[test]
fn zero_renders_as_bytes() {
    let d = DiskSpace::new();
    assert_eq!(d.total(), 0);
    assert_eq!(d.render(), "0 B");
}

#[test]
fn default_counter_is_empty() {
    let d = DiskSpace::default();
    assert_eq!(d.total(), 0);
}

#[test]
fn bytes_stay_unscaled_below_threshold() {
    let mut d = DiskSpace::new();
    d.add(150);
    assert_eq!(d.render(), "150 B");
    let mut e = DiskSpace::new();
    e.add(1023);
    assert_eq!(e.render(), "1023 B");
}

#[test]
fn additions_accumulate() {
    let mut d = DiskSpace::new();
    d.add(100);
    d.add(50);
    assert_eq!(d.total(), 150);
    assert_eq!(d.render(), "150 B");
}

#[test]
fn kilobyte_boundary_scales_up() {
    let mut d = DiskSpace::new();
    d.add(1024);
    assert_eq!(d.render(), "1.000 KB");
}

#[test]
fn kilobyte_fraction_truncates() {
    let mut d = DiskSpace::new();
    d.add(2000);
    assert_eq!(d.render(), "1.953 KB");
    let mut e = DiskSpace::new();
    e.add(1536);
    assert_eq!(e.render(), "1.500 KB");
}

#[test]
fn fraction_is_zero_padded() {
    let mut d = DiskSpace::new();
    d.add(1076);
    assert_eq!(d.render(), "1.050 KB");
}

#[test]
fn largest_unit_with_magnitude_at_least_one_is_chosen() {
    let mut d = DiskSpace::new();
    d.add(1048575);
    assert_eq!(d.render(), "1023.999 KB");
    let mut e = DiskSpace::new();
    e.add(1048576);
    assert_eq!(e.render(), "1.000 MB");
    let mut f = DiskSpace::new();
    f.add(1073741824);
    assert_eq!(f.render(), "1.000 GB");
    let mut g = DiskSpace::new();
    g.add(1099511627776);
    assert_eq!(g.render(), "1.000 TB");
}

#[test]
fn totals_beyond_terabytes_stay_in_terabytes() {
    let mut d = DiskSpace::new();
    d.add(u64::MAX);
    assert_eq!(d.render(), "16777215.999 TB");
}

#[test]
fn addition_saturates_instead_of_wrapping() {
    let mut d = DiskSpace::new();
    d.add(u64::MAX);
    d.add(5);
    assert_eq!(d.total(), u64::MAX);
}

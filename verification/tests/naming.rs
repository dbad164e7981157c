use rs_split::index2basename;
use rs_split::HexNamer;
use rs_split::IndexNamer;

#[test]
fn basename_of_zero() {
    let mut name = String::new();
    index2basename(0, &mut name);
    assert_eq!(name, "00000000.txt");
}

#[test]
fn basename_of_small_index() {
    let mut name = String::new();
    index2basename(255, &mut name);
    assert_eq!(name, "000000ff.txt");
}

#[test]
fn basename_of_eight_digit_index() {
    let mut name = String::new();
    index2basename(0xdeadbeef, &mut name);
    assert_eq!(name, "deadbeef.txt");
}

#[test]
fn basename_of_wide_index() {
    let mut name = String::new();
    index2basename(0x123456789, &mut name);
    assert_eq!(name, "123456789.txt");
}

#[test]
fn basename_replaces_previous_contents() {
    let mut name = String::new();
    index2basename(1, &mut name);
    assert_eq!(name, "00000001.txt");
    index2basename(16, &mut name);
    assert_eq!(name, "00000010.txt");
}

#[test]
fn hex_namer_matches_default_scheme() {
    let mut by_fn = String::new();
    let mut by_namer = String::new();
    index2basename(4095, &mut by_fn);
    HexNamer.index_to_basename(4095, &mut by_namer);
    assert_eq!(by_fn, by_namer);
    assert_eq!(by_namer, "00000fff.txt");
}

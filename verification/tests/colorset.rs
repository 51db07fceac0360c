use mtg_colors::{ColorError, ColorSet, MtgColor};

#[test]
fn lib_test_changes() {
    let mut c = ColorSet::try_from_str("WG").unwrap();

    assert_eq!("GW", c.symbols());
    assert_eq!(true, c.is_color(MtgColor::White));
    assert_eq!(false, c.is_color(MtgColor::Blue));
    assert_eq!(false, c.is_color_mono(MtgColor::Blue));
    assert_eq!(2, c.num_colors());
    assert_eq!(true, c.is_multicolor());
    assert_eq!(false, c.is_monocolor());
    assert_eq!(false, c.is_colorless());

    // Check double assign.
    c.add(MtgColor::Blue);
    c.add(MtgColor::Blue);

    assert_eq!("GWU", c.symbols());
    assert_eq!(true, c.is_color(MtgColor::White));
    assert_eq!(true, c.is_color(MtgColor::Blue));
    assert_eq!(false, c.is_color_mono(MtgColor::Blue));
    assert_eq!(3, c.num_colors());
    assert_eq!(true, c.is_multicolor());
    assert_eq!(false, c.is_monocolor());
    assert_eq!(false, c.is_colorless());

    // Check double delete.
    c.remove(MtgColor::White);
    c.remove(MtgColor::White);

    assert_eq!("GU", c.symbols());
    assert_eq!(false, c.is_color(MtgColor::White));
    assert_eq!(true, c.is_color(MtgColor::Blue));
    assert_eq!(false, c.is_color_mono(MtgColor::Blue));
    assert_eq!(2, c.num_colors());
    assert_eq!(true, c.is_multicolor());
    assert_eq!(false, c.is_monocolor());
    assert_eq!(false, c.is_colorless());

    c.remove(MtgColor::Green);

    assert_eq!("U", c.symbols());
    assert_eq!(false, c.is_color(MtgColor::White));
    assert_eq!(true, c.is_color(MtgColor::Blue));
    assert_eq!(true, c.is_color_mono(MtgColor::Blue));
    assert_eq!(1, c.num_colors());
    assert_eq!(false, c.is_multicolor());
    assert_eq!(true, c.is_monocolor());
    assert_eq!(false, c.is_colorless());
}

#[test]
fn lib_test_symbols() {
    let symbols = [
        "", "W", "U", "WU", "B", "WB", "UB", "WUB", "R", "RW", "UR", "URW", "BR", "RWB", "UBR",
        "WUBR", "G", "GW", "GU", "GWU", "BG", "WBG", "BGU", "GWUB", "RG", "RGW", "GUR", "RGWU",
        "BRG", "BRGW", "UBRG", "WUBRG",
    ];
    for color_bits in 0..32_u8 {
        let c = ColorSet::try_from_byte(color_bits).unwrap();
        assert_eq!(c.symbols(), symbols[color_bits as usize])
    }
}

#[test]
fn test_constructors() {
    let c0 = ColorSet::try_from_str("BUW").unwrap();
    let c1 = ColorSet::try_from_byte(7).unwrap();
    assert_eq!(c0, c1);
    assert_eq!(c0.symbols(), "WUB");
}

#[test]
fn test_constructor_failure() {
    let c0 = ColorSet::try_from_str("WURGBJ").is_err();
    let c1 = ColorSet::try_from_byte(51).is_err();
    assert!(c0);
    assert!(c1);
}

#[test]
fn test_set_colorless() {
    let mut blue: ColorSet = ColorSet::try_from_str("B").unwrap();
    blue.set_colorless();
    assert_eq!(blue.symbols(), "");
    assert_eq!(blue.to_byte(), 0);
}

#[test]
fn test_from_iter() {
    let c: ColorSet = ColorSet::from_symbols("GRBUW");
    assert_eq!(c.symbols(), "WUBRG");
}

#[test]
fn from_tags_unions_bits() {
    let tags = vec![
        MtgColor::Green,
        MtgColor::Red,
        MtgColor::Black,
        MtgColor::Blue,
        MtgColor::White,
    ];
    let c = ColorSet::from_tags(&tags);
    assert_eq!(c.symbols(), "WUBRG");
    assert_eq!(c.num_colors(), 5);

    let twice = vec![MtgColor::Red, MtgColor::Red];
    let d = ColorSet::from_tags(&twice);
    assert_eq!(d.symbols(), "R");
    assert_eq!(d.num_colors(), 1);

    let none: Vec<MtgColor> = vec![];
    assert!(ColorSet::from_tags(&none).is_colorless());
}

#[test]
fn try_from_char_each_letter() {
    assert_eq!(MtgColor::try_from_char('W').unwrap(), MtgColor::White);
    assert_eq!(MtgColor::try_from_char('U').unwrap(), MtgColor::Blue);
    assert_eq!(MtgColor::try_from_char('B').unwrap(), MtgColor::Black);
    assert_eq!(MtgColor::try_from_char('R').unwrap(), MtgColor::Red);
    assert_eq!(MtgColor::try_from_char('G').unwrap(), MtgColor::Green);
    assert_eq!(
        MtgColor::try_from_char('J').unwrap_err(),
        ColorError::InvalidSymbol
    );
    assert_eq!(
        MtgColor::try_from_char('w').unwrap_err(),
        ColorError::InvalidSymbol
    );
}

#[test]
fn from_byte_masked_keeps_low_bits() {
    // 51 is 0b110011: the two top bits fall away, 0b10011 = 19 stays.
    let c = ColorSet::from_byte_masked(51);
    assert_eq!(c.to_byte(), 19);
    assert_eq!(c.symbols(), "GWU");

    for v in 0..=255u8 {
        assert_eq!(ColorSet::from_byte_masked(v).to_byte(), v & 0x1f);
    }
}

#[test]
fn byte_round_trip() {
    for b in 0..32u8 {
        let c = ColorSet::try_from_byte(b).unwrap();
        assert_eq!(c.to_byte(), b);
    }
    for b in 32..=255u8 {
        assert_eq!(ColorSet::try_from_byte(b).unwrap_err(), ColorError::OutOfRange);
    }
}

#[test]
fn empty_has_no_colors() {
    let c = ColorSet::empty();
    assert!(c.is_colorless());
    assert!(!c.is_monocolor());
    assert!(!c.is_multicolor());
    assert_eq!(c.num_colors(), 0);
    assert_eq!(c.to_byte(), 0);
    assert_eq!(c.symbols(), "");
    assert!(!c.is_color(MtgColor::White));
    assert!(!c.is_color_mono(MtgColor::White));
}

#[test]
fn subset_tests() {
    let all = ColorSet::try_from_str("WUBRG").unwrap();
    let some = ColorSet::try_from_str("WG").unwrap();
    let other = ColorSet::try_from_str("UB").unwrap();
    let none = ColorSet::empty();

    assert!(some.is_subset_of(all));
    assert!(!all.is_subset_of(some));
    assert!(!some.is_subset_of(other));
    assert!(none.is_subset_of(some));
    assert!(none.is_subset_of(none));
}

use mtg_colors::Colors;

#[test]
fn colors_test_changes() {
    let mut c = Colors::from_symbols("WG");

    assert_eq!("GW", c.symbols());
    assert_eq!(true, c.is_white());
    assert_eq!(false, c.is_blue());
    assert_eq!(2, c.num_colors());
    assert_eq!(true, c.is_multicolor());
    assert_eq!(false, c.is_monocolor());
    assert_eq!(false, c.is_colorless());

    // Check double assign.
    c.add_blue();
    c.add_blue();

    assert_eq!("GWU", c.symbols());
    assert_eq!(true, c.is_white());
    assert_eq!(true, c.is_blue());
    assert_eq!(3, c.num_colors());
    assert_eq!(true, c.is_multicolor());
    assert_eq!(false, c.is_monocolor());
    assert_eq!(false, c.is_colorless());

    // Check double delete.
    c.del_white();
    c.del_white();

    assert_eq!("GU", c.symbols());
    assert_eq!(false, c.is_white());
    assert_eq!(true, c.is_blue());
    assert_eq!(2, c.num_colors());
    assert_eq!(true, c.is_multicolor());
    assert_eq!(false, c.is_monocolor());
    assert_eq!(false, c.is_colorless());

    c.del_green();

    assert_eq!("U", c.symbols());
    assert_eq!(false, c.is_white());
    assert_eq!(true, c.is_blue());
    assert_eq!(1, c.num_colors());
    assert_eq!(false, c.is_multicolor());
    assert_eq!(true, c.is_monocolor());
    assert_eq!(false, c.is_colorless());
}

#[test]
fn colors_test_symbols() {
    let symbols = [
        "", "W", "U", "WU", "B", "WB", "UB", "WUB", "R", "RW", "UR", "URW", "BR", "RWB", "UBR",
        "WUBR", "G", "GW", "GU", "GWU", "BG", "WBG", "BGU", "GWUB", "RG", "RGW", "GUR", "RGWU",
        "BRG", "BRGW", "UBRG", "WUBRG",
    ];
    for color_bits in 0..32 {
        let c = Colors::from_byte(color_bits);
        assert_eq!(c.symbols(), symbols[color_bits as usize])
    }
}

#[test]
fn test() {
    let mut c = Colors::from_symbols("WG");

    assert_eq!("GW", c.symbols());
    assert_eq!(true, c.is_white());
    assert_eq!(false, c.is_blue());
    assert_eq!(2, c.num_colors());
    assert_eq!(true, c.is_multicolor());
    assert_eq!(false, c.is_monocolor());
    assert_eq!(false, c.is_colorless());

    c.add_blue();

    assert_eq!("GWU", c.symbols());
    assert_eq!(true, c.is_white());
    assert_eq!(true, c.is_blue());
    assert_eq!(3, c.num_colors());
    assert_eq!(true, c.is_multicolor());
    assert_eq!(false, c.is_monocolor());
    assert_eq!(false, c.is_colorless());

    c.del_white();

    assert_eq!("GU", c.symbols());
    assert_eq!(false, c.is_white());
    assert_eq!(true, c.is_blue());
    assert_eq!(2, c.num_colors());
    assert_eq!(true, c.is_multicolor());
    assert_eq!(false, c.is_monocolor());
    assert_eq!(false, c.is_colorless());

    c.del_green();

    assert_eq!("U", c.symbols());
    assert_eq!(false, c.is_white());
    assert_eq!(true, c.is_blue());
    assert_eq!(1, c.num_colors());
    assert_eq!(false, c.is_multicolor());
    assert_eq!(true, c.is_monocolor());
    assert_eq!(false, c.is_colorless());
}

#[test]
fn colors_each_color_add_del() {
    let mut c = Colors::from_symbols("");
    assert!(c.is_colorless());

    c.add_white();
    assert!(c.is_white());
    assert_eq!(c.to_byte(), 1);
    c.del_white();
    assert!(!c.is_white());

    c.add_blue();
    assert!(c.is_blue());
    assert_eq!(c.to_byte(), 2);
    c.del_blue();
    assert!(!c.is_blue());

    c.add_black();
    assert!(c.is_black());
    assert_eq!(c.to_byte(), 4);
    c.del_black();
    assert!(!c.is_black());

    c.add_red();
    assert!(c.is_red());
    assert_eq!(c.to_byte(), 8);
    c.del_red();
    assert!(!c.is_red());

    c.add_green();
    assert!(c.is_green());
    assert_eq!(c.to_byte(), 16);
    c.del_green();
    assert!(!c.is_green());

    assert!(c.is_colorless());
    assert_eq!(c.to_byte(), 0);
}

#[test]
fn colors_from_byte_masks_top_bits() {
    // 51 is 0b110011: the two top bits fall away, 0b10011 = 19 stays.
    let c = Colors::from_byte(51);
    assert_eq!(c.to_byte(), 19);
    assert_eq!(c.symbols(), "GWU");

    // Every byte maps to its low five bits.
    for v in 0..=255u8 {
        assert_eq!(Colors::from_byte(v).to_byte(), v % 32);
    }
}

#[test]
fn colors_from_symbols_skips_unknown() {
    let c = Colors::from_symbols("W?xU!");
    assert_eq!(c.symbols(), "WU");
    assert_eq!(c.num_colors(), 2);

    let d = Colors::from_symbols("J");
    assert!(d.is_colorless());

    let mut e = Colors::from_symbols("WUBRG");
    assert_eq!(e.num_colors(), 5);
    e.set_colorless();
    assert!(e.is_colorless());
    assert_eq!(e.symbols(), "");
}

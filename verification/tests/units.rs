use compare_dirs::unicode::trim;
use compare_dirs::units::{parse_clean, parse_size, parse_time, Quantity};

#[test]
fn size_units() {
    assert_eq!(parse_size("1tb").unwrap(), 1_000_000_000_000);
    assert_eq!(parse_size("1pb").unwrap(), 1_000_000_000_000_000);
    assert_eq!(parse_size("1kib").unwrap(), 1024);
    assert_eq!(parse_size("500b").unwrap(), 500);
    assert_eq!(parse_size("2mb").unwrap(), 2_000_000);
    assert!(parse_size("bad").is_err());
}

#[test]
fn time_units() {
    assert_eq!(parse_time("5s").unwrap(), 5);
    assert_eq!(parse_time("2m").unwrap(), 120);
    assert_eq!(parse_time("1h").unwrap(), 3600);
    assert_eq!(parse_time("1w").unwrap(), 604_800);
}

#[test]
fn every_size_unit() {
    let units: [(&str, u64); 21] = [
        ("b", 1),
        ("k", 1_000),
        ("kb", 1_000),
        ("m", 1_000_000),
        ("mb", 1_000_000),
        ("g", 1_000_000_000),
        ("gb", 1_000_000_000),
        ("t", 1_000_000_000_000),
        ("tb", 1_000_000_000_000),
        ("p", 1_000_000_000_000_000),
        ("pb", 1_000_000_000_000_000),
        ("ki", 1_024),
        ("kib", 1_024),
        ("mi", 1_048_576),
        ("mib", 1_048_576),
        ("gi", 1_073_741_824),
        ("gib", 1_073_741_824),
        ("ti", 1_099_511_627_776),
        ("tib", 1_099_511_627_776),
        ("pi", 1_125_899_906_842_624),
        ("pib", 1_125_899_906_842_624),
    ];
    for (unit, factor) in units {
        assert_eq!(parse_size(&format!("1{unit}")), Ok(factor));
        assert_eq!(parse_size(&format!("7{}", unit.to_uppercase())), Ok(7 * factor));
    }
}

#[test]
fn every_time_unit() {
    assert_eq!(parse_time("3s"), Ok(3));
    assert_eq!(parse_time("3m"), Ok(180));
    assert_eq!(parse_time("3h"), Ok(10_800));
    assert_eq!(parse_time("3d"), Ok(259_200));
    assert_eq!(parse_time("3w"), Ok(1_814_400));
    assert_eq!(parse_time("3W"), Ok(1_814_400));
}

#[test]
fn plain_numbers_are_read_back() {
    for n in [0, 7, 10, 604_800, u64::MAX] {
        assert_eq!(parse_size(&n.to_string()), Ok(n));
        assert_eq!(parse_time(&n.to_string()), Ok(n));
    }
    assert_eq!(parse_size("0042"), Ok(42));
}

#[test]
fn surrounding_space_does_not_count() {
    assert_eq!(parse_size(" \t10MiB\n"), Ok(10_485_760));
    assert_eq!(parse_size("\u{a0}\u{3000}2kb\u{2028}"), Ok(2_000));
    assert_eq!(parse_time("  5s "), Ok(5));
}

#[test]
fn case_is_that_of_unicode() {
    // The Kelvin sign is an upper-case letter whose lower case is an ASCII `k`.
    assert_eq!(parse_size("3\u{212a}B"), Ok(3_000));
    assert_eq!(parse_size("2GIB"), parse_size("2gib"));
}

#[test]
fn invalid_formats() {
    for bad in ["", "   ", "bad", "kb", "1 kb", "1.5kb", "-1", "+1", "1k2", "1\u{e9}", "b1"] {
        assert_eq!(
            parse_size(bad),
            Err(format!("Error: Invalid size format '{bad}'"))
        );
        assert_eq!(
            parse_time(bad),
            Err(format!("Error: Invalid time format '{bad}'"))
        );
    }
    let huge = "18446744073709551616";
    assert_eq!(parse_size(huge), Err(format!("Error: Invalid size format '{huge}'")));
    let huge_b = "18446744073709551616b";
    assert_eq!(parse_size(huge_b), Err(format!("Error: Invalid size format '{huge_b}'")));
}

#[test]
fn unknown_suffixes() {
    assert_eq!(
        parse_size("5XB"),
        Err("Error: Unknown size suffix 'xb' in argument '5XB'".to_string())
    );
    assert_eq!(
        parse_time(" 5ms"),
        Err("Error: Unknown time suffix 'ms' in argument ' 5ms'".to_string())
    );
    assert!(parse_size("1eb").is_err());
    assert!(parse_size("1bi").is_err());
}

#[test]
fn overflow() {
    assert_eq!(parse_size("18446744073709551615b"), Ok(u64::MAX));
    assert_eq!(
        parse_size("18446744073709551615kb"),
        Err("Error: Size '18446744073709551615kb' overflows u64".to_string())
    );
    assert_eq!(parse_size("18446pb"), Ok(18_446_000_000_000_000_000));
    assert!(parse_size("18447pb").is_err());
    assert_eq!(
        parse_time("18446744073709551615m"),
        Err("Error: Time '18446744073709551615m' overflows u64".to_string())
    );
}

#[test]
fn clean_amounts_are_read_as_they_are() {
    assert_eq!(parse_clean(Quantity::Size, "2kb", "2KB"), Ok(2_000));
    assert_eq!(
        parse_clean(Quantity::Size, "2KB", "2KB"),
        Err("Error: Unknown size suffix 'KB' in argument '2KB'".to_string())
    );
    assert_eq!(
        parse_clean(Quantity::Time, " 2s", "x"),
        Err("Error: Invalid time format 'x'".to_string())
    );
}

#[test]
fn trimming_agrees_with_the_standard_library() {
    for text in [
        "", " ", "\t\n", "a", " a ", "\u{3000}1k\u{a0}\u{85}", "a \u{2009} b", "\u{200b}x\u{200b}",
        "\u{1680}\u{2028}x\u{2029}\u{202f}\u{205f}", "\u{b}\u{c}x\r\n",
    ] {
        assert_eq!(trim(text), text.trim());
    }
    for code in 0..=0x10ffffu32 {
        if let Some(c) = char::from_u32(code) {
            assert_eq!(trim(&c.to_string()).is_empty(), c.is_whitespace());
        }
    }
}

use concurrent_install_locking::text::decimal_text;
use concurrent_install_locking::text::trim;

#[test]
fn decimal_text_renders_zero_and_large_numbers() {
    assert_eq!(decimal_text(0), "0");
    assert_eq!(decimal_text(7), "7");
    assert_eq!(decimal_text(10), "10");
    assert_eq!(decimal_text(1234567890123), "1234567890123");
    assert_eq!(decimal_text(u128::MAX), u128::MAX.to_string());
}

#[test]
fn trim_removes_surrounding_white_space_only() {
    assert_eq!(trim("  WIN\n"), "WIN");
    assert_eq!(trim("CONTENDED\r\n"), "CONTENDED");
    assert_eq!(trim("\u{3000}a b\u{85}\u{2028}"), "a b");
    assert_eq!(trim(""), "");
    assert_eq!(trim(" \t\n "), "");
    assert_eq!(trim("x"), "x");
}

#[test]
fn trim_agrees_with_std_on_samples() {
    let samples = [
        " \u{a0}WIN\u{1680}",
        "\u{200b}WIN",
        "\u{2000}\u{200a}mid dle\u{202f}\u{205f}",
        "\u{0b}\u{0c}tabs\u{09}",
        "ends with nel\u{85}",
    ];
    for sample in samples {
        assert_eq!(trim(sample), sample.trim(), "sample {sample:?}");
    }
}

use aot_experiments::text::{join, join_reversed, replace_with_underscore, split, to_decimal, to_hex};

fn strings(parts: &[&str]) -> Vec<String> {
    parts.iter().map(|s| s.to_string()).collect()
}

#[test]
fn join_puts_the_separator_between_parts() {
    assert_eq!(join(&strings(&[]), ", "), "");
    assert_eq!(join(&strings(&["a"]), ", "), "a");
    assert_eq!(join(&strings(&["a", "b", "c"]), ", "), "a, b, c");
    assert_eq!(join(&strings(&["", ""]), "."), ".");
}

#[test]
fn join_reversed_starts_with_the_last_part() {
    assert_eq!(join_reversed(&strings(&[]), "."), "");
    assert_eq!(join_reversed(&strings(&["a"]), "."), "a");
    assert_eq!(join_reversed(&strings(&["N2", "N1"]), "."), "N1.N2");
    assert_eq!(join_reversed(&strings(&["c", "b", "a"]), "."), "a.b.c");
}

#[test]
fn split_yields_one_piece_more_than_separators() {
    assert_eq!(split("", '.'), strings(&[""]));
    assert_eq!(split("abc", '.'), strings(&["abc"]));
    assert_eq!(split("a.b.c", '.'), strings(&["a", "b", "c"]));
    assert_eq!(split(".a..", '.'), strings(&["", "a", "", ""]));
    assert_eq!(split("é.ü", '.'), strings(&["é", "ü"]));
    for text in ["N1.N2.T", "x", "..", "a.b."] {
        let expected: Vec<String> = text.split('.').map(|s| s.to_string()).collect();
        assert_eq!(split(text, '.'), expected);
    }
}

#[test]
fn replace_with_underscore_replaces_every_occurrence() {
    assert_eq!(replace_with_underscore("a|b|c", '|'), "a_b_c");
    assert_eq!(replace_with_underscore("N.T.Run", '.'), "N_T_Run");
    assert_eq!(replace_with_underscore("none", '|'), "none");
    assert_eq!(replace_with_underscore("", '|'), "");
    assert_eq!(replace_with_underscore("é|ü", '|'), "é_ü");
}

#[test]
fn hexadecimal_and_decimal_digits() {
    assert_eq!(to_hex(0), "0");
    assert_eq!(to_hex(15), "f");
    assert_eq!(to_hex(16), "10");
    assert_eq!(to_hex(0x402100), "402100");
    assert_eq!(to_hex(u64::MAX), "ffffffffffffffff");
    assert_eq!(to_decimal(0), "0");
    assert_eq!(to_decimal(9), "9");
    assert_eq!(to_decimal(10), "10");
    assert_eq!(to_decimal(65535), "65535");
    for v in [1u64, 255, 4096, 0xdead_beef, 1 << 40] {
        assert_eq!(to_hex(v), format!("{:x}", v));
        assert_eq!(to_decimal(v), format!("{}", v));
    }
}

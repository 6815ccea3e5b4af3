use randpass::charset::{build, generate_batch, generate_from_charset, random_byte, shuffle, size};
use randpass::settings::Settings;
use randpass::source::{Counter, Generator};

fn sorted(v: &[u8]) -> Vec<u8> {
    let mut s = v.to_vec();
    s.sort();
    s
}

#[test]
fn default_settings_values() {
    let s = Settings::default();
    assert_eq!(s.pass_length, 74);
    assert_eq!(s.number_of_passwords, 19);
    assert_eq!(s.special_chars, b"!@#$%^&*".to_vec());
    assert_eq!(s.randomize_seed_chars, 5);
    assert!(s.output_to_terminal);
    assert!(s.output_file_path.is_empty());
    assert!(!s.to_clipboard);
}

#[test]
fn default_charset_layout() {
    let s = Settings::default();
    let chars = build(&s);
    assert_eq!(chars.len(), 70);
    assert_eq!(size(&s), 70);
    assert_eq!(&chars[..26], b"abcdefghijklmnopqrstuvwxyz");
    assert_eq!(&chars[26..52], b"ABCDEFGHIJKLMNOPQRSTUVWXYZ");
    assert_eq!(&chars[52..62], b"0123456789");
    assert_eq!(&chars[62..], b"!@#$%^&*");
}

#[test]
fn densities_repeat_classes() {
    let mut s = Settings::default();
    s.lowercase_char_density = 2;
    s.uppercase_char_density = 0;
    s.numeric_char_density = 3;
    s.special_char_density = 0;
    let chars = build(&s);
    assert_eq!(chars.len(), 82);
    assert_eq!(size(&s), 82);
    assert_eq!(&chars[26..52], b"abcdefghijklmnopqrstuvwxyz");
    assert_eq!(&chars[72..], b"0123456789");
}

#[test]
fn hex_settings_charset() {
    let mut s = Settings::default();
    s.lowercase_char_density = 0;
    s.uppercase_char_density = 0;
    s.numeric_char_density = 0;
    s.special_chars = b"0123456789abcdef".to_vec();
    s.special_char_density = 1;
    assert_eq!(build(&s), b"0123456789abcdef".to_vec());
    assert_eq!(size(&s), 16);
}

#[test]
fn empty_charset() {
    let mut s = Settings::default();
    s.lowercase_char_density = 0;
    s.uppercase_char_density = 0;
    s.numeric_char_density = 0;
    s.special_char_density = 0;
    assert!(build(&s).is_empty());
    assert_eq!(size(&s), 0);
}

#[test]
fn shuffle_known_swaps() {
    let mut v = b"abcd".to_vec();
    shuffle(&mut v, 0);
    assert_eq!(v, b"bcda".to_vec());
    let mut w = b"abcd".to_vec();
    shuffle(&mut w, 5);
    assert_eq!(sorted(&w), b"abcd".to_vec());
    let mut one = b"z".to_vec();
    shuffle(&mut one, 77);
    assert_eq!(one, b"z".to_vec());
}

#[test]
fn random_byte_picks_by_modulus() {
    let chars = b"xyz".to_vec();
    assert_eq!(random_byte(&chars, 0), b'x');
    assert_eq!(random_byte(&chars, 4), b'y');
    assert_eq!(random_byte(&chars, 8), b'z');
}

#[test]
fn password_from_charset() {
    let mut g = Generator::new(Counter::Timestamp, 1024);
    let mut chars = build(&Settings::default());
    let mut buf = b"old contents that must go".to_vec();
    let readings: Vec<u64> = (0..21u64).map(|k| 1234 + 17 * k).collect();
    generate_from_charset(&mut chars, 20, &mut buf, &mut g, 1000, &readings);
    assert_eq!(buf.len(), 20);
    let pool = build(&Settings::default());
    assert!(buf.iter().all(|c| pool.contains(c)));
    assert_eq!(sorted(&chars), sorted(&pool));
    generate_from_charset(&mut chars, 0, &mut buf, &mut g, 1000, &[1234]);
    assert!(buf.is_empty());
}

#[test]
fn password_matches_separate_calls() {
    let mut a = Generator::new(Counter::Timestamp, 1024);
    let mut b = Generator::new(Counter::Timestamp, 1024);
    let mut chars = b"abcdef".to_vec();
    let mut buf = Vec::new();
    generate_from_charset(&mut chars, 3, &mut buf, &mut a, 5, &[10, 20, 30, 40]);
    let mut expected_chars = b"abcdef".to_vec();
    shuffle(&mut expected_chars, b.get(5, 10));
    let expected: Vec<u8> = [20u64, 30, 40]
        .iter()
        .map(|r| random_byte(&expected_chars, b.get(5, *r)))
        .collect();
    assert_eq!(chars, expected_chars);
    assert_eq!(buf, expected);
}

#[test]
fn batch_has_count_lines_of_length() {
    let mut g = Generator::new(Counter::Timestamp, 1024);
    let mut s = Settings::default();
    s.pass_length = 12;
    let readings: Vec<u64> = (0..65u64).map(|k| 99 + k).collect();
    let out = generate_batch(&s, 5, &mut g, 98, &readings);
    assert_eq!(out.len(), 5 * 13);
    let lines: Vec<&[u8]> = out.split(|b| *b == b'\n').collect();
    assert_eq!(lines.len(), 6);
    for line in &lines[..5] {
        assert_eq!(line.len(), 12);
    }
    assert!(lines[5].is_empty());
    assert!(generate_batch(&s, 0, &mut g, 98, &[]).is_empty());
}

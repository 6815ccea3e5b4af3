use randpass::cli::{command_text, parse, split_words};
use randpass::settings::Settings;
use randpass::text::{decimal_text, split_escaped};

fn args(v: &[&str]) -> Vec<String> {
    v.iter().map(|s| s.to_string()).collect()
}

#[test]
fn decimal_text_plain() {
    assert_eq!(decimal_text(0), "0");
    assert_eq!(decimal_text(1000), "1000");
    assert_eq!(decimal_text(usize::MAX), usize::MAX.to_string());
}

#[test]
fn split_escaped_rules() {
    assert_eq!(split_escaped("a,b,c", ','), vec!["a", "b", "c"]);
    assert_eq!(split_escaped("a|,b,c", ','), vec!["a,b", "c"]);
    assert_eq!(split_escaped("a||,b", ','), vec!["a|", "b"]);
    assert_eq!(split_escaped("a,,b", ','), vec!["a", "", "b"]);
    assert_eq!(split_escaped(",a", ','), vec!["", "a"]);
    assert_eq!(split_escaped("a,", ','), vec!["a", ""]);
    assert!(split_escaped("", ',').is_empty());
}

#[test]
fn default_settings_line() {
    let s = Settings::default();
    assert_eq!(
        s.to_line(),
        "74,19,false,false,!@#$%^&*,5,1,1,1,1,,true,\n"
    );
}

#[test]
fn settings_line_escapes_specials() {
    let mut s = Settings::default();
    s.special_chars = b",|x".to_vec();
    s.output_file_path = "out.txt".to_string();
    s.cli_command = "-l 20".to_string();
    assert_eq!(s.to_line(), "74,19,false,false,|,||x,5,1,1,1,1,out.txt,true,-l 20\n");
}

#[test]
fn settings_line_round_trip() {
    let mut s = Settings::default();
    s.pass_length = 12;
    s.number_of_passwords = 3;
    s.skip_countdown = true;
    s.special_chars = b"!,|".to_vec();
    s.output_file_path = "dir/rand_pass.txt".to_string();
    s.output_to_terminal = false;
    s.cli_command = "-l 12 --hex".to_string();
    let line = s.to_line();
    let mut t = Settings::default();
    assert!(t.apply_line(&line));
    assert_eq!(t.pass_length, 12);
    assert_eq!(t.number_of_passwords, 3);
    assert!(t.skip_countdown);
    assert_eq!(t.special_chars, b"!,|".to_vec());
    assert_eq!(t.output_file_path, "dir/rand_pass.txt");
    assert!(!t.output_to_terminal);
    assert_eq!(t.cli_command, "-l 12 --hex");
}

#[test]
fn apply_line_keeps_unparsable_fields() {
    let mut t = Settings::default();
    assert!(t.apply_line("x,7,maybe,true,ab,5,1,1,1,1,,true,\n"));
    assert_eq!(t.pass_length, 74);
    assert_eq!(t.number_of_passwords, 7);
    assert!(!t.skip_countdown);
    assert!(t.view_chars_str);
    assert_eq!(t.special_chars, b"ab".to_vec());
}

#[test]
fn apply_line_rejects_wrong_field_count() {
    let mut t = Settings::default();
    assert!(!t.apply_line("1,2,3"));
    assert_eq!(t.pass_length, 74);
    assert!(!t.apply_line(""));
}

#[test]
fn apply_flags_to_settings() {
    let f = parse(&args(&["prog", "-l", "16", "-n", "4", "--hex", "-o", "keys"])).unwrap();
    let mut s = Settings::default();
    s.apply_flags(&f);
    assert_eq!(s.pass_length, 16);
    assert_eq!(s.number_of_passwords, 4);
    assert_eq!(s.lowercase_char_density, 0);
    assert_eq!(s.special_chars, b"0123456789abcdef".to_vec());
    assert_eq!(s.special_char_density, 1);
    assert_eq!(s.output_file_path, "keys.txt");
    assert!(!s.output_to_terminal);

    let g = parse(&args(&["prog", "--no-special", "--special", "xy"])).unwrap();
    let mut t = Settings::default();
    t.apply_flags(&g);
    assert_eq!(t.special_char_density, 0);
    assert_eq!(t.special_chars, b"xy".to_vec());
    assert_eq!(t.pass_length, 74);
    assert!(t.output_to_terminal);
}

#[test]
fn saved_command_text() {
    assert_eq!(command_text(&args(&["prog", "-c", "-l", "20", "--hex"])), "-l 20 --hex");
    assert_eq!(command_text(&args(&["prog", "--command"])), "");
    assert_eq!(command_text(&args(&["prog"])), "");
    assert_eq!(command_text(&args(&[])), "");
}

#[test]
fn words_split_at_white_space() {
    assert_eq!(split_words("  -l 20\t--hex \n"), vec!["-l", "20", "--hex"]);
    assert!(split_words("   ").is_empty());
    assert_eq!(split_words("one"), vec!["one"]);
}

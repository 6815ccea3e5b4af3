use randpass::cli::{is_affirmative, output_file_name, parse, parse_byte_count, CliFlags, ParseError};
use randpass::text::{enter_prompt, format_number, parse_usize, trim};

fn args(v: &[&str]) -> Vec<String> {
    v.iter().map(|s| s.to_string()).collect()
}

#[test]
fn format_number_groups() {
    assert_eq!(format_number(0), "0");
    assert_eq!(format_number(7), "7");
    assert_eq!(format_number(999), "999");
    assert_eq!(format_number(1000), "1,000");
    assert_eq!(format_number(123456), "123,456");
    assert_eq!(format_number(1234567), "1,234,567");
    assert_eq!(format_number(usize::MAX), {
        let d = usize::MAX.to_string();
        let mut out = String::new();
        for (i, c) in d.chars().enumerate() {
            if i > 0 && (d.len() - i) % 3 == 0 {
                out.push(',');
            }
            out.push(c);
        }
        out
    });
}

#[test]
fn parse_usize_like_std() {
    for s in ["0", "42", "+7", "", "+", "-1", "1a", "007", " 5", "18446744073709551616"] {
        assert_eq!(parse_usize(s), s.parse::<usize>().ok(), "input {:?}", s);
    }
}

#[test]
fn trim_removes_unicode_space() {
    assert_eq!(trim("  a b \n"), "a b");
    assert_eq!(trim("\u{3000}x\u{a0}"), "x");
    assert_eq!(trim("   "), "");
}

#[test]
fn byte_counts_with_suffixes() {
    assert_eq!(parse_byte_count("100"), Some(100));
    assert_eq!(parse_byte_count("10K"), Some(10240));
    assert_eq!(parse_byte_count(" 2m "), Some(2 * 1024 * 1024));
    assert_eq!(parse_byte_count("1g"), Some(1024 * 1024 * 1024));
    assert_eq!(parse_byte_count("abc"), None);
    assert_eq!(parse_byte_count("K"), None);
    assert_eq!(parse_byte_count(""), None);
    assert_eq!(parse_byte_count("18446744073709551615G"), None);
}

#[test]
fn parse_value_flags() {
    let f = parse(&args(&["prog", "-l", "20", "-n", "5", "--hex", "-q"])).unwrap();
    assert_eq!(f.length, Some(20));
    assert_eq!(f.number, Some(5));
    assert_eq!(f.number_raw.as_deref(), Some("5"));
    assert!(f.hex && f.quiet);
    assert!(!f.help);
    assert!(f.has_explicit_args());
}

#[test]
fn parse_switches() {
    let f = parse(&args(&["prog", "--bytes", "-u", "-b", "-c", "-v", "--help"])).unwrap();
    assert!(f.bytes && f.urandom && f.clipboard && f.command && f.version && f.help);
    assert!(!f.has_explicit_args());
    let none = parse(&args(&["prog"])).unwrap();
    assert!(!none.help && none.output.is_none());
}

#[test]
fn parse_number_with_suffix_keeps_raw() {
    let f = parse(&args(&["prog", "--bytes", "-n", "10K"])).unwrap();
    assert_eq!(f.number, None);
    assert_eq!(f.number_raw.as_deref(), Some("10K"));
}

#[test]
fn parse_output_forms() {
    let f = parse(&args(&["prog", "-o"])).unwrap();
    assert_eq!(f.output.as_deref(), Some("."));
    let g = parse(&args(&["prog", "-o", "-q"])).unwrap();
    assert_eq!(g.output.as_deref(), Some("."));
    assert!(g.quiet);
    let h = parse(&args(&["prog", "--output", "dir/"])).unwrap();
    assert_eq!(h.output.as_deref(), Some("dir/"));
    let s = parse(&args(&["prog", "--special", "!?"])).unwrap();
    assert_eq!(s.special.as_deref(), Some("!?"));
}

#[test]
fn parse_errors() {
    match parse(&args(&["prog", "-x"])) {
        Err(ParseError::UnknownArg(a)) => assert_eq!(a, "-x"),
        _ => panic!("expected an unknown argument"),
    }
    let e = parse(&args(&["prog", "-l", "abc"])).unwrap_err();
    match &e {
        ParseError::InvalidNumber(a) => assert_eq!(a, "abc"),
        _ => panic!("expected an invalid number"),
    }
    assert_eq!(e.message(), "Invalid number: abc");
    assert_eq!(ParseError::UnknownArg("-z".to_string()).message(), "Unknown argument: -z");
    let trailing = parse(&args(&["prog", "-l"])).unwrap();
    assert_eq!(trailing.length, None);
}

#[test]
fn explicit_args_by_field() {
    let mut f = CliFlags::default();
    assert!(!f.has_explicit_args());
    f.saved = true;
    assert!(f.has_explicit_args());
    let mut g = CliFlags::default();
    g.output = Some(".".to_string());
    assert!(g.has_explicit_args());
}

#[test]
fn output_file_names() {
    assert_eq!(output_file_name("."), "rand_pass.txt");
    assert_eq!(output_file_name("dir/"), "dir/rand_pass.txt");
    assert_eq!(output_file_name("out"), "out.txt");
    assert_eq!(output_file_name("a.txt"), "a.txt");
    assert_eq!(output_file_name("txt"), "txt.txt");
}

#[test]
fn affirmative_answers() {
    assert!(is_affirmative("y\n", false));
    assert!(is_affirmative(" YeS ", false));
    assert!(!is_affirmative("no", false));
    assert!(!is_affirmative("yess", false));
    assert!(!is_affirmative("\n", false));
    assert!(is_affirmative("\n", true));
}

#[test]
fn prompt_text() {
    assert_eq!(enter_prompt(), "Enter menu option (or press Enter to generate passwords)");
}

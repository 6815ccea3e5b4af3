//! Command-line flags, byte counts, output file names and saved commands.

use vstd::prelude::*;

use vstd::string::{StrSliceExecFns, StringExecFns};
use vstd::utf8::encode_utf8;

use crate::settings::Settings;
use crate::text::{is_space, is_space_char, parse_usize, parse_usize_spec, push_char, trim, trimmed};

verus! {

/// Command-line flags.
#[derive(Debug)]
pub struct CliFlags {
    pub help: bool,
    pub version: bool,
    pub bytes: bool,
    pub urandom: bool,
    pub clipboard: bool,
    pub saved: bool,
    pub default: bool,
    pub command: bool,
    pub quiet: bool,
    pub no_special: bool,
    pub hex: bool,
    pub length: Option<usize>,
    pub number: Option<usize>,
    pub number_raw: Option<String>,
    pub special: Option<String>,
    pub output: Option<String>,
}

/// The flags with their text as character sequences.
pub struct FlagsView {
    pub help: bool,
    pub version: bool,
    pub bytes: bool,
    pub urandom: bool,
    pub clipboard: bool,
    pub saved: bool,
    pub default: bool,
    pub command: bool,
    pub quiet: bool,
    pub no_special: bool,
    pub hex: bool,
    pub length: Option<usize>,
    pub number: Option<usize>,
    pub number_raw: Option<Seq<char>>,
    pub special: Option<Seq<char>>,
    pub output: Option<Seq<char>>,
}

/// The text of an optional string.
pub open spec fn text_of(s: Option<String>) -> Option<Seq<char>> {
    match s {
        Some(t) => Some(t@),
        None => None,
    }
}

impl View for CliFlags {
    type V = FlagsView;

    open spec fn view(&self) -> FlagsView {
        FlagsView {
            help: self.help,
            version: self.version,
            bytes: self.bytes,
            urandom: self.urandom,
            clipboard: self.clipboard,
            saved: self.saved,
            default: self.default,
            command: self.command,
            quiet: self.quiet,
            no_special: self.no_special,
            hex: self.hex,
            length: self.length,
            number: self.number,
            number_raw: text_of(self.number_raw),
            special: text_of(self.special),
            output: text_of(self.output),
        }
    }
}

/// No flag set.
pub open spec fn no_flags() -> FlagsView {
    FlagsView {
        help: false,
        version: false,
        bytes: false,
        urandom: false,
        clipboard: false,
        saved: false,
        default: false,
        command: false,
        quiet: false,
        no_special: false,
        hex: false,
        length: None,
        number: None,
        number_raw: None,
        special: None,
        output: None,
    }
}

impl Default for CliFlags {
    fn default() -> (f: CliFlags)
        ensures
            f@ == no_flags(),
    {
        CliFlags {
            help: false,
            version: false,
            bytes: false,
            urandom: false,
            clipboard: false,
            saved: false,
            default: false,
            command: false,
            quiet: false,
            no_special: false,
            hex: false,
            length: None,
            number: None,
            number_raw: None,
            special: None,
            output: None,
        }
    }
}

/// Whether any flag that shapes the passwords was given.
pub open spec fn explicit_args(f: FlagsView) -> bool {
    f.length is Some || f.number is Some || f.saved || f.default || f.no_special || f.hex
        || f.special is Some || f.output is Some
}

impl CliFlags {
    /// Whether any flag that shapes the passwords was given, so that a saved
    /// command does not apply.
    pub fn has_explicit_args(&self) -> (b: bool)
        ensures
            b == explicit_args(self@),
    {
        self.length.is_some() || self.number.is_some() || self.saved || self.default
            || self.no_special || self.hex || self.special.is_some() || self.output.is_some()
    }
}

/// Why the arguments were refused.
#[derive(Debug)]
pub enum ParseError {
    /// The value after `-l` is not a number.
    InvalidNumber(String),
    /// An argument that no flag matches.
    UnknownArg(String),
}

/// The refusal as a variant and the argument's text.
pub enum ParseErrorView {
    InvalidNumber(Seq<char>),
    UnknownArg(Seq<char>),
}

impl View for ParseError {
    type V = ParseErrorView;

    open spec fn view(&self) -> ParseErrorView {
        match self {
            ParseError::InvalidNumber(s) => ParseErrorView::InvalidNumber(s@),
            ParseError::UnknownArg(s) => ParseErrorView::UnknownArg(s@),
        }
    }
}

impl ParseError {
    /// The message shown to the user.
    pub fn message(&self) -> (m: String)
        ensures
            self@ matches ParseErrorView::InvalidNumber(s) ==> m@ == "Invalid number: "@ + s,
            self@ matches ParseErrorView::UnknownArg(s) ==> m@ == "Unknown argument: "@ + s,
    {
        match self {
            ParseError::InvalidNumber(s) => {
                let mut m = String::from_str("Invalid number: ");
                m.append(s.as_str());
                m
            },
            ParseError::UnknownArg(s) => {
                let mut m = String::from_str("Unknown argument: ");
                m.append(s.as_str());
                m
            },
        }
    }
}

/// Whether `a` is one of the two spellings `short` and `long`.
pub open spec fn is_flag(a: Seq<char>, short: &str, long: &str) -> bool {
    a == short@ || a == long@
}

/// A flag that takes no value.
#[derive(Clone, Copy, Debug, PartialEq, Eq, Structural)]
pub enum Switch {
    Help,
    Version,
    Quiet,
    Bytes,
    Urandom,
    Board,
    Saved,
    Default,
    Command,
    NoSpecial,
    Hex,
}

/// The switch that the argument `a` names, if any.
pub open spec fn switch_of(a: Seq<char>) -> Option<Switch> {
    if is_flag(a, "-h", "--help") {
        Some(Switch::Help)
    } else if is_flag(a, "-v", "--version") {
        Some(Switch::Version)
    } else if is_flag(a, "-q", "--quiet") {
        Some(Switch::Quiet)
    } else if a == "--bytes"@ {
        Some(Switch::Bytes)
    } else if is_flag(a, "-u", "--urandom") {
        Some(Switch::Urandom)
    } else if is_flag(a, "-b", "--board") {
        Some(Switch::Board)
    } else if is_flag(a, "-s", "--saved") {
        Some(Switch::Saved)
    } else if is_flag(a, "-d", "--default") {
        Some(Switch::Default)
    } else if is_flag(a, "-c", "--command") {
        Some(Switch::Command)
    } else if a == "--no-special"@ {
        Some(Switch::NoSpecial)
    } else if a == "--hex"@ {
        Some(Switch::Hex)
    } else {
        None
    }
}

/// `f` with the switch `s` set.
pub open spec fn with_switch(f: FlagsView, s: Switch) -> FlagsView {
    match s {
        Switch::Help => FlagsView { help: true, ..f },
        Switch::Version => FlagsView { version: true, ..f },
        Switch::Quiet => FlagsView { quiet: true, ..f },
        Switch::Bytes => FlagsView { bytes: true, ..f },
        Switch::Urandom => FlagsView { urandom: true, ..f },
        Switch::Board => FlagsView { clipboard: true, ..f },
        Switch::Saved => FlagsView { saved: true, ..f },
        Switch::Default => FlagsView { default: true, ..f },
        Switch::Command => FlagsView { command: true, ..f },
        Switch::NoSpecial => FlagsView { no_special: true, ..f },
        Switch::Hex => FlagsView { hex: true, ..f },
    }
}

/// Parses the arguments from position `i` on, with the flags `f` gathered
/// so far.
pub open spec fn parse_from(args: Seq<Seq<char>>, i: int, f: FlagsView) -> Result<
    FlagsView,
    ParseErrorView,
>
    decreases args.len() - i,
{
    if i < 0 || i >= args.len() {
        Ok(f)
    } else {
        let a = args[i];
        let has_next = i + 1 < args.len();
        if let Some(sw) = switch_of(a) {
            parse_from(args, i + 1, with_switch(f, sw))
        } else if is_flag(a, "-l", "--length") {
            if !has_next {
                Ok(f)
            } else {
                match parse_usize_spec(args[i + 1]) {
                    Some(n) => parse_from(args, i + 2, FlagsView { length: Some(n), ..f }),
                    None => Err(ParseErrorView::InvalidNumber(args[i + 1])),
                }
            }
        } else if is_flag(a, "-n", "--number") {
            if !has_next {
                Ok(f)
            } else {
                parse_from(
                    args,
                    i + 2,
                    FlagsView {
                        number_raw: Some(args[i + 1]),
                        number: parse_usize_spec(args[i + 1]),
                        ..f
                    },
                )
            }
        } else if a == "--special"@ {
            if !has_next {
                Ok(f)
            } else {
                parse_from(args, i + 2, FlagsView { special: Some(args[i + 1]), ..f })
            }
        } else if is_flag(a, "-o", "--output") {
            if has_next && !(args[i + 1].len() > 0 && args[i + 1][0] == '-') {
                parse_from(args, i + 2, FlagsView { output: Some(args[i + 1]), ..f })
            } else {
                parse_from(args, i + 1, FlagsView { output: Some("."@), ..f })
            }
        } else {
            Err(ParseErrorView::UnknownArg(a))
        }
    }
}

/// The texts of the arguments.
pub open spec fn texts(args: Seq<String>) -> Seq<Seq<char>> {
    args.map_values(|a: String| a@)
}

/// Whether two strings hold the same characters.
pub(crate) fn same_text(a: &str, b: &str) -> (r: bool)
    ensures
        r == (a@ == b@),
{
    let n = a.unicode_len();
    if n != b.unicode_len() {
        return false;
    }
    let mut i: usize = 0;
    while i < n
        invariant
            i <= n,
            n == a@.len(),
            n == b@.len(),
            forall|k: int| 0 <= k < i ==> a@[k] == b@[k],
        decreases n - i,
    {
        if a.get_char(i) != b.get_char(i) {
            return false;
        }
        i = i + 1;
    }
    assert(a@ =~= b@);
    true
}

/// Whether `a` is `short` or `long`.
fn flag_is(a: &str, short: &str, long: &str) -> (r: bool)
    ensures
        r == is_flag(a@, short, long),
{
    same_text(a, short) || same_text(a, long)
}

/// The switch that `a` names, if any.
fn switch_for(a: &str) -> (r: Option<Switch>)
    ensures
        r == switch_of(a@),
{
    if flag_is(a, "-h", "--help") {
        Some(Switch::Help)
    } else if flag_is(a, "-v", "--version") {
        Some(Switch::Version)
    } else if flag_is(a, "-q", "--quiet") {
        Some(Switch::Quiet)
    } else if same_text(a, "--bytes") {
        Some(Switch::Bytes)
    } else if flag_is(a, "-u", "--urandom") {
        Some(Switch::Urandom)
    } else if flag_is(a, "-b", "--board") {
        Some(Switch::Board)
    } else if flag_is(a, "-s", "--saved") {
        Some(Switch::Saved)
    } else if flag_is(a, "-d", "--default") {
        Some(Switch::Default)
    } else if flag_is(a, "-c", "--command") {
        Some(Switch::Command)
    } else if same_text(a, "--no-special") {
        Some(Switch::NoSpecial)
    } else if same_text(a, "--hex") {
        Some(Switch::Hex)
    } else {
        None
    }
}

impl CliFlags {
    /// Sets the switch `s`.
    pub fn set_switch(&mut self, s: Switch)
        ensures
            final(self)@ == with_switch(old(self)@, s),
    {
        match s {
            Switch::Help => self.help = true,
            Switch::Version => self.version = true,
            Switch::Quiet => self.quiet = true,
            Switch::Bytes => self.bytes = true,
            Switch::Urandom => self.urandom = true,
            Switch::Board => self.clipboard = true,
            Switch::Saved => self.saved = true,
            Switch::Default => self.default = true,
            Switch::Command => self.command = true,
            Switch::NoSpecial => self.no_special = true,
            Switch::Hex => self.hex = true,
        }
    }
}

/// Applies the argument at position `i` to `flags`: the position of the next
/// argument, or the refusal.
fn parse_arg(args: &[String], i: usize, flags: &mut CliFlags) -> (r: Result<usize, ParseError>)
    requires
        1 <= i < args@.len(),
    ensures
        match r {
            Ok(j) => i < j <= i + 2 && parse_from(texts(args@), i as int, old(flags)@) == parse_from(
                texts(args@),
                j as int,
                final(flags)@,
            ),
            Err(e) => parse_from(texts(args@), i as int, old(flags)@) == Err::<
                FlagsView,
                ParseErrorView,
            >(e@),
        },
{
    let ghost t = texts(args@);
    let a = args[i].as_str();
    assert(a@ == t[i as int]);
    let has_next = i + 1 < args.len();
    if let Some(sw) = switch_for(a) {
        flags.set_switch(sw);
    } else if flag_is(a, "-l", "--length") {
        if !has_next {
            return Ok(i + 1);
        }
        let v = args[i + 1].as_str();
        assert(v@ == t[i + 1]);
        match parse_usize(v) {
            Some(n) => {
                flags.length = Some(n);
                return Ok(i + 2);
            },
            None => {
                return Err(ParseError::InvalidNumber(args[i + 1].clone()));
            },
        }
    } else if flag_is(a, "-n", "--number") {
        if !has_next {
            return Ok(i + 1);
        }
        let v = args[i + 1].as_str();
        assert(v@ == t[i + 1]);
        flags.number_raw = Some(args[i + 1].clone());
        flags.number = parse_usize(v);
        return Ok(i + 2);
    } else if same_text(a, "--special") {
        if !has_next {
            return Ok(i + 1);
        }
        assert(args@[i + 1]@ == t[i + 1]);
        flags.special = Some(args[i + 1].clone());
        return Ok(i + 2);
    } else if flag_is(a, "-o", "--output") {
        let mut takes_path = false;
        if has_next {
            let v = args[i + 1].as_str();
            assert(v@ == t[i + 1]);
            takes_path = !(v.unicode_len() > 0 && v.get_char(0) == '-');
        }
        if takes_path {
            flags.output = Some(args[i + 1].clone());
            return Ok(i + 2);
        } else {
            flags.output = Some(String::from_str("."));
        }
    } else {
        return Err(ParseError::UnknownArg(args[i].clone()));
    }
    Ok(i + 1)
}

/// Parses the program arguments; the first one, the program's name, is
/// skipped. A value-taking flag at the end of the list is ignored; `-o`
/// without a following path that does not start with `-` means the current
/// directory.
pub fn parse(args: &[String]) -> (r: Result<CliFlags, ParseError>)
    ensures
        match (r, parse_from(texts(args@), 1, no_flags())) {
            (Ok(f), Ok(v)) => f@ == v,
            (Err(e), Err(ev)) => e@ == ev,
            _ => false,
        },
{
    let ghost t = texts(args@);
    let mut flags = CliFlags::default();
    let mut i: usize = 1;
    let len = args.len();
    while i < len
        invariant
            1 <= i <= len + 1,
            len == args@.len(),
            t == texts(args@),
            parse_from(t, 1, no_flags()) == parse_from(t, i as int, flags@),
        decreases len + 1 - i,
    {
        match parse_arg(args, i, &mut flags) {
            Ok(j) => {
                i = j;
            },
            Err(e) => {
                return Err(e);
            },
        }
    }
    Ok(flags)
}

/// The multiplier that a byte-count suffix stands for; 1 for no suffix.
pub open spec fn suffix_multiplier(c: char) -> int {
    if c == 'K' || c == 'k' {
        1024
    } else if c == 'M' || c == 'm' {
        1048576
    } else if c == 'G' || c == 'g' {
        1073741824
    } else {
        1
    }
}

/// A byte count: white space around it is ignored, an optional `K`, `M` or
/// `G` suffix (either case) multiplies by a power of 1024, and the product
/// must fit in a `usize`.
pub open spec fn byte_count_spec(s: Seq<char>) -> Option<usize> {
    let t = trimmed(s);
    let m = if t.len() > 0 {
        suffix_multiplier(t.last())
    } else {
        1
    };
    let body = if m > 1 {
        t.drop_last()
    } else {
        t
    };
    match parse_usize_spec(body) {
        Some(n) => if n * m <= usize::MAX {
            Some((n * m) as usize)
        } else {
            None
        },
        None => None,
    }
}

/// Parses a byte count with an optional K, M or G suffix.
pub fn parse_byte_count(s: &str) -> (r: Option<usize>)
    ensures
        r == byte_count_spec(s@),
{
    let t = trim(s);
    let len = t.unicode_len();
    let mut mult: usize = 1;
    if len > 0 {
        let c = t.get_char(len - 1);
        if c == 'K' || c == 'k' {
            mult = 1024;
        } else if c == 'M' || c == 'm' {
            mult = 1024 * 1024;
        } else if c == 'G' || c == 'g' {
            mult = 1024 * 1024 * 1024;
        }
    }
    let body = if mult > 1 {
        t.substring_char(0, len - 1)
    } else {
        t
    };
    assert(mult > 1 ==> body@ =~= t@.drop_last());
    match parse_usize(body) {
        Some(n) => n.checked_mul(mult),
        None => None,
    }
}

/// Whether `s` ends with `suffix`.
pub open spec fn ends_with(s: Seq<char>, suffix: Seq<char>) -> bool {
    s.len() >= suffix.len() && s.subrange(s.len() - suffix.len(), s.len() as int) == suffix
}

/// The file that the output flag's path names: the current directory or a
/// path ending in `/` gets `rand_pass.txt`, any other path without a `.txt`
/// ending gets `.txt` appended.
pub open spec fn output_file_spec(path: Seq<char>) -> Seq<char> {
    if path == "."@ {
        "rand_pass.txt"@
    } else if path.len() > 0 && path.last() == '/' {
        path + "rand_pass.txt"@
    } else if !ends_with(path, ".txt"@) {
        path + ".txt"@
    } else {
        path
    }
}

/// The file that the output flag's path names.
pub fn output_file_name(path: &str) -> (r: String)
    ensures
        r@ == output_file_spec(path@),
{
    let len = path.unicode_len();
    if same_text(path, ".") {
        return String::from_str("rand_pass.txt");
    }
    if len > 0 && path.get_char(len - 1) == '/' {
        let mut r = String::from_str(path);
        r.append("rand_pass.txt");
        return r;
    }
    proof {
        reveal_strlit(".txt");
    }
    let has_txt = len >= 4 && same_text(path.substring_char(len - 4, len), ".txt");
    if !has_txt {
        let mut r = String::from_str(path);
        r.append(".txt");
        r
    } else {
        String::from_str(path)
    }
}

/// `c` with an ASCII capital letter turned into its small letter.
pub open spec fn ascii_lower(c: char) -> char {
    if 65 <= (c as u32) <= 90 {
        ((c as u32) + 32) as char
    } else {
        c
    }
}

/// Whether `a` and `b` are equal once ASCII capitals are made small.
pub open spec fn same_ignoring_case(a: Seq<char>, b: Seq<char>) -> bool {
    a.len() == b.len() && forall|i: int| 0 <= i < a.len() ==> ascii_lower(#[trigger] a[i]) == b[i]
}

/// Whether an answer to a yes/no prompt agrees: after trimming, `y` or `yes`
/// in any case, or nothing at all where `empty_is_yes`.
pub open spec fn affirmative(answer: Seq<char>, empty_is_yes: bool) -> bool {
    let t = trimmed(answer);
    same_ignoring_case(t, "y"@) || same_ignoring_case(t, "yes"@) || (empty_is_yes && t.len() == 0)
}

fn lower_char(c: char) -> (r: char)
    ensures
        r == ascii_lower(c),
{
    let u = c as u32;
    if 65 <= u && u <= 90 {
        ((u + 32) as u8) as char
    } else {
        c
    }
}

fn same_text_ignoring_case(a: &str, b: &str) -> (r: bool)
    ensures
        r == same_ignoring_case(a@, b@),
{
    let n = a.unicode_len();
    if n != b.unicode_len() {
        return false;
    }
    let mut i: usize = 0;
    while i < n
        invariant
            i <= n,
            n == a@.len(),
            n == b@.len(),
            forall|k: int| 0 <= k < i ==> ascii_lower(#[trigger] a@[k]) == b@[k],
        decreases n - i,
    {
        if lower_char(a.get_char(i)) != b.get_char(i) {
            return false;
        }
        i = i + 1;
    }
    true
}

/// Whether an answer to a yes/no prompt agrees.
pub fn is_affirmative(answer: &str, empty_is_yes: bool) -> (r: bool)
    ensures
        r == affirmative(answer@, empty_is_yes),
{
    let t = trim(answer);
    same_text_ignoring_case(t, "y") || same_text_ignoring_case(t, "yes") || (empty_is_yes
        && t.unicode_len() == 0)
}

/// The settings after the flags `f` are applied to `s`: explicit length and
/// count, the character-set flags (`--hex` keeps only hexadecimal digits,
/// `--special` replaces the special characters), and the output file.
pub open spec fn applied(s: Settings, f: CliFlags, t: Settings) -> bool {
    &&& t.pass_length == (match f.length {
        Some(n) => n,
        None => s.pass_length,
    })
    &&& t.number_of_passwords == (match f.number {
        Some(n) => n,
        None => s.number_of_passwords,
    })
    &&& t.lowercase_char_density == (if f.hex {
        0
    } else {
        s.lowercase_char_density
    })
    &&& t.uppercase_char_density == (if f.hex {
        0
    } else {
        s.uppercase_char_density
    })
    &&& t.numeric_char_density == (if f.hex {
        0
    } else {
        s.numeric_char_density
    })
    &&& t.special_char_density == (if f.hex {
        1
    } else if f.no_special {
        0
    } else {
        s.special_char_density
    })
    &&& t.special_chars@ == (match f.special {
        Some(c) => encode_utf8(c@),
        None => if f.hex {
            encode_utf8("0123456789abcdef"@)
        } else {
            s.special_chars@
        },
    })
    &&& t.output_file_path@ == (match f.output {
        Some(p) => output_file_spec(p@),
        None => s.output_file_path@,
    })
    &&& t.output_to_terminal == (f.output is None && s.output_to_terminal)
    &&& t.skip_countdown == s.skip_countdown
    &&& t.view_chars_str == s.view_chars_str
    &&& t.randomize_seed_chars == s.randomize_seed_chars
    &&& t.cli_command == s.cli_command
    &&& t.to_clipboard == s.to_clipboard
}

impl Settings {
    /// Applies the password-shaping flags to these settings.
    pub fn apply_flags(&mut self, flags: &CliFlags)
        ensures
            applied(*old(self), *flags, *final(self)),
    {
        if let Some(len) = flags.length {
            self.pass_length = len;
        }
        if let Some(num) = flags.number {
            self.number_of_passwords = num;
        }
        if flags.no_special {
            self.special_char_density = 0;
        }
        if flags.hex {
            self.lowercase_char_density = 0;
            self.uppercase_char_density = 0;
            self.numeric_char_density = 0;
            self.special_chars = "0123456789abcdef".as_bytes_vec();
            self.special_char_density = 1;
        }
        if let Some(chars) = &flags.special {
            self.special_chars = chars.as_str().as_bytes_vec();
        }
        if let Some(path) = &flags.output {
            self.output_file_path = output_file_name(path.as_str());
            self.output_to_terminal = false;
        }
    }
}

/// Whether an argument is the command flag itself.
pub open spec fn is_command_flag(a: Seq<char>) -> bool {
    is_flag(a, "-c", "--command")
}

/// The arguments among the first `k` after the program name that are kept in
/// a saved command: all but the command flag.
pub open spec fn command_words(args: Seq<Seq<char>>, k: int) -> Seq<Seq<char>>
    decreases k,
{
    if k <= 1 || k > args.len() {
        Seq::empty()
    } else if is_command_flag(args[k - 1]) {
        command_words(args, k - 1)
    } else {
        command_words(args, k - 1).push(args[k - 1])
    }
}

/// `words` joined by single spaces.
pub open spec fn joined(words: Seq<Seq<char>>) -> Seq<char>
    decreases words.len(),
{
    if words.len() == 0 {
        Seq::empty()
    } else if words.len() == 1 {
        words[0]
    } else {
        joined(words.drop_last()) + " "@ + words.last()
    }
}

/// The command to save from the program arguments: every argument after the
/// program name except the command flag, joined by spaces.
pub fn command_text(args: &[String]) -> (r: String)
    ensures
        r@ == joined(command_words(texts(args@), args@.len() as int)),
{
    let ghost t = texts(args@);
    let mut out = String::new();
    let mut first = true;
    let mut i: usize = 1;
    while i < args.len()
        invariant
            1 <= i,
            i <= args@.len() || args@.len() == 0,
            t == texts(args@),
            out@ == joined(command_words(t, i as int)),
            first == (command_words(t, i as int).len() == 0),
        decreases args@.len() - i,
    {
        let a = args[i].as_str();
        assert(a@ == t[i as int]);
        if !flag_is(a, "-c", "--command") {
            let ghost w = command_words(t, i as int);
            if !first {
                out.append(" ");
            }
            out.append(a);
            first = false;
            assert(command_words(t, i + 1) == w.push(a@));
            assert(w.push(a@).drop_last() =~= w);
        }
        i = i + 1;
    }
    proof {
        if args@.len() > 0 {
            assert(i == args@.len());
        }
    }
    out
}

/// State of splitting at white space: the words so far and the word being
/// read.
pub struct WordsState {
    pub words: Seq<Seq<char>>,
    pub current: Seq<char>,
}

/// The word state after the first `k` characters of `s`.
pub open spec fn words_prefix(s: Seq<char>, k: nat) -> WordsState
    decreases k,
{
    if k == 0 || k > s.len() {
        WordsState { words: Seq::empty(), current: Seq::empty() }
    } else {
        let st = words_prefix(s, (k - 1) as nat);
        let c = s[k - 1];
        if !is_space(c) {
            WordsState { current: st.current.push(c), ..st }
        } else if st.current.len() > 0 {
            WordsState { words: st.words.push(st.current), current: Seq::empty() }
        } else {
            st
        }
    }
}

/// The maximal runs of characters of `s` without white space.
pub open spec fn words_of(s: Seq<char>) -> Seq<Seq<char>> {
    let st = words_prefix(s, s.len());
    if st.current.len() > 0 {
        st.words.push(st.current)
    } else {
        st.words
    }
}

/// Splits `s` at white space, as `str::split_whitespace` does.
pub fn split_words(s: &str) -> (words: Vec<String>)
    ensures
        texts(words@) == words_of(s@),
{
    let n = s.unicode_len();
    let mut words: Vec<String> = Vec::new();
    let mut current = String::new();
    let mut i: usize = 0;
    assert(texts(words@) =~= Seq::<Seq<char>>::empty());
    while i < n
        invariant
            i <= n,
            n == s@.len(),
            words_prefix(s@, i as nat) == (WordsState {
                words: texts(words@),
                current: current@,
            }),
        decreases n - i,
    {
        let c = s.get_char(i);
        if !is_space_char(c) {
            push_char(&mut current, c);
        } else if current.unicode_len() > 0 {
            let mut done = String::new();
            core::mem::swap(&mut done, &mut current);
            words.push(done);
        }
        assert(texts(words@) =~= words_prefix(s@, (i + 1) as nat).words);
        i = i + 1;
    }
    if current.unicode_len() > 0 {
        words.push(current);
        assert(texts(words@) =~= words_of(s@));
    }
    words
}

} // verus!

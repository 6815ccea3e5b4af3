//! Password settings and their one-line file format.

use vstd::prelude::*;

use vstd::string::{StrSliceExecFns, StringExecFns};
use vstd::utf8::encode_utf8;

use crate::cli::same_text;
use crate::text::{
    decimal_text, is_space, lemma_split_comma, lemma_split_plain, lemma_split_run_concat,
    lemma_usize_text_parses, parse_usize, parse_usize_spec, plain, push_char, split_escaped,
    split_run, split_spec, split_start, texts_of, trim, trim_end, trim_start, trimmed, usize_text,
    SplitState,
};

verus! {

/// Password generation settings.
#[derive(Clone, Debug)]
pub struct Settings {
    pub pass_length: usize,
    pub number_of_passwords: usize,
    pub skip_countdown: bool,
    pub view_chars_str: bool,
    pub special_chars: Vec<u8>,
    pub randomize_seed_chars: usize,
    pub special_char_density: usize,
    pub numeric_char_density: usize,
    pub lowercase_char_density: usize,
    pub uppercase_char_density: usize,
    pub output_file_path: String,
    pub output_to_terminal: bool,
    pub cli_command: String,
    pub to_clipboard: bool,
}

/// The default special characters: `!@#$%^&*`.
pub open spec fn default_specials() -> Seq<u8> {
    seq![33u8, 64u8, 35u8, 36u8, 37u8, 94u8, 38u8, 42u8]
}

impl Settings {
    /// Whether `s` holds the default settings.
    pub open spec fn is_default(s: Settings) -> bool {
        &&& s.pass_length == 74
        &&& s.number_of_passwords == 19
        &&& !s.skip_countdown
        &&& !s.view_chars_str
        &&& s.special_chars@ == default_specials()
        &&& s.randomize_seed_chars == 5
        &&& s.special_char_density == 1
        &&& s.numeric_char_density == 1
        &&& s.lowercase_char_density == 1
        &&& s.uppercase_char_density == 1
        &&& s.output_file_path@.len() == 0
        &&& s.output_to_terminal
        &&& s.cli_command@.len() == 0
        &&& !s.to_clipboard
    }
}

impl Default for Settings {
    fn default() -> (s: Settings)
        ensures
            Settings::is_default(s),
    {
        let s = Settings {
            pass_length: 74,
            number_of_passwords: 19,
            skip_countdown: false,
            view_chars_str: false,
            special_chars: vec![33u8, 64u8, 35u8, 36u8, 37u8, 94u8, 38u8, 42u8],
            randomize_seed_chars: 5,
            special_char_density: 1,
            numeric_char_density: 1,
            lowercase_char_density: 1,
            uppercase_char_density: 1,
            output_file_path: String::new(),
            output_to_terminal: true,
            cli_command: String::new(),
            to_clipboard: false,
        };
        assert(s.special_chars@ =~= default_specials());
        s
    }
}

/// `true` or `false` as text.
pub open spec fn bool_text(b: bool) -> Seq<char> {
    if b {
        "true"@
    } else {
        "false"@
    }
}

/// What `bool::from_str` accepts.
pub open spec fn bool_parse(t: Seq<char>) -> Option<bool> {
    if t == "true"@ {
        Some(true)
    } else if t == "false"@ {
        Some(false)
    } else {
        None
    }
}

/// The special characters as stored in the file: each byte as a character,
/// with `,` and `|` escaped by `|`.
pub open spec fn escaped_specials(b: Seq<u8>) -> Seq<char>
    decreases b.len(),
{
    if b.len() == 0 {
        Seq::empty()
    } else {
        let c = b.last();
        let tail = if c == 44u8 {
            seq!['|', ',']
        } else if c == 124u8 {
            seq!['|', '|']
        } else {
            seq![c as char]
        };
        escaped_specials(b.drop_last()) + tail
    }
}

/// The settings file's one line: thirteen comma-separated fields and a
/// newline.
pub open spec fn settings_line(s: Settings) -> Seq<char> {
    usize_text(s.pass_length as nat) + ","@ + usize_text(s.number_of_passwords as nat) + ","@
        + bool_text(s.skip_countdown) + ","@ + bool_text(s.view_chars_str) + ","@
        + escaped_specials(s.special_chars@) + ","@ + usize_text(s.randomize_seed_chars as nat)
        + ","@ + usize_text(s.special_char_density as nat) + ","@ + usize_text(
        s.numeric_char_density as nat,
    ) + ","@ + usize_text(s.lowercase_char_density as nat) + ","@ + usize_text(
        s.uppercase_char_density as nat,
    ) + ","@ + s.output_file_path@ + ","@ + bool_text(s.output_to_terminal) + ","@
        + s.cli_command@ + "\n"@
}

/// A parsed number, or `d` where the text is not one.
pub open spec fn usize_or(t: Seq<char>, d: usize) -> usize {
    match parse_usize_spec(t) {
        Some(n) => n,
        None => d,
    }
}

/// A parsed boolean, or `d` where the text is not one.
pub open spec fn bool_or(t: Seq<char>, d: bool) -> bool {
    match bool_parse(t) {
        Some(b) => b,
        None => d,
    }
}

/// The settings `t` read from the thirteen fields `p` over the settings `s`:
/// a field that does not parse keeps the old value.
pub open spec fn line_applied(s: Settings, p: Seq<Seq<char>>, t: Settings) -> bool {
    &&& t.pass_length == usize_or(p[0], s.pass_length)
    &&& t.number_of_passwords == usize_or(p[1], s.number_of_passwords)
    &&& t.skip_countdown == bool_or(p[2], s.skip_countdown)
    &&& t.view_chars_str == bool_or(p[3], s.view_chars_str)
    &&& t.special_chars@ == encode_utf8(p[4])
    &&& t.randomize_seed_chars == usize_or(p[5], s.randomize_seed_chars)
    &&& t.special_char_density == usize_or(p[6], s.special_char_density)
    &&& t.numeric_char_density == usize_or(p[7], s.numeric_char_density)
    &&& t.lowercase_char_density == usize_or(p[8], s.lowercase_char_density)
    &&& t.uppercase_char_density == usize_or(p[9], s.uppercase_char_density)
    &&& t.output_file_path@ == p[10]
    &&& t.output_to_terminal == bool_or(p[11], s.output_to_terminal)
    &&& t.cli_command@ == p[12]
    &&& t.to_clipboard == s.to_clipboard
}

fn parse_bool(t: &str) -> (r: Option<bool>)
    ensures
        r == bool_parse(t@),
{
    if same_text(t, "true") {
        Some(true)
    } else if same_text(t, "false") {
        Some(false)
    } else {
        None
    }
}

fn usize_field(t: &str, d: usize) -> (r: usize)
    ensures
        r == usize_or(t@, d),
{
    match parse_usize(t) {
        Some(n) => n,
        None => d,
    }
}

fn bool_field(t: &str, d: bool) -> (r: bool)
    ensures
        r == bool_or(t@, d),
{
    match parse_bool(t) {
        Some(b) => b,
        None => d,
    }
}

fn push_escaped(out: &mut String, b: &Vec<u8>)
    ensures
        final(out)@ == old(out)@ + escaped_specials(b@),
{
    let mut i: usize = 0;
    while i < b.len()
        invariant
            i <= b@.len(),
            out@ == old(out)@ + escaped_specials(b@.subrange(0, i as int)),
        decreases b@.len() - i,
    {
        let c = b[i];
        if c == 44u8 {
            push_char(out, '|');
            push_char(out, ',');
        } else if c == 124u8 {
            push_char(out, '|');
            push_char(out, '|');
        } else {
            push_char(out, c as char);
        }
        i = i + 1;
        assert(b@.subrange(0, i as int).drop_last() =~= b@.subrange(0, i - 1));
        assert(out@ =~= old(out)@ + escaped_specials(b@.subrange(0, i as int)));
    }
    assert(b@.subrange(0, b@.len() as int) =~= b@);
}

fn push_bool(out: &mut String, b: bool)
    ensures
        final(out)@ == old(out)@ + bool_text(b),
{
    if b {
        out.append("true");
    } else {
        out.append("false");
    }
}

fn push_number(out: &mut String, n: usize)
    ensures
        final(out)@ == old(out)@ + usize_text(n as nat),
{
    let t = decimal_text(n);
    out.append(t.as_str());
}

impl Settings {
    /// The line that the settings file holds for these settings.
    pub fn to_line(&self) -> (line: String)
        ensures
            line@ == settings_line(*self),
    {
        let mut out = String::new();
        push_number(&mut out, self.pass_length);
        out.append(",");
        push_number(&mut out, self.number_of_passwords);
        out.append(",");
        push_bool(&mut out, self.skip_countdown);
        out.append(",");
        push_bool(&mut out, self.view_chars_str);
        out.append(",");
        push_escaped(&mut out, &self.special_chars);
        out.append(",");
        push_number(&mut out, self.randomize_seed_chars);
        out.append(",");
        push_number(&mut out, self.special_char_density);
        out.append(",");
        push_number(&mut out, self.numeric_char_density);
        out.append(",");
        push_number(&mut out, self.lowercase_char_density);
        out.append(",");
        push_number(&mut out, self.uppercase_char_density);
        out.append(",");
        out.append(self.output_file_path.as_str());
        out.append(",");
        push_bool(&mut out, self.output_to_terminal);
        out.append(",");
        out.append(self.cli_command.as_str());
        out.append("\n");
        out
    }

    /// Reads a line of the settings file over these settings. A line that
    /// does not split into thirteen fields changes nothing and gives `false`.
    pub fn apply_line(&mut self, line: &str) -> (ok: bool)
        ensures
            ok == (split_spec(trimmed(line@), ',').len() == 13),
            ok ==> line_applied(*old(self), split_spec(trimmed(line@), ','), *final(self)),
            !ok ==> *final(self) == *old(self),
    {
        let parts = split_escaped(trim(line), ',');
        let ghost p = texts_of(parts@);
        if parts.len() != 13 {
            return false;
        }
        assert(forall|i: int| 0 <= i < 13 ==> #[trigger] p[i] == parts@[i]@);
        self.pass_length = usize_field(parts[0].as_str(), self.pass_length);
        self.number_of_passwords = usize_field(parts[1].as_str(), self.number_of_passwords);
        self.skip_countdown = bool_field(parts[2].as_str(), self.skip_countdown);
        self.view_chars_str = bool_field(parts[3].as_str(), self.view_chars_str);
        self.special_chars = parts[4].as_str().as_bytes_vec();
        self.randomize_seed_chars = usize_field(parts[5].as_str(), self.randomize_seed_chars);
        self.special_char_density = usize_field(parts[6].as_str(), self.special_char_density);
        self.numeric_char_density = usize_field(parts[7].as_str(), self.numeric_char_density);
        self.lowercase_char_density = usize_field(parts[8].as_str(), self.lowercase_char_density);
        self.uppercase_char_density = usize_field(parts[9].as_str(), self.uppercase_char_density);
        self.output_file_path = parts[10].clone();
        self.output_to_terminal = bool_field(parts[11].as_str(), self.output_to_terminal);
        self.cli_command = parts[12].clone();
        true
    }
}

/// The characters that the escaped special characters read back as.
pub open spec fn byte_chars(b: Seq<u8>) -> Seq<char> {
    b.map_values(|x: u8| x as char)
}

/// Settings whose line reads back unchanged: the special characters are
/// ASCII, the output path and the command hold no `,` or `|`, and the command
/// does not end in white space.
pub open spec fn line_safe(s: Settings) -> bool {
    &&& forall|i: int| 0 <= i < s.special_chars@.len() ==> #[trigger] s.special_chars@[i] < 128
    &&& plain(s.output_file_path@)
    &&& plain(s.cli_command@)
    &&& (s.cli_command@.len() > 0 ==> !is_space(s.cli_command@.last()))
}

proof fn lemma_split_specials(st: SplitState, b: Seq<u8>)
    requires
        !st.escape,
    ensures
        split_run(st, escaped_specials(b), ',') == (SplitState {
            current: st.current + byte_chars(b),
            ..st
        }),
    decreases b.len(),
{
    if b.len() == 0 {
        assert(st.current + byte_chars(b) =~= st.current);
        assert(split_run(st, Seq::<char>::empty(), ',') == st);
    } else {
        let init = b.drop_last();
        let c = b.last();
        lemma_split_specials(st, init);
        let mid = SplitState { current: st.current + byte_chars(init), ..st };
        let tail = if c == 44u8 {
            seq!['|', ',']
        } else if c == 124u8 {
            seq!['|', '|']
        } else {
            seq![c as char]
        };
        lemma_split_run_concat(st, escaped_specials(init), tail, ',');
        assert(split_run(mid, Seq::<char>::empty(), ',') == mid);
        if c == 44u8 || c == 124u8 {
            assert(tail.drop_last() =~= seq!['|']);
            assert(seq!['|'].drop_last() =~= Seq::<char>::empty());
            assert(split_run(mid, seq!['|'], ',') == SplitState { escape: true, ..mid });
            assert((44u8 as char) == ',');
            assert((124u8 as char) == '|');
        } else {
            assert(tail.drop_last() =~= Seq::<char>::empty());
            assert((c as char) != ',' && (c as char) != '|') by {
                assert(c != 44u8 && c != 124u8);
            }
        }
        assert(byte_chars(b) =~= byte_chars(init).push(c as char));
        assert((st.current + byte_chars(init)).push(c as char) =~= st.current + byte_chars(b));
    }
}

/// Field `k` of the settings line as written.
pub open spec fn line_field(s: Settings, k: int) -> Seq<char> {
    if k == 0 {
        usize_text(s.pass_length as nat)
    } else if k == 1 {
        usize_text(s.number_of_passwords as nat)
    } else if k == 2 {
        bool_text(s.skip_countdown)
    } else if k == 3 {
        bool_text(s.view_chars_str)
    } else if k == 4 {
        escaped_specials(s.special_chars@)
    } else if k == 5 {
        usize_text(s.randomize_seed_chars as nat)
    } else if k == 6 {
        usize_text(s.special_char_density as nat)
    } else if k == 7 {
        usize_text(s.numeric_char_density as nat)
    } else if k == 8 {
        usize_text(s.lowercase_char_density as nat)
    } else if k == 9 {
        usize_text(s.uppercase_char_density as nat)
    } else if k == 10 {
        s.output_file_path@
    } else if k == 11 {
        bool_text(s.output_to_terminal)
    } else {
        s.cli_command@
    }
}

/// Field `k` of the settings line as it reads back.
pub open spec fn read_field(s: Settings, k: int) -> Seq<char> {
    if k == 4 {
        byte_chars(s.special_chars@)
    } else {
        line_field(s, k)
    }
}

/// The first `k + 1` fields of the line, separated by commas.
pub open spec fn line_upto(s: Settings, k: nat) -> Seq<char>
    decreases k,
{
    if k == 0 {
        line_field(s, 0)
    } else {
        line_upto(s, (k - 1) as nat) + ","@ + line_field(s, k as int)
    }
}

/// One more field after a comma, read from the state `st` after `a`.
proof fn lemma_next_field(a: Seq<char>, field: Seq<char>, st: SplitState)
    requires
        split_run(split_start(), a, ',') == st,
        !st.escape,
        plain(field),
    ensures
        split_run(split_start(), a + ","@ + field, ',') == (SplitState {
            parts: st.parts.push(st.current),
            current: field,
            escape: false,
        }),
{
    reveal_strlit(",");
    lemma_split_run_concat(split_start(), a, ","@, ',');
    assert(","@ =~= seq![',']);
    lemma_split_comma(st);
    let st1 = SplitState { parts: st.parts.push(st.current), current: Seq::empty(), escape: false };
    lemma_split_run_concat(split_start(), a + ","@, field, ',');
    lemma_split_plain(st1, field);
    assert(st1.current + field =~= field);
}

/// The escaped special characters after a comma.
proof fn lemma_next_specials(a: Seq<char>, b: Seq<u8>, st: SplitState)
    requires
        split_run(split_start(), a, ',') == st,
        !st.escape,
    ensures
        split_run(split_start(), a + ","@ + escaped_specials(b), ',') == (SplitState {
            parts: st.parts.push(st.current),
            current: byte_chars(b),
            escape: false,
        }),
{
    reveal_strlit(",");
    lemma_split_run_concat(split_start(), a, ","@, ',');
    assert(","@ =~= seq![',']);
    lemma_split_comma(st);
    let st1 = SplitState { parts: st.parts.push(st.current), current: Seq::empty(), escape: false };
    lemma_split_run_concat(split_start(), a + ","@, escaped_specials(b), ',');
    lemma_split_specials(st1, b);
    assert(st1.current + byte_chars(b) =~= byte_chars(b));
}

proof fn lemma_bool_text(b: bool)
    ensures
        bool_parse(bool_text(b)) == Some(b),
        plain(bool_text(b)),
{
    reveal_strlit("true");
    reveal_strlit("false");
    assert("true"@ != "false"@) by {
        assert("true"@.len() != "false"@.len());
    }
}

proof fn lemma_field_plain(s: Settings, k: int)
    requires
        line_safe(s),
        0 <= k < 13,
        k != 4,
    ensures
        plain(line_field(s, k)),
{
    if k == 0 {
        lemma_usize_text_parses(s.pass_length);
    } else if k == 1 {
        lemma_usize_text_parses(s.number_of_passwords);
    } else if k == 2 {
        lemma_bool_text(s.skip_countdown);
    } else if k == 3 {
        lemma_bool_text(s.view_chars_str);
    } else if k == 5 {
        lemma_usize_text_parses(s.randomize_seed_chars);
    } else if k == 6 {
        lemma_usize_text_parses(s.special_char_density);
    } else if k == 7 {
        lemma_usize_text_parses(s.numeric_char_density);
    } else if k == 8 {
        lemma_usize_text_parses(s.lowercase_char_density);
    } else if k == 9 {
        lemma_usize_text_parses(s.uppercase_char_density);
    } else if k == 11 {
        lemma_bool_text(s.output_to_terminal);
    }
}

proof fn lemma_split_upto(s: Settings, k: nat)
    requires
        line_safe(s),
        k <= 12,
    ensures
        split_run(split_start(), line_upto(s, k), ',') == (SplitState {
            parts: Seq::new(k, |i: int| read_field(s, i)),
            current: read_field(s, k as int),
            escape: false,
        }),
        line_upto(s, k).len() > 0,
        line_upto(s, k)[0] == line_field(s, 0)[0],
    decreases k,
{
    if k == 0 {
        lemma_usize_text_parses(s.pass_length);
        lemma_split_plain(split_start(), line_field(s, 0));
        assert(Seq::<char>::empty() + line_field(s, 0) =~= line_field(s, 0));
        assert(Seq::new(0, |i: int| read_field(s, i)) =~= Seq::<Seq<char>>::empty());
    } else {
        lemma_split_upto(s, (k - 1) as nat);
        let prev = line_upto(s, (k - 1) as nat);
        let st = split_run(split_start(), prev, ',');
        if k == 4 {
            lemma_next_specials(prev, s.special_chars@, st);
        } else {
            lemma_field_plain(s, k as int);
            lemma_next_field(prev, line_field(s, k as int), st);
        }
        assert(Seq::new((k - 1) as nat, |i: int| read_field(s, i)).push(read_field(s, k - 1))
            =~= Seq::new(k, |i: int| read_field(s, i)));
        assert((prev + ","@ + line_field(s, k as int))[0] == prev[0]);
    }
}

/// Reading back the line written for `s` gives thirteen fields that restore
/// every field of `s` the file holds.
pub proof fn lemma_line_round_trip(s: Settings)
    requires
        line_safe(s),
    ensures
        ({
            let p = split_spec(trimmed(settings_line(s)), ',');
            &&& p.len() == 13
            &&& parse_usize_spec(p[0]) == Some(s.pass_length)
            &&& parse_usize_spec(p[1]) == Some(s.number_of_passwords)
            &&& bool_parse(p[2]) == Some(s.skip_countdown)
            &&& bool_parse(p[3]) == Some(s.view_chars_str)
            &&& encode_utf8(p[4]) == s.special_chars@
            &&& parse_usize_spec(p[5]) == Some(s.randomize_seed_chars)
            &&& parse_usize_spec(p[6]) == Some(s.special_char_density)
            &&& parse_usize_spec(p[7]) == Some(s.numeric_char_density)
            &&& parse_usize_spec(p[8]) == Some(s.lowercase_char_density)
            &&& parse_usize_spec(p[9]) == Some(s.uppercase_char_density)
            &&& p[10] == s.output_file_path@
            &&& bool_parse(p[11]) == Some(s.output_to_terminal)
            &&& p[12] == s.cli_command@
        }),
{
    let body = line_upto(s, 12);
    assert(settings_line(s) == body + "\n"@) by {
        reveal_with_fuel(line_upto, 13);
    }
    lemma_split_upto(s, 12);
    lemma_usize_text_parses(s.pass_length);
    reveal_strlit("\n");
    reveal_strlit(",");
    let line = settings_line(s);
    assert(line[0] == body[0]);
    assert(trim_start(line) == line);
    assert(line.drop_last() =~= body);
    assert(line.last() == '\n');
    let cmd = s.cli_command@;
    let before = line_upto(s, 11);
    assert(body == before + ","@ + cmd);
    if cmd.len() > 0 {
        assert(body.last() == cmd.last());
    } else {
        assert(body =~= before + ","@);
        assert(body.last() == ',');
    }
    assert(trim_end(body) == body);
    assert(trim_end(line) == trim_end(body));
    assert(trimmed(line) == body);
    let p = split_spec(body, ',');
    assert(p =~= Seq::new(13, |i: int| read_field(s, i)));
    lemma_usize_text_parses(s.number_of_passwords);
    lemma_usize_text_parses(s.randomize_seed_chars);
    lemma_usize_text_parses(s.special_char_density);
    lemma_usize_text_parses(s.numeric_char_density);
    lemma_usize_text_parses(s.lowercase_char_density);
    lemma_usize_text_parses(s.uppercase_char_density);
    lemma_bool_text(s.skip_countdown);
    lemma_bool_text(s.view_chars_str);
    lemma_bool_text(s.output_to_terminal);
    let chars = byte_chars(s.special_chars@);
    assert(vstd::utf8::is_ascii_chars(chars)) by {
        assert forall|i: int| 0 <= i < chars.len() implies '\0' <= #[trigger] chars[i] <= '\u{7f}' by {
            assert(s.special_chars@[i] < 128);
        }
    }
    vstd::utf8::is_ascii_chars_encode_utf8(chars);
    assert(encode_utf8(chars) =~= s.special_chars@);
}

} // verus!

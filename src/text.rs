//! Text helpers: decimal numbers, trimming, splitting.

use vstd::prelude::*;

use vstd::string::{StrSliceExecFns, StringExecFns};

verus! {

/// The decimal digit character for `d`.
pub open spec fn digit_char(d: nat) -> char {
    if d == 0 {
        '0'
    } else if d == 1 {
        '1'
    } else if d == 2 {
        '2'
    } else if d == 3 {
        '3'
    } else if d == 4 {
        '4'
    } else if d == 5 {
        '5'
    } else if d == 6 {
        '6'
    } else if d == 7 {
        '7'
    } else if d == 8 {
        '8'
    } else {
        '9'
    }
}

/// The decimal digits of `n`, most significant first, without leading zeros.
pub open spec fn digits_of(n: nat) -> Seq<u8>
    decreases n,
{
    if n < 10 {
        seq![n as u8]
    } else {
        digits_of(n / 10).push((n % 10) as u8)
    }
}

/// Text of the first `k` digits of `d` with a comma before each digit that
/// begins a group of three counted from the right.
pub open spec fn grouped_prefix(d: Seq<u8>, k: nat) -> Seq<char>
    decreases k,
{
    if k == 0 {
        Seq::empty()
    } else {
        let i = k - 1;
        let sep = if i > 0 && (d.len() - i) % 3 == 0 {
            seq![',']
        } else {
            Seq::empty()
        };
        grouped_prefix(d, i as nat) + sep + seq![digit_char(d[i] as nat)]
    }
}

/// `n` in decimal with thousands separated by commas.
pub open spec fn number_text(n: nat) -> Seq<char> {
    grouped_prefix(digits_of(n), digits_of(n).len())
}

/// The one-character text of digit `d`.
fn digit_str(d: u8) -> (s: &'static str)
    requires
        d < 10,
    ensures
        s@ == seq![digit_char(d as nat)],
{
    match d {
        0 => {
            proof {
                reveal_strlit("0");
            }
            "0"
        },
        1 => {
            proof {
                reveal_strlit("1");
            }
            "1"
        },
        2 => {
            proof {
                reveal_strlit("2");
            }
            "2"
        },
        3 => {
            proof {
                reveal_strlit("3");
            }
            "3"
        },
        4 => {
            proof {
                reveal_strlit("4");
            }
            "4"
        },
        5 => {
            proof {
                reveal_strlit("5");
            }
            "5"
        },
        6 => {
            proof {
                reveal_strlit("6");
            }
            "6"
        },
        7 => {
            proof {
                reveal_strlit("7");
            }
            "7"
        },
        8 => {
            proof {
                reveal_strlit("8");
            }
            "8"
        },
        _ => {
            proof {
                reveal_strlit("9");
            }
            "9"
        },
    }
}

proof fn lemma_digits_bounded(n: nat)
    ensures
        digits_of(n).len() >= 1,
        forall|i: int| 0 <= i < digits_of(n).len() ==> #[trigger] digits_of(n)[i] < 10,
    decreases n,
{
    if n >= 10 {
        lemma_digits_bounded(n / 10);
    }
}

/// The decimal digits of `n`, most significant first.
fn decimal_digits(n: usize) -> (d: Vec<u8>)
    ensures
        d@ == digits_of(n as nat),
{
    let mut acc: Vec<u8> = Vec::new();
    let mut m = n;
    while m >= 10
        invariant
            digits_of(n as nat) == digits_of(m as nat) + acc@,
        decreases m,
    {
        let ghost before = acc@;
        acc.insert(0, (m % 10) as u8);
        assert(digits_of(m as nat) == digits_of((m / 10) as nat).push((m % 10) as u8));
        assert(digits_of(m as nat) + before =~= digits_of((m / 10) as nat) + acc@);
        m = m / 10;
    }
    let ghost before = acc@;
    acc.insert(0, m as u8);
    assert(digits_of(m as nat) + before =~= acc@);
    acc
}

/// Formats `num` in decimal with commas between groups of three digits.
pub fn format_number(num: usize) -> (s: String)
    ensures
        s@ == number_text(num as nat),
{
    let d = decimal_digits(num);
    proof {
        lemma_digits_bounded(num as nat);
    }
    let n = d.len();
    let mut out = String::new();
    let mut i: usize = 0;
    while i < n
        invariant
            i <= n,
            n == d@.len(),
            d@ == digits_of(num as nat),
            forall|j: int| 0 <= j < d@.len() ==> #[trigger] d@[j] < 10,
            out@ == grouped_prefix(d@, i as nat),
        decreases n - i,
    {
        let ghost before = out@;
        if i > 0 && (n - i) % 3 == 0 {
            proof {
                reveal_strlit(",");
            }
            out.append(",");
        }
        out.append(digit_str(d[i]));
        i = i + 1;
        assert(out@ =~= grouped_prefix(d@, i as nat));
    }
    out
}

/// The prompt shown under the interactive menu.
pub fn enter_prompt() -> (s: &'static str)
    ensures
        s@ == "Enter menu option (or press Enter to generate passwords)"@,
{
    "Enter menu option (or press Enter to generate passwords)"
}

/// Whether `c` is an ASCII decimal digit.
pub open spec fn is_digit(c: char) -> bool {
    48 <= (c as u32) <= 57
}

/// The value of the decimal digits `s`, most significant first.
pub open spec fn decimal_value(s: Seq<char>) -> int
    decreases s.len(),
{
    if s.len() == 0 {
        0
    } else {
        decimal_value(s.drop_last()) * 10 + (s.last() as u32 - 48)
    }
}

/// Whether every character of `s` is an ASCII decimal digit.
pub open spec fn all_digits(s: Seq<char>) -> bool {
    forall|i: int| 0 <= i < s.len() ==> is_digit(#[trigger] s[i])
}

/// `s` without one leading `+`.
pub open spec fn unsigned_body(s: Seq<char>) -> Seq<char> {
    if s.len() > 0 && s[0] == '+' {
        s.drop_first()
    } else {
        s
    }
}

/// What `usize::from_str` accepts: an optional `+`, then one or more ASCII
/// digits whose value fits in a `usize`.
pub open spec fn parse_usize_spec(s: Seq<char>) -> Option<usize> {
    let body = unsigned_body(s);
    if body.len() > 0 && all_digits(body) && decimal_value(body) <= usize::MAX {
        Some(decimal_value(body) as usize)
    } else {
        None
    }
}

/// Whether `c` has the Unicode White_Space property.
pub open spec fn is_space(c: char) -> bool {
    let u = c as u32;
    (9 <= u <= 13) || u == 32 || u == 0x85 || u == 0xa0 || u == 0x1680 || (0x2000 <= u <= 0x200a)
        || u == 0x2028 || u == 0x2029 || u == 0x202f || u == 0x205f || u == 0x3000
}

/// `s` without its leading white space.
pub open spec fn trim_start(s: Seq<char>) -> Seq<char>
    decreases s.len(),
{
    if s.len() > 0 && is_space(s[0]) {
        trim_start(s.drop_first())
    } else {
        s
    }
}

/// `s` without its trailing white space.
pub open spec fn trim_end(s: Seq<char>) -> Seq<char>
    decreases s.len(),
{
    if s.len() > 0 && is_space(s.last()) {
        trim_end(s.drop_last())
    } else {
        s
    }
}

/// `s` without leading and trailing white space.
pub open spec fn trimmed(s: Seq<char>) -> Seq<char> {
    trim_end(trim_start(s))
}

pub(crate) fn is_space_char(c: char) -> (b: bool)
    ensures
        b == is_space(c),
{
    let u = c as u32;
    (9 <= u && u <= 13) || u == 32 || u == 0x85 || u == 0xa0 || u == 0x1680 || (0x2000 <= u && u
        <= 0x200a) || u == 0x2028 || u == 0x2029 || u == 0x202f || u == 0x205f || u == 0x3000
}

/// `s` without leading and trailing white space.
pub fn trim(s: &str) -> (t: &str)
    ensures
        t@ == trimmed(s@),
{
    let len = s.unicode_len();
    let mut i: usize = 0;
    assert(s@.subrange(0, len as int) =~= s@);
    while i < len && is_space_char(s.get_char(i))
        invariant
            i <= len,
            len == s@.len(),
            trim_start(s@) == trim_start(s@.subrange(i as int, len as int)),
        decreases len - i,
    {
        assert(s@.subrange(i as int, len as int).drop_first() =~= s@.subrange(i + 1, len as int));
        i = i + 1;
    }
    let ghost rest = s@.subrange(i as int, len as int);
    assert(trim_start(s@) == rest);
    let mut j: usize = len;
    while j > i && is_space_char(s.get_char(j - 1))
        invariant
            i <= j <= len,
            len == s@.len(),
            rest == s@.subrange(i as int, len as int),
            trim_end(rest) == trim_end(s@.subrange(i as int, j as int)),
        decreases j,
    {
        assert(s@.subrange(i as int, j as int).drop_last() =~= s@.subrange(i as int, j - 1));
        j = j - 1;
    }
    s.substring_char(i, j)
}

proof fn lemma_decimal_value_nonneg(s: Seq<char>)
    requires
        forall|i: int| 0 <= i < s.len() ==> is_digit(#[trigger] s[i]),
    ensures
        decimal_value(s) >= 0,
    decreases s.len(),
{
    if s.len() > 0 {
        lemma_decimal_value_nonneg(s.drop_last());
    }
}

/// Parses a `usize` as `usize::from_str` does.
pub fn parse_usize(s: &str) -> (r: Option<usize>)
    ensures
        r == parse_usize_spec(s@),
{
    let len = s.unicode_len();
    let mut start: usize = 0;
    if len > 0 && s.get_char(0) == '+' {
        start = 1;
    }
    let ghost body = unsigned_body(s@);
    assert(body =~= s@.subrange(start as int, len as int));
    if start == len {
        return None;
    }
    let mut v: usize = 0;
    let mut overflow = false;
    let mut i: usize = start;
    while i < len
        invariant
            start <= i <= len,
            len == s@.len(),
            body == s@.subrange(start as int, len as int),
            body == unsigned_body(s@),
            forall|k: int| start <= k < i ==> is_digit(#[trigger] s@[k]),
            !overflow ==> v == decimal_value(s@.subrange(start as int, i as int)),
            overflow ==> decimal_value(s@.subrange(start as int, i as int)) > usize::MAX,
        decreases len - i,
    {
        let c = s.get_char(i);
        if !(48 <= c as u32 && c as u32 <= 57) {
            assert(body[i - start] == c);
            assert(!is_digit(body[i - start]));
            return None;
        }
        let d = (c as u32 - 48) as usize;
        let ghost prefix = s@.subrange(start as int, i as int);
        let ghost next = s@.subrange(start as int, i + 1);
        assert(next.drop_last() =~= prefix);
        assert(forall|k: int| 0 <= k < prefix.len() ==> is_digit(#[trigger] prefix[k]));
        proof {
            lemma_decimal_value_nonneg(prefix);
        }
        if overflow || v > (usize::MAX - d) / 10 {
            overflow = true;
        } else {
            assert(v * 10 + d <= usize::MAX) by (nonlinear_arith)
                requires
                    v <= (usize::MAX - d) / 10,
                    d <= 9,
            ;
            v = v * 10 + d;
        }
        i = i + 1;
    }
    assert(s@.subrange(start as int, len as int) == body);
    if overflow {
        None
    } else {
        Some(v)
    }
}

/// Relies on `String::push`: appends one character.
#[verifier::external_body]
pub(crate) fn push_char(s: &mut String, c: char)
    ensures
        final(s)@ == old(s)@.push(c),
{
    s.push(c);
}

/// `n` in plain decimal.
pub open spec fn usize_text(n: nat) -> Seq<char> {
    digits_of(n).map_values(|d: u8| digit_char(d as nat))
}

/// `n` in plain decimal, as `usize::to_string` writes it.
pub fn decimal_text(n: usize) -> (s: String)
    ensures
        s@ == usize_text(n as nat),
{
    let d = decimal_digits(n);
    proof {
        lemma_digits_bounded(n as nat);
    }
    let mut out = String::new();
    let mut i: usize = 0;
    while i < d.len()
        invariant
            i <= d@.len(),
            d@ == digits_of(n as nat),
            forall|j: int| 0 <= j < d@.len() ==> #[trigger] d@[j] < 10,
            out@ == d@.subrange(0, i as int).map_values(|x: u8| digit_char(x as nat)),
        decreases d@.len() - i,
    {
        out.append(digit_str(d[i]));
        i = i + 1;
        assert(out@ =~= d@.subrange(0, i as int).map_values(|x: u8| digit_char(x as nat)));
    }
    assert(d@.subrange(0, d@.len() as int) =~= d@);
    out
}

/// State of splitting at an escaping delimiter: the parts so far, the part
/// being read, and whether the next character is escaped.
pub struct SplitState {
    pub parts: Seq<Seq<char>>,
    pub current: Seq<char>,
    pub escape: bool,
}

/// One character of the split: after `|` the next character is taken as it
/// is; an unescaped delimiter ends the current part (a run of delimiters
/// gives empty parts, but not before the first part); any other character is
/// added to the current part.
pub open spec fn split_step(st: SplitState, c: char, delim: char) -> SplitState {
    if st.escape {
        SplitState { current: st.current.push(c), escape: false, ..st }
    } else if c == '|' {
        SplitState { escape: true, ..st }
    } else if c == delim {
        if st.current.len() == 0 && st.parts.len() > 0 {
            SplitState { parts: st.parts.push(Seq::empty()), ..st }
        } else {
            SplitState { parts: st.parts.push(st.current), current: Seq::empty(), ..st }
        }
    } else {
        SplitState { current: st.current.push(c), ..st }
    }
}

/// The split state after reading `s` from `st`.
pub open spec fn split_run(st: SplitState, s: Seq<char>, delim: char) -> SplitState
    decreases s.len(),
{
    if s.len() == 0 {
        st
    } else {
        split_step(split_run(st, s.drop_last(), delim), s.last(), delim)
    }
}

/// The state before any character is read.
pub open spec fn split_start() -> SplitState {
    SplitState { parts: Seq::empty(), current: Seq::empty(), escape: false }
}

/// The parts of `s` split at unescaped `delim`: the last part is kept when it
/// is not empty, or when `s` ends with an unescaped delimiter.
pub open spec fn split_spec(s: Seq<char>, delim: char) -> Seq<Seq<char>> {
    let st = split_run(split_start(), s, delim);
    if st.current.len() > 0 || (s.len() > 0 && s.last() == delim && !st.escape) {
        st.parts.push(st.current)
    } else {
        st.parts
    }
}

/// The texts of a list of strings.
pub open spec fn texts_of(v: Seq<String>) -> Seq<Seq<char>> {
    v.map_values(|p: String| p@)
}

/// Splits `s` at each `delim` that `|` does not escape.
pub fn split_escaped(s: &str, delim: char) -> (parts: Vec<String>)
    ensures
        texts_of(parts@) == split_spec(s@, delim),
{
    let n = s.unicode_len();
    let mut parts: Vec<String> = Vec::new();
    let mut current = String::new();
    let mut escape_next = false;
    let mut i: usize = 0;
    assert(texts_of(parts@) =~= Seq::<Seq<char>>::empty());
    while i < n
        invariant
            i <= n,
            n == s@.len(),
            split_run(split_start(), s@.subrange(0, i as int), delim) == (SplitState {
                parts: texts_of(parts@),
                current: current@,
                escape: escape_next,
            }),
        decreases n - i,
    {
        let c = s.get_char(i);
        assert(s@.subrange(0, i + 1).drop_last() =~= s@.subrange(0, i as int));
        if escape_next {
            push_char(&mut current, c);
            escape_next = false;
        } else if c == '|' {
            escape_next = true;
        } else if c == delim {
            if current.unicode_len() == 0 && parts.len() > 0 {
                parts.push(String::new());
            } else {
                let mut done = String::new();
                core::mem::swap(&mut done, &mut current);
                parts.push(done);
            }
        } else {
            push_char(&mut current, c);
        }
        assert(texts_of(parts@) =~= split_step(
            split_run(split_start(), s@.subrange(0, i as int), delim),
            c,
            delim,
        ).parts);
        i = i + 1;
    }
    assert(s@.subrange(0, n as int) =~= s@);
    let ends_with_delim = n > 0 && s.get_char(n - 1) == delim;
    if current.unicode_len() > 0 || (ends_with_delim && !escape_next) {
        parts.push(current);
        assert(texts_of(parts@) =~= split_spec(s@, delim));
    }
    parts
}

/// Whether `s` holds neither a comma nor the escape character `|`.
pub open spec fn plain(s: Seq<char>) -> bool {
    forall|i: int| 0 <= i < s.len() ==> #[trigger] s[i] != ',' && s[i] != '|'
}

/// Reading `a` then `b` is reading `a + b`.
pub proof fn lemma_split_run_concat(st: SplitState, a: Seq<char>, b: Seq<char>, delim: char)
    ensures
        split_run(st, a + b, delim) == split_run(split_run(st, a, delim), b, delim),
    decreases b.len(),
{
    if b.len() == 0 {
        assert(a + b =~= a);
    } else {
        lemma_split_run_concat(st, a, b.drop_last(), delim);
        assert((a + b).drop_last() =~= a + b.drop_last());
        assert((a + b).last() == b.last());
    }
}

/// Plain text is added to the current part.
pub proof fn lemma_split_plain(st: SplitState, seg: Seq<char>)
    requires
        !st.escape,
        plain(seg),
    ensures
        split_run(st, seg, ',') == (SplitState { current: st.current + seg, ..st }),
    decreases seg.len(),
{
    if seg.len() == 0 {
        assert(st.current + seg =~= st.current);
    } else {
        let init = seg.drop_last();
        assert(plain(init)) by {
            assert forall|i: int| 0 <= i < init.len() implies #[trigger] init[i] != ',' && init[i]
                != '|' by {
                assert(init[i] == seg[i]);
            }
        }
        lemma_split_plain(st, init);
        assert(seg.last() == seg[seg.len() - 1]);
        assert((st.current + init).push(seg.last()) =~= st.current + seg);
    }
}

/// An unescaped comma ends the current part.
pub proof fn lemma_split_comma(st: SplitState)
    requires
        !st.escape,
    ensures
        split_run(st, seq![','], ',') == (SplitState {
            parts: st.parts.push(st.current),
            current: Seq::empty(),
            escape: false,
        }),
{
    assert(seq![','].drop_last() =~= Seq::<char>::empty());
    assert(seq![','].last() == ',');
    assert(split_run(st, Seq::<char>::empty(), ',') == st);
    if st.current.len() == 0 {
        assert(st.current =~= Seq::<char>::empty());
    }
}

proof fn lemma_digit_char_value(d: nat)
    requires
        d < 10,
    ensures
        digit_char(d) as u32 == 48 + d,
        digit_char(d) != ',',
        digit_char(d) != '|',
        digit_char(d) != '+',
{
}

/// The decimal text of a number reads back as that number.
pub proof fn lemma_usize_text_parses(n: usize)
    ensures
        parse_usize_spec(usize_text(n as nat)) == Some(n),
        plain(usize_text(n as nat)),
        usize_text(n as nat).len() > 0,
        !is_space(usize_text(n as nat)[0]),
{
    lemma_digits_text(n as nat);
    let t = usize_text(n as nat);
    assert(unsigned_body(t) == t);
}

proof fn lemma_digits_text(n: nat)
    ensures
        all_digits(usize_text(n)),
        decimal_value(usize_text(n)) == n,
        plain(usize_text(n)),
        usize_text(n).len() == digits_of(n).len(),
        usize_text(n).len() > 0,
        usize_text(n)[0] != '+',
        !is_space(usize_text(n)[0]),
    decreases n,
{
    lemma_digits_bounded(n);
    let t = usize_text(n);
    if n < 10 {
        lemma_digit_char_value(n);
        assert(t =~= seq![digit_char(n)]);
        assert(t.drop_last() =~= Seq::<char>::empty());
        assert(decimal_value(Seq::<char>::empty()) == 0);
        assert(t.last() == digit_char(n));
    } else {
        lemma_digits_text(n / 10);
        lemma_digit_char_value(n % 10);
        let prev = usize_text(n / 10);
        assert(t =~= prev.push(digit_char(n % 10)));
        assert(t.drop_last() =~= prev);
        assert(t.last() == digit_char(n % 10));
        assert(decimal_value(t) == decimal_value(prev) * 10 + (digit_char(n % 10) as u32 - 48));
        assert((n / 10) * 10 + n % 10 == n);
        assert(all_digits(t)) by {
            assert forall|i: int| 0 <= i < t.len() implies is_digit(#[trigger] t[i]) by {
                if i < prev.len() {
                    assert(t[i] == prev[i]);
                }
            }
        }
        assert(plain(t)) by {
            assert forall|i: int| 0 <= i < t.len() implies #[trigger] t[i] != ',' && t[i] != '|' by {
                if i < prev.len() {
                    assert(t[i] == prev[i]);
                }
            }
        }
        assert(t[0] == prev[0]);
    }
}

} // verus!

//! Text utilities: character-safe truncation, completion detection and summaries.
use vstd::prelude::*;
use vstd::string::*;
use vstd::std_specs::iter::IteratorSpec;
use vstd::utf8::*;

verus! {

/// Relies on `String::push`: the character is added at the end.
pub assume_specification[ String::push ](s: &mut String, ch: char)
    ensures
        final(s)@ == old(s)@.push(ch),
;

/// The characters of `s`, in order.
pub fn chars_of(s: &str) -> (v: Vec<char>)
    ensures
        v@ == s@,
{
    broadcast use vstd::string::group_string_axioms;
    let mut v: Vec<char> = Vec::new();
    let mut it = s.chars();
    loop
        invariant
            v@ + it.remaining() == s@,
            it.obeys_prophetic_iter_laws(),
            it.decrease() is Some,
        ensures
            v@ == s@,
        decreases it.decrease()->0,
    {
        match it.next() {
            Some(c) => {
                v.push(c);
            },
            None => {
                assert(v@ + it.remaining() =~= v@);
                break;
            },
        }
    }
    v
}

/// The characters of `s` cut to `max_chars`, with `...` appended when something was cut.
pub open spec fn truncated_line(s: Seq<char>, max_chars: nat) -> Seq<char> {
    if s.len() <= max_chars {
        s
    } else {
        s.subrange(0, max_chars as int) + seq!['.', '.', '.']
    }
}

/// Cuts `s` to at most `max_chars` characters, marking a cut with `...`.
pub fn truncate_line(s: &str, max_chars: usize) -> (r: String)
    ensures
        r@ == truncated_line(s@, max_chars as nat),
{
    let n = s.unicode_len();
    if n <= max_chars {
        s.to_owned()
    } else {
        let mut r = String::from_str(s.substring_char(0, max_chars));
        r.append("...");
        proof {
            reveal_strlit("...");
        }
        r
    }
}

/// Number of bytes in the UTF-8 encoding of `s`.
pub open spec fn utf8_len(s: Seq<char>) -> nat {
    encode_utf8(s).len()
}

/// The longest suffix of `s` whose UTF-8 encoding takes at most `max_bytes` bytes.
pub open spec fn fitting_suffix(s: Seq<char>, max_bytes: nat) -> Seq<char>
    decreases s.len(),
{
    if utf8_len(s) <= max_bytes || s.len() == 0 {
        s
    } else {
        fitting_suffix(s.drop_first(), max_bytes)
    }
}

/// What `truncate` forwards: the text itself when it fits, otherwise a marker line
/// followed by the longest suffix that fits.
pub open spec fn truncated(s: Seq<char>, max_bytes: nat) -> Seq<char> {
    if utf8_len(s) <= max_bytes {
        s
    } else {
        "[...truncated...]\n"@ + fitting_suffix(s, max_bytes)
    }
}

/// The UTF-8 width of one character.
pub fn char_width(c: char) -> (w: usize)
    ensures
        w == encode_scalar(c as u32).len(),
        1 <= w <= 4,
{
    proof {
        char_is_scalar(c);
    }
    let v = c as u32;
    if v <= 0x7F {
        1
    } else if v <= 0x7FF {
        2
    } else if v <= 0xFFFF {
        3
    } else {
        4
    }
}

/// The encoding of a non-empty sequence starts with the encoding of its first character.
pub proof fn lemma_utf8_len_first(s: Seq<char>)
    requires
        s.len() > 0,
    ensures
        utf8_len(s) == encode_scalar(s[0] as u32).len() + utf8_len(s.drop_first()),
{
}

/// The encoding of a concatenation is the concatenation of the encodings.
pub proof fn lemma_utf8_len_concat(a: Seq<char>, b: Seq<char>)
    ensures
        utf8_len(a + b) == utf8_len(a) + utf8_len(b),
    decreases a.len(),
{
    if a.len() > 0 {
        assert((a + b).drop_first() =~= a.drop_first() + b);
        lemma_utf8_len_concat(a.drop_first(), b);
    } else {
        assert(a + b =~= b);
    }
}

/// Dropping characters from the front never makes the encoding longer.
proof fn lemma_suffix_shorter(s: Seq<char>, i: int, j: int)
    requires
        0 <= i <= j <= s.len(),
    ensures
        utf8_len(s.subrange(j, s.len() as int)) <= utf8_len(s.subrange(i, s.len() as int)),
{
    let n = s.len() as int;
    assert(s.subrange(i, n) =~= s.subrange(i, j) + s.subrange(j, n));
    lemma_utf8_len_concat(s.subrange(i, j), s.subrange(j, n));
}

/// Where the suffix from `j` fits and the one from `j - 1` does not, that suffix is
/// the fitting suffix.
proof fn lemma_fitting_suffix_at(s: Seq<char>, max_bytes: nat, j: int)
    requires
        0 <= j <= s.len(),
        utf8_len(s.subrange(j, s.len() as int)) <= max_bytes,
        j == 0 || utf8_len(s.subrange(j - 1, s.len() as int)) > max_bytes,
    ensures
        fitting_suffix(s, max_bytes) == s.subrange(j, s.len() as int),
    decreases j,
{
    let n = s.len() as int;
    if j == 0 {
        assert(s.subrange(0, n) =~= s);
    } else {
        lemma_suffix_shorter(s, 0, j - 1);
        assert(s.subrange(0, n) =~= s);
        let t = s.drop_first();
        assert(t.subrange(j - 1, t.len() as int) =~= s.subrange(j, n));
        if j - 1 > 0 {
            assert(t.subrange(j - 2, t.len() as int) =~= s.subrange(j - 1, n));
        }
        lemma_fitting_suffix_at(t, max_bytes, j - 1);
    }
}

/// Keeps at most `max_bytes` bytes of `text`, from its end, on a character boundary.
/// Where something was cut, a marker line goes in front.
pub fn truncate(text: &str, max_bytes: usize) -> (r: String)
    ensures
        r@ == truncated(text@, max_bytes as nat),
{
    let chars = chars_of(text);
    let n = chars.len();
    let mut j: usize = n;
    let mut kept: usize = 0;
    while j > 0
        invariant
            chars@ == text@,
            n == text@.len(),
            j <= n,
            kept == utf8_len(text@.subrange(j as int, n as int)),
            kept <= max_bytes,
        ensures
            j == 0 || utf8_len(text@.subrange(j - 1, n as int)) > max_bytes,
            kept == utf8_len(text@.subrange(j as int, n as int)),
            kept <= max_bytes,
        decreases j,
    {
        let w = char_width(chars[j - 1]);
        proof {
            let s = text@.subrange(j - 1, n as int);
            assert(s.drop_first() =~= text@.subrange(j as int, n as int));
            lemma_utf8_len_first(s);
        }
        if w > max_bytes - kept {
            break;
        }
        kept = kept + w;
        j = j - 1;
    }
    proof {
        lemma_fitting_suffix_at(text@, max_bytes as nat, j as int);
        assert(text@.subrange(0, n as int) =~= text@);
    }
    if j == 0 {
        text.to_owned()
    } else {
        let mut r = String::from_str("[...truncated...]\n");
        r.append(text.substring_char(j, n));
        r
    }
}

/// The encoding of a concatenation is the concatenation of the encodings.
pub proof fn lemma_encode_concat(a: Seq<char>, b: Seq<char>)
    ensures
        encode_utf8(a + b) == encode_utf8(a) + encode_utf8(b),
    decreases a.len(),
{
    if a.len() > 0 {
        assert((a + b).drop_first() =~= a.drop_first() + b);
        lemma_encode_concat(a.drop_first(), b);
        assert(encode_utf8(a + b) =~= encode_utf8(a) + encode_utf8(b));
    } else {
        assert(a + b =~= b);
        assert(encode_utf8(a) + encode_utf8(b) =~= encode_utf8(b));
    }
}

/// The fitting suffix is a suffix that fits, and one more character would not fit.
pub proof fn lemma_fitting_suffix(s: Seq<char>, max_bytes: nat)
    ensures
        fitting_suffix(s, max_bytes).len() <= s.len(),
        fitting_suffix(s, max_bytes) == s.subrange(
            s.len() - fitting_suffix(s, max_bytes).len(),
            s.len() as int,
        ),
        utf8_len(fitting_suffix(s, max_bytes)) <= max_bytes,
        fitting_suffix(s, max_bytes).len() < s.len() ==> utf8_len(
            s.subrange(s.len() - fitting_suffix(s, max_bytes).len() - 1, s.len() as int),
        ) > max_bytes,
    decreases s.len(),
{
    let n = s.len() as int;
    if utf8_len(s) <= max_bytes || s.len() == 0 {
        assert(s.subrange(0, n) =~= s);
        if s.len() == 0 {
            assert(encode_utf8(s) =~= Seq::<u8>::empty());
        }
    } else {
        let t = s.drop_first();
        lemma_fitting_suffix(t, max_bytes);
        let f = fitting_suffix(t, max_bytes);
        assert(t.subrange(t.len() - f.len(), t.len() as int) =~= s.subrange(n - f.len(), n));
        if f.len() < t.len() {
            assert(t.subrange(t.len() - f.len() - 1, t.len() as int) =~= s.subrange(
                n - f.len() - 1,
                n,
            ));
        } else {
            assert(s.subrange(n - f.len() - 1, n) =~= s);
        }
    }
}

/// Text that fits comes back unchanged, and what comes back never takes more than the
/// cap plus the marker line.
pub proof fn lemma_truncate_within_cap(s: Seq<char>, max_bytes: nat)
    ensures
        utf8_len(s) <= max_bytes ==> truncated(s, max_bytes) == s,
        utf8_len(truncated(s, max_bytes)) <= max_bytes + utf8_len("[...truncated...]\n"@),
{
    lemma_fitting_suffix(s, max_bytes);
    lemma_utf8_len_concat("[...truncated...]\n"@, fitting_suffix(s, max_bytes));
}

/// Past the cap, the kept text is the input's tail from the first character boundary
/// at or after byte `L - cap`, where `L` is the input's length in bytes; its bytes are
/// the input's last bytes from that boundary on.
pub proof fn lemma_truncate_keeps_tail(s: Seq<char>, max_bytes: nat)
    requires
        utf8_len(s) > max_bytes,
    ensures
        ({
            let k = s.len() - fitting_suffix(s, max_bytes).len();
            &&& 0 <= k <= s.len()
            &&& truncated(s, max_bytes) == "[...truncated...]\n"@ + s.subrange(k, s.len() as int)
            &&& utf8_len(s.subrange(0, k)) >= utf8_len(s) - max_bytes
            &&& forall|k2: int|
                0 <= k2 < k ==> #[trigger] utf8_len(s.subrange(0, k2)) < utf8_len(s) - max_bytes
            &&& encode_utf8(s.subrange(k, s.len() as int)) == encode_utf8(s).subrange(
                utf8_len(s.subrange(0, k)) as int,
                utf8_len(s) as int,
            )
        }),
{
    let n = s.len() as int;
    lemma_fitting_suffix(s, max_bytes);
    let k = n - fitting_suffix(s, max_bytes).len();
    assert(s =~= s.subrange(0, k) + s.subrange(k, n));
    lemma_utf8_len_concat(s.subrange(0, k), s.subrange(k, n));
    lemma_encode_concat(s.subrange(0, k), s.subrange(k, n));
    assert(encode_utf8(s).subrange(utf8_len(s.subrange(0, k)) as int, utf8_len(s) as int)
        =~= encode_utf8(s.subrange(k, n)));
    assert forall|k2: int| 0 <= k2 < k implies #[trigger] utf8_len(s.subrange(0, k2)) < utf8_len(
        s,
    ) - max_bytes by {
        assert(s =~= s.subrange(0, k2) + s.subrange(k2, n));
        lemma_utf8_len_concat(s.subrange(0, k2), s.subrange(k2, n));
        lemma_suffix_shorter(s, k2, k - 1);
    }
}

/// Whether `c` is white space in Unicode's sense (the `White_Space` property).
pub open spec fn is_space(c: char) -> bool {
    ||| ('\t' <= c && c <= '\r')
    ||| c == ' '
    ||| c == '\u{85}'
    ||| c == '\u{a0}'
    ||| c == '\u{1680}'
    ||| ('\u{2000}' <= c && c <= '\u{200a}')
    ||| c == '\u{2028}'
    ||| c == '\u{2029}'
    ||| c == '\u{202f}'
    ||| c == '\u{205f}'
    ||| c == '\u{3000}'
}

/// `s` without its leading white space.
pub open spec fn trim_start(s: Seq<char>) -> Seq<char>
    decreases s.len(),
{
    if s.len() > 0 && is_space(s[0]) {
        trim_start(s.drop_first())
    } else {
        s
    }
}

/// `s` without its trailing white space.
pub open spec fn trim_end(s: Seq<char>) -> Seq<char>
    decreases s.len(),
{
    if s.len() > 0 && is_space(s.last()) {
        trim_end(s.drop_last())
    } else {
        s
    }
}

/// `s` without white space at either end.
pub open spec fn trimmed(s: Seq<char>) -> Seq<char> {
    trim_end(trim_start(s))
}

/// Whether `c` is white space in Unicode's sense.
pub fn is_space_char(c: char) -> (r: bool)
    ensures
        r == is_space(c),
{
    ('\t' <= c && c <= '\r') || c == ' ' || c == '\u{85}' || c == '\u{a0}' || c == '\u{1680}'
        || ('\u{2000}' <= c && c <= '\u{200a}') || c == '\u{2028}' || c == '\u{2029}' || c
        == '\u{202f}' || c == '\u{205f}' || c == '\u{3000}'
}

/// Where the text without white space at either end starts and stops, in characters.
pub fn trim_bounds(chars: &Vec<char>) -> (r: (usize, usize))
    ensures
        r.0 <= r.1 <= chars@.len(),
        chars@.subrange(r.0 as int, r.1 as int) == trimmed(chars@),
{
    let n = chars.len();
    let mut i: usize = 0;
    assert(chars@.subrange(0, n as int) =~= chars@);
    while i < n && is_space_char(chars[i])
        invariant
            i <= n,
            n == chars@.len(),
            trim_start(chars@.subrange(i as int, n as int)) == trim_start(chars@),
        decreases n - i,
    {
        assert(chars@.subrange(i as int, n as int).drop_first() =~= chars@.subrange(
            i + 1,
            n as int,
        ));
        i = i + 1;
    }
    let mut j: usize = n;
    while j > i && is_space_char(chars[j - 1])
        invariant
            i <= j <= n,
            n == chars@.len(),
            trim_start(chars@) == chars@.subrange(i as int, n as int),
            trim_end(chars@.subrange(i as int, j as int)) == trimmed(chars@),
        decreases j,
    {
        assert(chars@.subrange(i as int, j as int).drop_last() =~= chars@.subrange(
            i as int,
            j - 1,
        ));
        j = j - 1;
    }
    (i, j)
}

/// `s` without white space at either end.
pub fn trim_text(s: &str) -> (r: String)
    ensures
        r@ == trimmed(s@),
{
    let chars = chars_of(s);
    let (a, b) = trim_bounds(&chars);
    String::from_str(s.substring_char(a, b))
}

/// Whether two texts hold the same characters.
pub fn same_text(a: &str, b: &str) -> (r: bool)
    ensures
        r == (a@ == b@),
{
    let x = a.to_owned();
    let y = b.to_owned();
    x == y
}

/// The critic's reply that ends the relay.
pub open spec fn completion_token() -> Seq<char> {
    "ALL_DONE"@
}

/// What `str::to_uppercase` makes of a text.
pub uninterp spec fn upper_of(s: Seq<char>) -> Seq<char>;

/// Relies on `str::to_uppercase`: the upper-case form depends on the characters alone.
#[verifier::external_body]
fn to_upper(s: &str) -> (r: String)
    ensures
        r@ == upper_of(s@),
{
    s.to_uppercase()
}

/// Whether a reply, already trimmed and also given in upper case, is the completion token.
pub fn matches_token(trimmed_reply: &str, upper_reply: &str) -> (r: bool)
    ensures
        r == (trimmed_reply@ == completion_token() || upper_reply@ == completion_token()),
{
    same_text(trimmed_reply, "ALL_DONE") || same_text(upper_reply, "ALL_DONE")
}

/// Whether the critic's output, trimmed, is the completion token in any letter case.
pub fn navigator_signaled_done(output: &str) -> (r: bool)
    ensures
        r == (trimmed(output@) == completion_token() || upper_of(trimmed(output@))
            == completion_token()),
{
    let t = trim_text(output);
    let u = to_upper(t.as_str());
    matches_token(t.as_str(), u.as_str())
}

/// Number of line feeds in `s`.
pub open spec fn newline_count(s: Seq<char>) -> nat
    decreases s.len(),
{
    if s.len() == 0 {
        0
    } else {
        newline_count(s.drop_last()) + if s.last() == '\n' {
            1nat
        } else {
            0nat
        }
    }
}

/// Number of lines in `s`: a line ends at a line feed or at the end of a non-empty
/// last line, so an empty text has none and a final line feed opens no new line.
pub open spec fn line_count(s: Seq<char>) -> nat {
    newline_count(s) + if s.len() > 0 && s.last() != '\n' {
        1nat
    } else {
        0nat
    }
}

proof fn lemma_newline_count_bound(s: Seq<char>)
    ensures
        newline_count(s) <= s.len(),
    decreases s.len(),
{
    if s.len() > 0 {
        lemma_newline_count_bound(s.drop_last());
    }
}

/// Counts the lines of `s`.
pub fn count_lines(s: &str) -> (r: usize)
    ensures
        r == line_count(s@),
{
    let chars = chars_of(s);
    let n = chars.len();
    let mut i: usize = 0;
    let mut breaks: usize = 0;
    while i < n
        invariant
            i <= n,
            n == s@.len(),
            chars@ == s@,
            breaks == newline_count(s@.subrange(0, i as int)),
            breaks <= i,
        decreases n - i,
    {
        assert(s@.subrange(0, i + 1).drop_last() =~= s@.subrange(0, i as int));
        if chars[i] == '\n' {
            breaks = breaks + 1;
        }
        i = i + 1;
    }
    assert(s@.subrange(0, n as int) =~= s@);
    if n > 0 && chars[n - 1] != '\n' {
        proof {
            lemma_newline_count_bound(s@.drop_last());
        }
        breaks + 1
    } else {
        breaks
    }
}

/// The decimal digit for `d`.
pub open spec fn digit_char(d: nat) -> char {
    if d == 0 {
        '0'
    } else if d == 1 {
        '1'
    } else if d == 2 {
        '2'
    } else if d == 3 {
        '3'
    } else if d == 4 {
        '4'
    } else if d == 5 {
        '5'
    } else if d == 6 {
        '6'
    } else if d == 7 {
        '7'
    } else if d == 8 {
        '8'
    } else {
        '9'
    }
}

/// The decimal form of `n`, without leading zeros.
pub open spec fn decimal(n: nat) -> Seq<char>
    decreases n,
{
    if n < 10 {
        seq![digit_char(n)]
    } else {
        decimal(n / 10).push(digit_char(n % 10))
    }
}

/// The decimal form of `v`, with a minus sign when it is negative.
pub open spec fn signed_decimal(v: int) -> Seq<char> {
    if v < 0 {
        seq!['-'] + decimal((-v) as nat)
    } else {
        decimal(v as nat)
    }
}

fn digit(d: u64) -> (c: char)
    requires
        d < 10,
    ensures
        c == digit_char(d as nat),
{
    if d == 0 {
        '0'
    } else if d == 1 {
        '1'
    } else if d == 2 {
        '2'
    } else if d == 3 {
        '3'
    } else if d == 4 {
        '4'
    } else if d == 5 {
        '5'
    } else if d == 6 {
        '6'
    } else if d == 7 {
        '7'
    } else if d == 8 {
        '8'
    } else {
        '9'
    }
}

/// Writes the decimal form of `n` at the end of `out`.
pub fn push_decimal(out: &mut String, n: u64)
    ensures
        final(out)@ == old(out)@ + decimal(n as nat),
    decreases n,
{
    if n >= 10 {
        push_decimal(out, n / 10);
    }
    out.push(digit(n % 10));
    assert(final(out)@ =~= old(out)@ + decimal(n as nat));
}

/// The decimal form of `v`.
pub fn signed_text(v: i64) -> (r: String)
    ensures
        r@ == signed_decimal(v as int),
{
    let mut r = String::new();
    if v < 0 {
        r.push('-');
        let m: u64 = if v == i64::MIN {
            9223372036854775808u64
        } else {
            (-v) as u64
        };
        push_decimal(&mut r, m);
        assert(r@ =~= seq!['-'] + decimal((-(v as int)) as nat));
    } else {
        push_decimal(&mut r, v as u64);
        assert(r@ =~= decimal(v as nat));
    }
    r
}

/// A short form of a text: the text itself, cut to 100 characters, when it has at most
/// three lines; otherwise the number of its lines.
pub open spec fn line_summary(s: Seq<char>) -> Seq<char> {
    if line_count(s) <= 3 {
        truncated_line(s, 100)
    } else {
        decimal(line_count(s)) + " lines"@
    }
}

/// The short form of a text, by the rule of `line_summary`.
pub fn summarize_text(s: &str) -> (r: String)
    ensures
        r@ == line_summary(s@),
{
    let lines = count_lines(s);
    if lines <= 3 {
        truncate_line(s, 100)
    } else {
        let mut r = String::new();
        push_decimal(&mut r, lines as u64);
        r.append(" lines");
        assert(r@ =~= decimal(lines as nat) + " lines"@);
        r
    }
}

/// The short form of a command's output: empty where there was none.
pub fn summarize_command_output(output: &Option<String>) -> (r: String)
    ensures
        r@ == match output {
            None => Seq::<char>::empty(),
            Some(s) => line_summary(s@),
        },
{
    match output {
        None => String::new(),
        Some(s) => summarize_text(s.as_str()),
    }
}

/// `line` without one carriage return at its end.
pub open spec fn strip_cr(line: Seq<char>) -> Seq<char> {
    if line.len() > 0 && line.last() == '\r' {
        line.drop_last()
    } else {
        line
    }
}

/// Reading `s` from the start: the lines already ended by a line feed (each without its
/// line ending, `\n` or `\r\n`), and the unfinished line after them.
pub open spec fn line_state(s: Seq<char>) -> (Seq<Seq<char>>, Seq<char>)
    decreases s.len(),
{
    if s.len() == 0 {
        (Seq::empty(), Seq::empty())
    } else {
        let (done, cur) = line_state(s.drop_last());
        if s.last() == '\n' {
            (done.push(strip_cr(cur)), Seq::empty())
        } else {
            (done, cur.push(s.last()))
        }
    }
}

/// The lines of `s`, without their line endings; a non-empty unfinished line counts.
pub open spec fn text_lines(s: Seq<char>) -> Seq<Seq<char>> {
    let (done, cur) = line_state(s);
    if cur.len() > 0 {
        done.push(cur)
    } else {
        done
    }
}

/// The text of `chars[a..b]`.
pub fn text_of(chars: &Vec<char>, a: usize, b: usize) -> (r: String)
    requires
        a <= b <= chars@.len(),
    ensures
        r@ == chars@.subrange(a as int, b as int),
{
    let mut r = String::new();
    let mut k: usize = a;
    while k < b
        invariant
            a <= k <= b,
            b <= chars@.len(),
            r@ == chars@.subrange(a as int, k as int),
        decreases b - k,
    {
        r.push(chars[k]);
        k = k + 1;
        assert(r@ =~= chars@.subrange(a as int, k as int));
    }
    r
}

/// The lines of `s`, as `text_lines` gives them.
pub fn split_lines(s: &str) -> (v: Vec<String>)
    ensures
        v@.len() == text_lines(s@).len(),
        forall|k: int| 0 <= k < v@.len() ==> #[trigger] v@[k]@ == text_lines(s@)[k],
{
    let chars = chars_of(s);
    let n = chars.len();
    let mut v: Vec<String> = Vec::new();
    let mut start: usize = 0;
    let mut i: usize = 0;
    while i < n
        invariant
            start <= i <= n,
            n == s@.len(),
            chars@ == s@,
            v@.len() == line_state(s@.subrange(0, i as int)).0.len(),
            forall|k: int|
                0 <= k < v@.len() ==> #[trigger] v@[k]@ == line_state(
                    s@.subrange(0, i as int),
                ).0[k],
            line_state(s@.subrange(0, i as int)).1 == s@.subrange(start as int, i as int),
        decreases n - i,
    {
        assert(s@.subrange(0, i + 1).drop_last() =~= s@.subrange(0, i as int));
        if chars[i] == '\n' {
            let mut end = i;
            if end > start && chars[end - 1] == '\r' {
                end = end - 1;
            }
            let line = text_of(&chars, start, end);
            assert(line@ == strip_cr(s@.subrange(start as int, i as int))) by {
                if i > start {
                    assert(s@.subrange(start as int, i as int).drop_last() =~= s@.subrange(
                        start as int,
                        i - 1,
                    ));
                } else {
                    assert(line@ =~= s@.subrange(start as int, i as int));
                }
            }
            v.push(line);
            start = i + 1;
            i = i + 1;
            assert(s@.subrange(start as int, i as int) =~= Seq::<char>::empty());
        } else {
            i = i + 1;
            assert(s@.subrange(start as int, i as int) =~= s@.subrange(start as int, i - 1).push(
                chars@[i - 1],
            ));
        }
    }
    assert(s@.subrange(0, n as int) =~= s@);
    if start < n {
        let line = text_of(&chars, start, n);
        v.push(line);
    }
    v
}

/// `s` without white space at its end.
pub fn trim_end_text(s: &str) -> (r: String)
    ensures
        r@ == trim_end(s@),
{
    let chars = chars_of(s);
    let n = chars.len();
    let mut j: usize = n;
    assert(chars@.subrange(0, n as int) =~= chars@);
    while j > 0 && is_space_char(chars[j - 1])
        invariant
            j <= n,
            n == chars@.len(),
            chars@ == s@,
            trim_end(chars@.subrange(0, j as int)) == trim_end(s@),
        decreases j,
    {
        assert(chars@.subrange(0, j as int).drop_last() =~= chars@.subrange(0, j - 1));
        j = j - 1;
    }
    text_of(&chars, 0, j)
}

/// What `strip_ansi_escapes::strip` leaves of a text: the text without its terminal
/// escape sequences.
pub uninterp spec fn ansi_stripped(s: Seq<char>) -> Seq<char>;

/// Relies on `strip_ansi_escapes::strip`: removes terminal escape sequences; the result
/// depends on the text alone, and an empty text gives an empty result.
#[verifier::external_body]
fn strip_escapes(input: &str) -> (r: String)
    ensures
        r@ == ansi_stripped(input@),
        input@.len() == 0 ==> r@.len() == 0,
{
    String::from_utf8_lossy(&strip_ansi_escapes::strip(input)).to_string()
}

/// `input` without its terminal escape sequences.
pub fn strip_ansi(input: &str) -> (r: String)
    ensures
        r@ == ansi_stripped(input@),
        input@.len() == 0 ==> r@.len() == 0,
{
    strip_escapes(input)
}

/// The text forwarded to the other agent: stripped of terminal escapes when asked, then
/// cut to the byte cap.
pub open spec fn forward_text(s: Seq<char>, strip: bool, max_bytes: nat) -> Seq<char> {
    truncated(
        if strip {
            ansi_stripped(s)
        } else {
            s
        },
        max_bytes,
    )
}

/// Prepares an agent's output for the other agent, as `forward_text` says.
pub fn prepare_forward(s: &str, strip: bool, max_bytes: usize) -> (r: String)
    ensures
        r@ == forward_text(s@, strip, max_bytes as nat),
{
    if strip {
        let plain = strip_ansi(s);
        truncate(plain.as_str(), max_bytes)
    } else {
        truncate(s, max_bytes)
    }
}

/// The byte offset of character `char_idx` of `s`, or its length in bytes when `char_idx`
/// is at or past its end.
pub fn char_to_byte_index(s: &str, char_idx: usize) -> (r: usize)
    requires
        utf8_len(s@) <= usize::MAX,
    ensures
        r == utf8_len(s@.subrange(0, if char_idx <= s@.len() { char_idx as int } else { s@.len() as int })),
{
    let chars = chars_of(s);
    let n = chars.len();
    let stop = if char_idx <= n {
        char_idx
    } else {
        n
    };
    let mut i: usize = 0;
    let mut bytes: usize = 0;
    assert(s@.subrange(0, 0) =~= Seq::<char>::empty());
    while i < stop
        invariant
            i <= stop <= n,
            n == s@.len(),
            chars@ == s@,
            utf8_len(s@) <= usize::MAX,
            bytes == utf8_len(s@.subrange(0, i as int)),
        decreases stop - i,
    {
        proof {
            assert(s@.subrange(0, i + 1) =~= s@.subrange(0, i as int) + seq![s@[i as int]]);
            lemma_utf8_len_concat(s@.subrange(0, i as int), seq![s@[i as int]]);
            assert(seq![s@[i as int]].drop_first() =~= Seq::<char>::empty());
            lemma_utf8_len_first(seq![s@[i as int]]);
            assert(s@ =~= s@.subrange(0, i + 1) + s@.subrange(i + 1, n as int));
            lemma_utf8_len_concat(s@.subrange(0, i + 1), s@.subrange(i + 1, n as int));
        }
        bytes = bytes + char_width(chars[i]);
        i = i + 1;
    }
    bytes
}

} // verus!

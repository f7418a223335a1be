//! Character-level text handling: whitespace, tokens, trimming and lines.
//!
//! Text is modelled as `Seq<char>`, the view of `str` and `String`. The
//! executable functions work on a `Vec<char>` and hand out index ranges into
//! it, so that no text is copied while a line is taken apart.

use vstd::prelude::*;
use vstd::slice::slice_subrange;
use vstd::string::*;
use vstd::utf8::*;

verus! {

/// Whether `c` is whitespace: a code point with the Unicode `White_Space`
/// property.
pub open spec fn is_space(c: char) -> bool {
    let u = c as u32;
    ||| 0x09 <= u <= 0x0D
    ||| u == 0x20
    ||| u == 0x85
    ||| u == 0xA0
    ||| u == 0x1680
    ||| 0x2000 <= u <= 0x200A
    ||| u == 0x2028
    ||| u == 0x2029
    ||| u == 0x202F
    ||| u == 0x205F
    ||| u == 0x3000
}

/// Tests a character for whitespace.
pub fn is_whitespace(c: char) -> (b: bool)
    ensures
        b == is_space(c),
{
    let u: u32 = c as u32;
    (0x09 <= u && u <= 0x0D) || u == 0x20 || u == 0x85 || u == 0xA0 || u == 0x1680 || (0x2000 <= u
        && u <= 0x200A) || u == 0x2028 || u == 0x2029 || u == 0x202F || u == 0x205F || u
        == 0x3000
}

/// The number of characters before the first whitespace character of `s`.
pub open spec fn word_len(s: Seq<char>) -> nat
    decreases s.len(),
{
    if s.len() == 0 || is_space(s[0]) {
        0
    } else {
        1 + word_len(s.drop_first())
    }
}

/// `word_len` never runs past the end of the text.
pub proof fn lemma_word_len_bound(s: Seq<char>)
    ensures
        word_len(s) <= s.len(),
        s.len() > 0 && !is_space(s[0]) ==> word_len(s) >= 1,
    decreases s.len(),
{
    if s.len() > 0 && !is_space(s[0]) {
        lemma_word_len_bound(s.drop_first());
    }
}

/// The tokens of `s`: its maximal runs of non-whitespace characters, in the
/// order in which they occur.
pub open spec fn tokens(s: Seq<char>) -> Seq<Seq<char>>
    decreases s.len(),
{
    if s.len() == 0 {
        Seq::empty()
    } else if is_space(s[0]) {
        tokens(s.drop_first())
    } else {
        proof {
            lemma_word_len_bound(s);
        }
        let n = word_len(s) as int;
        seq![s.take(n)] + tokens(s.skip(n))
    }
}

/// `s` without its leading whitespace.
pub open spec fn trim_start(s: Seq<char>) -> Seq<char>
    decreases s.len(),
{
    if s.len() > 0 && is_space(s[0]) {
        trim_start(s.drop_first())
    } else {
        s
    }
}

/// `s` without its trailing whitespace.
pub open spec fn trim_end(s: Seq<char>) -> Seq<char>
    decreases s.len(),
{
    if s.len() > 0 && is_space(s.last()) {
        trim_end(s.drop_last())
    } else {
        s
    }
}

/// `s` without leading and trailing whitespace.
pub open spec fn trim(s: Seq<char>) -> Seq<char> {
    trim_end(trim_start(s))
}

/// A half-open range of indices into a text.
#[derive(Clone, Copy, Debug, PartialEq, Eq, Structural)]
pub struct Span {
    pub start: usize,
    pub end: usize,
}

impl Span {
    /// The range lies inside a text of `len` characters.
    pub open spec fn within(self, len: nat) -> bool {
        self.start <= self.end <= len
    }

    /// The characters of `s` that the range selects.
    pub open spec fn of(self, s: Seq<char>) -> Seq<char> {
        s.subrange(self.start as int, self.end as int)
    }
}

/// The characters of a string, in order.
pub fn to_chars(s: &str) -> (chars: Vec<char>)
    ensures
        chars@ == s@,
{
    broadcast use vstd::string::group_string_axioms;

    let mut chars: Vec<char> = Vec::new();
    let iter = s.chars();
    for c in it: iter
        invariant
            it.seq() == s@,
            chars@ == it.seq().take(it.index()),
    {
        chars.push(c);
    }
    chars
}

/// Finds the range that is left of `span` once the whitespace at both of its
/// ends is taken away.
pub fn trim_span(chars: &Vec<char>, span: Span) -> (r: Span)
    requires
        span.within(chars@.len()),
    ensures
        r.within(chars@.len()),
        span.start <= r.start,
        r.end <= span.end,
        r.of(chars@) == trim(span.of(chars@)),
{
    let ghost whole = span.of(chars@);
    let mut start: usize = span.start;
    while start < span.end && is_whitespace(chars[start])
        invariant
            span.within(chars@.len()),
            span.start <= start <= span.end,
            trim_start(whole) == trim_start(chars@.subrange(start as int, span.end as int)),
            whole == span.of(chars@),
        decreases span.end - start,
    {
        assert(chars@.subrange(start as int, span.end as int).drop_first() == chars@.subrange(
            start as int + 1,
            span.end as int,
        ));
        start = start + 1;
    }
    let ghost front = chars@.subrange(start as int, span.end as int);
    assert(trim_start(whole) == front);
    let mut end: usize = span.end;
    while start < end && is_whitespace(chars[end - 1])
        invariant
            span.within(chars@.len()),
            start <= end <= span.end,
            front == chars@.subrange(start as int, span.end as int),
            trim_end(front) == trim_end(chars@.subrange(start as int, end as int)),
        decreases end - start,
    {
        assert(chars@.subrange(start as int, end as int).drop_last() == chars@.subrange(
            start as int,
            end as int - 1,
        ));
        end = end - 1;
    }
    Span { start, end }
}

/// Splits the part of `chars` that `span` selects at whitespace. The result
/// holds one range for each token, in order.
pub fn split_whitespace(chars: &Vec<char>, span: Span) -> (spans: Vec<Span>)
    requires
        span.within(chars@.len()),
    ensures
        spans@.len() == tokens(span.of(chars@)).len(),
        forall|k: int|
            0 <= k < spans@.len() ==> {
                &&& (#[trigger] spans@[k]).within(chars@.len())
                &&& span.start <= spans@[k].start
                &&& spans@[k].start < spans@[k].end
                &&& spans@[k].end <= span.end
                &&& spans@[k].of(chars@) == tokens(span.of(chars@))[k]
            },
{
    let ghost whole = span.of(chars@);
    let mut spans: Vec<Span> = Vec::new();
    let ghost mut done: Seq<Seq<char>> = Seq::empty();
    let mut i: usize = span.start;
    while i < span.end
        invariant
            span.within(chars@.len()),
            whole == span.of(chars@),
            span.start <= i <= span.end,
            tokens(whole) == done + tokens(chars@.subrange(i as int, span.end as int)),
            spans@.len() == done.len(),
            forall|k: int|
                0 <= k < spans@.len() ==> {
                    &&& (#[trigger] spans@[k]).within(chars@.len())
                    &&& span.start <= spans@[k].start
                    &&& spans@[k].start < spans@[k].end
                    &&& spans@[k].end <= span.end
                    &&& spans@[k].of(chars@) == done[k]
                },
        decreases span.end - i,
    {
        let ghost rest = chars@.subrange(i as int, span.end as int);
        if is_whitespace(chars[i]) {
            assert(rest.drop_first() == chars@.subrange(i as int + 1, span.end as int));
            i = i + 1;
        } else {
            let start: usize = i;
            i = i + 1;
            assert(rest.drop_first() == chars@.subrange(i as int, span.end as int));
            while i < span.end && !is_whitespace(chars[i])
                invariant
                    span.within(chars@.len()),
                    span.start <= start < i <= span.end,
                    rest == chars@.subrange(start as int, span.end as int),
                    word_len(rest) == (i - start) + word_len(
                        chars@.subrange(i as int, span.end as int),
                    ),
                decreases span.end - i,
            {
                assert(chars@.subrange(i as int, span.end as int).drop_first() == chars@.subrange(
                    i as int + 1,
                    span.end as int,
                ));
                i = i + 1;
            }
            let word = Span { start, end: i };
            proof {
                assert(word_len(chars@.subrange(i as int, span.end as int)) == 0);
                assert(rest.take((i - start) as int) == word.of(chars@));
                assert(rest.skip((i - start) as int) == chars@.subrange(i as int, span.end as int));
                done = done.push(word.of(chars@));
                assert(tokens(whole) == done + tokens(chars@.subrange(i as int, span.end as int)));
            }
            spans.push(word);
        }
    }
    proof {
        assert(chars@.subrange(i as int, span.end as int).len() == 0);
        assert(tokens(whole) == done);
    }
    spans
}

/// Whether the text that `span` selects is exactly the string `word`.
pub fn span_is(chars: &Vec<char>, span: Span, word: &str) -> (b: bool)
    requires
        span.within(chars@.len()),
    ensures
        b == (span.of(chars@) == word@),
{
    let n = word.unicode_len();
    if span.end - span.start != n {
        return false;
    }
    let mut i: usize = 0;
    while i < n
        invariant
            span.within(chars@.len()),
            n == word@.len(),
            n == span.end - span.start,
            i <= n,
            span.of(chars@).take(i as int) == word@.take(i as int),
        decreases n - i,
    {
        if chars[span.start + i] != word.get_char(i) {
            assert(span.of(chars@)[i as int] != word@[i as int]);
            return false;
        }
        assert(span.of(chars@).take(i as int + 1) == span.of(chars@).take(i as int).push(
            span.of(chars@)[i as int],
        ));
        assert(word@.take(i as int + 1) == word@.take(i as int).push(word@[i as int]));
        i = i + 1;
    }
    assert(span.of(chars@).take(n as int) == span.of(chars@));
    assert(word@.take(n as int) == word@);
    true
}

/// Whether the text that `span` selects begins with the string `prefix`.
pub fn span_starts_with(chars: &Vec<char>, span: Span, prefix: &str) -> (b: bool)
    requires
        span.within(chars@.len()),
    ensures
        b == prefix@.is_prefix_of(span.of(chars@)),
{
    let n = prefix.unicode_len();
    if span.end - span.start < n {
        return false;
    }
    let head = Span { start: span.start, end: span.start + n };
    let b = span_is(chars, head, prefix);
    proof {
        let s = span.of(chars@);
        assert(head.of(chars@) == s.subrange(0, n as int));
        if b {
            assert(prefix@ == s.subrange(0, prefix@.len() as int));
        }
    }
    b
}

/// Whether two strings hold the same characters.
pub fn str_eq(a: &str, b: &str) -> (r: bool)
    ensures
        r == (a@ == b@),
{
    let chars = to_chars(a);
    let whole = Span { start: 0, end: chars.len() };
    assert(whole.of(chars@) == chars@);
    span_is(&chars, whole, b)
}

/// The texts of a sequence of strings.
pub open spec fn texts(v: Seq<String>) -> Seq<Seq<char>> {
    v.map_values(|s: String| s@)
}

/// The texts of a sequence of pairs of strings.
pub open spec fn pair_texts(pairs: Seq<(String, String)>) -> Seq<(Seq<char>, Seq<char>)> {
    pairs.map_values(|p: (String, String)| (p.0@, p.1@))
}

/// `parts` written one after the other with `sep` between each two.
pub open spec fn join(parts: Seq<Seq<char>>, sep: Seq<char>) -> Seq<char>
    decreases parts.len(),
{
    if parts.len() == 0 {
        Seq::empty()
    } else if parts.len() == 1 {
        parts[0]
    } else {
        join(parts.drop_last(), sep) + sep + parts.last()
    }
}

/// Joins strings with a separator.
pub fn join_strings(parts: &Vec<String>, sep: &str) -> (s: String)
    ensures
        s@ == join(texts(parts@), sep@),
{
    let mut s = String::new();
    let mut i: usize = 0;
    while i < parts.len()
        invariant
            i <= parts@.len(),
            s@ == join(texts(parts@).take(i as int), sep@),
        decreases parts@.len() - i,
    {
        let ghost before = texts(parts@).take(i as int);
        let ghost after = texts(parts@).take(i as int + 1);
        assert(after.drop_last() == before);
        assert(after.last() == parts@[i as int]@);
        if i > 0 {
            s.append(sep);
        }
        s.append(parts[i].as_str());
        assert(s@ =~= join(after, sep@));
        i = i + 1;
    }
    assert(texts(parts@).take(i as int) == texts(parts@));
    s
}

/// The number of bytes before the first line feed of `b`.
pub open spec fn line_len(b: Seq<u8>) -> nat
    decreases b.len(),
{
    if b.len() == 0 || b[0] == 10 {
        0
    } else {
        1 + line_len(b.drop_first())
    }
}

/// `line_len` never runs past the end of the bytes.
pub proof fn lemma_line_len_bound(b: Seq<u8>)
    ensures
        line_len(b) <= b.len(),
    decreases b.len(),
{
    if b.len() > 0 && b[0] != 10 {
        lemma_line_len_bound(b.drop_first());
    }
}

/// The text of a line from its bytes, which must be UTF-8. A line that a
/// line feed ended loses one carriage return at its end.
pub open spec fn line_text(raw: Seq<u8>, terminated: bool) -> Seq<char> {
    let t = decode_utf8(raw);
    if terminated && t.len() > 0 && t.last() == '\r' {
        t.drop_last()
    } else {
        t
    }
}

/// The lines of `b`, as far as they can be read. A line ends at a line feed
/// or at the end of the bytes; nothing follows a final line feed. Reading
/// stops before the first line that is not UTF-8.
pub open spec fn text_lines(b: Seq<u8>) -> Seq<Seq<char>>
    decreases b.len(),
{
    if b.len() == 0 {
        Seq::empty()
    } else {
        proof {
            lemma_line_len_bound(b);
        }
        let n = line_len(b) as int;
        let raw = b.take(n);
        if !valid_utf8(raw) {
            Seq::empty()
        } else if n == b.len() {
            seq![line_text(raw, false)]
        } else {
            seq![line_text(raw, true)] + text_lines(b.skip(n + 1))
        }
    }
}

/// Reads bytes as UTF-8 text.
///
/// Trusted: wraps `core::str::from_utf8`. The contract claims that the call
/// succeeds exactly on well-formed UTF-8 and that the string it yields holds
/// the characters which those bytes encode.
#[verifier::external_body]
fn utf8_text(bytes: &[u8]) -> (r: Option<&str>)
    ensures
        r is Some <==> valid_utf8(bytes@),
        r matches Some(s) ==> s@ == decode_utf8(bytes@),
{
    core::str::from_utf8(bytes).ok()
}

/// Splits bytes into lines of text.
pub fn read_lines(bytes: &[u8]) -> (lines: Vec<String>)
    ensures
        texts(lines@) == text_lines(bytes@),
{
    let mut lines: Vec<String> = Vec::new();
    let len = bytes.len();
    let mut pos: usize = 0;
    proof {
        assert(bytes@.skip(0) == bytes@);
        assert(texts(lines@) + text_lines(bytes@) == text_lines(bytes@));
    }
    while pos < len
        invariant
            len == bytes@.len(),
            pos <= len,
            text_lines(bytes@) == texts(lines@) + text_lines(bytes@.skip(pos as int)),
        decreases len - pos,
    {
        let ghost rest = bytes@.skip(pos as int);
        let mut end: usize = pos;
        while end < len && bytes[end] != 10
            invariant
                len == bytes@.len(),
                pos <= end <= len,
                rest == bytes@.skip(pos as int),
                line_len(rest) == (end - pos) + line_len(bytes@.skip(end as int)),
            decreases len - end,
        {
            assert(bytes@.skip(end as int).drop_first() == bytes@.skip(end as int + 1));
            end = end + 1;
        }
        let raw = slice_subrange(bytes, pos, end);
        proof {
            assert(line_len(bytes@.skip(end as int)) == 0);
            assert(rest.take((end - pos) as int) == raw@);
        }
        match utf8_text(raw) {
            None => {
                proof {
                    assert(text_lines(rest) == Seq::<Seq<char>>::empty());
                    assert(text_lines(bytes@) == texts(lines@));
                    assert(text_lines(bytes@.skip(len as int)) == Seq::<Seq<char>>::empty());
                }
                pos = len;
            },
            Some(text) => {
                let terminated = end < len;
                let count = text.unicode_len();
                let line = if terminated && count > 0 && text.get_char(count - 1) == '\r' {
                    String::from_str(text.substring_char(0, count - 1))
                } else {
                    String::from_str(text)
                };
                assert(line@ == line_text(raw@, terminated));
                let ghost before = texts(lines@);
                lines.push(line);
                proof {
                    assert(texts(lines@) == before.push(line@));
                    if terminated {
                        assert(rest.skip((end - pos) as int + 1) == bytes@.skip(end as int + 1));
                    } else {
                        assert(bytes@.skip(len as int).len() == 0);
                    }
                }
                pos = if terminated {
                    end + 1
                } else {
                    end
                };
            },
        }
    }
    assert(bytes@.skip(pos as int).len() == 0);
    lines
}

} // verus!

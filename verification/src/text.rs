//! Text helpers over the character view of strings: white space and
//! trimming, line splitting, indenting, and the decoding of bytes.

use vstd::prelude::*;
use vstd::string::*;

verus! {

/// Whether `c` carries the Unicode property `White_Space`.
pub open spec fn is_white_space(c: char) -> bool {
    let u = c as u32;
    ||| 0x09 <= u <= 0x0D
    ||| u == 0x20
    ||| u == 0x85
    ||| u == 0xA0
    ||| u == 0x1680
    ||| 0x2000 <= u <= 0x200A
    ||| u == 0x2028
    ||| u == 0x2029
    ||| u == 0x202F
    ||| u == 0x205F
    ||| u == 0x3000
}

/// `s` without its leading white space.
pub open spec fn trimmed_start(s: Seq<char>) -> Seq<char>
    decreases s.len(),
{
    if s.len() > 0 && is_white_space(s.first()) {
        trimmed_start(s.drop_first())
    } else {
        s
    }
}

/// `s` without its trailing white space.
pub open spec fn trimmed_end(s: Seq<char>) -> Seq<char>
    decreases s.len(),
{
    if s.len() > 0 && is_white_space(s.last()) {
        trimmed_end(s.drop_last())
    } else {
        s
    }
}

/// `s` without leading and trailing white space.
pub open spec fn trimmed(s: Seq<char>) -> Seq<char> {
    trimmed_end(trimmed_start(s))
}

/// A string is blank when nothing is left of it after trimming.
pub open spec fn is_blank(s: Seq<char>) -> bool {
    trimmed(s).len() == 0
}

/// Where the first `k` characters are white space and the next one is
/// not, trimming the start removes exactly those `k`.
pub proof fn lemma_trimmed_start_at(s: Seq<char>, k: int)
    requires
        0 <= k <= s.len(),
        forall|i: int| 0 <= i < k ==> is_white_space(s[i]),
        k == s.len() || !is_white_space(s[k]),
    ensures
        trimmed_start(s) == s.subrange(k, s.len() as int),
    decreases k,
{
    if k > 0 {
        lemma_trimmed_start_at(s.drop_first(), k - 1);
    }
}

/// Where all from position `k` on is white space and the character before
/// is not, trimming the end keeps exactly the first `k`.
pub proof fn lemma_trimmed_end_at(s: Seq<char>, k: int)
    requires
        0 <= k <= s.len(),
        forall|i: int| k <= i < s.len() ==> is_white_space(s[i]),
        k == 0 || !is_white_space(s[k - 1]),
    ensures
        trimmed_end(s) == s.subrange(0, k),
    decreases s.len() - k,
{
    if k < s.len() {
        lemma_trimmed_end_at(s.drop_last(), k);
    }
}

/// Tests a character for the property `White_Space`.
pub fn white_space(c: char) -> (b: bool)
    ensures
        b == is_white_space(c),
{
    let u: u32 = c as u32;
    (0x09 <= u && u <= 0x0D) || u == 0x20 || u == 0x85 || u == 0xA0 || u == 0x1680 || (0x2000 <= u
        && u <= 0x200A) || u == 0x2028 || u == 0x2029 || u == 0x202F || u == 0x205F || u == 0x3000
}

/// Removes leading and trailing white space.
pub fn trim<'a>(s: &'a str) -> (r: &'a str)
    ensures
        r@ == trimmed(s@),
{
    let n = s.unicode_len();
    let mut start: usize = 0;
    let mut end: usize = 0;
    let mut seen = false;
    let mut i: usize = 0;
    for c in it: s.chars()
        invariant
            it.seq() == s@,
            n == s@.len(),
            i == it.index(),
            i <= n,
            !seen ==> start == 0 && end == 0 && forall|j: int| 0 <= j < i ==> is_white_space(s@[j]),
            seen ==> start < end <= i && !is_white_space(s@[start as int]) && !is_white_space(
                s@[end - 1],
            ) && (forall|j: int| 0 <= j < start ==> is_white_space(s@[j])) && (forall|j: int|
                end <= j < i ==> is_white_space(s@[j])),
    {
        if !white_space(c) {
            if !seen {
                start = i;
                seen = true;
            }
            end = i + 1;
        }
        i = i + 1;
    }
    proof {
        if seen {
            lemma_trimmed_start_at(s@, start as int);
            let t = s@.subrange(start as int, n as int);
            lemma_trimmed_end_at(t, end - start);
        } else {
            lemma_trimmed_start_at(s@, n as int);
        }
    }
    s.substring_char(start, end)
}

/// The character views of a run of strings.
pub open spec fn texts(strings: Seq<String>) -> Seq<Seq<char>> {
    strings.map_values(|s: String| s@)
}

/// The character view of a string that may be absent.
pub open spec fn opt_text(text: Option<String>) -> Option<Seq<char>> {
    match text {
        Some(t) => Some(t@),
        None => None,
    }
}

/// What `String::from_utf8_lossy` makes of bytes: their text, with each
/// malformed stretch replaced by U+FFFD.
pub uninterp spec fn utf8_lossy(bytes: Seq<u8>) -> Seq<char>;

/// `String::from_utf8_lossy`, as an owned string. Trusted: the result is
/// the text that `utf8_lossy` names.
#[verifier::external_body]
pub(crate) fn decode_lossy(bytes: &[u8]) -> (text: String)
    ensures
        text@ == utf8_lossy(bytes@),
{
    String::from_utf8_lossy(bytes).into_owned()
}

/// Assumed of `String::push`: it appends one character.
pub assume_specification[ String::push ](s: &mut String, c: char)
    ensures
        final(s)@ == old(s)@.push(c),
;

/// `s` without the run of `c` at its end.
pub open spec fn without_trailing(s: Seq<char>, c: char) -> Seq<char>
    decreases s.len(),
{
    if s.len() > 0 && s.last() == c {
        without_trailing(s.drop_last(), c)
    } else {
        s
    }
}

/// Where all from position `k` on is `c` and the character before is not,
/// exactly the first `k` characters are kept.
pub proof fn lemma_without_trailing_at(s: Seq<char>, c: char, k: int)
    requires
        0 <= k <= s.len(),
        forall|i: int| k <= i < s.len() ==> s[i] == c,
        k == 0 || s[k - 1] != c,
    ensures
        without_trailing(s, c) == s.subrange(0, k),
    decreases s.len() - k,
{
    if k < s.len() {
        lemma_without_trailing_at(s.drop_last(), c, k);
    }
}

/// Removes every `c` at the end of `s`.
pub fn trim_end_matches<'a>(s: &'a str, c: char) -> (r: &'a str)
    ensures
        r@ == without_trailing(s@, c),
{
    let n = s.unicode_len();
    let mut end: usize = 0;
    let mut i: usize = 0;
    for d in it: s.chars()
        invariant
            it.seq() == s@,
            n == s@.len(),
            i == it.index(),
            i <= n,
            end <= i,
            end == 0 || s@[end - 1] != c,
            forall|j: int| end <= j < i ==> s@[j] == c,
    {
        if d != c {
            end = i + 1;
        }
        i = i + 1;
    }
    proof {
        lemma_without_trailing_at(s@, c, end as int);
    }
    s.substring_char(0, end)
}

/// A line without the carriage return that stood before its line feed.
pub open spec fn without_cr(line: Seq<char>) -> Seq<char> {
    if line.len() > 0 && line.last() == '\r' {
        line.drop_last()
    } else {
        line
    }
}

/// The lines that have ended in `s`, and what follows the last line feed.
pub open spec fn lines_scan(s: Seq<char>) -> (Seq<Seq<char>>, Seq<char>)
    decreases s.len(),
{
    if s.len() == 0 {
        (Seq::empty(), Seq::empty())
    } else {
        let (lines, rest) = lines_scan(s.drop_last());
        if s.last() == '\n' {
            (lines.push(without_cr(rest)), Seq::empty())
        } else {
            (lines, rest.push(s.last()))
        }
    }
}

/// The lines of `s`: the pieces between line feeds, each without the
/// carriage return that stood before its line feed. What follows the last
/// line feed is a line of its own unless it is empty.
pub open spec fn lines_of(s: Seq<char>) -> Seq<Seq<char>> {
    let (lines, rest) = lines_scan(s);
    if rest.len() > 0 {
        lines.push(rest)
    } else {
        lines
    }
}

/// Removes one carriage return from the end of a line.
pub fn strip_cr<'a>(line: &'a str) -> (r: &'a str)
    ensures
        r@ == without_cr(line@),
{
    let n = line.unicode_len();
    if n > 0 && line.get_char(n - 1) == '\r' {
        let r = line.substring_char(0, n - 1);
        r
    } else {
        line
    }
}

/// Splits a text into its lines.
pub fn split_lines(s: &str) -> (lines: Vec<String>)
    ensures
        texts(lines@) == lines_of(s@),
{
    let mut lines: Vec<String> = Vec::new();
    let mut rest = String::new();
    for c in it: s.chars()
        invariant
            it.seq() == s@,
            it.index() <= s@.len(),
            (texts(lines@), rest@) == lines_scan(s@.take(it.index() as int)),
    {
        let ghost i = it.index() as int;
        assert(s@.take(i + 1).drop_last() =~= s@.take(i));
        if c == '\n' {
            lines.push(String::from_str(strip_cr(rest.as_str())));
            rest = String::new();
        } else {
            rest.push(c);
        }
    }
    assert(s@.take(s@.len() as int) =~= s@);
    if rest.as_str().unicode_len() > 0 {
        lines.push(rest);
    }
    lines
}

/// A text with two blanks after each line feed, so that its further
/// lines stand below the first one of a list item.
pub open spec fn indented(s: Seq<char>) -> Seq<char>
    decreases s.len(),
{
    if s.len() == 0 {
        Seq::empty()
    } else if s.last() == '\n' {
        indented(s.drop_last()) + "\n  "@
    } else {
        indented(s.drop_last()).push(s.last())
    }
}

/// Puts two blanks after each line feed of a text.
pub fn indent(s: &str) -> (r: String)
    ensures
        r@ == indented(s@),
{
    let mut r = String::new();
    for c in it: s.chars()
        invariant
            it.seq() == s@,
            it.index() <= s@.len(),
            r@ == indented(s@.take(it.index() as int)),
    {
        let ghost i = it.index() as int;
        proof {
            assert(s@.take(i + 1).drop_last() =~= s@.take(i));
        }
        if c == '\n' {
            r.append("\n  ");
        } else {
            r.push(c);
        }
    }
    assert(s@.take(s@.len() as int) =~= s@);
    r
}

} // verus!

//! Text primitives shared by the estimators and the splitter: lines,
//! joining, decimal rendering, and character classes.

use vstd::prelude::*;
use vstd::string::StrSliceExecFns;
use vstd::string::StringExecFns;
use vstd::std_specs::iter::IteratorSpec;

verus! {

/// Whether `c` has the Unicode `White_Space` property, as `char::is_whitespace` reports it.
pub uninterp spec fn char_is_whitespace(c: char) -> bool;

/// Whether `c` is alphabetic or numeric in Unicode's terms, as `char::is_alphanumeric` reports it.
pub uninterp spec fn char_is_alphanumeric(c: char) -> bool;

/// Calls `char::is_whitespace`. Nothing is claimed beyond giving the answer its name.
#[verifier::external_body]
pub(crate) fn is_whitespace(c: char) -> (r: bool)
    ensures
        r == char_is_whitespace(c),
{
    c.is_whitespace()
}

/// Calls `char::is_alphanumeric`. Nothing is claimed beyond giving the answer its name.
#[verifier::external_body]
pub(crate) fn is_alphanumeric(c: char) -> (r: bool)
    ensures
        r == char_is_alphanumeric(c),
{
    c.is_alphanumeric()
}

/// Calls `String::push`: the string afterwards is the string before with `c` appended.
#[verifier::external_body]
pub(crate) fn push_char(s: &mut String, c: char)
    ensures
        final(s)@ == old(s)@.push(c),
{
    s.push(c)
}

/// Position of the first line feed in `s`, or `s.len()` when there is none.
pub open spec fn first_newline(s: Seq<char>) -> int
    decreases s.len(),
{
    if s.len() == 0 {
        0
    } else if s[0] == '\n' {
        0
    } else {
        1 + first_newline(s.drop_first())
    }
}

/// `line` without one trailing carriage return.
pub open spec fn strip_cr(line: Seq<char>) -> Seq<char> {
    if line.len() > 0 && line.last() == '\r' {
        line.drop_last()
    } else {
        line
    }
}

/// The lines of `s`. A line ends at a line feed, or at a carriage return
/// directly followed by one; terminators are not part of a line. What
/// follows the last line feed is a line only when it is not empty, and it
/// keeps a trailing carriage return.
pub open spec fn lines_of(s: Seq<char>) -> Seq<Seq<char>>
    decreases s.len(),
{
    if s.len() == 0 {
        Seq::empty()
    } else {
        let i = first_newline(s);
        if 0 <= i < s.len() {
            seq![strip_cr(s.take(i))] + lines_of(s.skip(i + 1))
        } else {
            seq![s]
        }
    }
}

/// `lines` joined by single line feeds.
pub open spec fn join_lines(lines: Seq<Seq<char>>) -> Seq<char>
    decreases lines.len(),
{
    if lines.len() == 0 {
        Seq::empty()
    } else if lines.len() == 1 {
        lines[0]
    } else {
        join_lines(lines.drop_last()) + seq!['\n'] + lines.last()
    }
}

/// The views of a sequence of strings.
pub open spec fn texts(v: Seq<String>) -> Seq<Seq<char>> {
    Seq::new(v.len(), |i: int| v[i]@)
}

/// The first line feed lies within the text, with no line feed before it.
pub proof fn lemma_first_newline_bounds(s: Seq<char>)
    ensures
        0 <= first_newline(s) <= s.len(),
        forall|j: int| 0 <= j < first_newline(s) ==> s[j] != '\n',
        first_newline(s) < s.len() ==> s[first_newline(s)] == '\n',
    decreases s.len(),
{
    if s.len() > 0 && s[0] != '\n' {
        let t = s.drop_first();
        lemma_first_newline_bounds(t);
        assert forall|j: int| 0 <= j < first_newline(s) implies s[j] != '\n' by {
            if j > 0 {
                assert(s[j] == t[j - 1]);
            }
        }
    }
}

/// The first line feed is where a line feed stands with none before it.
pub proof fn lemma_first_newline_at(s: Seq<char>, k: int)
    requires
        0 <= k <= s.len(),
        forall|j: int| 0 <= j < k ==> s[j] != '\n',
        k < s.len() ==> s[k] == '\n',
    ensures
        first_newline(s) == k,
{
    lemma_first_newline_bounds(s);
    let f = first_newline(s);
    if f < k {
        assert(s[f] == '\n');
    } else if f > k {
        assert(s[k] != '\n');
    }
}

/// Splits `text` into its lines, as `str::lines` does.
pub fn split_lines(text: &str) -> (lines: Vec<String>)
    ensures
        texts(lines@) == lines_of(text@),
{
    let mut lines: Vec<String> = Vec::new();
    let mut current = String::new();
    let mut pending_cr = false;
    let mut open = false;
    let ghost mut line_start: int = 0;
    proof {
        assert(text@.skip(0) == text@);
        assert(texts(lines@) + lines_of(text@) == lines_of(text@));
    }
    for c in iter: text.chars()
        invariant
            iter.seq() == text@,
            0 <= line_start <= iter.index() <= text@.len(),
            forall|j: int| line_start <= j < iter.index() ==> text@[j] != '\n',
            lines_of(text@) == texts(lines@) + lines_of(text@.skip(line_start)),
            current@ + (if pending_cr {
                seq!['\r']
            } else {
                Seq::<char>::empty()
            }) == text@.subrange(line_start, iter.index() as int),
            !pending_cr ==> current@.len() == 0 || current@.last() != '\r',
            open == (iter.index() > line_start),
    {
        let ghost idx = iter.index() as int;
        let ghost before = text@.subrange(line_start, idx);
        proof {
            assert(text@.subrange(line_start, idx + 1) == before.push(c));
        }
        if c == '\n' {
            proof {
                let rest = text@.skip(line_start);
                assert forall|j: int| 0 <= j < idx - line_start implies rest[j] != '\n' by {
                    assert(rest[j] == text@[line_start + j]);
                }
                lemma_first_newline_at(rest, idx - line_start);
                assert(rest.take(idx - line_start) == before);
                assert(rest.skip(idx - line_start + 1) == text@.skip(idx + 1));
                if pending_cr {
                    assert(before.drop_last() == current@);
                }
                assert(strip_cr(before) == current@);
                assert(texts(lines@.push(current)) == texts(lines@) + seq![current@]);
                line_start = idx + 1;
            }
            lines.push(current);
            current = String::new();
            pending_cr = false;
            open = false;
            proof {
                assert(text@.subrange(line_start, idx + 1) == Seq::<char>::empty());
            }
        } else {
            if pending_cr {
                push_char(&mut current, '\r');
            }
            if c == '\r' {
                pending_cr = true;
            } else {
                push_char(&mut current, c);
                pending_cr = false;
            }
            open = true;
        }
    }
    let ghost rest = text@.skip(line_start);
    let ghost done = texts(lines@);
    proof {
        assert forall|j: int| 0 <= j < rest.len() implies rest[j] != '\n' by {
            assert(rest[j] == text@[line_start + j]);
        }
        lemma_first_newline_at(rest, rest.len() as int);
        assert(rest == text@.subrange(line_start, text@.len() as int));
        assert(lines_of(rest) == if rest.len() == 0 {
            Seq::<Seq<char>>::empty()
        } else {
            seq![rest]
        });
    }
    if open {
        if pending_cr {
            push_char(&mut current, '\r');
        }
        proof {
            assert(current@ == rest);
            assert(texts(lines@.push(current)) == done + seq![current@]);
        }
        lines.push(current);
    } else {
        proof {
            assert(done + Seq::<Seq<char>>::empty() == done);
        }
    }
    lines
}

/// Joins `lines[start..end]` by single line feeds.
pub fn join_range(lines: &Vec<String>, start: usize, end: usize) -> (joined: String)
    requires
        start <= end <= lines.len(),
    ensures
        joined@ == join_lines(texts(lines@).subrange(start as int, end as int)),
{
    let mut joined = String::new();
    let mut i: usize = start;
    while i < end
        invariant
            start <= i <= end <= lines.len(),
            joined@ == join_lines(texts(lines@).subrange(start as int, i as int)),
        decreases end - i,
    {
        let ghost taken = texts(lines@).subrange(start as int, i as int);
        proof {
            let next = texts(lines@).subrange(start as int, i + 1);
            assert(next.drop_last() == taken);
            assert(next.last() == lines@[i as int]@);
            reveal_strlit("\n");
            assert("\n"@ == seq!['\n']);
        }
        if i > start {
            joined.append("\n");
        }
        joined.append(lines[i].as_str());
        i = i + 1;
    }
    joined
}

/// The character that stands for the decimal digit `d`.
pub open spec fn digit_char(d: int) -> char {
    (48 + d) as u8 as char
}

/// `n` written in decimal, without leading zeros.
pub open spec fn decimal(n: nat) -> Seq<char>
    decreases n,
{
    if n < 10 {
        seq![digit_char(n as int)]
    } else {
        decimal(n / 10).push(digit_char((n % 10) as int))
    }
}

/// Renders `n` in decimal.
pub fn decimal_string(n: usize) -> (s: String)
    ensures
        s@ == decimal(n as nat),
    decreases n,
{
    let d: u8 = (n % 10) as u8;
    let c: char = (48u8 + d) as char;
    if n < 10 {
        let mut s = String::new();
        push_char(&mut s, c);
        s
    } else {
        let mut s = decimal_string(n / 10);
        push_char(&mut s, c);
        s
    }
}

/// The characters of `text`, one element each.
pub fn chars_of(text: &str) -> (chars: Vec<char>)
    ensures
        chars@ == text@,
{
    let mut chars: Vec<char> = Vec::new();
    for c in iter: text.chars()
        invariant
            iter.seq() == text@,
            chars@ == text@.take(iter.index() as int),
    {
        proof {
            let k = iter.index() as int;
            assert(text@.take(k + 1) == text@.take(k).push(c));
        }
        chars.push(c);
    }
    proof {
        assert(text@.take(text@.len() as int) == text@);
    }
    chars
}

/// Whether two texts hold the same characters.
pub fn text_eq(a: &str, b: &str) -> (same: bool)
    ensures
        same == (a@ == b@),
{
    let mut other = b.chars();
    for c in iter: a.chars()
        invariant
            iter.seq() == a@,
            iter.index() <= b@.len(),
            other.remaining() == b@.skip(iter.index() as int),
            a@.take(iter.index() as int) == b@.take(iter.index() as int),
    {
        let ghost k = iter.index() as int;
        match other.next() {
            None => {
                proof {
                    assert(b@.len() == k);
                }
                return false;
            },
            Some(d) => {
                proof {
                    assert(d == b@[k]);
                    assert(b@.skip(k).drop_first() == b@.skip(k + 1));
                }
                if c != d {
                    return false;
                }
                proof {
                    assert(a@.take(k + 1) == a@.take(k).push(c));
                    assert(b@.take(k + 1) == b@.take(k).push(d));
                }
            },
        }
    }
    proof {
        assert(a@.take(a@.len() as int) == a@);
        if b@.len() == a@.len() {
            assert(b@.take(a@.len() as int) == b@);
        }
    }
    match other.next() {
        None => true,
        Some(_) => false,
    }
}

/// Number of whitespace characters at the start of `s`.
pub open spec fn leading_whitespace(s: Seq<char>) -> nat
    decreases s.len(),
{
    if s.len() > 0 && char_is_whitespace(s[0]) {
        1 + leading_whitespace(s.drop_first())
    } else {
        0
    }
}

/// Number of whitespace characters at the end of `s`.
pub open spec fn trailing_whitespace(s: Seq<char>) -> nat
    decreases s.len(),
{
    if s.len() > 0 && char_is_whitespace(s.last()) {
        1 + trailing_whitespace(s.drop_last())
    } else {
        0
    }
}

/// `s` without the whitespace at its start.
pub open spec fn trim_start(s: Seq<char>) -> Seq<char> {
    s.skip(leading_whitespace(s) as int)
}

/// `s` without the whitespace at its end.
pub open spec fn trim_end(s: Seq<char>) -> Seq<char> {
    s.take(s.len() - trailing_whitespace(s))
}

/// `s` without the whitespace at its start and at its end.
pub open spec fn trim(s: Seq<char>) -> Seq<char> {
    trim_end(trim_start(s))
}

/// Whether `pattern` stands in `s` at position `i`.
pub open spec fn occurs_at(s: Seq<char>, pattern: Seq<char>, i: int) -> bool {
    0 <= i && i + pattern.len() <= s.len() && s.subrange(i, i + pattern.len()) == pattern
}

/// Whether `pattern` stands somewhere in `s`.
pub open spec fn has_substring(s: Seq<char>, pattern: Seq<char>) -> bool {
    exists|i: int| occurs_at(s, pattern, i)
}

/// How often `c` stands in `s`.
pub open spec fn count_of(s: Seq<char>, c: char) -> nat
    decreases s.len(),
{
    if s.len() == 0 {
        0
    } else {
        count_of(s.drop_last(), c) + if s.last() == c {
            1nat
        } else {
            0nat
        }
    }
}

/// The leading whitespace ends at the first character that is none.
proof fn lemma_leading_whitespace_at(s: Seq<char>, k: int)
    requires
        0 <= k <= s.len(),
        forall|j: int| 0 <= j < k ==> char_is_whitespace(s[j]),
        k < s.len() ==> !char_is_whitespace(s[k]),
    ensures
        leading_whitespace(s) == k,
    decreases s.len(),
{
    if k > 0 {
        let rest = s.drop_first();
        assert forall|j: int| 0 <= j < k - 1 implies char_is_whitespace(rest[j]) by {
            assert(rest[j] == s[j + 1]);
        }
        lemma_leading_whitespace_at(rest, k - 1);
    }
}

/// The trailing whitespace starts behind the last character that is none.
proof fn lemma_trailing_whitespace_at(s: Seq<char>, k: int)
    requires
        0 <= k <= s.len(),
        forall|j: int| s.len() - k <= j < s.len() ==> char_is_whitespace(s[j]),
        k < s.len() ==> !char_is_whitespace(s[s.len() - k - 1]),
    ensures
        trailing_whitespace(s) == k,
    decreases s.len(),
{
    if k > 0 {
        let rest = s.drop_last();
        assert forall|j: int| rest.len() - (k - 1) <= j < rest.len() implies char_is_whitespace(
            rest[j],
        ) by {
            assert(rest[j] == s[j]);
        }
        lemma_trailing_whitespace_at(rest, k - 1);
    }
}

/// Counts the whitespace characters at the start of `s`.
pub fn leading_whitespace_len(s: &[char]) -> (n: usize)
    ensures
        n == leading_whitespace(s@),
        n <= s@.len(),
{
    let mut n: usize = 0;
    while n < s.len() && is_whitespace(s[n])
        invariant
            n <= s@.len(),
            forall|j: int| 0 <= j < n ==> char_is_whitespace(s@[j]),
        decreases s@.len() - n,
    {
        n = n + 1;
    }
    proof {
        lemma_leading_whitespace_at(s@, n as int);
    }
    n
}

/// Counts the whitespace characters at the end of `s`.
pub fn trailing_whitespace_len(s: &[char]) -> (n: usize)
    ensures
        n == trailing_whitespace(s@),
        n <= s@.len(),
{
    let len = s.len();
    let mut n: usize = 0;
    while n < len && is_whitespace(s[len - n - 1])
        invariant
            len == s@.len(),
            n <= len,
            forall|j: int| len - n <= j < len ==> char_is_whitespace(s@[j]),
        decreases len - n,
    {
        n = n + 1;
    }
    proof {
        lemma_trailing_whitespace_at(s@, n as int);
    }
    n
}

/// `s` without the whitespace at its start.
pub fn trim_start_slice(s: &[char]) -> (trimmed: &[char])
    ensures
        trimmed@ == trim_start(s@),
        trimmed@.len() <= s@.len(),
{
    let skip = leading_whitespace_len(s);
    vstd::slice::slice_subrange(s, skip, s.len())
}

/// `s` without the whitespace at its end.
pub fn trim_end_slice(s: &[char]) -> (trimmed: &[char])
    ensures
        trimmed@ == trim_end(s@),
        trimmed@.len() <= s@.len(),
{
    let cut = trailing_whitespace_len(s);
    vstd::slice::slice_subrange(s, 0, s.len() - cut)
}

/// `s` without the whitespace at its start and at its end.
pub fn trim_slice(s: &[char]) -> (trimmed: &[char])
    ensures
        trimmed@ == trim(s@),
        trimmed@.len() <= s@.len(),
{
    trim_end_slice(trim_start_slice(s))
}

/// Whether `pattern` stands in `s` at position `at`.
pub fn matches_at(s: &[char], pattern: &[char], at: usize) -> (found: bool)
    ensures
        found == occurs_at(s@, pattern@, at as int),
{
    if at > s.len() || pattern.len() > s.len() - at {
        return false;
    }
    let mut i: usize = 0;
    while i < pattern.len()
        invariant
            i <= pattern@.len(),
            at + pattern@.len() <= s@.len() <= usize::MAX,
            forall|j: int| 0 <= j < i ==> s@[at + j] == pattern@[j],
        decreases pattern@.len() - i,
    {
        if s[at + i] != pattern[i] {
            proof {
                let window = s@.subrange(at as int, at + pattern@.len());
                assert(window[i as int] == s@[at + i]);
            }
            return false;
        }
        i = i + 1;
    }
    proof {
        assert(s@.subrange(at as int, at + pattern@.len()) == pattern@);
    }
    true
}

/// Whether `s` starts with `pattern`.
pub fn starts_with(s: &[char], pattern: &str) -> (found: bool)
    ensures
        found == pattern@.is_prefix_of(s@),
{
    let pattern = chars_of(pattern);
    matches_at(s, pattern.as_slice(), 0)
}

/// Whether `s` ends with `pattern`.
pub fn ends_with(s: &[char], pattern: &str) -> (found: bool)
    ensures
        found == pattern@.is_suffix_of(s@),
{
    let pattern = chars_of(pattern);
    if pattern.len() > s.len() {
        return false;
    }
    matches_at(s, pattern.as_slice(), s.len() - pattern.len())
}

/// Whether `pattern` stands somewhere in `s`.
pub fn contains(s: &[char], pattern: &str) -> (found: bool)
    ensures
        found == has_substring(s@, pattern@),
{
    let wanted = chars_of(pattern);
    if wanted.len() > s.len() {
        return false;
    }
    let last = s.len() - wanted.len();
    let mut at: usize = 0;
    while at < last
        invariant
            at <= last,
            wanted@ == pattern@,
            last == s@.len() - wanted@.len(),
            forall|i: int| 0 <= i < at ==> !occurs_at(s@, pattern@, i),
        decreases last - at,
    {
        if matches_at(s, wanted.as_slice(), at) {
            assert(occurs_at(s@, pattern@, at as int));
            return true;
        }
        at = at + 1;
    }
    let found = matches_at(s, wanted.as_slice(), last);
    assert(found ==> occurs_at(s@, pattern@, last as int));
    found
}

/// Whether `c` stands somewhere in `s`.
pub fn contains_char(s: &[char], c: char) -> (found: bool)
    ensures
        found == s@.contains(c),
{
    let mut i: usize = 0;
    while i < s.len()
        invariant
            i <= s@.len(),
            forall|j: int| 0 <= j < i ==> s@[j] != c,
        decreases s@.len() - i,
    {
        if s[i] == c {
            return true;
        }
        i = i + 1;
    }
    false
}

/// Counts how often `c` stands in `s`.
pub fn count_char(s: &[char], c: char) -> (n: usize)
    ensures
        n == count_of(s@, c),
        n <= s@.len(),
{
    let mut n: usize = 0;
    let mut i: usize = 0;
    while i < s.len()
        invariant
            i <= s@.len(),
            n <= i,
            n == count_of(s@.take(i as int), c),
        decreases s@.len() - i,
    {
        proof {
            assert(s@.take(i + 1).drop_last() == s@.take(i as int));
        }
        if s[i] == c {
            n = n + 1;
        }
        i = i + 1;
    }
    proof {
        assert(s@.take(s@.len() as int) == s@);
    }
    n
}

/// The string that holds the characters `chars`.
pub fn string_of(chars: &[char]) -> (text: String)
    ensures
        text@ == chars@,
{
    let mut text = String::new();
    let mut i: usize = 0;
    while i < chars.len()
        invariant
            i <= chars@.len(),
            text@ == chars@.take(i as int),
        decreases chars@.len() - i,
    {
        proof {
            assert(chars@.take(i + 1) == chars@.take(i as int).push(chars@[i as int]));
        }
        push_char(&mut text, chars[i]);
        i = i + 1;
    }
    proof {
        assert(chars@.take(chars@.len() as int) == chars@);
    }
    text
}

/// Number of bytes that `c` takes in UTF-8.
pub open spec fn utf8_width(c: char) -> nat {
    if (c as u32) < 0x80 {
        1
    } else if (c as u32) < 0x800 {
        2
    } else if (c as u32) < 0x1_0000 {
        3
    } else {
        4
    }
}

/// Number of bytes that the first `n` characters of `s` take in UTF-8.
pub open spec fn width_of_first(s: Seq<char>, n: nat) -> nat
    decreases n,
{
    if n == 0 || n > s.len() {
        0
    } else {
        width_of_first(s, (n - 1) as nat) + utf8_width(s[n - 1])
    }
}

/// Number of bytes that the whitespace at the start of `s` takes in UTF-8.
pub open spec fn indent_width(s: Seq<char>) -> nat {
    width_of_first(s, leading_whitespace(s))
}

/// Computes [`indent_width`].
pub fn indent_of(s: &[char]) -> (width: u128)
    ensures
        width == indent_width(s@),
{
    let n = leading_whitespace_len(s);
    let mut width: u128 = 0;
    let mut i: usize = 0;
    while i < n
        invariant
            i <= n <= s@.len(),
            width == width_of_first(s@, i as nat),
            width <= 4 * i,
        decreases n - i,
    {
        let code = s[i] as u32;
        let bytes: u128 = if code < 0x80 {
            1
        } else if code < 0x800 {
            2
        } else if code < 0x1_0000 {
            3
        } else {
            4
        };
        width = width + bytes;
        i = i + 1;
    }
    width
}

/// `s` with each occurrence of `from` replaced by `to`, found from left to
/// right, an occurrence starting where the one before it ended at the
/// earliest.
pub open spec fn replaced(s: Seq<char>, from: Seq<char>, to: Seq<char>) -> Seq<char>
    recommends
        from.len() > 0,
    decreases s.len(),
{
    if s.len() == 0 || from.len() == 0 {
        s
    } else if from.is_prefix_of(s) {
        to + replaced(s.skip(from.len() as int), from, to)
    } else {
        seq![s[0]] + replaced(s.drop_first(), from, to)
    }
}

/// Replaces each occurrence of `from` in `s` by `to`, as `str::replace`
/// does for a pattern that is not empty.
pub fn replace_all(s: &[char], from: &str, to: &str) -> (result: Vec<char>)
    requires
        from@.len() > 0,
    ensures
        result@ == replaced(s@, from@, to@),
{
    let wanted = chars_of(from);
    let filler = chars_of(to);
    let mut result: Vec<char> = Vec::new();
    let mut i: usize = 0;
    proof {
        assert(s@.skip(0) == s@);
    }
    while i < s.len()
        invariant
            i <= s@.len(),
            wanted@ == from@,
            filler@ == to@,
            from@.len() > 0,
            result@ + replaced(s@.skip(i as int), from@, to@) == replaced(s@, from@, to@),
        decreases s@.len() - i,
    {
        let ghost rest = s@.skip(i as int);
        let ghost before = result@;
        if matches_at(s, wanted.as_slice(), i) {
            proof {
                assert(rest.subrange(0, from@.len() as int) == s@.subrange(
                    i as int,
                    i + from@.len(),
                ));
                assert(rest.skip(from@.len() as int) == s@.skip(i + from@.len()));
            }
            let mut j: usize = 0;
            while j < filler.len()
                invariant
                    j <= filler@.len(),
                    result@ == before + filler@.take(j as int),
                decreases filler@.len() - j,
            {
                proof {
                    assert(filler@.take(j + 1) == filler@.take(j as int).push(filler@[j as int]));
                }
                result.push(filler[j]);
                j = j + 1;
            }
            proof {
                assert(filler@.take(filler@.len() as int) == filler@);
                assert((before + to@) + replaced(rest.skip(from@.len() as int), from@, to@)
                    == before + (to@ + replaced(rest.skip(from@.len() as int), from@, to@)));
            }
            i = i + wanted.len();
        } else {
            proof {
                if from@.is_prefix_of(rest) {
                    assert(rest.subrange(0, from@.len() as int) == s@.subrange(
                        i as int,
                        i + from@.len(),
                    ));
                }
                assert(rest.drop_first() == s@.skip(i + 1));
                assert(before.push(s@[i as int]) + replaced(rest.drop_first(), from@, to@)
                    == before + (seq![rest[0]] + replaced(rest.drop_first(), from@, to@)));
            }
            result.push(s[i]);
            i = i + 1;
        }
    }
    proof {
        assert(s@.skip(s@.len() as int) == Seq::<char>::empty());
        assert(result@ + Seq::<char>::empty() == result@);
    }
    result
}

/// `n` in decimal, with zeros in front up to `width` characters.
pub open spec fn zero_padded(n: nat, width: nat) -> Seq<char> {
    let digits = decimal(n);
    if digits.len() < width {
        Seq::new((width - digits.len()) as nat, |i: int| '0') + digits
    } else {
        digits
    }
}

/// Writes [`zero_padded`].
pub fn zero_padded_string(n: usize, width: usize) -> (text: String)
    ensures
        text@ == zero_padded(n as nat, width as nat),
{
    let digits = decimal_string(n);
    let len = digits.as_str().unicode_len();
    let mut text = String::new();
    if len < width {
        let fill = width - len;
        let mut i: usize = 0;
        while i < fill
            invariant
                i <= fill,
                text@ == Seq::new(i as nat, |k: int| '0'),
            decreases fill - i,
        {
            push_char(&mut text, '0');
            proof {
                assert(Seq::new(i as nat, |k: int| '0').push('0') == Seq::new(
                    (i + 1) as nat,
                    |k: int| '0',
                ));
            }
            i = i + 1;
        }
    } else {
        proof {
            assert(text@ + digits@ == digits@);
        }
    }
    text.append(digits.as_str());
    text
}

} // verus!

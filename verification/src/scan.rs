//! Scanning text: trimming, splitting, searching and replacing.

use vstd::prelude::*;
use crate::text::push_char;
use crate::views::{lemma_views_push, views};

verus! {

// ---------------------------------------------------------------------------
// Characters
// ---------------------------------------------------------------------------

/// The characters of a string.
pub fn chars_of(s: &str) -> (r: Vec<char>)
    ensures
        r@ == s@,
{
    let mut out: Vec<char> = Vec::new();
    for c in it: s.chars()
        invariant
            out@ == s@.take(it.index()),
            it.seq() == s@,
    {
        out.push(c);
        assert(s@.take(it.index() + 1) =~= s@.take(it.index()).push(c));
    }
    assert(s@.take(s@.len() as int) =~= s@);
    out
}

/// The string of the characters from `from` up to, but without, `to`.
pub fn text_of(chars: &Vec<char>, from: usize, to: usize) -> (r: String)
    requires
        from <= to <= chars.len(),
    ensures
        r@ == chars@.subrange(from as int, to as int),
{
    let mut out = String::new();
    for i in from..to
        invariant
            from <= to <= chars.len(),
            out@ == chars@.subrange(from as int, i as int),
    {
        push_char(&mut out, chars[i]);
        assert(chars@.subrange(from as int, i + 1) =~= chars@.subrange(from as int, i as int).push(
            chars@[i as int],
        ));
    }
    out
}

/// Whether a character is white space, by the Unicode property of that name.
pub open spec fn is_space(c: char) -> bool {
    ||| '\u{9}' <= c <= '\u{d}'
    ||| c == ' '
    ||| c == '\u{85}'
    ||| c == '\u{a0}'
    ||| c == '\u{1680}'
    ||| '\u{2000}' <= c <= '\u{200a}'
    ||| c == '\u{2028}'
    ||| c == '\u{2029}'
    ||| c == '\u{202f}'
    ||| c == '\u{205f}'
    ||| c == '\u{3000}'
}

/// Whether a character is white space.
pub fn space(c: char) -> (r: bool)
    ensures
        r == is_space(c),
{
    ('\u{9}' <= c && c <= '\u{d}') || c == ' ' || c == '\u{85}' || c == '\u{a0}' || c == '\u{1680}'
        || ('\u{2000}' <= c && c <= '\u{200a}') || c == '\u{2028}' || c == '\u{2029}' || c
        == '\u{202f}' || c == '\u{205f}' || c == '\u{3000}'
}

// ---------------------------------------------------------------------------
// Trimming
// ---------------------------------------------------------------------------

/// The text without leading white space.
pub open spec fn trim_start(s: Seq<char>) -> Seq<char>
    decreases s.len(),
{
    if s.len() > 0 && is_space(s[0]) {
        trim_start(s.drop_first())
    } else {
        s
    }
}

/// The text without trailing white space.
pub open spec fn trim_end(s: Seq<char>) -> Seq<char>
    decreases s.len(),
{
    if s.len() > 0 && is_space(s.last()) {
        trim_end(s.drop_last())
    } else {
        s
    }
}

/// The text without white space at either end.
pub open spec fn trim(s: Seq<char>) -> Seq<char> {
    trim_end(trim_start(s))
}

/// The text without white space at either end.
pub fn trim_text(s: &str) -> (r: String)
    ensures
        r@ == trim(s@),
{
    let chars = chars_of(s);
    let n: usize = chars.len();
    let mut from: usize = 0;
    assert(s@.skip(0) =~= s@);
    while from < n && space(chars[from])
        invariant
            chars@ == s@,
            n == chars.len(),
            from <= n,
            trim_start(s@) == trim_start(s@.skip(from as int)),
        decreases n - from,
    {
        assert(s@.skip(from as int).drop_first() =~= s@.skip(from + 1));
        from = from + 1;
    }
    assert(trim_start(s@) == s@.skip(from as int));
    let mut to: usize = n;
    assert(s@.subrange(from as int, n as int) =~= s@.skip(from as int));
    while to > from && space(chars[to - 1])
        invariant
            chars@ == s@,
            n == chars.len(),
            from <= to <= n,
            trim_end(s@.skip(from as int)) == trim_end(s@.subrange(from as int, to as int)),
        decreases to - from,
    {
        assert(s@.subrange(from as int, to as int).drop_last() =~= s@.subrange(
            from as int,
            to - 1,
        ));
        to = to - 1;
    }
    text_of(&chars, from, to)
}

/// The text without the trailing characters equal to `c`.
pub open spec fn trim_end_of(s: Seq<char>, c: char) -> Seq<char>
    decreases s.len(),
{
    if s.len() > 0 && s.last() == c {
        trim_end_of(s.drop_last(), c)
    } else {
        s
    }
}

/// The text without the trailing characters equal to `c`.
pub fn trim_end_of_text(s: &str, c: char) -> (r: String)
    ensures
        r@ == trim_end_of(s@, c),
{
    let chars = chars_of(s);
    let mut to: usize = chars.len();
    assert(s@.take(to as int) =~= s@);
    while to > 0 && chars[to - 1] == c
        invariant
            chars@ == s@,
            to <= chars.len(),
            trim_end_of(s@, c) == trim_end_of(s@.take(to as int), c),
        decreases to,
    {
        assert(s@.take(to as int).drop_last() =~= s@.take(to - 1));
        to = to - 1;
    }
    let r = text_of(&chars, 0, to);
    assert(r@ =~= s@.take(to as int));
    r
}

// ---------------------------------------------------------------------------
// Searching
// ---------------------------------------------------------------------------

/// Whether `needle` stands in `s` at position `i`.
pub open spec fn stands_at(s: Seq<char>, needle: Seq<char>, i: int) -> bool {
    0 <= i && i + needle.len() <= s.len() && s.subrange(i, i + needle.len()) == needle
}

/// Whether `needle` stands anywhere in `s`.
pub open spec fn occurs(s: Seq<char>, needle: Seq<char>) -> bool {
    exists|i: int| stands_at(s, needle, i)
}

/// Whether `i` is the first position from `from` on where `needle` stands.
pub open spec fn first_from(s: Seq<char>, needle: Seq<char>, from: int, i: int) -> bool {
    &&& from <= i
    &&& stands_at(s, needle, i)
    &&& forall|j: int| from <= j < i ==> !stands_at(s, needle, j)
}

fn stands(s: &Vec<char>, needle: &Vec<char>, i: usize) -> (r: bool)
    ensures
        r == stands_at(s@, needle@, i as int),
{
    if needle.len() > s.len() || i > s.len() - needle.len() {
        return false;
    }
    let ghost part = s@.subrange(i as int, i + needle.len());
    for k in 0..needle.len()
        invariant
            i + needle.len() <= s.len(),
            part == s@.subrange(i as int, i + needle.len()),
            forall|j: int| 0 <= j < k ==> part[j] == needle@[j],
    {
        if s[i + k] != needle[k] {
            assert(part[k as int] != needle@[k as int]);
            return false;
        }
    }
    assert(part =~= needle@);
    true
}

/// The first position from `from` on where `needle` stands, if there is one.
pub fn find_from(s: &Vec<char>, needle: &Vec<char>, from: usize) -> (r: Option<usize>)
    ensures
        match r {
            Some(i) => first_from(s@, needle@, from as int, i as int),
            None => forall|j: int| from <= j ==> !stands_at(s@, needle@, j),
        },
{
    if needle.len() > s.len() {
        return None;
    }
    let last: usize = s.len() - needle.len();
    let mut i: usize = from;
    while i <= last
        invariant
            last == s.len() - needle.len(),
            from <= i,
            forall|j: int| from <= j < i ==> !stands_at(s@, needle@, j),
        decreases last + 1 - i,
    {
        if stands(s, needle, i) {
            return Some(i);
        }
        if i == last {
            return None;
        }
        i = i + 1;
    }
    None
}

/// Whether `needle` stands anywhere in `s`.
pub fn occurs_in(s: &str, needle: &str) -> (r: bool)
    ensures
        r == occurs(s@, needle@),
{
    let hay = chars_of(s);
    let pin = chars_of(needle);
    match find_from(&hay, &pin, 0) {
        Some(i) => {
            assert(stands_at(s@, needle@, i as int));
            true
        },
        None => {
            assert forall|i: int| !stands_at(s@, needle@, i) by {}
            false
        },
    }
}

/// The text after the first `marker` and before the next one, trimmed, or
/// nothing where there is no marker.
pub open spec fn after_marker(s: Seq<char>, marker: Seq<char>) -> Seq<char> {
    if !occurs(s, marker) {
        Seq::empty()
    } else {
        let i = choose|i: int| first_from(s, marker, 0, i);
        let start = i + marker.len();
        if exists|j: int| first_from(s, marker, start, j) {
            let j = choose|j: int| first_from(s, marker, start, j);
            trim(s.subrange(start, j))
        } else {
            trim(s.skip(start))
        }
    }
}

/// The text after the first `marker` and before the next one, trimmed, or
/// nothing where there is no marker.
pub fn after(haystack: &str, marker: &str) -> (r: String)
    requires
        marker@.len() > 0,
    ensures
        r@ == after_marker(haystack@, marker@),
{
    let hay = chars_of(haystack);
    let pin = chars_of(marker);
    match find_from(&hay, &pin, 0) {
        None => {
            assert(!occurs(haystack@, marker@));
            String::new()
        },
        Some(i) => {
            assert(stands_at(haystack@, marker@, i as int));
            assert(first_from(haystack@, marker@, 0, i as int));
            let ghost k = choose|k: int| first_from(haystack@, marker@, 0, k);
            assert(k == i) by {
                if k < i {
                    assert(!stands_at(haystack@, marker@, k));
                } else if k > i {
                    assert(!stands_at(haystack@, marker@, i as int));
                }
            }
            assert(i + pin.len() <= hay.len());
            let start: usize = i + pin.len();
            match find_from(&hay, &pin, start) {
                Some(j) => {
                    assert(first_from(haystack@, marker@, start as int, j as int));
                    let ghost m = choose|m: int| first_from(haystack@, marker@, start as int, m);
                    assert(m == j) by {
                        if m < j {
                            assert(!stands_at(haystack@, marker@, m));
                        } else if m > j {
                            assert(!stands_at(haystack@, marker@, j as int));
                        }
                    }
                    let part = text_of(&hay, start, j);
                    trim_text(&part)
                },
                None => {
                    assert forall|m: int| !first_from(haystack@, marker@, start as int, m) by {}
                    let part = text_of(&hay, start, hay.len());
                    assert(part@ =~= haystack@.skip(start as int));
                    trim_text(&part)
                },
            }
        },
    }
}

/// The rest of a text after a prefix, if it begins with it.
pub open spec fn strip(s: Seq<char>, prefix: Seq<char>) -> Option<Seq<char>> {
    if prefix.is_prefix_of(s) {
        Some(s.skip(prefix.len() as int))
    } else {
        None
    }
}

/// The rest of a text after a prefix, if it begins with it.
pub fn strip_text(s: &str, prefix: &str) -> (r: Option<String>)
    ensures
        match r {
            Some(t) => strip(s@, prefix@) == Some(t@),
            None => strip(s@, prefix@) is None,
        },
{
    let hay = chars_of(s);
    let pin = chars_of(prefix);
    if stands(&hay, &pin, 0) {
        let t = text_of(&hay, pin.len(), hay.len());
        assert(t@ =~= s@.skip(prefix@.len() as int));
        assert(prefix@.is_prefix_of(s@));
        Some(t)
    } else {
        None
    }
}

// ---------------------------------------------------------------------------
// Words and lines
// ---------------------------------------------------------------------------

/// How many runs of characters other than white space a text has.
pub open spec fn word_count(s: Seq<char>) -> nat
    decreases s.len(),
{
    if s.len() == 0 {
        0
    } else {
        let before = word_count(s.drop_last());
        if !is_space(s.last()) && (s.len() == 1 || is_space(s[s.len() - 2])) {
            before + 1
        } else {
            before
        }
    }
}

/// How many words a text has.
pub fn count_words(s: &str) -> (r: usize)
    ensures
        r == word_count(s@),
{
    let chars = chars_of(s);
    let mut n: usize = 0;
    for i in 0..chars.len()
        invariant
            chars@ == s@,
            n == word_count(s@.take(i as int)),
            n <= i,
    {
        let ghost part = s@.take(i + 1);
        assert(part.drop_last() =~= s@.take(i as int));
        assert(part.last() == chars@[i as int]);
        if !space(chars[i]) && (i == 0 || space(chars[i - 1])) {
            n = n + 1;
        }
        assert(i > 0 ==> part[part.len() - 2] == chars@[i - 1]);
    }
    assert(s@.take(s@.len() as int) =~= s@);
    n
}

/// A line without the carriage return that ends it, if one does.
pub open spec fn without_cr(line: Seq<char>) -> Seq<char> {
    if line.len() > 0 && line.last() == '\r' {
        line.drop_last()
    } else {
        line
    }
}

/// The parts of a text between newlines, the last one included.
pub open spec fn pieces(s: Seq<char>) -> Seq<Seq<char>>
    decreases s.len(),
{
    if s.len() == 0 {
        seq![Seq::empty()]
    } else {
        let p = pieces(s.drop_last());
        if s.last() == '\n' {
            p.push(Seq::empty())
        } else {
            p.drop_last().push(p.last().push(s.last()))
        }
    }
}

/// The lines of a text: ended by a newline, or by a carriage return and a
/// newline, with nothing after the last newline being no line.
pub open spec fn lines(s: Seq<char>) -> Seq<Seq<char>> {
    let p = pieces(s);
    let ended = p.drop_last().map_values(|line: Seq<char>| without_cr(line));
    if p.last().len() == 0 {
        ended
    } else {
        ended.push(p.last())
    }
}

/// The lines of a text.
pub fn lines_of(s: &str) -> (r: Vec<String>)
    ensures
        views(r@) == lines(s@),
{
    broadcast use lemma_views_push;

    let chars = chars_of(s);
    let n: usize = chars.len();
    let ghost cut = |line: Seq<char>| without_cr(line);
    let mut out: Vec<String> = Vec::new();
    let mut start: usize = 0;
    let mut i: usize = 0;
    assert(views(out@) =~= pieces(s@.take(0)).drop_last().map_values(cut));
    while i < n
        invariant
            chars@ == s@,
            n == chars.len(),
            start <= i <= n,
            cut == (|line: Seq<char>| without_cr(line)),
            pieces(s@.take(i as int)).len() > 0,
            pieces(s@.take(i as int)).last() == s@.subrange(start as int, i as int),
            views(out@) == pieces(s@.take(i as int)).drop_last().map_values(cut),
        decreases n - i,
    {
        broadcast use lemma_views_push;

        let ghost p = pieces(s@.take(i as int));
        let ghost q = pieces(s@.take(i + 1));
        proof {
            assert(s@.take(i + 1).drop_last() =~= s@.take(i as int));
            assert(s@.take(i + 1).last() == s@[i as int]);
        }
        if chars[i] == '\n' {
            let to: usize = if i > start && chars[i - 1] == '\r' {
                i - 1
            } else {
                i
            };
            let line = text_of(&chars, start, to);
            proof {
                if i > start {
                    assert(p.last().last() == s@[i - 1]);
                    assert(p.last().drop_last() =~= s@.subrange(start as int, i - 1));
                }
                assert(line@ == without_cr(p.last()));
                assert(q.drop_last() =~= p);
                assert(p.map_values(cut) =~= p.drop_last().map_values(cut).push(
                    without_cr(p.last()),
                ));
            }
            out.push(line);
            start = i + 1;
            assert(q.last() =~= s@.subrange(start as int, i + 1));
        } else {
            assert(q.drop_last() =~= p.drop_last());
            assert(q.last() =~= s@.subrange(start as int, i + 1));
        }
        i = i + 1;
    }
    assert(s@.take(n as int) =~= s@);
    if start < n {
        let line = text_of(&chars, start, n);
        out.push(line);
    }
    out
}

/// The position of the first white space, if there is one.
pub open spec fn is_first_space(s: Seq<char>, i: int) -> bool {
    0 <= i < s.len() && is_space(s[i]) && forall|j: int| 0 <= j < i ==> !is_space(s[j])
}

/// The text before and after the first white-space character, if there is one.
pub open spec fn split_at_space(s: Seq<char>) -> Option<(Seq<char>, Seq<char>)> {
    if exists|i: int| is_first_space(s, i) {
        let i = choose|i: int| is_first_space(s, i);
        Some((s.take(i), s.skip(i + 1)))
    } else {
        None
    }
}

/// The text before and after the first white-space character, if there is one.
pub fn split_space(s: &str) -> (r: Option<(String, String)>)
    ensures
        match r {
            Some((a, b)) => split_at_space(s@) == Some((a@, b@)),
            None => split_at_space(s@) is None,
        },
{
    let chars = chars_of(s);
    for i in 0..chars.len()
        invariant
            chars@ == s@,
            forall|j: int| 0 <= j < i ==> !is_space(s@[j]),
    {
        if space(chars[i]) {
            assert(is_first_space(s@, i as int));
            let ghost k = choose|k: int| is_first_space(s@, k);
            assert(k == i);
            let a = text_of(&chars, 0, i);
            let b = text_of(&chars, i + 1, chars.len());
            assert(a@ =~= s@.take(i as int));
            assert(b@ =~= s@.skip(i + 1));
            return Some((a, b));
        }
    }
    None
}

// ---------------------------------------------------------------------------
// Letters and numbers
// ---------------------------------------------------------------------------

/// The lower-case form of an ASCII letter; any other character as it is.
pub open spec fn ascii_lower(c: char) -> char {
    if 'A' <= c <= 'Z' {
        (c as u32 + 32) as char
    } else {
        c
    }
}

/// The text with its ASCII letters in lower case.
pub open spec fn ascii_lowercase(s: Seq<char>) -> Seq<char> {
    s.map_values(|c: char| ascii_lower(c))
}

/// The text with its ASCII letters in lower case.
pub fn ascii_lowercase_text(s: &str) -> (r: String)
    ensures
        r@ == ascii_lowercase(s@),
{
    let chars = chars_of(s);
    let mut out = String::new();
    for i in 0..chars.len()
        invariant
            chars@ == s@,
            out@ == ascii_lowercase(s@.take(i as int)),
    {
        let c = chars[i];
        let low = if 'A' <= c && c <= 'Z' {
            (c as u8 + 32) as char
        } else {
            c
        };
        assert(low == ascii_lower(c));
        push_char(&mut out, low);
        assert(ascii_lowercase(s@.take(i + 1)) =~= ascii_lowercase(s@.take(i as int)).push(low));
    }
    assert(s@.take(s@.len() as int) =~= s@);
    out
}

/// Whether a text is a decimal number: digits, at least one.
pub open spec fn all_digits(s: Seq<char>) -> bool {
    s.len() > 0 && forall|i: int| 0 <= i < s.len() ==> '0' <= #[trigger] s[i] <= '9'
}

/// The number that decimal digits stand for.
pub open spec fn digits_value(s: Seq<char>) -> nat
    decreases s.len(),
{
    if s.len() == 0 {
        0
    } else {
        digits_value(s.drop_last()) * 10 + (s.last() as u32 - '0' as u32) as nat
    }
}

/// The digits of a number that may carry a plus sign.
pub open spec fn unsigned_digits(s: Seq<char>) -> Seq<char> {
    if s.len() > 0 && s[0] == '+' {
        s.drop_first()
    } else {
        s
    }
}

/// The number that a text spells, when it is one and fits a machine word.
pub open spec fn parse_unsigned(s: Seq<char>) -> Option<int> {
    let d = unsigned_digits(s);
    if all_digits(d) && digits_value(d) <= usize::MAX {
        Some(digits_value(d) as int)
    } else {
        None
    }
}

proof fn lemma_digits_grow(s: Seq<char>, i: int)
    requires
        0 <= i <= s.len(),
        all_digits(s),
    ensures
        digits_value(s.take(i)) <= digits_value(s),
    decreases s.len() - i,
{
    if i < s.len() {
        lemma_digits_grow(s, i + 1);
        assert(s.take(i + 1).drop_last() =~= s.take(i));
    } else {
        assert(s.take(i) =~= s);
    }
}

/// The number that a text spells, when it is one and fits a machine word.
pub fn parse_unsigned_text(s: &str) -> (r: Option<usize>)
    ensures
        match r {
            Some(n) => parse_unsigned(s@) == Some(n as int),
            None => parse_unsigned(s@) is None,
        },
{
    let chars = chars_of(s);
    let from: usize = if chars.len() > 0 && chars[0] == '+' {
        1
    } else {
        0
    };
    let ghost d = unsigned_digits(s@);
    assert(d =~= s@.skip(from as int));
    if from == chars.len() {
        return None;
    }
    let mut n: usize = 0;
    for i in from..chars.len()
        invariant
            chars@ == s@,
            from <= 1,
            from < chars.len(),
            d == unsigned_digits(s@),
            d == s@.skip(from as int),
            forall|j: int| 0 <= j < i - from ==> '0' <= #[trigger] d[j] <= '9',
            n == digits_value(d.take(i - from)),
    {
        let c = chars[i];
        assert(d[i - from] == c);
        if c < '0' || c > '9' {
            assert(!all_digits(d));
            return None;
        }
        let digit: usize = (c as u8 - 48) as usize;
        assert(d.take(i - from + 1).drop_last() =~= d.take(i - from));
        assert(d.take(i - from + 1).last() == c);
        if n > (usize::MAX - digit) / 10 {
            proof {
                assert(n * 10 + digit > usize::MAX) by (nonlinear_arith)
                    requires
                        n > (usize::MAX - digit) / 10,
                        digit <= usize::MAX,
                ;
                if all_digits(d) {
                    lemma_digits_grow(d, i - from + 1);
                }
            }
            return None;
        }
        proof {
            assert(n * 10 + digit <= usize::MAX) by (nonlinear_arith)
                requires
                    n <= (usize::MAX - digit) / 10,
                    digit <= usize::MAX,
            ;
        }
        n = n * 10 + digit;
    }
    assert(d.take(d.len() as int) =~= d);
    Some(n)
}

} // verus!

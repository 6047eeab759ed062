//! What the text functions do, told by putting texts together again.

use vstd::prelude::*;
use crate::scan::{
    after_marker, all_digits, ascii_lowercase, digits_value, first_from, is_first_space, is_space,
    lines, occurs, parse_unsigned, pieces, split_at_space, stands_at, strip, trim, trim_end,
    trim_end_of, trim_start, without_cr, word_count,
};
use crate::sorted::precedes;
use crate::text::{decimal, digit, join};

verus! {

// ---------------------------------------------------------------------------
// Joining and numbers
// ---------------------------------------------------------------------------

/// Joining puts the separator between each two parts and nowhere else: nothing
/// joins to nothing, one part to itself, and a part more comes after a separator.
pub proof fn law_joining_puts_separators_between(
    parts: Seq<Seq<char>>,
    more: Seq<char>,
    sep: Seq<char>,
)
    ensures
        parts.len() == 0 ==> join(parts, sep).len() == 0,
        parts.len() == 0 ==> join(parts.push(more), sep) == more,
        parts.len() > 0 ==> join(parts.push(more), sep) == join(parts, sep) + sep + more,
{
    assert(parts.push(more).drop_last() =~= parts);
}

/// A number in decimal is read back as itself, is made of digits, and begins
/// with a zero only where it is zero.
pub proof fn law_decimals_read_back(n: nat)
    ensures
        decimal(n).len() > 0,
        forall|i: int| 0 <= i < decimal(n).len() ==> '0' <= #[trigger] decimal(n)[i] <= '9',
        n > 0 ==> decimal(n)[0] != '0',
        n < 10 ==> decimal(n).len() == 1,
        all_digits(decimal(n)),
        digits_value(decimal(n)) == n,
    decreases n,
{
    if n < 10 {
        assert(decimal(n) =~= seq![digit(n)]);
        assert(decimal(n).drop_last() =~= Seq::<char>::empty());
        assert(digits_value(Seq::<char>::empty()) == 0);
    } else {
        law_decimals_read_back(n / 10);
        let s = decimal(n);
        assert(s == decimal(n / 10).push(digit(n % 10)));
        assert(s.drop_last() =~= decimal(n / 10));
        assert(s[0] == decimal(n / 10)[0]);
        assert forall|i: int| 0 <= i < s.len() implies '0' <= #[trigger] s[i] <= '9' by {
            if i < s.len() - 1 {
                assert(s[i] == decimal(n / 10)[i]);
            }
        }
    }
}

/// One digit more makes a number ten times as large, and adds the digit.
pub proof fn law_digits_count_in_tens(s: Seq<char>, c: char)
    requires
        '0' <= c <= '9',
    ensures
        digits_value(s.push(c)) == 10 * digits_value(s) + (c as u32 - '0' as u32),
        s.len() == 0 ==> digits_value(s) == 0,
{
    assert(s.push(c).drop_last() =~= s);
}

/// Every machine word is read back from its decimal digits, with or without a
/// plus sign, and a text with anything but digits after the sign is no number.
pub proof fn law_numbers_are_read(n: usize, s: Seq<char>, i: int)
    ensures
        parse_unsigned(decimal(n as nat)) == Some(n as int),
        parse_unsigned(seq!['+'] + decimal(n as nat)) == Some(n as int),
        1 <= i < s.len() && !('0' <= s[i] <= '9') ==> parse_unsigned(s) is None,
        s.len() > 0 && s[0] != '+' && !('0' <= s[0] <= '9') ==> parse_unsigned(s) is None,
        s.len() == 0 ==> parse_unsigned(s) is None,
        s == seq!['+'] ==> parse_unsigned(s) is None,
{
    let d = decimal(n as nat);
    law_decimals_read_back(n as nat);
    assert('0' <= d[0] <= '9');
    let p = seq!['+'] + d;
    assert(p.drop_first() =~= d);
    if 1 <= i < s.len() && !('0' <= s[i] <= '9') {
        if s[0] == '+' {
            assert(s.drop_first()[i - 1] == s[i]);
        }
    }
}

// ---------------------------------------------------------------------------
// White space
// ---------------------------------------------------------------------------

/// What counts as white space: the control characters from tab to carriage
/// return, the space, the next-line character, the no-break space, and the space
/// and separator characters of Unicode.
pub proof fn law_what_white_space_is(c: char)
    ensures
        is_space(c) <==> {
            ||| '\u{9}' <= c <= '\u{d}'
            ||| c == '\u{20}'
            ||| c == '\u{85}'
            ||| c == '\u{a0}'
            ||| c == '\u{1680}'
            ||| '\u{2000}' <= c <= '\u{200a}'
            ||| c == '\u{2028}'
            ||| c == '\u{2029}'
            ||| c == '\u{202f}'
            ||| c == '\u{205f}'
            ||| c == '\u{3000}'
        },
{
}

proof fn lemma_trim_start(s: Seq<char>)
    ensures
        exists|n: int|
            {
                &&& 0 <= n <= s.len()
                &&& trim_start(s) == #[trigger] s.skip(n)
                &&& forall|i: int| 0 <= i < n ==> is_space(#[trigger] s[i])
                &&& n < s.len() ==> !is_space(s[n])
            },
    decreases s.len(),
{
    if s.len() > 0 && is_space(s[0]) {
        let t = s.drop_first();
        lemma_trim_start(t);
        let n = choose|n: int|
            {
                &&& 0 <= n <= t.len()
                &&& trim_start(t) == #[trigger] t.skip(n)
                &&& forall|i: int| 0 <= i < n ==> is_space(#[trigger] t[i])
                &&& n < t.len() ==> !is_space(t[n])
            };
        assert(s.skip(n + 1) =~= t.skip(n));
        assert forall|i: int| 0 <= i < n + 1 implies is_space(#[trigger] s[i]) by {
            if i > 0 {
                assert(t[i - 1] == s[i]);
            }
        }
    } else {
        assert(s.skip(0) =~= s);
    }
}

proof fn lemma_trim_end(s: Seq<char>)
    ensures
        exists|n: int|
            {
                &&& 0 <= n <= s.len()
                &&& trim_end(s) == #[trigger] s.take(n)
                &&& forall|i: int| n <= i < s.len() ==> is_space(#[trigger] s[i])
                &&& n > 0 ==> !is_space(s[n - 1])
            },
    decreases s.len(),
{
    if s.len() > 0 && is_space(s.last()) {
        let t = s.drop_last();
        lemma_trim_end(t);
        let n = choose|n: int|
            {
                &&& 0 <= n <= t.len()
                &&& trim_end(t) == #[trigger] t.take(n)
                &&& forall|i: int| n <= i < t.len() ==> is_space(#[trigger] t[i])
                &&& n > 0 ==> !is_space(t[n - 1])
            };
        assert(s.take(n) =~= t.take(n));
        assert forall|i: int| n <= i < s.len() implies is_space(#[trigger] s[i]) by {
            if i < s.len() - 1 {
                assert(t[i] == s[i]);
            }
        }
    } else {
        assert(s.take(s.len() as int) =~= s);
    }
}

/// Trimming takes away exactly the white space at both ends: what is left lies
/// between white space on either side, and neither begins nor ends with any.
pub proof fn law_trimming_takes_only_the_ends(s: Seq<char>)
    ensures
        exists|lead: Seq<char>, trail: Seq<char>|
            {
                &&& s == #[trigger] (lead + trim(s) + trail)
                &&& forall|i: int| 0 <= i < lead.len() ==> is_space(#[trigger] lead[i])
                &&& forall|i: int| 0 <= i < trail.len() ==> is_space(#[trigger] trail[i])
            },
        trim(s).len() > 0 ==> !is_space(trim(s)[0]) && !is_space(trim(s).last()),
{
    lemma_trim_start(s);
    let a = choose|n: int|
        {
            &&& 0 <= n <= s.len()
            &&& trim_start(s) == #[trigger] s.skip(n)
            &&& forall|i: int| 0 <= i < n ==> is_space(#[trigger] s[i])
            &&& n < s.len() ==> !is_space(s[n])
        };
    let t = s.skip(a);
    lemma_trim_end(t);
    let b = choose|n: int|
        {
            &&& 0 <= n <= t.len()
            &&& trim_end(t) == #[trigger] t.take(n)
            &&& forall|i: int| n <= i < t.len() ==> is_space(#[trigger] t[i])
            &&& n > 0 ==> !is_space(t[n - 1])
        };
    let lead = s.take(a);
    let trail = t.skip(b);
    assert(s =~= lead + trim(s) + trail);
    assert forall|i: int| 0 <= i < lead.len() implies is_space(#[trigger] lead[i]) by {
        assert(lead[i] == s[i]);
    }
    assert forall|i: int| 0 <= i < trail.len() implies is_space(#[trigger] trail[i]) by {
        assert(trail[i] == t[b + i]);
    }
    if b > 0 {
        assert(t[0] == s[a]);
        assert(trim(s)[0] == t[0]);
        assert(trim(s).last() == t[b - 1]);
    }
}

/// Trimming a character off the end takes every one of it there, and nothing
/// else.
pub proof fn law_trimming_a_character_off_the_end(s: Seq<char>, c: char)
    ensures
        s.len() > 0 && s.last() != c ==> trim_end_of(s, c) == s,
        s.len() == 0 ==> trim_end_of(s, c) == s,
        trim_end_of(s.push(c), c) == trim_end_of(s, c),
{
    assert(s.push(c).drop_last() =~= s);
}

/// A text splits at its first white-space character, which falls away, and does
/// not split where it has none.
pub proof fn law_splitting_at_the_first_space(
    a: Seq<char>,
    c: char,
    b: Seq<char>,
)
    requires
        is_space(c),
        forall|i: int| 0 <= i < a.len() ==> !is_space(#[trigger] a[i]),
    ensures
        split_at_space(a + seq![c] + b) == Some((a, b)),
        split_at_space(a) is None,
{
    let s = a + seq![c] + b;
    let n = a.len() as int;
    assert(s[n] == c);
    assert forall|j: int| 0 <= j < n implies !is_space(s[j]) by {
        assert(s[j] == a[j]);
    }
    assert(is_first_space(s, n));
    let i = choose|i: int| is_first_space(s, i);
    assert(i == n) by {
        if i < n {
            assert(s[i] == a[i]);
        }
    }
    assert(s.take(n) =~= a);
    assert(s.skip(n + 1) =~= b);
    if exists|i: int| is_first_space(a, i) {
        let i = choose|i: int| is_first_space(a, i);
        assert(is_space(a[i]));
    }
}

/// Words are runs of characters other than white space: white space at the end
/// of a text begins no word, and another character there begins one exactly where
/// the text was empty or ended in white space.
pub proof fn law_words_are_runs(s: Seq<char>, c: char)
    ensures
        s.len() == 0 ==> word_count(s) == 0,
        is_space(c) ==> word_count(s.push(c)) == word_count(s),
        !is_space(c) && (s.len() == 0 || is_space(s.last())) ==> word_count(s.push(c))
            == word_count(s) + 1,
        !is_space(c) && s.len() > 0 && !is_space(s.last()) ==> word_count(s.push(c)) == word_count(
            s,
        ),
{
    assert(s.push(c).drop_last() =~= s);
}

/// Two texts with white space between them have as many words as both together.
pub proof fn law_words_add_up(a: Seq<char>, c: char, b: Seq<char>)
    requires
        is_space(c),
    ensures
        word_count(a + seq![c] + b) == word_count(a) + word_count(b),
    decreases b.len(),
{
    let s = a + seq![c] + b;
    if b.len() == 0 {
        assert(s =~= a.push(c));
        law_words_are_runs(a, c);
    } else {
        let front = b.drop_last();
        law_words_add_up(a, c, front);
        assert(s =~= (a + seq![c] + front).push(b.last()));
        assert(b =~= front.push(b.last()));
        law_words_are_runs(a + seq![c] + front, b.last());
        law_words_are_runs(front, b.last());
        if front.len() == 0 {
            assert((a + seq![c] + front).last() == c);
        } else {
            assert((a + seq![c] + front).last() == front.last());
        }
    }
}

// ---------------------------------------------------------------------------
// Prefixes, markers and lines
// ---------------------------------------------------------------------------

/// Stripping a prefix gives what follows it, and gives nothing exactly where the
/// text does not begin with it.
pub proof fn law_stripping_a_prefix(s: Seq<char>, prefix: Seq<char>, rest: Seq<char>)
    ensures
        strip(prefix + rest, prefix) == Some(rest),
        strip(s, prefix) == Some(rest) ==> s == prefix + rest,
        strip(s, prefix) is None <==> s.len() < prefix.len() || exists|i: int|
            0 <= i < prefix.len() && #[trigger] prefix[i] != s[i],
{
    assert((prefix + rest).skip(prefix.len() as int) =~= rest);
    assert(prefix =~= (prefix + rest).subrange(0, prefix.len() as int));
    if prefix.is_prefix_of(s) {
        assert(s =~= prefix + s.skip(prefix.len() as int));
        assert forall|i: int| 0 <= i < prefix.len() implies #[trigger] prefix[i] == s[i] by {
            assert(s.subrange(0, prefix.len() as int)[i] == s[i]);
        }
    } else if s.len() >= prefix.len() {
        if forall|i: int| 0 <= i < prefix.len() ==> #[trigger] prefix[i] == s[i] {
            assert(prefix =~= s.subrange(0, prefix.len() as int));
        }
    }
}

/// What follows a marker: the text from the end of its first occurrence up to the
/// next one, or to the end where there is none, without white space at either
/// end; and nothing where the marker does not occur.
pub proof fn law_what_follows_a_marker(s: Seq<char>, marker: Seq<char>, i: int, j: int)
    requires
        0 <= i,
        i + marker.len() <= s.len(),
        s.subrange(i, i + marker.len()) == marker,
        forall|x: int|
            0 <= x < i ==> #[trigger] s.subrange(x, x + marker.len()) != marker,
    ensures
        ({
            let from = i + marker.len();
            &&& (from <= j && j + marker.len() <= s.len() && s.subrange(j, j + marker.len())
                == marker && forall|x: int|
                from <= x < j ==> #[trigger] s.subrange(x, x + marker.len()) != marker)
                ==> after_marker(s, marker) == trim(s.subrange(from, j))
            &&& (forall|x: int|
                from <= x && x + marker.len() <= s.len() ==> #[trigger] s.subrange(
                    x,
                    x + marker.len(),
                ) != marker) ==> after_marker(s, marker) == trim(s.skip(from))
        }),
{
    let n = marker.len() as int;
    assert(stands_at(s, marker, i));
    assert(first_from(s, marker, 0, i)) by {
        assert forall|x: int| 0 <= x < i implies !stands_at(s, marker, x) by {
            assert(s.subrange(x, x + n) != marker);
        }
    }
    let first = choose|x: int| first_from(s, marker, 0, x);
    assert(first == i) by {
        if first < i {
            assert(stands_at(s, marker, first));
        }
        if i < first {
            assert(!stands_at(s, marker, i));
        }
    }
    let from = i + n;
    if from <= j && j + n <= s.len() && s.subrange(j, j + n) == marker && forall|x: int|
        from <= x < j ==> #[trigger] s.subrange(x, x + n) != marker {
        assert(first_from(s, marker, from, j)) by {
            assert(stands_at(s, marker, j));
            assert forall|x: int| from <= x < j implies !stands_at(s, marker, x) by {
                assert(s.subrange(x, x + n) != marker);
            }
        }
        let next = choose|x: int| first_from(s, marker, from, x);
        assert(next == j) by {
            if next < j {
                assert(stands_at(s, marker, next));
            }
            if j < next {
                assert(!stands_at(s, marker, j));
            }
        }
    }
    if forall|x: int|
        from <= x && x + n <= s.len() ==> #[trigger] s.subrange(x, x + n) != marker {
        if exists|x: int| first_from(s, marker, from, x) {
            let x = choose|x: int| first_from(s, marker, from, x);
            assert(stands_at(s, marker, x));
            assert(s.subrange(x, x + n) != marker);
        }
    }
}

/// Nothing follows a marker that does not occur.
pub proof fn law_nothing_follows_an_absent_marker(s: Seq<char>, marker: Seq<char>)
    requires
        forall|x: int|
            0 <= x && x + marker.len() <= s.len() ==> #[trigger] s.subrange(x, x + marker.len())
                != marker,
    ensures
        after_marker(s, marker).len() == 0,
{
    if occurs(s, marker) {
        let x = choose|x: int| stands_at(s, marker, x);
        assert(s.subrange(x, x + marker.len()) != marker);
    }
}

proof fn lemma_pieces_split(a: Seq<char>, b: Seq<char>)
    requires
        forall|i: int| 0 <= i < a.len() ==> #[trigger] a[i] != '\n',
    ensures
        pieces(a) == seq![a],
        pieces(a.push('\n') + b) == seq![a] + pieces(b),
        pieces(b).len() > 0,
    decreases b.len() + a.len(),
{
    if a.len() > 0 {
        let front = a.drop_last();
        assert forall|i: int| 0 <= i < front.len() implies #[trigger] front[i] != '\n' by {
            assert(front[i] == a[i]);
        }
        lemma_pieces_split(front, Seq::empty());
        assert(a.last() != '\n') by {
            assert(a[a.len() - 1] != '\n');
        }
        assert(pieces(front) == seq![front]);
        assert(pieces(a) =~= seq![front].drop_last().push(front.push(a.last())));
        assert(front.push(a.last()) =~= a);
        assert(pieces(a) =~= seq![a]);
    } else {
        assert(a =~= Seq::<char>::empty());
        assert(pieces(a) =~= seq![a]);
    }
    let s = a.push('\n') + b;
    if b.len() == 0 {
        assert(s =~= a.push('\n'));
        assert(s.drop_last() =~= a);
        assert(pieces(s) =~= seq![a].push(Seq::empty()));
        assert(b =~= Seq::<char>::empty());
        assert(seq![a] + pieces(b) =~= seq![a].push(Seq::empty()));
    } else {
        let front = b.drop_last();
        lemma_pieces_split(a, front);
        assert(s.drop_last() =~= a.push('\n') + front);
        assert(s.last() == b.last());
        let p = pieces(front);
        if b.last() == '\n' {
            assert(pieces(s) =~= seq![a] + pieces(b));
        } else {
            assert((seq![a] + p).last() == p.last());
            assert((seq![a] + p).drop_last() =~= seq![a] + p.drop_last());
            assert(pieces(s) =~= seq![a] + pieces(b));
        }
    }
}

/// The lines of a text: a line and its line break give that line, without the
/// carriage return that may end it, before the lines of the rest; a last line
/// without a break is a line as it stands, unless it is empty.
pub proof fn law_what_lines_are(line: Seq<char>, rest: Seq<char>)
    requires
        forall|i: int| 0 <= i < line.len() ==> #[trigger] line[i] != '\n',
    ensures
        lines(Seq::<char>::empty()).len() == 0,
        line.len() > 0 ==> lines(line) == seq![line],
        line.len() == 0 || line.last() != '\r' ==> lines(line.push('\n') + rest) == seq![line]
            + lines(rest),
        line.len() > 0 && line.last() == '\r' ==> lines(line.push('\n') + rest) == seq![
            line.drop_last(),
        ] + lines(rest),
{
    let cut = |l: Seq<char>| without_cr(l);
    lemma_pieces_split(line, rest);
    let e = Seq::<char>::empty();
    lemma_pieces_split(e, e);
    assert(seq![e].drop_last().map_values(cut) =~= Seq::<Seq<char>>::empty());
    assert(seq![line].drop_last().map_values(cut) =~= Seq::<Seq<char>>::empty());
    if line.len() > 0 {
        assert(lines(line) =~= seq![line]);
    }
    let p = pieces(rest);
    let q = seq![line] + p;
    assert(q.last() == p.last());
    assert(q.drop_last() =~= seq![line] + p.drop_last());
    assert(q.drop_last().map_values(cut) =~= seq![without_cr(line)] + p.drop_last().map_values(
        cut,
    ));
    assert(lines(line.push('\n') + rest) =~= seq![without_cr(line)] + lines(rest));
}

/// Lowering the case changes the ASCII capitals, each to the small letter of its
/// place in the alphabet, and no other character.
pub proof fn law_lowering_the_case(s: Seq<char>, i: int)
    requires
        0 <= i < s.len(),
    ensures
        ascii_lowercase(s).len() == s.len(),
        'A' <= s[i] <= 'Z' ==> ascii_lowercase(s)[i] as u32 - 'a' as u32 == s[i] as u32
            - 'A' as u32,
        !('A' <= s[i] <= 'Z') ==> ascii_lowercase(s)[i] == s[i],
{
}

/// One text comes before another exactly when it has the smaller character where
/// they first differ, or is a proper beginning of it.
pub proof fn law_what_coming_before_means(a: Seq<char>, b: Seq<char>, n: int)
    requires
        0 <= n <= a.len(),
        n <= b.len(),
        a.take(n) == b.take(n),
        n < a.len() && n < b.len() ==> a[n] != b[n],
    ensures
        n < a.len() && n < b.len() ==> (precedes(a, b) <==> a[n] < b[n]),
        n == a.len() ==> (precedes(a, b) <==> a.len() < b.len()),
        n == b.len() ==> !precedes(a, b),
    decreases n,
{
    if n > 0 {
        assert(a[0] == a.take(n)[0]);
        assert(b[0] == b.take(n)[0]);
        assert(a.drop_first().take(n - 1) =~= a.take(n).drop_first());
        assert(b.drop_first().take(n - 1) =~= b.take(n).drop_first());
        law_what_coming_before_means(a.drop_first(), b.drop_first(), n - 1);
    }
}

} // verus!

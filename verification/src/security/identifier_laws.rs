//! How identifiers are written.

use vstd::prelude::*;
use crate::security::identity::{hex, hex_digit, hyphenated, version_four, AgentUid};

verus! {

/// A power of sixteen.
pub open spec fn sixteens(n: nat) -> nat
    decreases n,
{
    if n == 0 {
        1
    } else {
        16 * sixteens((n - 1) as nat)
    }
}

/// The number that a lower-case hexadecimal digit stands for.
pub open spec fn digit_value(c: char) -> nat {
    if '0' <= c <= '9' {
        (c as u32 - '0' as u32) as nat
    } else {
        (c as u32 - 'a' as u32 + 10) as nat
    }
}

/// The number that these digits stand for.
pub open spec fn hex_value(s: Seq<char>) -> nat
    decreases s.len(),
{
    if s.len() == 0 {
        0
    } else {
        16 * hex_value(s.drop_last()) + digit_value(s.last())
    }
}

/// Numbers are written in lower-case hexadecimal, at the width asked for, and read
/// back as they were if they fit.
pub proof fn law_hexadecimal_reads_back(v: nat, width: nat)
    ensures
        hex(v, width).len() == width,
        forall|i: int|
            0 <= i < width ==> '0' <= #[trigger] hex(v, width)[i] <= '9' || 'a' <= hex(v, width)[i]
                <= 'f',
        v < sixteens(width) ==> hex_value(hex(v, width)) == v,
    decreases width,
{
    if width > 0 {
        let less = (width - 1) as nat;
        law_hexadecimal_reads_back(v / 16, less);
        let s = hex(v / 16, less);
        let d = hex_digit(v % 16);
        assert(hex(v, width) == s.push(d));
        assert(s.push(d).drop_last() =~= s);
        assert forall|i: int| 0 <= i < width implies '0' <= #[trigger] hex(v, width)[i] <= '9'
            || 'a' <= hex(v, width)[i] <= 'f' by {
            if i < less {
                assert(hex(v, width)[i] == s[i]);
            }
        }
        assert(digit_value(d) == v % 16);
    }
}

proof fn lemma_digit_at(v: nat, width: nat, back: nat)
    requires
        back < width,
    ensures
        hex(v, width).len() == width,
        hex(v, width)[width - 1 - back] == hex_digit((v / sixteens(back)) % 16),
    decreases back,
{
    law_hexadecimal_reads_back(v, width);
    law_hexadecimal_reads_back(v / 16, (width - 1) as nat);
    if back == 0 {
        assert(v / 1 == v);
    } else {
        let less = (back - 1) as nat;
        lemma_digit_at(v / 16, (width - 1) as nat, less);
        lemma_sixteens(less);
        vstd::arithmetic::div_mod::lemma_div_denominator(v as int, 16, sixteens(less) as int);
    }
}

proof fn lemma_sixteens(n: nat)
    ensures
        sixteens(n) > 0,
    decreases n,
{
    if n > 0 {
        lemma_sixteens((n - 1) as nat);
    }
}

/// An identifier is written as thirty-two digits in five groups, with hyphens
/// between them and no digit changed.
pub proof fn law_how_identifiers_are_grouped(v: nat, i: int)
    ensures
        ({
            let s = hyphenated(v);
            &&& s.len() == 36
            &&& s[8] == '-' && s[13] == '-' && s[18] == '-' && s[23] == '-'
            &&& 0 <= i < 8 ==> s[i] == hex(v, 32)[i]
            &&& 8 <= i < 12 ==> s[i + 1] == hex(v, 32)[i]
            &&& 12 <= i < 16 ==> s[i + 2] == hex(v, 32)[i]
            &&& 16 <= i < 20 ==> s[i + 3] == hex(v, 32)[i]
            &&& 20 <= i < 32 ==> s[i + 4] == hex(v, 32)[i]
        }),
{
    law_hexadecimal_reads_back(v, 32);
    reveal_strlit("-");
}

/// A random identifier says so: its third group begins with a four, and its fourth
/// with an eight, a nine, an a or a b.
pub proof fn law_random_identifiers_say_so(v: nat)
    ensures
        version_four(v) <==> hyphenated(v)[14] == '4' && (hyphenated(v)[19] == '8' || hyphenated(
            v,
        )[19] == '9' || hyphenated(v)[19] == 'a' || hyphenated(v)[19] == 'b'),
{
    law_how_identifiers_are_grouped(v, 12);
    law_how_identifiers_are_grouped(v, 16);
    lemma_digit_at(v, 32, 19);
    lemma_digit_at(v, 32, 15);
    reveal_with_fuel(sixteens, 20);
    assert(sixteens(19) == 0x1_0000_0000_0000_0000_000);
    assert(sixteens(15) == 0x1000_0000_0000_0000);
    let q = v / 0x1000_0000_0000_0000;
    assert(v / 0x4000_0000_0000_0000 == q / 4);
    assert((q / 4) % 4 == 2 <==> 8 <= q % 16 < 12);
}

/// A new identifier is a random one, and an identifier is shown whole or by its
/// first eight digits.
pub proof fn law_how_identifiers_are_shown(
    made: AgentUid,
    uid: &AgentUid,
    whole: String,
    short: String,
)
    ensures
        call_ensures(AgentUid::new, (), made) ==> hyphenated(made.0 as nat)[14] == '4',
        call_ensures(AgentUid::to_text, (uid,), whole) ==> whole@ == hyphenated(uid.0 as nat),
        call_ensures(AgentUid::short, (uid,), short) ==> short@ == hyphenated(uid.0 as nat).take(8),
{
    law_random_identifiers_say_so(made.0 as nat);
    law_hexadecimal_reads_back(uid.0 as nat, 32);
    reveal_strlit("-");
    assert(hyphenated(uid.0 as nat).take(8) =~= hex(uid.0 as nat, 32).take(8));
}

} // verus!

//! The canonical string form of a color set, and the parsers that read it
//! back.

use vstd::prelude::*;

verus! {

/// The canonical rendering of each of the 32 possible masks. The order of
/// the letters inside one entry is fixed by this table and is not derived
/// from a single total order over the colors.
pub open spec fn spec_symbols(bits: u8) -> Seq<char>
    recommends
        bits < 32,
{
    if bits == 0 { seq![] }
    else if bits == 1 { seq!['W'] }
    else if bits == 2 { seq!['U'] }
    else if bits == 3 { seq!['W', 'U'] }
    else if bits == 4 { seq!['B'] }
    else if bits == 5 { seq!['W', 'B'] }
    else if bits == 6 { seq!['U', 'B'] }
    else if bits == 7 { seq!['W', 'U', 'B'] }
    else if bits == 8 { seq!['R'] }
    else if bits == 9 { seq!['R', 'W'] }
    else if bits == 10 { seq!['U', 'R'] }
    else if bits == 11 { seq!['U', 'R', 'W'] }
    else if bits == 12 { seq!['B', 'R'] }
    else if bits == 13 { seq!['R', 'W', 'B'] }
    else if bits == 14 { seq!['U', 'B', 'R'] }
    else if bits == 15 { seq!['W', 'U', 'B', 'R'] }
    else if bits == 16 { seq!['G'] }
    else if bits == 17 { seq!['G', 'W'] }
    else if bits == 18 { seq!['G', 'U'] }
    else if bits == 19 { seq!['G', 'W', 'U'] }
    else if bits == 20 { seq!['B', 'G'] }
    else if bits == 21 { seq!['W', 'B', 'G'] }
    else if bits == 22 { seq!['B', 'G', 'U'] }
    else if bits == 23 { seq!['G', 'W', 'U', 'B'] }
    else if bits == 24 { seq!['R', 'G'] }
    else if bits == 25 { seq!['R', 'G', 'W'] }
    else if bits == 26 { seq!['G', 'U', 'R'] }
    else if bits == 27 { seq!['R', 'G', 'W', 'U'] }
    else if bits == 28 { seq!['B', 'R', 'G'] }
    else if bits == 29 { seq!['B', 'R', 'G', 'W'] }
    else if bits == 30 { seq!['U', 'B', 'R', 'G'] }
    else if bits == 31 { seq!['W', 'U', 'B', 'R', 'G'] }
    else { seq![] }
}

/// The bit a single letter stands for, or `None` for any other character.
pub open spec fn char_mask(c: char) -> Option<u8> {
    if c == 'W' { Some(1u8) }
    else if c == 'U' { Some(2u8) }
    else if c == 'B' { Some(4u8) }
    else if c == 'R' { Some(8u8) }
    else if c == 'G' { Some(16u8) }
    else { None }
}

/// Strict reading of a sequence of letters: the union of their bits, or
/// `None` as soon as any character is not a color letter.
pub open spec fn spec_parse(s: Seq<char>) -> Option<u8>
    decreases s.len(),
{
    if s.len() == 0 {
        Some(0u8)
    } else {
        match char_mask(s.last()) {
            None => None,
            Some(m) => match spec_parse(s.drop_last()) {
                None => None,
                Some(b) => Some(b | m),
            },
        }
    }
}

/// Permissive reading of a sequence of letters: the union of the bits of
/// the color letters, ignoring every other character.
pub open spec fn spec_scan(s: Seq<char>) -> u8
    decreases s.len(),
{
    if s.len() == 0 {
        0u8
    } else {
        match char_mask(s.last()) {
            None => spec_scan(s.drop_last()),
            Some(m) => spec_scan(s.drop_last()) | m,
        }
    }
}

/// A sequence with a character that is no color letter parses strictly to
/// `None`, wherever that character stands.
pub proof fn lemma_parse_invalid(s: Seq<char>, i: int)
    requires
        0 <= i < s.len(),
        char_mask(s[i]) is None,
    ensures
        spec_parse(s) is None,
    decreases s.len(),
{
    if i == s.len() - 1 {
        assert(s.last() == s[i]);
    } else {
        assert(s.drop_last()[i] == s[i]);
        lemma_parse_invalid(s.drop_last(), i);
    }
}

/// A strict parse that succeeds found only color letters.
pub proof fn lemma_parse_ok_all_valid(s: Seq<char>)
    requires
        spec_parse(s) is Some,
    ensures
        forall|i: int| 0 <= i < s.len() ==> char_mask(s[i]) is Some,
    decreases s.len(),
{
    if s.len() > 0 {
        lemma_parse_ok_all_valid(s.drop_last());
        assert forall|i: int| 0 <= i < s.len() implies char_mask(s[i]) is Some by {
            if i < s.len() - 1 {
                assert(s.drop_last()[i] == s[i]);
            } else {
                assert(s.last() == s[i]);
            }
        }
    }
}

/// The canonical rendering of a mask, as an executable string.
pub(crate) fn symbols_of_bits(bits: u8) -> (r: &'static str)
    requires
        bits < 32,
    ensures
        r@ == spec_symbols(bits),
{
    proof {
        reveal_strlit("");
        reveal_strlit("W");
        reveal_strlit("U");
        reveal_strlit("WU");
        reveal_strlit("B");
        reveal_strlit("WB");
        reveal_strlit("UB");
        reveal_strlit("WUB");
        reveal_strlit("R");
        reveal_strlit("RW");
        reveal_strlit("UR");
        reveal_strlit("URW");
        reveal_strlit("BR");
        reveal_strlit("RWB");
        reveal_strlit("UBR");
        reveal_strlit("WUBR");
        reveal_strlit("G");
        reveal_strlit("GW");
        reveal_strlit("GU");
        reveal_strlit("GWU");
        reveal_strlit("BG");
        reveal_strlit("WBG");
        reveal_strlit("BGU");
        reveal_strlit("GWUB");
        reveal_strlit("RG");
        reveal_strlit("RGW");
        reveal_strlit("GUR");
        reveal_strlit("RGWU");
        reveal_strlit("BRG");
        reveal_strlit("BRGW");
        reveal_strlit("UBRG");
        reveal_strlit("WUBRG");
    }
    match bits {
        0 => { proof { assert(""@ =~= spec_symbols(0)); } "" },
        1 => { proof { assert("W"@ =~= spec_symbols(1)); } "W" },
        2 => { proof { assert("U"@ =~= spec_symbols(2)); } "U" },
        3 => { proof { assert("WU"@ =~= spec_symbols(3)); } "WU" },
        4 => { proof { assert("B"@ =~= spec_symbols(4)); } "B" },
        5 => { proof { assert("WB"@ =~= spec_symbols(5)); } "WB" },
        6 => { proof { assert("UB"@ =~= spec_symbols(6)); } "UB" },
        7 => { proof { assert("WUB"@ =~= spec_symbols(7)); } "WUB" },
        8 => { proof { assert("R"@ =~= spec_symbols(8)); } "R" },
        9 => { proof { assert("RW"@ =~= spec_symbols(9)); } "RW" },
        10 => { proof { assert("UR"@ =~= spec_symbols(10)); } "UR" },
        11 => { proof { assert("URW"@ =~= spec_symbols(11)); } "URW" },
        12 => { proof { assert("BR"@ =~= spec_symbols(12)); } "BR" },
        13 => { proof { assert("RWB"@ =~= spec_symbols(13)); } "RWB" },
        14 => { proof { assert("UBR"@ =~= spec_symbols(14)); } "UBR" },
        15 => { proof { assert("WUBR"@ =~= spec_symbols(15)); } "WUBR" },
        16 => { proof { assert("G"@ =~= spec_symbols(16)); } "G" },
        17 => { proof { assert("GW"@ =~= spec_symbols(17)); } "GW" },
        18 => { proof { assert("GU"@ =~= spec_symbols(18)); } "GU" },
        19 => { proof { assert("GWU"@ =~= spec_symbols(19)); } "GWU" },
        20 => { proof { assert("BG"@ =~= spec_symbols(20)); } "BG" },
        21 => { proof { assert("WBG"@ =~= spec_symbols(21)); } "WBG" },
        22 => { proof { assert("BGU"@ =~= spec_symbols(22)); } "BGU" },
        23 => { proof { assert("GWUB"@ =~= spec_symbols(23)); } "GWUB" },
        24 => { proof { assert("RG"@ =~= spec_symbols(24)); } "RG" },
        25 => { proof { assert("RGW"@ =~= spec_symbols(25)); } "RGW" },
        26 => { proof { assert("GUR"@ =~= spec_symbols(26)); } "GUR" },
        27 => { proof { assert("RGWU"@ =~= spec_symbols(27)); } "RGWU" },
        28 => { proof { assert("BRG"@ =~= spec_symbols(28)); } "BRG" },
        29 => { proof { assert("BRGW"@ =~= spec_symbols(29)); } "BRGW" },
        30 => { proof { assert("UBRG"@ =~= spec_symbols(30)); } "UBRG" },
        31 => { proof { assert("WUBRG"@ =~= spec_symbols(31)); } "WUBRG" },
        _ => {
            proof { assert(false); }
            ""
        },
    }
}

/// Appending one color letter to a sequence extends its strict parse by
/// that letter's bit.
proof fn lemma_parse_push(s: Seq<char>, c: char, m: u8, b: u8)
    requires
        char_mask(c) == Some(m),
        spec_parse(s) == Some(b),
    ensures
        spec_parse(s.push(c)) == Some(b | m),
{
    assert(s.push(c).drop_last() =~= s);
    assert(s.push(c).last() == c);
}

/// The unions of color bits met while parsing the rendering table, letter
/// by letter.
proof fn lemma_or_table()
    by (bit_vector)
    ensures
        0u8 | 1 == 1,
        0u8 | 2 == 2,
        0u8 | 4 == 4,
        0u8 | 8 == 8,
        0u8 | 16 == 16,
        1u8 | 2 == 3,
        1u8 | 4 == 5,
        2u8 | 4 == 6,
        8u8 | 1 == 9,
        2u8 | 8 == 10,
        4u8 | 8 == 12,
        16u8 | 1 == 17,
        16u8 | 2 == 18,
        4u8 | 16 == 20,
        8u8 | 16 == 24,
        3u8 | 4 == 7,
        10u8 | 1 == 11,
        9u8 | 4 == 13,
        6u8 | 8 == 14,
        17u8 | 2 == 19,
        5u8 | 16 == 21,
        20u8 | 2 == 22,
        24u8 | 1 == 25,
        18u8 | 8 == 26,
        12u8 | 16 == 28,
        7u8 | 8 == 15,
        19u8 | 4 == 23,
        25u8 | 2 == 27,
        28u8 | 1 == 29,
        14u8 | 16 == 30,
        15u8 | 16 == 31,
{
}

/// The strict parse of each entry of the rendering table.
proof fn lemma_parse_table()
    ensures
        spec_parse(spec_symbols(0)) == Some(0u8),
        spec_parse(spec_symbols(1)) == Some(1u8),
        spec_parse(spec_symbols(2)) == Some(2u8),
        spec_parse(spec_symbols(3)) == Some(3u8),
        spec_parse(spec_symbols(4)) == Some(4u8),
        spec_parse(spec_symbols(5)) == Some(5u8),
        spec_parse(spec_symbols(6)) == Some(6u8),
        spec_parse(spec_symbols(7)) == Some(7u8),
        spec_parse(spec_symbols(8)) == Some(8u8),
        spec_parse(spec_symbols(9)) == Some(9u8),
        spec_parse(spec_symbols(10)) == Some(10u8),
        spec_parse(spec_symbols(11)) == Some(11u8),
        spec_parse(spec_symbols(12)) == Some(12u8),
        spec_parse(spec_symbols(13)) == Some(13u8),
        spec_parse(spec_symbols(14)) == Some(14u8),
        spec_parse(spec_symbols(15)) == Some(15u8),
        spec_parse(spec_symbols(16)) == Some(16u8),
        spec_parse(spec_symbols(17)) == Some(17u8),
        spec_parse(spec_symbols(18)) == Some(18u8),
        spec_parse(spec_symbols(19)) == Some(19u8),
        spec_parse(spec_symbols(20)) == Some(20u8),
        spec_parse(spec_symbols(21)) == Some(21u8),
        spec_parse(spec_symbols(22)) == Some(22u8),
        spec_parse(spec_symbols(23)) == Some(23u8),
        spec_parse(spec_symbols(24)) == Some(24u8),
        spec_parse(spec_symbols(25)) == Some(25u8),
        spec_parse(spec_symbols(26)) == Some(26u8),
        spec_parse(spec_symbols(27)) == Some(27u8),
        spec_parse(spec_symbols(28)) == Some(28u8),
        spec_parse(spec_symbols(29)) == Some(29u8),
        spec_parse(spec_symbols(30)) == Some(30u8),
        spec_parse(spec_symbols(31)) == Some(31u8),
{
    lemma_or_table();
    assert(spec_parse(Seq::<char>::empty()) == Some(0u8));
    assert(Seq::<char>::empty().push('W') =~= seq!['W']);
    lemma_parse_push(Seq::<char>::empty(), 'W', 1u8, 0u8);
    assert(spec_parse(seq!['W']) == Some(1u8));
    assert(Seq::<char>::empty().push('U') =~= seq!['U']);
    lemma_parse_push(Seq::<char>::empty(), 'U', 2u8, 0u8);
    assert(spec_parse(seq!['U']) == Some(2u8));
    assert(Seq::<char>::empty().push('B') =~= seq!['B']);
    lemma_parse_push(Seq::<char>::empty(), 'B', 4u8, 0u8);
    assert(spec_parse(seq!['B']) == Some(4u8));
    assert(Seq::<char>::empty().push('R') =~= seq!['R']);
    lemma_parse_push(Seq::<char>::empty(), 'R', 8u8, 0u8);
    assert(spec_parse(seq!['R']) == Some(8u8));
    assert(Seq::<char>::empty().push('G') =~= seq!['G']);
    lemma_parse_push(Seq::<char>::empty(), 'G', 16u8, 0u8);
    assert(spec_parse(seq!['G']) == Some(16u8));
    assert(seq!['W'].push('U') =~= seq!['W', 'U']);
    lemma_parse_push(seq!['W'], 'U', 2u8, 1u8);
    assert(spec_parse(seq!['W', 'U']) == Some(3u8));
    assert(seq!['W'].push('B') =~= seq!['W', 'B']);
    lemma_parse_push(seq!['W'], 'B', 4u8, 1u8);
    assert(spec_parse(seq!['W', 'B']) == Some(5u8));
    assert(seq!['U'].push('B') =~= seq!['U', 'B']);
    lemma_parse_push(seq!['U'], 'B', 4u8, 2u8);
    assert(spec_parse(seq!['U', 'B']) == Some(6u8));
    assert(seq!['R'].push('W') =~= seq!['R', 'W']);
    lemma_parse_push(seq!['R'], 'W', 1u8, 8u8);
    assert(spec_parse(seq!['R', 'W']) == Some(9u8));
    assert(seq!['U'].push('R') =~= seq!['U', 'R']);
    lemma_parse_push(seq!['U'], 'R', 8u8, 2u8);
    assert(spec_parse(seq!['U', 'R']) == Some(10u8));
    assert(seq!['B'].push('R') =~= seq!['B', 'R']);
    lemma_parse_push(seq!['B'], 'R', 8u8, 4u8);
    assert(spec_parse(seq!['B', 'R']) == Some(12u8));
    assert(seq!['G'].push('W') =~= seq!['G', 'W']);
    lemma_parse_push(seq!['G'], 'W', 1u8, 16u8);
    assert(spec_parse(seq!['G', 'W']) == Some(17u8));
    assert(seq!['G'].push('U') =~= seq!['G', 'U']);
    lemma_parse_push(seq!['G'], 'U', 2u8, 16u8);
    assert(spec_parse(seq!['G', 'U']) == Some(18u8));
    assert(seq!['B'].push('G') =~= seq!['B', 'G']);
    lemma_parse_push(seq!['B'], 'G', 16u8, 4u8);
    assert(spec_parse(seq!['B', 'G']) == Some(20u8));
    assert(seq!['R'].push('G') =~= seq!['R', 'G']);
    lemma_parse_push(seq!['R'], 'G', 16u8, 8u8);
    assert(spec_parse(seq!['R', 'G']) == Some(24u8));
    assert(seq!['W', 'U'].push('B') =~= seq!['W', 'U', 'B']);
    lemma_parse_push(seq!['W', 'U'], 'B', 4u8, 3u8);
    assert(spec_parse(seq!['W', 'U', 'B']) == Some(7u8));
    assert(seq!['U', 'R'].push('W') =~= seq!['U', 'R', 'W']);
    lemma_parse_push(seq!['U', 'R'], 'W', 1u8, 10u8);
    assert(spec_parse(seq!['U', 'R', 'W']) == Some(11u8));
    assert(seq!['R', 'W'].push('B') =~= seq!['R', 'W', 'B']);
    lemma_parse_push(seq!['R', 'W'], 'B', 4u8, 9u8);
    assert(spec_parse(seq!['R', 'W', 'B']) == Some(13u8));
    assert(seq!['U', 'B'].push('R') =~= seq!['U', 'B', 'R']);
    lemma_parse_push(seq!['U', 'B'], 'R', 8u8, 6u8);
    assert(spec_parse(seq!['U', 'B', 'R']) == Some(14u8));
    assert(seq!['G', 'W'].push('U') =~= seq!['G', 'W', 'U']);
    lemma_parse_push(seq!['G', 'W'], 'U', 2u8, 17u8);
    assert(spec_parse(seq!['G', 'W', 'U']) == Some(19u8));
    assert(seq!['W', 'B'].push('G') =~= seq!['W', 'B', 'G']);
    lemma_parse_push(seq!['W', 'B'], 'G', 16u8, 5u8);
    assert(spec_parse(seq!['W', 'B', 'G']) == Some(21u8));
    assert(seq!['B', 'G'].push('U') =~= seq!['B', 'G', 'U']);
    lemma_parse_push(seq!['B', 'G'], 'U', 2u8, 20u8);
    assert(spec_parse(seq!['B', 'G', 'U']) == Some(22u8));
    assert(seq!['R', 'G'].push('W') =~= seq!['R', 'G', 'W']);
    lemma_parse_push(seq!['R', 'G'], 'W', 1u8, 24u8);
    assert(spec_parse(seq!['R', 'G', 'W']) == Some(25u8));
    assert(seq!['G', 'U'].push('R') =~= seq!['G', 'U', 'R']);
    lemma_parse_push(seq!['G', 'U'], 'R', 8u8, 18u8);
    assert(spec_parse(seq!['G', 'U', 'R']) == Some(26u8));
    assert(seq!['B', 'R'].push('G') =~= seq!['B', 'R', 'G']);
    lemma_parse_push(seq!['B', 'R'], 'G', 16u8, 12u8);
    assert(spec_parse(seq!['B', 'R', 'G']) == Some(28u8));
    assert(seq!['W', 'U', 'B'].push('R') =~= seq!['W', 'U', 'B', 'R']);
    lemma_parse_push(seq!['W', 'U', 'B'], 'R', 8u8, 7u8);
    assert(spec_parse(seq!['W', 'U', 'B', 'R']) == Some(15u8));
    assert(seq!['G', 'W', 'U'].push('B') =~= seq!['G', 'W', 'U', 'B']);
    lemma_parse_push(seq!['G', 'W', 'U'], 'B', 4u8, 19u8);
    assert(spec_parse(seq!['G', 'W', 'U', 'B']) == Some(23u8));
    assert(seq!['R', 'G', 'W'].push('U') =~= seq!['R', 'G', 'W', 'U']);
    lemma_parse_push(seq!['R', 'G', 'W'], 'U', 2u8, 25u8);
    assert(spec_parse(seq!['R', 'G', 'W', 'U']) == Some(27u8));
    assert(seq!['B', 'R', 'G'].push('W') =~= seq!['B', 'R', 'G', 'W']);
    lemma_parse_push(seq!['B', 'R', 'G'], 'W', 1u8, 28u8);
    assert(spec_parse(seq!['B', 'R', 'G', 'W']) == Some(29u8));
    assert(seq!['U', 'B', 'R'].push('G') =~= seq!['U', 'B', 'R', 'G']);
    lemma_parse_push(seq!['U', 'B', 'R'], 'G', 16u8, 14u8);
    assert(spec_parse(seq!['U', 'B', 'R', 'G']) == Some(30u8));
    assert(seq!['W', 'U', 'B', 'R'].push('G') =~= seq!['W', 'U', 'B', 'R', 'G']);
    lemma_parse_push(seq!['W', 'U', 'B', 'R'], 'G', 16u8, 15u8);
    assert(spec_parse(seq!['W', 'U', 'B', 'R', 'G']) == Some(31u8));
}

/// Rendering a mask and strictly parsing the rendered string gives the
/// mask back: the rendering table is injective and its strings name
/// exactly the bits they came from.
pub proof fn lemma_symbols_parse_round_trip(b: u8)
    requires
        b < 32,
    ensures
        spec_parse(spec_symbols(b)) == Some(b),
{
    lemma_parse_table();
}

} // verus!

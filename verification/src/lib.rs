//! A bit-packed set of the five Magic: the Gathering colors.
//!
//! A [`ColorSet`] stores which of the five colors are present as a 5-bit
//! mask inside one byte; the upper three bits are always zero. The set can
//! be built from a raw byte, from a string of color letters, or from a
//! vector of [`MtgColor`] tags, mutated in place, queried, and rendered back
//! into its canonical string form.

use vstd::prelude::*;

mod colors;
mod symbols;

pub use colors::Colors;
pub use symbols::{
    char_mask, lemma_parse_invalid, lemma_parse_ok_all_valid, lemma_symbols_parse_round_trip,
    spec_parse, spec_scan, spec_symbols,
};

verus! {

/// One of the five colors. Each color owns exactly one bit of the mask,
/// given by [`color_mask`].
#[derive(Clone, Copy, PartialEq, Eq, Structural, Debug)]
pub enum MtgColor {
    White,
    Blue,
    Black,
    Red,
    Green,
}

/// The bit that stands for a color inside a color-set mask.
pub open spec fn color_mask(c: MtgColor) -> u8 {
    match c {
        MtgColor::White => 1,
        MtgColor::Blue => 2,
        MtgColor::Black => 4,
        MtgColor::Red => 8,
        MtgColor::Green => 16,
    }
}

/// True iff the bit standing for color `c` is set in `bits`.
pub open spec fn spec_has(bits: u8, c: MtgColor) -> bool {
    bits & color_mask(c) != 0
}

impl MtgColor {
    /// The bit this color owns, as an executable value.
    pub fn mask(self) -> (m: u8)
        ensures
            m == color_mask(self),
    {
        match self {
            MtgColor::White => 1,
            MtgColor::Blue => 2,
            MtgColor::Black => 4,
            MtgColor::Red => 8,
            MtgColor::Green => 16,
        }
    }
}

/// Every color is one of the five variants.
pub proof fn lemma_color_cases(c: MtgColor)
    ensures
        c == MtgColor::White || c == MtgColor::Blue || c == MtgColor::Black
            || c == MtgColor::Red || c == MtgColor::Green,
{
    match c {
        MtgColor::White => assert(c == MtgColor::White),
        MtgColor::Blue => assert(c == MtgColor::Blue),
        MtgColor::Black => assert(c == MtgColor::Black),
        MtgColor::Red => assert(c == MtgColor::Red),
        MtgColor::Green => assert(c == MtgColor::Green),
    }
}

/// The bit of every color lies in the low five bits of the mask.
pub proof fn lemma_color_mask_values(c: MtgColor)
    ensures
        color_mask(c) == 1 || color_mask(c) == 2 || color_mask(c) == 4 || color_mask(c) == 8
            || color_mask(c) == 16,
{
    lemma_color_cases(c);
}

/// Setting one of the five color bits keeps the mask inside the low five
/// bits, and a zero mask changes nothing.
pub(crate) proof fn lemma_or_mask_bound(a: u8, m: u8)
    by (bit_vector)
    requires
        a < 32,
        m == 0 || m == 1 || m == 2 || m == 4 || m == 8 || m == 16,
    ensures
        a | m < 32,
        a | 0 == a,
{
}

/// How setting a single bit changes each single-bit membership test.
pub(crate) proof fn lemma_or_mask(a: u8, m: u8, k: u8)
    by (bit_vector)
    requires
        m == 1 || m == 2 || m == 4 || m == 8 || m == 16,
        k == 1 || k == 2 || k == 4 || k == 8 || k == 16,
    ensures
        (a | m) & m != 0,
        k != m ==> ((a | m) & k) == (a & k),
        a < 32 ==> (a | m) < 32,
{
}

/// How clearing a single bit changes each single-bit membership test.
pub(crate) proof fn lemma_andnot_mask(a: u8, m: u8, k: u8)
    by (bit_vector)
    requires
        m == 1 || m == 2 || m == 4 || m == 8 || m == 16,
        k == 1 || k == 2 || k == 4 || k == 8 || k == 16,
    ensures
        (a & !m) & m == 0,
        k != m ==> ((a & !m) & k) == (a & k),
        a < 32 ==> (a & !m) < 32,
{
}

/// Why one conversion failed.
#[derive(Clone, Copy, PartialEq, Eq, Structural, Debug)]
pub enum ColorError {
    /// A character outside `W`, `U`, `B`, `R`, `G` was met by a strict
    /// string conversion.
    InvalidSymbol,
    /// A byte with one of its top three bits set was given to the strict
    /// byte conversion.
    OutOfRange,
}

impl MtgColor {
    /// The color a single letter stands for: `W`, `U`, `B`, `R` or `G`.
    /// Every other character is an `InvalidSymbol` error.
    pub fn try_from_char(value: char) -> (r: Result<MtgColor, ColorError>)
        ensures
            r is Ok <==> char_mask(value) is Some,
            r matches Ok(c) ==> char_mask(value) == Some(color_mask(c)),
            r matches Err(e) ==> e == ColorError::InvalidSymbol,
    {
        match value {
            'W' => Ok(MtgColor::White),
            'U' => Ok(MtgColor::Blue),
            'B' => Ok(MtgColor::Black),
            'R' => Ok(MtgColor::Red),
            'G' => Ok(MtgColor::Green),
            _ => Err(ColorError::InvalidSymbol),
        }
    }
}

/// A set of colors, packed into the low five bits of one byte. The upper
/// three bits are zero in every value the public constructors produce.
#[derive(Clone, Copy, PartialEq, Eq, Structural, Debug)]
pub struct ColorSet {
    bits: u8,
}

impl ColorSet {
    /// The raw mask, for specifications.
    pub closed spec fn spec_bits(self) -> u8 {
        self.bits
    }

    /// A valid set keeps its upper three bits clear.
    #[verifier::type_invariant]
    pub open spec fn wf(self) -> bool {
        self.spec_bits() < 32
    }

    /// True iff color `c` is a member of the set.
    pub open spec fn spec_contains(self, c: MtgColor) -> bool {
        spec_has(self.spec_bits(), c)
    }

    /// The set after color `c` is added.
    pub closed spec fn spec_add(self, c: MtgColor) -> ColorSet {
        ColorSet { bits: self.bits | color_mask(c) }
    }

    /// The set after color `c` is removed.
    pub closed spec fn spec_remove(self, c: MtgColor) -> ColorSet {
        ColorSet { bits: self.bits & !color_mask(c) }
    }

    /// Every member of `self` is a member of `other`.
    pub open spec fn spec_subset_of(self, other: ColorSet) -> bool {
        forall|c: MtgColor| self.spec_contains(c) ==> other.spec_contains(c)
    }

    /// The set with no colors.
    pub fn empty() -> (r: ColorSet)
        ensures
            r.spec_bits() == 0,
    {
        ColorSet { bits: 0 }
    }

    /// Add a color. Adding a color that is already present changes
    /// nothing.
    pub fn add(&mut self, color: MtgColor)
        ensures
            *final(self) == old(self).spec_add(color),
            final(self).spec_bits() == old(self).spec_bits() | color_mask(color),
            forall|d: MtgColor|
                final(self).spec_contains(d) <==> (d == color || old(self).spec_contains(d)),
    {
        proof {
            use_type_invariant(&*self);
        }
        let m = color.mask();
        proof {
            lemma_color_mask_values(color);
            lemma_or_mask(self.bits, m, m);
            assert forall|d: MtgColor|
                spec_has(old(self).spec_bits() | color_mask(color), d) <==> (d == color
                    || old(self).spec_contains(d)) by {
                lemma_color_mask_values(d);
                lemma_or_mask(old(self).spec_bits(), color_mask(color), color_mask(d));
                if color_mask(d) == color_mask(color) {
                    lemma_color_cases(d);
                    lemma_color_cases(color);
                }
            }
        }
        self.bits = self.bits | m;
    }

    /// Remove a color. Removing a color that is absent changes nothing.
    pub fn remove(&mut self, color: MtgColor)
        ensures
            *final(self) == old(self).spec_remove(color),
            final(self).spec_bits() == old(self).spec_bits() & !color_mask(color),
            forall|d: MtgColor|
                final(self).spec_contains(d) <==> (d != color && old(self).spec_contains(d)),
    {
        proof {
            use_type_invariant(&*self);
        }
        let m = color.mask();
        proof {
            lemma_color_mask_values(color);
            lemma_andnot_mask(self.bits, m, m);
            assert forall|d: MtgColor|
                spec_has(old(self).spec_bits() & !color_mask(color), d) <==> (d != color
                    && old(self).spec_contains(d)) by {
                lemma_color_mask_values(d);
                lemma_andnot_mask(old(self).spec_bits(), color_mask(color), color_mask(d));
                if color_mask(d) == color_mask(color) {
                    lemma_color_cases(d);
                    lemma_color_cases(color);
                }
            }
        }
        self.bits = self.bits & !m;
    }

    /// Clear all colors.
    pub fn set_colorless(&mut self)
        ensures
            final(self).spec_bits() == 0,
    {
        self.bits = 0;
    }

    /// True iff the given color is in the set.
    pub fn is_color(&self, color: MtgColor) -> (r: bool)
        ensures
            r == self.spec_contains(color),
    {
        let m = color.mask();
        self.bits & m != 0
    }

    /// True iff the set has no colors.
    pub fn is_colorless(&self) -> (r: bool)
        ensures
            r == (self.spec_bits() == 0),
    {
        self.bits == 0
    }

    /// How many colors are in the set: the number of colors for which
    /// [`ColorSet::spec_contains`] holds.
    pub fn num_colors(&self) -> (n: u32)
        ensures
            n == spec_color_count(self.spec_bits()),
    {
        let mut n: u32 = 0;
        if self.bits & 1 != 0 {
            n = n + 1;
        }
        if self.bits & 2 != 0 {
            n = n + 1;
        }
        if self.bits & 4 != 0 {
            n = n + 1;
        }
        if self.bits & 8 != 0 {
            n = n + 1;
        }
        if self.bits & 16 != 0 {
            n = n + 1;
        }
        n
    }

    /// True iff the set holds exactly one color.
    pub fn is_monocolor(&self) -> (r: bool)
        ensures
            r == (spec_color_count(self.spec_bits()) == 1),
    {
        self.num_colors() == 1
    }

    /// True iff the set holds two or more colors.
    pub fn is_multicolor(&self) -> (r: bool)
        ensures
            r == (spec_color_count(self.spec_bits()) > 1),
    {
        self.num_colors() > 1
    }

    /// True iff the set holds exactly one color and that color is `color`.
    pub fn is_color_mono(&self, color: MtgColor) -> (r: bool)
        ensures
            r == (spec_color_count(self.spec_bits()) == 1 && self.spec_contains(color)),
    {
        self.is_monocolor() && self.is_color(color)
    }

    /// True iff every color in this set also appears in `other`.
    pub fn is_subset_of(&self, other: ColorSet) -> (r: bool)
        ensures
            r == self.spec_subset_of(other),
    {
        proof {
            use_type_invariant(&*self);
            use_type_invariant(&other);
        }
        let r = self.bits & other.bits == self.bits;
        proof {
            lemma_subset_bits(self.bits, other.bits);
            if r {
                assert forall|c: MtgColor| self.spec_contains(c) implies other.spec_contains(
                    c,
                ) by {
                    lemma_color_cases(c);
                }
            } else {
                if self.spec_contains(MtgColor::White) && !other.spec_contains(MtgColor::White) {
                    assert(!self.spec_subset_of(other));
                } else if self.spec_contains(MtgColor::Blue) && !other.spec_contains(
                    MtgColor::Blue,
                ) {
                    assert(!self.spec_subset_of(other));
                } else if self.spec_contains(MtgColor::Black) && !other.spec_contains(
                    MtgColor::Black,
                ) {
                    assert(!self.spec_subset_of(other));
                } else if self.spec_contains(MtgColor::Red) && !other.spec_contains(
                    MtgColor::Red,
                ) {
                    assert(!self.spec_subset_of(other));
                } else {
                    assert(self.spec_contains(MtgColor::Green) && !other.spec_contains(
                        MtgColor::Green,
                    ));
                    assert(!self.spec_subset_of(other));
                }
            }
        }
        r
    }

    /// The letters of the colors in this set, in the canonical order of
    /// the rendering table.
    pub fn symbols(&self) -> (r: &'static str)
        ensures
            r@ == spec_symbols(self.spec_bits()),
    {
        proof {
            use_type_invariant(&*self);
        }
        symbols::symbols_of_bits(self.bits)
    }

    /// Strict string conversion: the set whose members are named by the
    /// letters of `s`, or an `InvalidSymbol` error as soon as any
    /// character of `s` is not a color letter. All-or-nothing: a partial
    /// set is never returned.
    pub fn try_from_str(s: &str) -> (r: Result<ColorSet, ColorError>)
        ensures
            r is Ok <==> spec_parse(s@) is Some,
            r is Ok <==> (forall|j: int| 0 <= j < s@.len() ==> char_mask(s@[j]) is Some),
            r matches Ok(cs) ==> spec_parse(s@) == Some(cs.spec_bits()),
            r matches Err(e) ==> e == ColorError::InvalidSymbol,
    {
        let n = s.unicode_len();
        let mut bits: u8 = 0;
        let mut i: usize = 0;
        while i < n
            invariant
                i <= n,
                n == s@.len(),
                bits < 32,
                spec_parse(s@.subrange(0, i as int)) == Some(bits),
            decreases n - i,
        {
            let ch = s.get_char(i);
            let m: u8 = match ch {
                'W' => 1,
                'U' => 2,
                'B' => 4,
                'R' => 8,
                'G' => 16,
                _ => {
                    proof {
                        symbols::lemma_parse_invalid(s@, i as int);
                    }
                    return Err(ColorError::InvalidSymbol);
                },
            };
            proof {
                assert(s@.subrange(0, i + 1).drop_last() =~= s@.subrange(0, i as int));
                assert(s@.subrange(0, i + 1).last() == s@[i as int]);
                lemma_or_mask_bound(bits, m);
            }
            bits = bits | m;
            i = i + 1;
        }
        proof {
            assert(s@.subrange(0, n as int) =~= s@);
            symbols::lemma_parse_ok_all_valid(s@);
        }
        Ok(ColorSet { bits })
    }

    /// Permissive string conversion: the set whose members are named by
    /// the color letters of `s`; every other character is skipped. Never
    /// fails.
    pub fn from_symbols(s: &str) -> (r: ColorSet)
        ensures
            r.spec_bits() == spec_scan(s@),
    {
        let n = s.unicode_len();
        let mut bits: u8 = 0;
        let mut i: usize = 0;
        while i < n
            invariant
                i <= n,
                n == s@.len(),
                bits < 32,
                bits == spec_scan(s@.subrange(0, i as int)),
            decreases n - i,
        {
            let ch = s.get_char(i);
            let m: u8 = match ch {
                'W' => 1,
                'U' => 2,
                'B' => 4,
                'R' => 8,
                'G' => 16,
                _ => 0,
            };
            proof {
                assert(s@.subrange(0, i + 1).drop_last() =~= s@.subrange(0, i as int));
                assert(s@.subrange(0, i + 1).last() == s@[i as int]);
                lemma_or_mask_bound(bits, m);
            }
            bits = bits | m;
            i = i + 1;
        }
        proof {
            assert(s@.subrange(0, n as int) =~= s@);
        }
        ColorSet { bits }
    }

    /// The set holding every color of `tags`: the union of their bits.
    /// Always succeeds; repeated colors are harmless.
    pub fn from_tags(tags: &Vec<MtgColor>) -> (r: ColorSet)
        ensures
            r.spec_bits() == spec_tags_bits(tags@),
    {
        let n = tags.len();
        let mut bits: u8 = 0;
        let mut i: usize = 0;
        while i < n
            invariant
                i <= n,
                n == tags@.len(),
                bits < 32,
                bits == spec_tags_bits(tags@.subrange(0, i as int)),
            decreases n - i,
        {
            let m = tags[i].mask();
            proof {
                assert(tags@.subrange(0, i + 1).drop_last() =~= tags@.subrange(0, i as int));
                assert(tags@.subrange(0, i + 1).last() == tags@[i as int]);
                lemma_color_mask_values(tags@[i as int]);
                lemma_or_mask_bound(bits, m);
            }
            bits = bits | m;
            i = i + 1;
        }
        proof {
            assert(tags@.subrange(0, n as int) =~= tags@);
        }
        ColorSet { bits }
    }

    /// The raw byte the set is stored as. Total and lossless: the result
    /// is always below 32.
    pub fn to_byte(&self) -> (r: u8)
        ensures
            r == self.spec_bits(),
            r < 32,
    {
        proof {
            use_type_invariant(&*self);
        }
        self.bits
    }

    /// Strict byte conversion: succeeds exactly on bytes whose top three
    /// bits are clear, and stores the byte unchanged. Any other byte is an
    /// `OutOfRange` error.
    pub fn try_from_byte(value: u8) -> (r: Result<ColorSet, ColorError>)
        ensures
            r is Ok <==> value < 32,
            r matches Ok(cs) ==> cs.spec_bits() == value,
            r matches Err(e) ==> e == ColorError::OutOfRange,
    {
        if value < 32 {
            Ok(ColorSet { bits: value })
        } else {
            Err(ColorError::OutOfRange)
        }
    }

    /// Permissive byte conversion: keeps the low five bits and discards
    /// the rest. Never fails.
    pub fn from_byte_masked(value: u8) -> (r: ColorSet)
        ensures
            r.spec_bits() == value & 0x1f,
    {
        proof {
            assert(value & 0x1f < 32) by (bit_vector);
        }
        ColorSet { bits: value & 0x1f }
    }
}

/// The union of the bits of a sequence of colors.
pub open spec fn spec_tags_bits(ts: Seq<MtgColor>) -> u8
    decreases ts.len(),
{
    if ts.len() == 0 {
        0u8
    } else {
        spec_tags_bits(ts.drop_last()) | color_mask(ts.last())
    }
}

/// The number of colors whose bit is set in `bits`.
pub open spec fn spec_color_count(bits: u8) -> int {
    (if spec_has(bits, MtgColor::White) { 1int } else { 0int })
        + (if spec_has(bits, MtgColor::Blue) { 1int } else { 0int })
        + (if spec_has(bits, MtgColor::Black) { 1int } else { 0int })
        + (if spec_has(bits, MtgColor::Red) { 1int } else { 0int })
        + (if spec_has(bits, MtgColor::Green) { 1int } else { 0int })
}

/// The bitwise subset test agrees with the five per-color membership
/// implications, as long as both masks stay in the low five bits.
pub(crate) proof fn lemma_subset_bits(a: u8, b: u8)
    by (bit_vector)
    requires
        a < 32,
        b < 32,
    ensures
        (a & b == a) <==> ((a & 1 != 0 ==> b & 1 != 0) && (a & 2 != 0 ==> b & 2 != 0) && (a & 4
            != 0 ==> b & 4 != 0) && (a & 8 != 0 ==> b & 8 != 0) && (a & 16 != 0 ==> b & 16
            != 0)),
{
}

/// A set with no colors has the zero mask, and the other way round. In
/// particular, a set that is neither monocolor nor multicolor is
/// colorless.
pub proof fn lemma_count_zero_iff_colorless(s: ColorSet)
    requires
        s.wf(),
    ensures
        (spec_color_count(s.spec_bits()) == 0) <==> (s.spec_bits() == 0),
        (spec_color_count(s.spec_bits()) != 1 && !(spec_color_count(s.spec_bits()) > 1)) <==> (
        s.spec_bits() == 0),
{
    let b = s.spec_bits();
    assert((b & 1 == 0 && b & 2 == 0 && b & 4 == 0 && b & 8 == 0 && b & 16 == 0 && b < 32) ==> b
        == 0) by (bit_vector);
    assert(0u8 & 1 == 0 && 0u8 & 2 == 0 && 0u8 & 4 == 0 && 0u8 & 8 == 0 && 0u8 & 16 == 0)
        by (bit_vector);
}

/// A colorless set contains no color at all.
pub proof fn lemma_colorless_contains_none(s: ColorSet)
    requires
        s.spec_bits() == 0,
    ensures
        forall|c: MtgColor| !s.spec_contains(c),
{
    assert(0u8 & 1 == 0 && 0u8 & 2 == 0 && 0u8 & 4 == 0 && 0u8 & 8 == 0 && 0u8 & 16 == 0)
        by (bit_vector);
    assert forall|c: MtgColor| !s.spec_contains(c) by {
        lemma_color_cases(c);
    }
}

/// Adding a color and then removing that color restores the starting set,
/// provided the color was absent at the start. (When the color was already
/// present, the pair of calls removes it instead: the first add changes
/// nothing and the remove takes it out.)
pub proof fn lemma_add_then_remove(s: ColorSet, c: MtgColor)
    requires
        !s.spec_contains(c),
    ensures
        s.spec_add(c).spec_remove(c) == s,
{
    let a = s.spec_bits();
    let m = color_mask(c);
    assert((a & m == 0) ==> ((a | m) & !m) == a) by (bit_vector);
}

/// Adding a color twice leaves the same set as adding it once.
pub proof fn lemma_add_idempotent(s: ColorSet, c: MtgColor)
    ensures
        s.spec_add(c).spec_add(c) == s.spec_add(c),
{
    let a = s.spec_bits();
    let m = color_mask(c);
    assert(((a | m) | m) == (a | m)) by (bit_vector);
}

/// Removing a color twice leaves the same set as removing it once.
pub proof fn lemma_remove_idempotent(s: ColorSet, c: MtgColor)
    ensures
        s.spec_remove(c).spec_remove(c) == s.spec_remove(c),
{
    let a = s.spec_bits();
    let m = color_mask(c);
    assert(((a & !m) & !m) == (a & !m)) by (bit_vector);
}

/// Removing an absent color changes nothing.
pub proof fn lemma_remove_absent(s: ColorSet, c: MtgColor)
    requires
        !s.spec_contains(c),
    ensures
        s.spec_remove(c) == s,
{
    let a = s.spec_bits();
    let m = color_mask(c);
    assert((a & m == 0) ==> (a & !m) == a) by (bit_vector);
}

/// Every set is a subset of itself.
pub proof fn lemma_subset_reflexive(s: ColorSet)
    ensures
        s.spec_subset_of(s),
{
}

/// Two sets that are subsets of one another are the same set.
pub proof fn lemma_subset_antisymmetric(a: ColorSet, b: ColorSet)
    requires
        a.wf(),
        b.wf(),
        a.spec_subset_of(b),
        b.spec_subset_of(a),
    ensures
        a == b,
{
    let x = a.spec_bits();
    let y = b.spec_bits();
    assert(a.spec_contains(MtgColor::White) ==> b.spec_contains(MtgColor::White));
    assert(b.spec_contains(MtgColor::White) ==> a.spec_contains(MtgColor::White));
    assert(a.spec_contains(MtgColor::Blue) ==> b.spec_contains(MtgColor::Blue));
    assert(b.spec_contains(MtgColor::Blue) ==> a.spec_contains(MtgColor::Blue));
    assert(a.spec_contains(MtgColor::Black) ==> b.spec_contains(MtgColor::Black));
    assert(b.spec_contains(MtgColor::Black) ==> a.spec_contains(MtgColor::Black));
    assert(a.spec_contains(MtgColor::Red) ==> b.spec_contains(MtgColor::Red));
    assert(b.spec_contains(MtgColor::Red) ==> a.spec_contains(MtgColor::Red));
    assert(a.spec_contains(MtgColor::Green) ==> b.spec_contains(MtgColor::Green));
    assert(b.spec_contains(MtgColor::Green) ==> a.spec_contains(MtgColor::Green));
    assert(x == y) by (bit_vector)
        requires
            x < 32,
            y < 32,
            (x & 1 != 0) == (y & 1 != 0),
            (x & 2 != 0) == (y & 2 != 0),
            (x & 4 != 0) == (y & 4 != 0),
            (x & 8 != 0) == (y & 8 != 0),
            (x & 16 != 0) == (y & 16 != 0),
    ;
}

} // verus!

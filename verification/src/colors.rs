//! An earlier shape of the color set, kept side by side with
//! [`crate::ColorSet`]: the same 5-bit mask, reached through one named
//! method per color instead of a color-valued parameter.

use vstd::prelude::*;

use crate::{
    lemma_andnot_mask, lemma_or_mask, lemma_or_mask_bound, spec_color_count, spec_has,
    symbols, MtgColor,
};
use crate::symbols::{spec_scan, spec_symbols};

verus! {

/// A set of colors, packed into the low five bits of one byte, with one
/// add, remove and query method per color.
pub struct Colors {
    color_bits: u8,
}

impl Colors {
    /// The raw mask, for specifications.
    pub closed spec fn spec_bits(self) -> u8 {
        self.color_bits
    }

    /// A valid set keeps its upper three bits clear.
    #[verifier::type_invariant]
    pub open spec fn wf(self) -> bool {
        self.spec_bits() < 32
    }

    /// The set whose members are named by the color letters of `s`; every
    /// other character is skipped. Never fails.
    pub fn from_symbols(s: &str) -> (r: Colors)
        ensures
            r.spec_bits() == spec_scan(s@),
    {
        let n = s.unicode_len();
        let mut bits: u8 = 0;
        let mut i: usize = 0;
        while i < n
            invariant
                i <= n,
                n == s@.len(),
                bits < 32,
                bits == spec_scan(s@.subrange(0, i as int)),
            decreases n - i,
        {
            let ch = s.get_char(i);
            let m: u8 = match ch {
                'W' => 1,
                'U' => 2,
                'B' => 4,
                'R' => 8,
                'G' => 16,
                _ => 0,
            };
            proof {
                assert(s@.subrange(0, i + 1).drop_last() =~= s@.subrange(0, i as int));
                assert(s@.subrange(0, i + 1).last() == s@[i as int]);
                lemma_or_mask_bound(bits, m);
            }
            bits = bits | m;
            i = i + 1;
        }
        proof {
            assert(s@.subrange(0, n as int) =~= s@);
        }
        Colors { color_bits: bits }
    }

    /// Add white to the set.
    pub fn add_white(&mut self)
        ensures
            final(self).spec_bits() == old(self).spec_bits() | 1u8,
    {
        proof {
            use_type_invariant(&*self);
            lemma_or_mask(self.color_bits, 1, 1);
        }
        self.color_bits = self.color_bits | 1;
    }

    /// Add blue to the set.
    pub fn add_blue(&mut self)
        ensures
            final(self).spec_bits() == old(self).spec_bits() | 2u8,
    {
        proof {
            use_type_invariant(&*self);
            lemma_or_mask(self.color_bits, 2, 2);
        }
        self.color_bits = self.color_bits | 2;
    }

    /// Add black to the set.
    pub fn add_black(&mut self)
        ensures
            final(self).spec_bits() == old(self).spec_bits() | 4u8,
    {
        proof {
            use_type_invariant(&*self);
            lemma_or_mask(self.color_bits, 4, 4);
        }
        self.color_bits = self.color_bits | 4;
    }

    /// Add red to the set.
    pub fn add_red(&mut self)
        ensures
            final(self).spec_bits() == old(self).spec_bits() | 8u8,
    {
        proof {
            use_type_invariant(&*self);
            lemma_or_mask(self.color_bits, 8, 8);
        }
        self.color_bits = self.color_bits | 8;
    }

    /// Add green to the set.
    pub fn add_green(&mut self)
        ensures
            final(self).spec_bits() == old(self).spec_bits() | 16u8,
    {
        proof {
            use_type_invariant(&*self);
            lemma_or_mask(self.color_bits, 16, 16);
        }
        self.color_bits = self.color_bits | 16;
    }

    /// Remove white from the set.
    pub fn del_white(&mut self)
        ensures
            final(self).spec_bits() == old(self).spec_bits() & !1u8,
    {
        proof {
            use_type_invariant(&*self);
            lemma_andnot_mask(self.color_bits, 1, 1);
        }
        self.color_bits = self.color_bits & !1;
    }

    /// Remove blue from the set.
    pub fn del_blue(&mut self)
        ensures
            final(self).spec_bits() == old(self).spec_bits() & !2u8,
    {
        proof {
            use_type_invariant(&*self);
            lemma_andnot_mask(self.color_bits, 2, 2);
        }
        self.color_bits = self.color_bits & !2;
    }

    /// Remove black from the set.
    pub fn del_black(&mut self)
        ensures
            final(self).spec_bits() == old(self).spec_bits() & !4u8,
    {
        proof {
            use_type_invariant(&*self);
            lemma_andnot_mask(self.color_bits, 4, 4);
        }
        self.color_bits = self.color_bits & !4;
    }

    /// Remove red from the set.
    pub fn del_red(&mut self)
        ensures
            final(self).spec_bits() == old(self).spec_bits() & !8u8,
    {
        proof {
            use_type_invariant(&*self);
            lemma_andnot_mask(self.color_bits, 8, 8);
        }
        self.color_bits = self.color_bits & !8;
    }

    /// Remove green from the set.
    pub fn del_green(&mut self)
        ensures
            final(self).spec_bits() == old(self).spec_bits() & !16u8,
    {
        proof {
            use_type_invariant(&*self);
            lemma_andnot_mask(self.color_bits, 16, 16);
        }
        self.color_bits = self.color_bits & !16;
    }

    /// Clear all colors.
    pub fn set_colorless(&mut self)
        ensures
            final(self).spec_bits() == 0,
    {
        self.color_bits = 0;
    }

    /// True iff white is in the set.
    pub fn is_white(&self) -> (r: bool)
        ensures
            r == spec_has(self.spec_bits(), MtgColor::White),
    {
        self.color_bits & 1 != 0
    }

    /// True iff blue is in the set.
    pub fn is_blue(&self) -> (r: bool)
        ensures
            r == spec_has(self.spec_bits(), MtgColor::Blue),
    {
        self.color_bits & 2 != 0
    }

    /// True iff black is in the set.
    pub fn is_black(&self) -> (r: bool)
        ensures
            r == spec_has(self.spec_bits(), MtgColor::Black),
    {
        self.color_bits & 4 != 0
    }

    /// True iff red is in the set.
    pub fn is_red(&self) -> (r: bool)
        ensures
            r == spec_has(self.spec_bits(), MtgColor::Red),
    {
        self.color_bits & 8 != 0
    }

    /// True iff green is in the set.
    pub fn is_green(&self) -> (r: bool)
        ensures
            r == spec_has(self.spec_bits(), MtgColor::Green),
    {
        self.color_bits & 16 != 0
    }

    /// True iff the set has no colors.
    pub fn is_colorless(&self) -> (r: bool)
        ensures
            r == (self.spec_bits() == 0),
    {
        self.color_bits == 0
    }

    /// True iff the set holds exactly one color.
    pub fn is_monocolor(&self) -> (r: bool)
        ensures
            r == (spec_color_count(self.spec_bits()) == 1),
    {
        self.num_colors() == 1
    }

    /// True iff the set holds two or more colors.
    pub fn is_multicolor(&self) -> (r: bool)
        ensures
            r == (spec_color_count(self.spec_bits()) > 1),
    {
        self.num_colors() > 1
    }

    /// How many colors are in the set: the number of colors for which the
    /// per-color query holds.
    pub fn num_colors(&self) -> (n: u32)
        ensures
            n == spec_color_count(self.spec_bits()),
    {
        let mut n: u32 = 0;
        if self.color_bits & 1 != 0 {
            n = n + 1;
        }
        if self.color_bits & 2 != 0 {
            n = n + 1;
        }
        if self.color_bits & 4 != 0 {
            n = n + 1;
        }
        if self.color_bits & 8 != 0 {
            n = n + 1;
        }
        if self.color_bits & 16 != 0 {
            n = n + 1;
        }
        n
    }

    /// The letters of the colors in this set, in the canonical order of
    /// the rendering table.
    pub fn symbols(&self) -> (r: &'static str)
        ensures
            r@ == spec_symbols(self.spec_bits()),
    {
        proof {
            use_type_invariant(&*self);
        }
        symbols::symbols_of_bits(self.color_bits)
    }

    /// The raw byte the set is stored as. Total and lossless: the result
    /// is always below 32.
    pub fn to_byte(&self) -> (r: u8)
        ensures
            r == self.spec_bits(),
            r < 32,
    {
        proof {
            use_type_invariant(&*self);
        }
        self.color_bits
    }

    /// The set stored in the low five bits of a byte; the top three bits
    /// are ignored. Never fails.
    pub fn from_byte(value: u8) -> (r: Colors)
        ensures
            r.spec_bits() == value % 32,
    {
        Colors { color_bits: value % 32 }
    }
}

} // verus!

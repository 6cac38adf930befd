//! Human-readable rendering of byte counts.
//!
//! Counts below 1024 are shown exactly, as "`N` B". Larger counts are shown
//! with one decimal place in the largest unit (KB, MB, GB or TB, in steps of
//! 1024) that the count reaches, the tenths digit rounded to nearest with
//! ties to even.

use crate::models::{FileUpload, UploadLink};
use crate::text::{push_char, push_decimal, spec_decimal, spec_digit_char};
use vstd::arithmetic::div_mod::{
    lemma_div_is_ordered, lemma_div_is_ordered_by_denominator, lemma_div_pos_is_pos,
    lemma_mod_bound,
};
use vstd::prelude::*;

verus! {

/// The divisor of the unit a count of `size` bytes is shown in.
pub open spec fn spec_unit_divisor(size: int) -> int {
    if size < 1048576 {
        1024
    } else if size < 1073741824 {
        1048576
    } else if size < 1099511627776 {
        1073741824
    } else {
        1099511627776
    }
}

/// The letter of the unit a count of `size` bytes is shown in.
pub open spec fn spec_unit_letter(size: int) -> char {
    if size < 1048576 {
        'K'
    } else if size < 1073741824 {
        'M'
    } else if size < 1099511627776 {
        'G'
    } else {
        'T'
    }
}

/// `size / div` in tenths, rounded to nearest with ties to even.
pub open spec fn spec_round_tenths(size: int, div: int) -> int {
    let q = (10 * size) / div;
    let r = (10 * size) % div;
    if 2 * r > div || (2 * r == div && q % 2 == 1) {
        q + 1
    } else {
        q
    }
}

/// The rendering of a count of `size` bytes: the exact count and " B" below
/// 1024; otherwise whole part, '.', tenths digit, and the unit.
pub open spec fn spec_format_file_size(size: int) -> Seq<char> {
    if size < 1024 {
        spec_decimal(size) + seq![' ', 'B']
    } else {
        let tenths = spec_round_tenths(size, spec_unit_divisor(size));
        spec_decimal(tenths / 10) + seq![
            '.',
            spec_digit_char(tenths % 10),
            ' ',
            spec_unit_letter(size),
            'B',
        ]
    }
}

/// Render a byte count for display, e.g. "512 B", "1.5 KB", "1.0 MB".
pub fn format_file_size(size_bytes: i64) -> (r: String)
    requires
        size_bytes >= 0,
    ensures
        r@ == spec_format_file_size(size_bytes as int),
{
    let mut out = String::new();
    if size_bytes < 1024 {
        push_decimal(&mut out, size_bytes as u64);
        push_char(&mut out, ' ');
        push_char(&mut out, 'B');
        proof {
            assert(out@ =~= spec_format_file_size(size_bytes as int));
        }
        return out;
    }
    let size = size_bytes as u64;
    let div: u64 = if size_bytes < 1048576 {
        1024
    } else if size_bytes < 1073741824 {
        1048576
    } else if size_bytes < 1099511627776 {
        1073741824
    } else {
        1099511627776
    };
    let unit: char = if size_bytes < 1048576 {
        'K'
    } else if size_bytes < 1073741824 {
        'M'
    } else if size_bytes < 1099511627776 {
        'G'
    } else {
        'T'
    };
    let numer: u128 = 10 * (size as u128);
    proof {
        lemma_div_pos_is_pos(numer as int, div as int);
        lemma_div_is_ordered_by_denominator(numer as int, 1024, div as int);
        lemma_div_is_ordered(numer as int, (10 * 0x7fff_ffff_ffff_ffffint) as int, 1024);
        lemma_mod_bound(numer as int, div as int);
    }
    let q: u64 = (numer / (div as u128)) as u64;
    let r: u128 = numer % (div as u128);
    let tenths: u64 = if 2 * r > div as u128 || (2 * r == div as u128 && q % 2 == 1) {
        q + 1
    } else {
        q
    };
    proof {
        lemma_mod_bound(tenths as int, 10);
        assert(tenths as int == spec_round_tenths(size_bytes as int, spec_unit_divisor(
            size_bytes as int,
        )));
    }
    push_decimal(&mut out, tenths / 10);
    push_char(&mut out, '.');
    let frac = tenths % 10;
    push_char(
        &mut out,
        match frac {
            0 => '0',
            1 => '1',
            2 => '2',
            3 => '3',
            4 => '4',
            5 => '5',
            6 => '6',
            7 => '7',
            8 => '8',
            _ => '9',
        },
    );
    push_char(&mut out, ' ');
    push_char(&mut out, unit);
    push_char(&mut out, 'B');
    proof {
        assert(out@ =~= spec_format_file_size(size_bytes as int));
    }
    out
}

impl UploadLink {
    /// The link's total quota, rendered for display.
    pub fn formatted_max_size(&self) -> (r: String)
        requires
            self.max_file_size >= 0,
        ensures
            r@ == spec_format_file_size(self.max_file_size as int),
    {
        format_file_size(self.max_file_size)
    }
}

impl FileUpload {
    /// The file's size, rendered for display.
    pub fn formatted_size(&self) -> (r: String)
        requires
            self.file_size >= 0,
        ensures
            r@ == spec_format_file_size(self.file_size as int),
    {
        format_file_size(self.file_size)
    }
}

} // verus!

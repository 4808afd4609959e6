//! Rendering byte counts for people: below 1000 bytes as a plain byte count,
//! from 1000 on with one decimal digit in the largest decimal unit (K, M, G
//! or T, in steps of 1000) that keeps the whole part non-zero.

use vstd::prelude::*;

use crate::strutil::{dec_str, digit_char, u64_to_string};

verus! {

/// Index of the decimal unit a byte count at or above 1000 is rendered in:
/// 1 for K up to 4 for T, the largest power of 1000 not above the count.
pub open spec fn spec_unit_exp(bytes: u64) -> nat
    recommends
        bytes >= 1000,
{
    if bytes < 1000_000 {
        1
    } else if bytes < 1000_000_000 {
        2
    } else if bytes < 1000_000_000_000 {
        3
    } else {
        4
    }
}

/// `1000^e` for the unit indices in use.
pub open spec fn pow1000(e: nat) -> nat
    recommends
        1 <= e <= 4,
{
    if e <= 1 {
        1000
    } else if e == 2 {
        1000_000
    } else if e == 3 {
        1000_000_000
    } else {
        1000_000_000_000
    }
}

/// The letter of each decimal unit.
pub open spec fn spec_unit_char(e: nat) -> char
    recommends
        1 <= e <= 4,
{
    if e <= 1 {
        'K'
    } else if e == 2 {
        'M'
    } else if e == 3 {
        'G'
    } else {
        'T'
    }
}

/// The human-readable label of a byte count.
///
/// Below 1000 the count itself with a byte suffix; otherwise the count scaled
/// into the unit [`spec_unit_exp`] picks, with the whole part, one decimal
/// digit (truncated toward zero) and the unit's letter.  The unit changes
/// exactly at the powers of 1000.
pub open spec fn spec_size_label(bytes: u64) -> Seq<char> {
    if bytes < 1000 {
        dec_str(bytes as nat) + seq![' ', ' ', 'B']
    } else {
        let e = spec_unit_exp(bytes);
        let whole = (bytes as nat) / pow1000(e);
        let tenth = ((bytes as nat) / (pow1000(e) / 10)) % 10;
        dec_str(whole) + seq!['.', digit_char(tenth), ' ', spec_unit_char(e), 'B']
    }
}

/// Renders a byte count as [`spec_size_label`] describes.
pub fn bytes_to_string(bytes: u64) -> (r: String)
    ensures
        r@ == spec_size_label(bytes),
{
    if bytes < 1000 {
        let mut s = u64_to_string(bytes);
        proof {
            reveal_strlit("  B");
            assert("  B"@ =~= seq![' ', ' ', 'B']);
        }
        s.append("  B");
        proof {
            assert(s@ =~= spec_size_label(bytes));
        }
        return s;
    }
    let unit: u64 = if bytes < 1000_000 {
        1000
    } else if bytes < 1000_000_000 {
        1000_000
    } else if bytes < 1000_000_000_000 {
        1000_000_000
    } else {
        1000_000_000_000
    };
    proof {
        assert(unit as nat == pow1000(spec_unit_exp(bytes)));
    }
    let whole = bytes / unit;
    let tenth = (bytes / (unit / 10)) % 10;
    let mut s = u64_to_string(whole);
    proof {
        reveal_strlit(".");
        assert("."@ =~= seq!['.']);
    }
    s.append(".");
    let mut t = u64_to_string(tenth);
    proof {
        assert(dec_str(tenth as nat) =~= seq![digit_char(tenth as nat)]);
    }
    s.append(t.as_str());
    let suffix: &str = if bytes < 1000_000 {
        proof {
            reveal_strlit(" KB");
            assert(" KB"@ =~= seq![' ', 'K', 'B']);
        }
        " KB"
    } else if bytes < 1000_000_000 {
        proof {
            reveal_strlit(" MB");
            assert(" MB"@ =~= seq![' ', 'M', 'B']);
        }
        " MB"
    } else if bytes < 1000_000_000_000 {
        proof {
            reveal_strlit(" GB");
            assert(" GB"@ =~= seq![' ', 'G', 'B']);
        }
        " GB"
    } else {
        proof {
            reveal_strlit(" TB");
            assert(" TB"@ =~= seq![' ', 'T', 'B']);
        }
        " TB"
    };
    s.append(suffix);
    proof {
        assert(s@ =~= spec_size_label(bytes));
    }
    s
}

} // verus!

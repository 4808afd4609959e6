//! Small verified string helpers: equality and suffix tests over `&str`,
//! decimal rendering of integers, and padding.
//!
//! vstd gives `&str` a view as a `Seq<char>`; every helper here is specified
//! against that view.

use vstd::prelude::*;

verus! {

/// Character-by-character string equality.
pub fn str_eq(a: &str, b: &str) -> (r: bool)
    ensures
        r == (a@ == b@),
{
    let alen = a.unicode_len();
    let blen = b.unicode_len();
    if alen != blen {
        return false;
    }
    let mut i: usize = 0;
    while i < alen
        invariant
            0 <= i <= alen,
            alen == a@.len(),
            alen == b@.len(),
            forall|j: int| 0 <= j < i ==> a@[j] == b@[j],
        decreases alen - i,
    {
        if a.get_char(i) != b.get_char(i) {
            return false;
        }
        i = i + 1;
    }
    proof {
        assert(a@ =~= b@);
    }
    true
}

/// `t` is a suffix of `s`.
pub open spec fn is_suffix_of(t: Seq<char>, s: Seq<char>) -> bool {
    t.len() <= s.len() && s.subrange(s.len() - t.len(), s.len() as int) == t
}

/// Does `s` end with the suffix `t`?
pub fn str_ends_with(s: &str, t: &str) -> (r: bool)
    ensures
        r == is_suffix_of(t@, s@),
{
    let slen = s.unicode_len();
    let tlen = t.unicode_len();
    if tlen > slen {
        proof {
            assert(!is_suffix_of(t@, s@));
        }
        return false;
    }
    let offset = slen - tlen;
    let mut i: usize = 0;
    while i < tlen
        invariant
            0 <= i <= tlen,
            tlen <= slen,
            offset == slen - tlen,
            slen == s@.len(),
            tlen == t@.len(),
            forall|j: int| 0 <= j < i ==> s@[offset + j] == t@[j],
        decreases tlen - i,
    {
        if s.get_char(offset + i) != t.get_char(i) {
            proof {
                assert(s@.subrange(s@.len() - t@.len(), s@.len() as int)[i as int] != t@[i as int]);
            }
            return false;
        }
        i = i + 1;
    }
    proof {
        assert(s@.subrange(s@.len() - t@.len(), s@.len() as int) =~= t@);
    }
    true
}

/// The character for one decimal digit.
pub open spec fn digit_char(d: nat) -> char {
    if d == 0 {
        '0'
    } else if d == 1 {
        '1'
    } else if d == 2 {
        '2'
    } else if d == 3 {
        '3'
    } else if d == 4 {
        '4'
    } else if d == 5 {
        '5'
    } else if d == 6 {
        '6'
    } else if d == 7 {
        '7'
    } else if d == 8 {
        '8'
    } else {
        '9'
    }
}

/// The decimal rendering of a natural number, most significant digit first.
pub open spec fn dec_str(n: nat) -> Seq<char>
    decreases n,
{
    if n < 10 {
        seq![digit_char(n)]
    } else {
        dec_str(n / 10).push(digit_char(n % 10))
    }
}

/// Appends the decimal digit `d` to `s`.
fn push_digit(d: u64, s: &mut String)
    requires
        d < 10,
    ensures
        final(s)@ == old(s)@ + seq![digit_char(d as nat)],
{
    let digits = "0123456789";
    proof {
        reveal_strlit("0123456789");
    }
    let i = d as usize;
    let ds = digits.substring_char(i, i + 1);
    proof {
        assert(ds@ =~= seq![digit_char(d as nat)]);
    }
    s.append(ds);
}

/// Appends the decimal rendering of `n` to `s`.
pub fn push_dec_u64(n: u64, s: &mut String)
    ensures
        final(s)@ == old(s)@ + dec_str(n as nat),
    decreases n,
{
    if n >= 10 {
        push_dec_u64(n / 10, s);
    }
    push_digit(n % 10, s);
    proof {
        assert(s@ =~= old(s)@ + dec_str(n as nat));
    }
}

/// The decimal rendering of `n` as a fresh string.
pub fn u64_to_string(n: u64) -> (r: String)
    ensures
        r@ == dec_str(n as nat),
{
    let mut s = String::new();
    push_dec_u64(n, &mut s);
    proof {
        assert(s@ =~= dec_str(n as nat));
    }
    s
}

/// A run of `n` spaces.
pub open spec fn spaces(n: nat) -> Seq<char> {
    Seq::new(n, |i: int| ' ')
}

/// `s` left-padded with spaces to width `w`; a string already that wide is
/// returned unchanged.
pub open spec fn spec_pad_left(s: Seq<char>, w: nat) -> Seq<char> {
    if s.len() >= w {
        s
    } else {
        spaces((w - s.len()) as nat) + s
    }
}

/// `s` right-padded with spaces to width `w`; a string already that wide is
/// returned unchanged.
pub open spec fn spec_pad_right(s: Seq<char>, w: nat) -> Seq<char> {
    if s.len() >= w {
        s
    } else {
        s + spaces((w - s.len()) as nat)
    }
}

/// Appends `n` spaces to `s`.
fn push_spaces(n: usize, s: &mut String)
    ensures
        final(s)@ == old(s)@ + spaces(n as nat),
{
    let mut i: usize = 0;
    proof {
        reveal_strlit(" ");
    }
    while i < n
        invariant
            0 <= i <= n,
            s@ == old(s)@ + spaces(i as nat),
            " "@ == seq![' '],
        decreases n - i,
    {
        s.append(" ");
        i = i + 1;
        proof {
            assert(s@ =~= old(s)@ + spaces(i as nat));
        }
    }
}

/// Left-pads `s` with spaces to width `width`.
pub fn pad_left(s: &str, width: usize) -> (r: String)
    ensures
        r@ == spec_pad_left(s@, width as nat),
{
    let len = s.unicode_len();
    let mut r = String::new();
    if len < width {
        push_spaces(width - len, &mut r);
    }
    r.append(s);
    proof {
        assert(r@ =~= spec_pad_left(s@, width as nat));
    }
    r
}

/// Right-pads `s` with spaces to width `width`.
pub fn pad_right(s: &str, width: usize) -> (r: String)
    ensures
        r@ == spec_pad_right(s@, width as nat),
{
    let len = s.unicode_len();
    let mut r = String::new();
    r.append(s);
    if len < width {
        push_spaces(width - len, &mut r);
    }
    proof {
        assert(r@ =~= spec_pad_right(s@, width as nat));
    }
    r
}

/// The path components of `p` from index `i` on, joined with `/`.
pub open spec fn spec_join_from(p: Seq<Seq<char>>, i: int) -> Seq<char>
    decreases p.len() - i,
{
    if i < 0 || i >= p.len() {
        Seq::empty()
    } else if i == p.len() - 1 {
        p[i]
    } else {
        p[i] + seq!['/'] + spec_join_from(p, i + 1)
    }
}

/// All components of `p` joined with `/`.
pub open spec fn spec_join_path(p: Seq<Seq<char>>) -> Seq<char> {
    spec_join_from(p, 0)
}

/// Appends the components of `p` from index `i` on, joined with `/`, to `s`.
pub(crate) fn push_join_from(p: &Vec<String>, i: usize, s: &mut String)
    ensures
        final(s)@ == old(s)@ + spec_join_from(p.deep_view(), i as int),
    decreases p.len() - i,
{
    if i >= p.len() {
        proof {
            assert(s@ =~= old(s)@ + spec_join_from(p.deep_view(), i as int));
        }
        return;
    }
    s.append(p[i].as_str());
    proof {
        assert(p.deep_view()[i as int] == p@[i as int]@);
    }
    if i + 1 < p.len() {
        proof {
            reveal_strlit("/");
        }
        s.append("/");
        push_join_from(p, i + 1, s);
        proof {
            assert(s@ =~= old(s)@ + spec_join_from(p.deep_view(), i as int));
        }
    } else {
        proof {
            assert(s@ =~= old(s)@ + spec_join_from(p.deep_view(), i as int));
        }
    }
}

/// Joins the components of a path with `/` into one string.
pub fn join_path(p: &Vec<String>) -> (r: String)
    ensures
        r@ == spec_join_path(p.deep_view()),
{
    let mut s = String::new();
    push_join_from(p, 0, &mut s);
    proof {
        assert(s@ =~= spec_join_path(p.deep_view()));
    }
    s
}

/// Copies a list of path components.
pub fn clone_path(p: &Vec<String>) -> (r: Vec<String>)
    ensures
        r@ =~= p@,
        r.deep_view() =~= p.deep_view(),
{
    let mut r: Vec<String> = Vec::new();
    let mut i: usize = 0;
    while i < p.len()
        invariant
            0 <= i <= p.len(),
            r@ =~= p@.take(i as int),
        decreases p.len() - i,
    {
        r.push(p[i].clone());
        i = i + 1;
    }
    proof {
        assert(r@ =~= p@);
        assert(r.deep_view() =~= p.deep_view());
    }
    r
}

/// A copy of `a` with one more component `name` at its end.
pub fn path_push(a: &Vec<String>, name: &String) -> (r: Vec<String>)
    ensures
        r.deep_view() =~= a.deep_view().push(name@),
{
    let mut r = clone_path(a);
    r.push(name.clone());
    proof {
        assert forall|j: int| 0 <= j < r@.len() implies r.deep_view()[j] == a.deep_view().push(
            name@,
        )[j] by {
            assert(r.deep_view()[j] == r@[j]@);
        }
        assert(r.deep_view() =~= a.deep_view().push(name@));
    }
    r
}

/// The concatenation of two component lists.
pub fn concat_paths(a: &Vec<String>, b: &Vec<String>) -> (r: Vec<String>)
    ensures
        r.deep_view() =~= a.deep_view() + b.deep_view(),
{
    let mut r = clone_path(a);
    let mut i: usize = 0;
    while i < b.len()
        invariant
            0 <= i <= b.len(),
            r@.len() == a@.len() + i,
            r.deep_view() =~= a.deep_view() + b.deep_view().take(i as int),
        decreases b.len() - i,
    {
        r.push(b[i].clone());
        proof {
            let whole = a.deep_view() + b.deep_view().take(i + 1 as int);
            assert forall|j: int| 0 <= j < r@.len() implies r.deep_view()[j] == whole[j] by {
                assert(r.deep_view()[j] == r@[j]@);
                if j < a@.len() + i {
                    assert((a.deep_view() + b.deep_view().take(i as int))[j] == r@[j]@);
                } else {
                    assert(r@[j] == b@[i as int]);
                }
            }
            assert(r.deep_view() =~= whole);
        }
        i = i + 1;
    }
    proof {
        assert(b.deep_view().take(b@.len() as int) =~= b.deep_view());
    }
    r
}

/// Copies a list of paths.
pub fn clone_paths(ps: &Vec<Vec<String>>) -> (r: Vec<Vec<String>>)
    ensures
        r.deep_view() =~= ps.deep_view(),
{
    let mut r: Vec<Vec<String>> = Vec::new();
    let mut i: usize = 0;
    while i < ps.len()
        invariant
            0 <= i <= ps.len(),
            r@.len() == i,
            r.deep_view() =~= ps.deep_view().take(i as int),
        decreases ps.len() - i,
    {
        let q = clone_path(&ps[i]);
        r.push(q);
        proof {
            assert(ps.deep_view().len() == ps@.len());
            assert(r@[i as int] == q);
            let vold = ps.deep_view().take(i as int);
            let vnew = ps.deep_view().take(i + 1 as int);
            assert forall|j: int| 0 <= j < r@.len() implies r.deep_view()[j] == vnew[j] by {
                if j < i {
                    assert(r.deep_view()[j] == r@[j].deep_view());
                    assert(vold[j] == ps.deep_view()[j]);
                } else {
                    assert(r.deep_view()[j] == q.deep_view());
                    assert(vnew[j] == ps@[i as int].deep_view());
                }
            }
            assert(r.deep_view() =~= ps.deep_view().take(i + 1 as int));
        }
        i = i + 1;
    }
    proof {
        assert(r.deep_view() =~= ps.deep_view());
    }
    r
}

/// `m` clamped to the largest value a `usize` can hold.
pub open spec fn spec_sat_usize(m: nat) -> nat {
    if m > usize::MAX {
        usize::MAX as nat
    } else {
        m
    }
}

/// Saturating addition on `usize`.
pub fn sat_add_usize(a: usize, b: usize) -> (r: usize)
    ensures
        r as nat == spec_sat_usize(a as nat + b as nat),
{
    if a > usize::MAX - b {
        usize::MAX
    } else {
        a + b
    }
}

/// A name is hidden when it begins with a dot.
pub open spec fn spec_hidden(name: Seq<char>) -> bool {
    name.len() > 0 && name[0] == '.'
}

/// Does the name begin with a dot (the convention for entries a walk skips)?
pub fn is_hidden_name(name: &str) -> (r: bool)
    ensures
        r == spec_hidden(name@),
{
    if name.unicode_len() == 0 {
        return false;
    }
    name.get_char(0) == '.'
}

} // verus!

//! Case-insensitive ASCII text helpers.
//!
//! Names in a grammar document (constants, rules) match without regard to
//! ASCII case.  Comparison lowers both sides character by character; no
//! lowered copy of a name is ever stored, the original spelling is kept
//! for reporting.

use vstd::prelude::*;

verus! {

/// An ASCII capital lowered; any other character unchanged.
pub open spec fn spec_lower_char(c: char) -> char {
    if 'A' <= c && c <= 'Z' {
        (((c as u32) + 32) as u8) as char
    } else {
        c
    }
}

/// A character sequence lowered character by character.
pub open spec fn spec_lower(s: Seq<char>) -> Seq<char> {
    s.map_values(|c: char| spec_lower_char(c))
}

pub fn lower_char(c: char) -> (r: char)
    ensures
        r == spec_lower_char(c),
{
    if 'A' <= c && c <= 'Z' {
        let u: u32 = c as u32;
        ((u + 32) as u8) as char
    } else {
        c
    }
}

/// Lexicographic order on character sequences by code point: a prefix
/// sorts before its extensions.
pub open spec fn spec_str_le(a: Seq<char>, b: Seq<char>) -> bool
    decreases a.len(),
{
    if a.len() == 0 {
        true
    } else if b.len() == 0 {
        false
    } else if a[0] != b[0] {
        a[0] < b[0]
    } else {
        spec_str_le(a.drop_first(), b.drop_first())
    }
}

/// The order is total.
pub proof fn lemma_str_le_total(a: Seq<char>, b: Seq<char>)
    ensures
        spec_str_le(a, b) || spec_str_le(b, a),
    decreases a.len(),
{
    if a.len() > 0 && b.len() > 0 && a[0] == b[0] {
        lemma_str_le_total(a.drop_first(), b.drop_first());
    }
}

/// The order is antisymmetric.
pub proof fn lemma_str_le_antisym(a: Seq<char>, b: Seq<char>)
    requires
        spec_str_le(a, b),
        spec_str_le(b, a),
    ensures
        a == b,
    decreases a.len(),
{
    if a.len() == 0 {
        assert(b.len() == 0);
        assert(a =~= b);
    } else {
        assert(b.len() > 0);
        assert(a[0] == b[0]);
        lemma_str_le_antisym(a.drop_first(), b.drop_first());
        assert(a.drop_first().len() == b.drop_first().len());
        assert forall|k: int| 0 <= k < a.len() implies a[k] == b[k] by {
            if k > 0 {
                assert(a[k] == a.drop_first()[k - 1]);
                assert(b[k] == b.drop_first()[k - 1]);
            }
        }
        assert(a =~= b);
    }
}

/// The order is transitive.
pub proof fn lemma_str_le_trans(a: Seq<char>, b: Seq<char>, c: Seq<char>)
    requires
        spec_str_le(a, b),
        spec_str_le(b, c),
    ensures
        spec_str_le(a, c),
    decreases a.len(),
{
    if a.len() > 0 && b.len() > 0 && c.len() > 0 && a[0] == b[0] && b[0] == c[0] {
        lemma_str_le_trans(a.drop_first(), b.drop_first(), c.drop_first());
    }
}

/// Whether `a` sorts at or before `b` as a name: lexicographic by code
/// point over the lowered spellings.
pub fn name_le(a: &str, b: &str) -> (r: bool)
    ensures
        r == spec_str_le(spec_lower(a@), spec_lower(b@)),
{
    let la: usize = a.unicode_len();
    let lb: usize = b.unicode_len();
    let mut i: usize = 0;
    proof {
        assert(spec_lower(a@).skip(0) =~= spec_lower(a@));
        assert(spec_lower(b@).skip(0) =~= spec_lower(b@));
    }
    while i < la && i < lb
        invariant
            la == a@.len(),
            lb == b@.len(),
            i <= la,
            i <= lb,
            spec_str_le(spec_lower(a@), spec_lower(b@)) == spec_str_le(
                spec_lower(a@).skip(i as int),
                spec_lower(b@).skip(i as int),
            ),
        decreases la - i,
    {
        let ca: char = lower_char(a.get_char(i));
        let cb: char = lower_char(b.get_char(i));
        proof {
            assert(spec_lower(a@).skip(i as int)[0] == spec_lower(a@)[i as int]);
            assert(spec_lower(b@).skip(i as int)[0] == spec_lower(b@)[i as int]);
            assert(spec_lower(a@)[i as int] == spec_lower_char(a@[i as int]));
            assert(spec_lower(b@)[i as int] == spec_lower_char(b@[i as int]));
        }
        if ca != cb {
            return ca < cb;
        }
        proof {
            assert(spec_lower(a@).skip(i as int).drop_first() =~= spec_lower(a@).skip(
                i as int + 1,
            ));
            assert(spec_lower(b@).skip(i as int).drop_first() =~= spec_lower(b@).skip(
                i as int + 1,
            ));
        }
        i = i + 1;
    }
    proof {
        if i >= la {
            assert(spec_lower(a@).skip(i as int).len() == 0);
        } else {
            assert(spec_lower(b@).skip(i as int).len() == 0);
            assert(spec_lower(a@).skip(i as int).len() > 0);
        }
    }
    la <= lb
}

/// Whether two strings are the same name, ignoring ASCII case.
pub fn eq_ignore_case(a: &str, b: &str) -> (r: bool)
    ensures
        r == (spec_lower(a@) == spec_lower(b@)),
{
    let n: usize = a.unicode_len();
    if n != b.unicode_len() {
        proof {
            assert(spec_lower(a@).len() != spec_lower(b@).len());
        }
        return false;
    }
    let mut i: usize = 0;
    while i < n
        invariant
            n == a@.len(),
            n == b@.len(),
            i <= n,
            forall|j: int| 0 <= j < i ==> spec_lower(a@)[j] == spec_lower(b@)[j],
        decreases n - i,
    {
        let ca: char = lower_char(a.get_char(i));
        let cb: char = lower_char(b.get_char(i));
        if ca != cb {
            proof {
                assert(spec_lower(a@)[i as int] != spec_lower(b@)[i as int]);
            }
            return false;
        }
        i = i + 1;
    }
    proof {
        assert(spec_lower(a@) =~= spec_lower(b@));
    }
    true
}

} // verus!

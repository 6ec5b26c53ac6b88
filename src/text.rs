//! Character-level text helpers shared by the planners.

use vstd::prelude::*;

verus! {

/// Relies on `str::chars`, collected into a vector: the characters of `s` in order.
#[verifier::external_body]
pub(crate) fn chars_of(s: &str) -> (r: Vec<char>)
    ensures
        r@ == s@,
{
    s.chars().collect()
}

/// Relies on `String`'s `FromIterator<char>`: the string made of exactly these characters.
#[verifier::external_body]
pub(crate) fn string_of(v: &Vec<char>) -> (r: String)
    ensures
        r@ == v@,
{
    v.iter().collect()
}

/// `p` occurs in `s` starting at position `i`.
pub open spec fn occurs_at(s: Seq<char>, i: int, p: Seq<char>) -> bool {
    0 <= i && i + p.len() <= s.len() && s.subrange(i, i + p.len()) == p
}

/// `p` occurs somewhere in `s`.
pub open spec fn contains_seq(s: Seq<char>, p: Seq<char>) -> bool {
    exists|i: int| occurs_at(s, i, p)
}

/// Every occurrence of `p` in `s`, scanned from the left without overlap,
/// replaced by `v`. An empty pattern leaves `s` unchanged.
pub open spec fn replaced(s: Seq<char>, p: Seq<char>, v: Seq<char>) -> Seq<char>
    decreases s.len(),
{
    if p.len() == 0 || s.len() == 0 {
        s
    } else if occurs_at(s, 0, p) {
        v + replaced(s.skip(p.len() as int), p, v)
    } else {
        seq![s[0]] + replaced(s.skip(1), p, v)
    }
}

/// Every `a` in `s` turned into `b`.
pub open spec fn swap_char(s: Seq<char>, a: char, b: char) -> Seq<char> {
    s.map_values(|c: char| if c == a { b } else { c })
}

/// Number of times `c` appears in `s`.
pub open spec fn count_char(s: Seq<char>, c: char) -> nat
    decreases s.len(),
{
    if s.len() == 0 {
        0
    } else {
        count_char(s.drop_last(), c) + if s.last() == c { 1nat } else { 0nat }
    }
}

/// Appends the characters of `s` to `dst`.
pub fn push_chars(dst: &mut Vec<char>, s: &Vec<char>)
    ensures
        final(dst)@ == old(dst)@ + s@,
{
    let mut i: usize = 0;
    while i < s.len()
        invariant
            i <= s@.len(),
            dst@ == old(dst)@ + s@.take(i as int),
        decreases s@.len() - i,
    {
        dst.push(s[i]);
        proof {
            assert(s@.take(i as int + 1) =~= s@.take(i as int).push(s@[i as int]));
        }
        i += 1;
    }
    proof {
        assert(s@.take(s@.len() as int) =~= s@);
    }
}

/// A fresh vector holding the characters of `s`.
pub fn copy_chars(s: &Vec<char>) -> (r: Vec<char>)
    ensures
        r@ == s@,
{
    let mut r: Vec<char> = Vec::new();
    push_chars(&mut r, s);
    proof {
        assert(Seq::<char>::empty() + s@ =~= s@);
    }
    r
}

/// Appends the characters of `s` to `dst`.
pub fn push_str(dst: &mut Vec<char>, s: &str)
    ensures
        final(dst)@ == old(dst)@ + s@,
{
    let cs = chars_of(s);
    push_chars(dst, &cs);
}

/// Whether `p` occurs in `s` at position `i`.
pub fn matches_at(s: &Vec<char>, i: usize, p: &Vec<char>) -> (r: bool)
    ensures
        r == occurs_at(s@, i as int, p@),
{
    if i > s.len() || p.len() > s.len() - i {
        return false;
    }
    let mut k: usize = 0;
    while k < p.len()
        invariant
            i <= s.len(),
            p.len() <= s.len() - i,
            k <= p@.len(),
            forall|j: int| 0 <= j < k ==> s@[i + j] == p@[j],
        decreases p@.len() - k,
    {
        if s[i + k] != p[k] {
            proof {
                assert(s@.subrange(i as int, i + p@.len())[k as int] != p@[k as int]);
            }
            return false;
        }
        k += 1;
    }
    proof {
        assert(s@.subrange(i as int, i + p@.len()) =~= p@);
    }
    true
}

/// Whether `s` begins with `p`.
pub fn starts_with(s: &Vec<char>, p: &Vec<char>) -> (r: bool)
    ensures
        r == occurs_at(s@, 0, p@),
{
    matches_at(s, 0, p)
}

/// Whether `p` occurs anywhere in `s`.
pub fn contains(s: &Vec<char>, p: &Vec<char>) -> (r: bool)
    ensures
        r == contains_seq(s@, p@),
{
    if p.len() == 0 {
        proof {
            assert(occurs_at(s@, 0, p@)) by {
                assert(s@.subrange(0, 0) =~= p@);
            }
        }
        return true;
    }
    let mut i: usize = 0;
    while i < s.len()
        invariant
            i <= s@.len(),
            forall|j: int| 0 <= j < i ==> !occurs_at(s@, j, p@),
        decreases s@.len() - i,
    {
        if matches_at(s, i, p) {
            return true;
        }
        i += 1;
    }
    proof {
        assert forall|j: int| !occurs_at(s@, j, p@) by {
            if 0 <= j && j < i {
            }
        }
    }
    false
}

proof fn lemma_replaced_step(s: Seq<char>, i: int, p: Seq<char>, v: Seq<char>)
    requires
        0 <= i < s.len(),
        p.len() > 0,
    ensures
        occurs_at(s, i, p) ==> replaced(s.skip(i), p, v) == v + replaced(
            s.skip(i + p.len()),
            p,
            v,
        ),
        !occurs_at(s, i, p) ==> replaced(s.skip(i), p, v) == seq![s[i]] + replaced(
            s.skip(i + 1),
            p,
            v,
        ),
{
    let t = s.skip(i);
    assert(occurs_at(s, i, p) == occurs_at(t, 0, p)) by {
        if i + p.len() <= s.len() {
            assert(t.subrange(0, p.len() as int) =~= s.subrange(i, i + p.len()));
        }
    }
    if occurs_at(s, i, p) {
        assert(t.skip(p.len() as int) =~= s.skip(i + p.len()));
    }
    assert(t.skip(1) =~= s.skip(i + 1));
}

/// `s` with every occurrence of `p` (scanned from the left, without overlap)
/// replaced by `v`.
pub fn replace_all(s: &Vec<char>, p: &Vec<char>, v: &Vec<char>) -> (r: Vec<char>)
    ensures
        r@ == replaced(s@, p@, v@),
{
    if p.len() == 0 {
        return copy_chars(s);
    }
    let mut out: Vec<char> = Vec::new();
    let mut i: usize = 0;
    proof {
        assert(s@.skip(0) =~= s@);
        assert(out@ + replaced(s@, p@, v@) =~= replaced(s@, p@, v@));
    }
    while i < s.len()
        invariant
            p@.len() > 0,
            i <= s@.len(),
            out@ + replaced(s@.skip(i as int), p@, v@) == replaced(s@, p@, v@),
        decreases s@.len() - i,
    {
        proof {
            lemma_replaced_step(s@, i as int, p@, v@);
        }
        if matches_at(s, i, p) {
            let ghost before = out@;
            push_chars(&mut out, v);
            proof {
                assert(before + (v@ + replaced(s@.skip(i + p@.len()), p@, v@)) =~= out@
                    + replaced(s@.skip(i + p@.len()), p@, v@));
            }
            i += p.len();
        } else {
            let ghost before = out@;
            out.push(s[i]);
            proof {
                assert(before + (seq![s@[i as int]] + replaced(s@.skip(i + 1), p@, v@)) =~= out@
                    + replaced(s@.skip(i + 1), p@, v@));
            }
            i += 1;
        }
    }
    proof {
        assert(s@.skip(i as int) =~= Seq::<char>::empty());
        assert(out@ + Seq::<char>::empty() =~= out@);
    }
    out
}

} // verus!

//! Splitting a line of text into whitespace-separated tokens.

use vstd::prelude::*;
use vstd::string::StrSliceExecFns;

verus! {

/// A blank character: the whitespace set that token splitting recognizes.
pub open spec fn bosluk(c: char) -> bool {
    c == ' ' || c == '\t' || c == '\n' || c == '\r' || c == '\u{b}' || c == '\u{c}'
}

/// The longest whitespace-free prefix of `s`.
pub open spec fn ilk_oge(s: Seq<char>) -> Seq<char>
    decreases s.len(),
{
    if s.len() == 0 || bosluk(s[0]) {
        Seq::empty()
    } else {
        seq![s[0]] + ilk_oge(s.drop_first())
    }
}

pub proof fn ilk_oge_siniri(s: Seq<char>)
    ensures
        ilk_oge(s).len() <= s.len(),
        s.len() > 0 && !bosluk(s[0]) ==> ilk_oge(s).len() >= 1,
    decreases s.len(),
{
    if s.len() == 0 || bosluk(s[0]) {
    } else {
        ilk_oge_siniri(s.drop_first());
    }
}

/// The tokens of `s`: its maximal whitespace-free runs, in order.
pub open spec fn ogeler(s: Seq<char>) -> Seq<Seq<char>>
    decreases s.len(),
    via ogeler_azalir
{
    if s.len() == 0 {
        Seq::empty()
    } else if bosluk(s[0]) {
        ogeler(s.drop_first())
    } else {
        seq![ilk_oge(s)] + ogeler(s.skip(ilk_oge(s).len() as int))
    }
}

#[via_fn]
proof fn ogeler_azalir(s: Seq<char>) {
    ilk_oge_siniri(s);
}

/// If the characters of `s` from `i` up to `j` are all non-blank, and `j` is the end of
/// `s` or a blank, then the first token of `s.skip(i)` is exactly `s[i..j]`.
pub proof fn ilk_oge_araligi(s: Seq<char>, i: int, j: int)
    requires
        0 <= i <= j <= s.len(),
        forall|k: int| i <= k < j ==> !bosluk(s[k]),
        j == s.len() || bosluk(s[j]),
    ensures
        ilk_oge(s.skip(i)) == s.subrange(i, j),
    decreases j - i,
{
    if i == j {
        assert(ilk_oge(s.skip(i)) =~= s.subrange(i, j));
    } else {
        ilk_oge_araligi(s, i + 1, j);
        assert(s.skip(i)[0] == s[i]);
        assert(!bosluk(s[i]));
        assert(s.skip(i).drop_first() =~= s.skip(i + 1));
        assert(seq![s[i]] + s.subrange(i + 1, j) =~= s.subrange(i, j));
    }
}

fn bosluk_mu(c: char) -> (r: bool)
    ensures
        r == bosluk(c),
{
    c == ' ' || c == '\t' || c == '\n' || c == '\r' || c == '\u{b}' || c == '\u{c}'
}

/// The characters of a string slice, in order.
pub fn harfler(s: &str) -> (r: Vec<char>)
    ensures
        r@ == s@,
{
    let n = s.unicode_len();
    let mut r: Vec<char> = Vec::new();
    let mut i: usize = 0;
    while i < n
        invariant
            i <= n,
            n == s@.len(),
            r@ == s@.take(i as int),
        decreases n - i,
    {
        let c = s.get_char(i);
        r.push(c);
        proof {
            assert(s@.take(i as int).push(s@[i as int]) =~= s@.take(i + 1));
        }
        i += 1;
    }
    proof {
        assert(s@.take(n as int) =~= s@);
    }
    r
}

/// Splits the characters into their whitespace-separated tokens.
pub fn ogelere_ayir(cs: &Vec<char>) -> (r: Vec<Vec<char>>)
    ensures
        r.deep_view() == ogeler(cs@),
{
    let mut r: Vec<Vec<char>> = Vec::new();
    let mut i: usize = 0;
    proof {
        assert(r.deep_view() + ogeler(cs@.skip(0)) =~= ogeler(cs@.skip(0)));
        assert(cs@.skip(0) =~= cs@);
    }
    while i < cs.len()
        invariant
            i <= cs.len(),
            r.deep_view() + ogeler(cs@.skip(i as int)) == ogeler(cs@),
        decreases cs.len() - i,
    {
        if bosluk_mu(cs[i]) {
            proof {
                assert(cs@.skip(i as int).drop_first() =~= cs@.skip(i + 1));
                assert(r.deep_view() + ogeler(cs@.skip(i + 1)) =~= ogeler(cs@));
            }
            i += 1;
        } else {
            let ghost eski = r.deep_view();
            let mut t: Vec<char> = Vec::new();
            let mut j = i;
            while j < cs.len() && !bosluk_mu(cs[j])
                invariant
                    i <= j <= cs.len(),
                    forall|k: int| i <= k < j ==> !bosluk(cs@[k]),
                    t@ == cs@.subrange(i as int, j as int),
                decreases cs.len() - j,
            {
                t.push(cs[j]);
                proof {
                    assert(cs@.subrange(i as int, j as int).push(cs@[j as int]) =~= cs@.subrange(
                        i as int,
                        j + 1,
                    ));
                }
                j += 1;
            }
            proof {
                ilk_oge_araligi(cs@, i as int, j as int);
                assert(cs@.skip(i as int).skip(j - i) =~= cs@.skip(j as int));
                assert(ogeler(cs@.skip(i as int)) == seq![t@] + ogeler(cs@.skip(j as int)));
            }
            r.push(t);
            proof {
                assert(r.deep_view() =~~= eski.push(t@));
                assert(r.deep_view() + ogeler(cs@.skip(j as int)) =~= eski + ogeler(cs@.skip(
                    i as int,
                )));
            }
            i = j;
        }
    }
    proof {
        assert(cs@.skip(i as int) =~= Seq::<char>::empty());
        assert(r.deep_view() + ogeler(cs@.skip(i as int)) =~= r.deep_view());
    }
    r
}

/// Splitting `t + rest`, where `t` is a nonempty whitespace-free run and `rest` is empty
/// or begins with a blank, yields `t` followed by the tokens of `rest`.
pub proof fn ogeler_oneki(t: Seq<char>, rest: Seq<char>)
    requires
        t.len() >= 1,
        forall|i: int| 0 <= i < t.len() ==> !bosluk(t[i]),
        rest.len() == 0 || bosluk(rest[0]),
    ensures
        ogeler(t + rest) == seq![t] + ogeler(rest),
{
    let s = t + rest;
    assert forall|k: int| 0 <= k < t.len() implies !bosluk(s[k]) by {
        assert(s[k] == t[k]);
    }
    assert(t.len() == s.len() || bosluk(s[t.len() as int]));
    ilk_oge_araligi(s, 0, t.len() as int);
    assert(s.skip(0) =~= s);
    assert(s.subrange(0, t.len() as int) =~= t);
    assert(!bosluk(s[0]));
    assert(s.skip(t.len() as int) =~= rest);
}

} // verus!

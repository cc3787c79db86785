//! The currency enumeration and its alias-based, case-insensitive parser.

use vstd::prelude::*;
use crate::hata::{ParaError, ParaErrorKind};
use crate::metin::{bosluk, harfler};

verus! {

/// The three supported currencies.
#[derive(Debug, Clone, Copy, PartialEq, Eq, Structural)]
pub enum ParaBirimi {
    Lira,
    Dolar,
    Euro,
}

/// The code of `c` with an ASCII capital letter folded to its small form;
/// every other character keeps its own code.
pub open spec fn kucuk_kod(c: char) -> u32 {
    if 65 <= c as u32 && c as u32 <= 90 {
        (c as u32 + 32) as u32
    } else {
        c as u32
    }
}

pub open spec fn lira_mi(t: Seq<char>) -> bool {
    t.len() == 4 && kucuk_kod(t[0]) == 'l' as u32 && kucuk_kod(t[1]) == 'i' as u32 && kucuk_kod(
        t[2],
    ) == 'r' as u32 && kucuk_kod(t[3]) == 'a' as u32
}

pub open spec fn tl_mi(t: Seq<char>) -> bool {
    t.len() == 2 && kucuk_kod(t[0]) == 't' as u32 && kucuk_kod(t[1]) == 'l' as u32
}

pub open spec fn dolar_mi(t: Seq<char>) -> bool {
    t.len() == 5 && kucuk_kod(t[0]) == 'd' as u32 && kucuk_kod(t[1]) == 'o' as u32 && kucuk_kod(
        t[2],
    ) == 'l' as u32 && kucuk_kod(t[3]) == 'a' as u32 && kucuk_kod(t[4]) == 'r' as u32
}

pub open spec fn dolar_isareti_mi(t: Seq<char>) -> bool {
    t.len() == 1 && kucuk_kod(t[0]) == '$' as u32
}

pub open spec fn usd_mi(t: Seq<char>) -> bool {
    t.len() == 3 && kucuk_kod(t[0]) == 'u' as u32 && kucuk_kod(t[1]) == 's' as u32 && kucuk_kod(
        t[2],
    ) == 'd' as u32
}

pub open spec fn euro_mi(t: Seq<char>) -> bool {
    t.len() == 4 && kucuk_kod(t[0]) == 'e' as u32 && kucuk_kod(t[1]) == 'u' as u32 && kucuk_kod(
        t[2],
    ) == 'r' as u32 && kucuk_kod(t[3]) == 'o' as u32
}

pub open spec fn euro_isareti_mi(t: Seq<char>) -> bool {
    t.len() == 1 && kucuk_kod(t[0]) == '\u{20ac}' as u32
}

pub open spec fn eur_mi(t: Seq<char>) -> bool {
    t.len() == 3 && kucuk_kod(t[0]) == 'e' as u32 && kucuk_kod(t[1]) == 'u' as u32 && kucuk_kod(
        t[2],
    ) == 'r' as u32
}

/// The currency a token names, case-insensitively, or `None` when it names none.
pub open spec fn birimi_of(t: Seq<char>) -> Option<ParaBirimi> {
    if lira_mi(t) || tl_mi(t) {
        Some(ParaBirimi::Lira)
    } else if dolar_mi(t) || dolar_isareti_mi(t) || usd_mi(t) {
        Some(ParaBirimi::Dolar)
    } else if euro_mi(t) || euro_isareti_mi(t) || eur_mi(t) {
        Some(ParaBirimi::Euro)
    } else {
        None
    }
}

/// The canonical display form of a currency.
pub open spec fn birimi_metni(b: ParaBirimi) -> Seq<char> {
    match b {
        ParaBirimi::Lira => "lira"@,
        ParaBirimi::Dolar => "$"@,
        ParaBirimi::Euro => "\u{20ac}"@,
    }
}

fn kod(t: &Vec<char>, i: usize) -> (r: u32)
    requires
        i < t@.len(),
    ensures
        r == kucuk_kod(t@[i as int]),
{
    let k = t[i] as u32;
    if 65 <= k && k <= 90 {
        k + 32
    } else {
        k
    }
}

impl ParaBirimi {
    /// Parses one already-split token against the alias table.
    pub fn ayristir_oge(t: &Vec<char>) -> (r: Result<ParaBirimi, ParaError>)
        ensures
            match r {
                Ok(b) => birimi_of(t@) == Some(b),
                Err(e) => birimi_of(t@) is None && e == (ParaError {
                    kind: ParaErrorKind::ParaBirimi,
                }),
            },
    {
        let n = t.len();
        if n == 4 && kod(t, 0) == 'l' as u32 && kod(t, 1) == 'i' as u32 && kod(t, 2) == 'r' as u32
            && kod(t, 3) == 'a' as u32 {
            Ok(ParaBirimi::Lira)
        } else if n == 2 && kod(t, 0) == 't' as u32 && kod(t, 1) == 'l' as u32 {
            Ok(ParaBirimi::Lira)
        } else if n == 5 && kod(t, 0) == 'd' as u32 && kod(t, 1) == 'o' as u32 && kod(t, 2)
            == 'l' as u32 && kod(t, 3) == 'a' as u32 && kod(t, 4) == 'r' as u32 {
            Ok(ParaBirimi::Dolar)
        } else if n == 1 && kod(t, 0) == '$' as u32 {
            Ok(ParaBirimi::Dolar)
        } else if n == 3 && kod(t, 0) == 'u' as u32 && kod(t, 1) == 's' as u32 && kod(t, 2)
            == 'd' as u32 {
            Ok(ParaBirimi::Dolar)
        } else if n == 4 && kod(t, 0) == 'e' as u32 && kod(t, 1) == 'u' as u32 && kod(t, 2)
            == 'r' as u32 && kod(t, 3) == 'o' as u32 {
            Ok(ParaBirimi::Euro)
        } else if n == 1 && kod(t, 0) == '\u{20ac}' as u32 {
            Ok(ParaBirimi::Euro)
        } else if n == 3 && kod(t, 0) == 'e' as u32 && kod(t, 1) == 'u' as u32 && kod(t, 2)
            == 'r' as u32 {
            Ok(ParaBirimi::Euro)
        } else {
            Err(ParaError { kind: ParaErrorKind::ParaBirimi })
        }
    }

    /// Parses a currency name given as a string slice.
    pub fn ayristir(s: &str) -> (r: Result<ParaBirimi, ParaError>)
        ensures
            match r {
                Ok(b) => birimi_of(s@) == Some(b),
                Err(e) => birimi_of(s@) is None && e == (ParaError {
                    kind: ParaErrorKind::ParaBirimi,
                }),
            },
    {
        let cs = harfler(s);
        Self::ayristir_oge(&cs)
    }

    /// Renders the canonical short form of the currency.
    pub fn goster(&self) -> (r: String)
        ensures
            r@ == birimi_metni(*self),
    {
        match self {
            ParaBirimi::Lira => String::from_str("lira"),
            ParaBirimi::Dolar => String::from_str("$"),
            ParaBirimi::Euro => String::from_str("\u{20ac}"),
        }
    }
}

impl Default for ParaBirimi {
    /// The default currency.
    fn default() -> (r: Self)
        ensures
            r == ParaBirimi::Lira,
    {
        ParaBirimi::Lira
    }
}

impl core::str::FromStr for ParaBirimi {
    type Err = ParaError;

    fn from_str(s: &str) -> Result<ParaBirimi, ParaError> {
        ParaBirimi::ayristir(s)
    }
}

/// Case-insensitivity: two tokens whose characters agree up to ASCII case
/// name the same currency, or both name none.
pub proof fn lemma_buyuk_kucuk_duyarsiz(t1: Seq<char>, t2: Seq<char>)
    requires
        t1.len() == t2.len(),
        forall|i: int| 0 <= i < t1.len() ==> kucuk_kod(t1[i]) == kucuk_kod(t2[i]),
    ensures
        birimi_of(t1) == birimi_of(t2),
{
}

/// A token that names a currency is nonempty and free of whitespace.
pub proof fn lemma_birimi_ogesi(t: Seq<char>)
    requires
        birimi_of(t) is Some,
    ensures
        t.len() >= 1,
        forall|i: int| 0 <= i < t.len() ==> !bosluk(t[i]),
{
    assert forall|i: int| 0 <= i < t.len() implies !bosluk(t[i]) by {
        assert(kucuk_kod(t[i]) >= 33);
    }
}

} // verus!

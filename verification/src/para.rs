//! The money value: an amount paired with a currency, parsed from one line of text.

use vstd::prelude::*;
use vstd::string::StringExecFns;
use crate::birimi::{birimi_metni, birimi_of, ParaBirimi};
use crate::hata::{ParaError, ParaErrorKind};
use crate::metin::{bosluk, harfler, ogeler, ogeler_oneki, ogelere_ayir};
use crate::miktar::{
    gecerli_miktar, isaretsiz, miktar_metni, miktar_of, nokta_yeri, nokta_yeri_siniri, rakam,
    Miktar, MiktarGorunum,
};

verus! {

/// An amount of money in one of the supported currencies.
#[derive(Debug, Clone, PartialEq, Eq)]
pub struct Para {
    pub miktar: Miktar,
    pub para_birimi: ParaBirimi,
}

/// The mathematical image of a `Para`.
pub struct ParaGorunum {
    pub miktar: MiktarGorunum,
    pub para_birimi: ParaBirimi,
}

impl View for Para {
    type V = ParaGorunum;

    open spec fn view(&self) -> ParaGorunum {
        ParaGorunum { miktar: self.miktar@, para_birimi: self.para_birimi }
    }
}

/// What parsing a line yields: the two-token shape is checked first, then the
/// amount, then the currency.
pub open spec fn para_of(s: Seq<char>) -> Result<ParaGorunum, ParaErrorKind> {
    let ts = ogeler(s);
    if ts.len() != 2 {
        Err(ParaErrorKind::Formatting)
    } else if !gecerli_miktar(ts[0]) {
        Err(ParaErrorKind::Miktar)
    } else {
        match birimi_of(ts[1]) {
            Option::None => Err(ParaErrorKind::ParaBirimi),
            Option::Some(b) => Ok(ParaGorunum { miktar: miktar_of(ts[0]), para_birimi: b }),
        }
    }
}

/// The display text of a value: `"Para => "`, the amount, a blank, the currency.
pub open spec fn para_metni(p: ParaGorunum) -> Seq<char> {
    "Para => "@ + miktar_metni(p.miktar) + " "@ + birimi_metni(p.para_birimi)
}

/// The default value: a zero amount of the default currency.
pub open spec fn varsayilan_gorunum() -> ParaGorunum {
    ParaGorunum {
        miktar: MiktarGorunum { negatif: false, tam: seq!['0'], ondalik: Seq::<char>::empty() },
        para_birimi: ParaBirimi::Lira,
    }
}

impl Para {
    /// Well-formedness of the whole value.
    pub open spec fn wf(&self) -> bool {
        self.miktar.wf()
    }

    /// Runtime check of `wf`.
    pub fn gecerli(&self) -> (r: bool)
        ensures
            r == self.wf(),
    {
        self.miktar.gecerli()
    }

    /// The default value.
    pub fn new() -> (r: Self)
        ensures
            r@ == varsayilan_gorunum(),
            r.wf(),
    {
        Para { miktar: Miktar::default(), para_birimi: ParaBirimi::Lira }
    }

    /// Builds a value directly from already-validated parts.
    pub fn from_parts(miktar: Miktar, para_birimi: ParaBirimi) -> (r: Self)
        ensures
            r.miktar == miktar,
            r.para_birimi == para_birimi,
    {
        Para { miktar, para_birimi }
    }

    /// Parses one line: an amount token and a currency token, whitespace-separated.
    pub fn ayristir(girdi: &str) -> (r: Result<Para, ParaError>)
        ensures
            match r {
                Ok(p) => para_of(girdi@) == Ok::<ParaGorunum, ParaErrorKind>(p@) && p.wf(),
                Err(e) => para_of(girdi@) == Err::<ParaGorunum, ParaErrorKind>(e.kind),
            },
    {
        let cs = harfler(girdi);
        let ts = ogelere_ayir(&cs);
        proof {
            assert(ts.deep_view().len() == ts@.len());
        }
        if ts.len() != 2 {
            return Err(ParaError { kind: ParaErrorKind::Formatting });
        }
        proof {
            assert(ts@[0].deep_view() =~= ts@[0]@);
            assert(ts@[1].deep_view() =~= ts@[1]@);
            assert(ogeler(girdi@)[0] == ts@[0]@);
            assert(ogeler(girdi@)[1] == ts@[1]@);
        }
        let m = match Miktar::ayristir_oge(&ts[0]) {
            Ok(m) => m,
            Err(e) => {
                return Err(e);
            },
        };
        let b = match ParaBirimi::ayristir_oge(&ts[1]) {
            Ok(b) => b,
            Err(e) => {
                return Err(e);
            },
        };
        Ok(Para { miktar: m, para_birimi: b })
    }

    /// Renders the value as `"Para => <amount> <currency>"`.
    pub fn goster(&self) -> (r: String)
        requires
            self.wf(),
        ensures
            r@ == para_metni(self@),
    {
        let mut s = String::from_str("Para => ");
        let m = self.miktar.goster();
        s.append(m.as_str());
        s.append(" ");
        let b = self.para_birimi.goster();
        s.append(b.as_str());
        proof {
            assert(s@ =~= para_metni(self@));
        }
        s
    }
}

impl Default for Para {
    /// The default value: zero lira.
    fn default() -> (r: Self)
        ensures
            r@ == varsayilan_gorunum(),
            r.wf(),
    {
        Para::new()
    }
}

impl core::str::FromStr for Para {
    type Err = ParaError;

    fn from_str(s: &str) -> Result<Para, ParaError> {
        Para::ayristir(s)
    }
}

/// A well-formed number token contains no whitespace.
pub proof fn lemma_miktar_ogesi(t: Seq<char>)
    requires
        gecerli_miktar(t),
    ensures
        t.len() >= 1,
        forall|i: int| 0 <= i < t.len() ==> !bosluk(t[i]),
{
    let u = isaretsiz(t);
    let d = nokta_yeri(u);
    nokta_yeri_siniri(u);
    let b: int = if t.len() > 0 && (t[0] == '-' || t[0] == '+') {
        1
    } else {
        0
    };
    assert(u.len() >= 1);
    assert(t.len() >= 1);
    assert forall|i: int| 0 <= i < t.len() implies !bosluk(t[i]) by {
        if i < b {
            assert(t[i] == '-' || t[i] == '+');
        } else {
            assert(u[i - b] == t[i]);
            if i - b < d {
                assert(u.take(d)[i - b] == u[i - b]);
                assert(rakam(t[i]));
            } else if i - b == d {
                assert(d < u.len());
                assert(t[i] == '.');
            } else {
                assert(d < u.len());
                assert(u.skip(d + 1)[i - b - d - 1] == u[i - b]);
                assert(rakam(t[i]));
            }
        }
    }
}

/// Every line written as a well-formed amount, one blank, and a currency alias
/// parses successfully, to exactly that amount and that alias's currency.
pub proof fn lemma_gecerli_girdi(m: Seq<char>, b: Seq<char>)
    requires
        gecerli_miktar(m),
        birimi_of(b) is Some,
    ensures
        para_of(m + " "@ + b) == Ok::<ParaGorunum, ParaErrorKind>(
            ParaGorunum { miktar: miktar_of(m), para_birimi: birimi_of(b)->Some_0 },
        ),
{
    reveal_strlit(" ");
    lemma_miktar_ogesi(m);
    crate::birimi::lemma_birimi_ogesi(b);
    let kuyruk = " "@ + b;
    assert(kuyruk[0] == ' ');
    ogeler_oneki(m, kuyruk);
    assert(m + " "@ + b =~= m + kuyruk);
    assert(kuyruk.drop_first() =~= b);
    assert(ogeler(kuyruk) == ogeler(b));
    ogeler_oneki(b, Seq::<char>::empty());
    assert(b + Seq::<char>::empty() =~= b);
    assert(ogeler(Seq::<char>::empty()) =~= Seq::<Seq<char>>::empty());
    assert(ogeler(b) =~= seq![b]);
    assert(ogeler(m + kuyruk) =~= seq![m, b]);
}

/// Rendering is a function of the value alone: two renderings of the same
/// value, each as `Para::goster` promises it, are the same text.
pub proof fn lemma_goster_tekrari(p: ParaGorunum, r1: Seq<char>, r2: Seq<char>)
    requires
        r1 == para_metni(p),
        r2 == para_metni(p),
    ensures
        r1 == r2,
{
}

/// The tie-break on doubly invalid input: when the line splits into two tokens
/// and the first is not a number, the error is the amount error, whatever the
/// second token holds.
pub proof fn lemma_miktar_once(s: Seq<char>)
    requires
        ogeler(s).len() == 2,
        !gecerli_miktar(ogeler(s)[0]),
    ensures
        para_of(s) == Err::<ParaGorunum, ParaErrorKind>(ParaErrorKind::Miktar),
{
}

} // verus!

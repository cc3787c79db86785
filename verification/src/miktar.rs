//! The amount: a signed decimal kept exactly as its sign and digit strings.

use vstd::prelude::*;
use vstd::string::StringExecFns;
use crate::hata::{ParaError, ParaErrorKind};
use crate::metin::harfler;

verus! {

/// A signed decimal amount. The digits are kept as written, so the value is exact.
#[derive(Debug, Clone, PartialEq, Eq)]
pub struct Miktar {
    /// True when the amount was written with a leading minus sign.
    pub negatif: bool,
    /// The digits before the decimal point.
    pub tam: Vec<char>,
    /// The digits after the decimal point; empty when there is no point.
    pub ondalik: Vec<char>,
}

/// The mathematical image of a `Miktar`.
pub struct MiktarGorunum {
    pub negatif: bool,
    pub tam: Seq<char>,
    pub ondalik: Seq<char>,
}

impl View for Miktar {
    type V = MiktarGorunum;

    open spec fn view(&self) -> MiktarGorunum {
        MiktarGorunum { negatif: self.negatif, tam: self.tam@, ondalik: self.ondalik@ }
    }
}

/// An ASCII decimal digit.
pub open spec fn rakam(c: char) -> bool {
    48 <= c as u32 && c as u32 <= 57
}

pub open spec fn hepsi_rakam(s: Seq<char>) -> bool {
    forall|i: int| 0 <= i < s.len() ==> rakam(s[i])
}

/// The index of the first `'.'` in `u`, or `u.len()` when there is none.
pub open spec fn nokta_yeri(u: Seq<char>) -> int
    decreases u.len(),
{
    if u.len() == 0 {
        0
    } else if u[0] == '.' {
        0
    } else {
        1 + nokta_yeri(u.drop_first())
    }
}

pub proof fn nokta_yeri_siniri(u: Seq<char>)
    ensures
        0 <= nokta_yeri(u) <= u.len(),
        nokta_yeri(u) < u.len() ==> u[nokta_yeri(u)] == '.',
    decreases u.len(),
{
    if u.len() == 0 || u[0] == '.' {
    } else {
        nokta_yeri_siniri(u.drop_first());
        if nokta_yeri(u) < u.len() {
            assert(u.drop_first()[nokta_yeri(u.drop_first())] == u[nokta_yeri(u)]);
        }
    }
}

/// If `u` has no `'.'` before `d`, and `d` is the end of `u` or a `'.'`,
/// then `d` is the place of the first point.
pub proof fn nokta_yeri_esitligi(u: Seq<char>, d: int)
    requires
        0 <= d <= u.len(),
        forall|k: int| 0 <= k < d ==> u[k] != '.',
        d == u.len() || u[d] == '.',
    ensures
        nokta_yeri(u) == d,
    decreases d,
{
    if d == 0 {
    } else {
        assert(u[0] != '.');
        assert forall|k: int| 0 <= k < d - 1 implies u.drop_first()[k] != '.' by {
            assert(u.drop_first()[k] == u[k + 1]);
        }
        if d < u.len() {
            assert(u.drop_first()[d - 1] == u[d]);
        }
        nokta_yeri_esitligi(u.drop_first(), d - 1);
    }
}

/// The token with its leading sign removed.
pub open spec fn isaretsiz(t: Seq<char>) -> Seq<char> {
    if t.len() > 0 && (t[0] == '-' || t[0] == '+') {
        t.drop_first()
    } else {
        t
    }
}

/// Whether the token was written with a leading minus sign.
pub open spec fn negatif_mi(t: Seq<char>) -> bool {
    t.len() > 0 && t[0] == '-'
}

/// A well-formed signed decimal token: an optional sign, one or more digits,
/// then optionally a `'.'` followed by one or more digits.
pub open spec fn gecerli_miktar(t: Seq<char>) -> bool {
    let u = isaretsiz(t);
    let d = nokta_yeri(u);
    &&& d >= 1
    &&& hepsi_rakam(u.take(d))
    &&& (d == u.len() || (d + 2 <= u.len() && hepsi_rakam(u.skip(d + 1))))
}

/// The amount a valid token denotes.
pub open spec fn miktar_of(t: Seq<char>) -> MiktarGorunum {
    let u = isaretsiz(t);
    let d = nokta_yeri(u);
    MiktarGorunum {
        negatif: negatif_mi(t),
        tam: u.take(d),
        ondalik: if d < u.len() {
            u.skip(d + 1)
        } else {
            Seq::empty()
        },
    }
}

/// The text of an amount: an optional `'-'`, the integer digits, and,
/// when there are fraction digits, a `'.'` followed by them.
pub open spec fn miktar_metni(m: MiktarGorunum) -> Seq<char> {
    (if m.negatif {
        "-"@
    } else {
        Seq::<char>::empty()
    }) + m.tam + (if m.ondalik.len() > 0 {
        "."@ + m.ondalik
    } else {
        Seq::<char>::empty()
    })
}

fn rakam_mu(c: char) -> (r: bool)
    ensures
        r == rakam(c),
{
    let k = c as u32;
    48 <= k && k <= 57
}

/// The characters of `t` from `a` up to `b`.
fn kesit(t: &Vec<char>, a: usize, b: usize) -> (r: Vec<char>)
    requires
        a <= b <= t@.len(),
    ensures
        r@ == t@.subrange(a as int, b as int),
{
    let mut r: Vec<char> = Vec::new();
    let mut i = a;
    while i < b
        invariant
            a <= i <= b <= t@.len(),
            r@ == t@.subrange(a as int, i as int),
        decreases b - i,
    {
        r.push(t[i]);
        proof {
            assert(t@.subrange(a as int, i as int).push(t@[i as int]) =~= t@.subrange(
                a as int,
                i + 1,
            ));
        }
        i += 1;
    }
    r
}

impl Miktar {
    /// Well-formedness: at least one integer digit, and digits only.
    pub open spec fn wf(&self) -> bool {
        self.tam@.len() >= 1 && hepsi_rakam(self.tam@) && hepsi_rakam(self.ondalik@)
    }

    /// Runtime check of `wf`.
    pub fn gecerli(&self) -> (r: bool)
        ensures
            r == self.wf(),
    {
        if self.tam.len() == 0 {
            return false;
        }
        let mut i: usize = 0;
        while i < self.tam.len()
            invariant
                i <= self.tam@.len(),
                forall|k: int| 0 <= k < i ==> rakam(self.tam@[k]),
            decreases self.tam@.len() - i,
        {
            if !rakam_mu(self.tam[i]) {
                return false;
            }
            i += 1;
        }
        let mut j: usize = 0;
        while j < self.ondalik.len()
            invariant
                j <= self.ondalik@.len(),
                hepsi_rakam(self.tam@),
                self.tam@.len() >= 1,
                forall|k: int| 0 <= k < j ==> rakam(self.ondalik@[k]),
            decreases self.ondalik@.len() - j,
        {
            if !rakam_mu(self.ondalik[j]) {
                return false;
            }
            j += 1;
        }
        true
    }

    /// Parses one already-split token as a signed decimal amount.
    pub fn ayristir_oge(t: &Vec<char>) -> (r: Result<Miktar, ParaError>)
        ensures
            match r {
                Ok(m) => gecerli_miktar(t@) && m@ == miktar_of(t@) && m.wf(),
                Err(e) => !gecerli_miktar(t@) && e == (ParaError { kind: ParaErrorKind::Miktar }),
            },
    {
        let n = t.len();
        let isaretli = n > 0 && (t[0] == '-' || t[0] == '+');
        let b: usize = if isaretli {
            1
        } else {
            0
        };
        let neg = n > 0 && t[0] == '-';
        let ghost u = isaretsiz(t@);
        proof {
            assert(t@.skip(b as int) =~= u);
            assert(neg == negatif_mi(t@));
        }
        // Find the first '.' at or after the sign.
        let mut d = b;
        while d < n && t[d] != '.'
            invariant
                b <= d <= n,
                n == t@.len(),
                forall|k: int| b <= k < d ==> t@[k] != '.',
            decreases n - d,
        {
            d += 1;
        }
        proof {
            assert forall|k: int| 0 <= k < d - b implies u[k] != '.' by {
                assert(u[k] == t@[k + b]);
            }
            if d < n {
                assert(u[d - b] == t@[d as int]);
            }
            nokta_yeri_esitligi(u, d - b);
        }
        if d == b {
            // No integer digits at all.
            return Err(ParaError { kind: ParaErrorKind::Miktar });
        }
        // The integer digits.
        let mut i = b;
        while i < d
            invariant
                b <= i <= d <= n,
                n == t@.len(),
                u == t@.skip(b as int),
                u == isaretsiz(t@),
                nokta_yeri(u) == d - b,
                forall|k: int| b <= k < i ==> rakam(t@[k]),
            decreases d - i,
        {
            if !rakam_mu(t[i]) {
                proof {
                    assert(u.len() == n - b);
                    assert(u[i - b] == t@[i as int]);
                    assert(u.take(d - b)[i - b] == u[i - b]);
                }
                return Err(ParaError { kind: ParaErrorKind::Miktar });
            }
            i += 1;
        }
        proof {
            assert forall|k: int| 0 <= k < d - b implies rakam(#[trigger] u.take(d - b)[k]) by {
                assert(u.take(d - b)[k] == t@[k + b]);
            }
        }
        if d == n {
            let m = Miktar { negatif: neg, tam: kesit(t, b, d), ondalik: Vec::new() };
            proof {
                assert(t@.subrange(b as int, d as int) =~= u.take(d - b));
            }
            return Ok(m);
        }
        if d + 1 == n {
            // A point with nothing after it.
            return Err(ParaError { kind: ParaErrorKind::Miktar });
        }
        // The fraction digits.
        let mut j = d + 1;
        while j < n
            invariant
                b <= d,
                d + 1 <= j <= n,
                n == t@.len(),
                u == t@.skip(b as int),
                u == isaretsiz(t@),
                nokta_yeri(u) == d - b,
                forall|k: int| d + 1 <= k < j ==> rakam(t@[k]),
            decreases n - j,
        {
            if !rakam_mu(t[j]) {
                proof {
                    assert(u.len() == n - b);
                    assert(u[j - b] == t@[j as int]);
                    assert(u.skip(d - b + 1)[j - d - 1] == u[j - b]);
                }
                return Err(ParaError { kind: ParaErrorKind::Miktar });
            }
            j += 1;
        }
        proof {
            assert forall|k: int| 0 <= k < n - d - 1 implies rakam(#[trigger] u.skip(d - b + 1)[k]) by {
                assert(u.skip(d - b + 1)[k] == t@[k + d + 1]);
            }
        }
        let m = Miktar { negatif: neg, tam: kesit(t, b, d), ondalik: kesit(t, d + 1, n) };
        proof {
            assert(t@.subrange(b as int, d as int) =~= u.take(d - b));
            assert(t@.subrange(d + 1, n as int) =~= u.skip(d - b + 1));
        }
        Ok(m)
    }

    /// Parses an amount given as a string slice.
    pub fn ayristir(s: &str) -> (r: Result<Miktar, ParaError>)
        ensures
            match r {
                Ok(m) => gecerli_miktar(s@) && m@ == miktar_of(s@) && m.wf(),
                Err(e) => !gecerli_miktar(s@) && e == (ParaError { kind: ParaErrorKind::Miktar }),
            },
    {
        let cs = harfler(s);
        Self::ayristir_oge(&cs)
    }
}

impl Default for Miktar {
    /// The zero amount.
    fn default() -> (r: Self)
        ensures
            r@ == (MiktarGorunum { negatif: false, tam: seq!['0'], ondalik: Seq::<char>::empty() }),
            r.wf(),
    {
        let mut tam: Vec<char> = Vec::new();
        tam.push('0');
        proof {
            assert(tam@ =~= seq!['0']);
        }
        Miktar { negatif: false, tam, ondalik: Vec::new() }
    }
}

/// Appends one digit to a string.
fn rakam_ekle(s: &mut String, c: char)
    requires
        rakam(c),
    ensures
        final(s)@ == old(s)@ + seq![c],
{
    match c {
        '0' => {
            s.append("0");
            proof {
                reveal_strlit("0");
                assert("0"@ =~= seq![c]);
            }
        },
        '1' => {
            s.append("1");
            proof {
                reveal_strlit("1");
                assert("1"@ =~= seq![c]);
            }
        },
        '2' => {
            s.append("2");
            proof {
                reveal_strlit("2");
                assert("2"@ =~= seq![c]);
            }
        },
        '3' => {
            s.append("3");
            proof {
                reveal_strlit("3");
                assert("3"@ =~= seq![c]);
            }
        },
        '4' => {
            s.append("4");
            proof {
                reveal_strlit("4");
                assert("4"@ =~= seq![c]);
            }
        },
        '5' => {
            s.append("5");
            proof {
                reveal_strlit("5");
                assert("5"@ =~= seq![c]);
            }
        },
        '6' => {
            s.append("6");
            proof {
                reveal_strlit("6");
                assert("6"@ =~= seq![c]);
            }
        },
        '7' => {
            s.append("7");
            proof {
                reveal_strlit("7");
                assert("7"@ =~= seq![c]);
            }
        },
        '8' => {
            s.append("8");
            proof {
                reveal_strlit("8");
                assert("8"@ =~= seq![c]);
            }
        },
        _ => {
            proof {
                assert(c == '9');
            }
            s.append("9");
            proof {
                reveal_strlit("9");
                assert("9"@ =~= seq![c]);
            }
        },
    }
}

impl Miktar {
    /// Renders the amount as text, exactly as it was written apart from the sign form.
    pub fn goster(&self) -> (r: String)
        requires
            self.wf(),
        ensures
            r@ == miktar_metni(self@),
    {
        let ghost bas: Seq<char> = if self.negatif {
            "-"@
        } else {
            Seq::<char>::empty()
        };
        let mut s = String::new();
        if self.negatif {
            s.append("-");
        }
        proof {
            assert(s@ =~= bas);
            assert(s@ =~= bas + self.tam@.take(0));
        }
        let mut i: usize = 0;
        while i < self.tam.len()
            invariant
                self.wf(),
                i <= self.tam@.len(),
                bas == (if self.negatif {
                    "-"@
                } else {
                    Seq::<char>::empty()
                }),
                s@ == bas + self.tam@.take(i as int),
            decreases self.tam@.len() - i,
        {
            rakam_ekle(&mut s, self.tam[i]);
            proof {
                assert(bas + self.tam@.take(i as int) + seq![self.tam@[i as int]] =~= bas
                    + self.tam@.take(i + 1));
            }
            i += 1;
        }
        proof {
            assert(self.tam@.take(self.tam@.len() as int) =~= self.tam@);
        }
        if self.ondalik.len() > 0 {
            s.append(".");
            proof {
                assert(s@ =~= bas + self.tam@ + "."@ + self.ondalik@.take(0));
            }
            let mut j: usize = 0;
            while j < self.ondalik.len()
                invariant
                    self.wf(),
                    j <= self.ondalik@.len(),
                    bas == (if self.negatif {
                        "-"@
                    } else {
                        Seq::<char>::empty()
                    }),
                    s@ == bas + self.tam@ + "."@ + self.ondalik@.take(j as int),
                decreases self.ondalik@.len() - j,
            {
                rakam_ekle(&mut s, self.ondalik[j]);
                proof {
                    assert(bas + self.tam@ + "."@ + self.ondalik@.take(j as int) + seq![
                        self.ondalik@[j as int],
                    ] =~= bas + self.tam@ + "."@ + self.ondalik@.take(j + 1));
                }
                j += 1;
            }
            proof {
                assert(self.ondalik@.take(self.ondalik@.len() as int) =~= self.ondalik@);
                assert(s@ =~= miktar_metni(self@));
            }
        } else {
            proof {
                assert(s@ =~= miktar_metni(self@));
            }
        }
        s
    }
}

} // verus!

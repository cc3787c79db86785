//! The error taxonomy shared by the parsers.

use vstd::prelude::*;

verus! {

/// The reason a parse failed.
#[derive(Debug, Clone, Copy, PartialEq, Eq, Structural)]
pub enum ParaErrorKind {
    /// The input did not split into exactly two tokens.
    Formatting,
    /// The first token was not a well-formed number.
    Miktar,
    /// The second token matched no currency alias.
    ParaBirimi,
}

/// A parse error; it carries only the kind of failure.
#[derive(Debug, Clone, Copy, PartialEq, Eq, Structural)]
pub struct ParaError {
    pub kind: ParaErrorKind,
}

/// The message each error kind shows.
pub open spec fn hata_mesaji(k: ParaErrorKind) -> Seq<char> {
    match k {
        ParaErrorKind::Formatting => "Provide amount and currency, e.g.: 42 lira"@,
        ParaErrorKind::Miktar => "Amount parsing error"@,
        ParaErrorKind::ParaBirimi => "Currency parsing error"@,
    }
}

impl ParaError {
    /// The human-readable message for this error.
    pub fn mesaj(&self) -> (r: String)
        ensures
            r@ == hata_mesaji(self.kind),
    {
        match self.kind {
            ParaErrorKind::Formatting => String::from_str(
                "Provide amount and currency, e.g.: 42 lira",
            ),
            ParaErrorKind::Miktar => String::from_str("Amount parsing error"),
            ParaErrorKind::ParaBirimi => String::from_str("Currency parsing error"),
        }
    }
}

} // verus!

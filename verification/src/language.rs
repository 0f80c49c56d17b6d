//! The languages of the dictionary and the translation directions offered.

use vstd::prelude::*;

use crate::text::owned;

verus! {

/// A language of the dictionary.
#[derive(Debug, Clone, Copy, PartialEq, Eq, Structural)]
pub enum Language {
    En,
    Id,
}

/// The code of a language: `en` or `id`.
pub open spec fn code_of(l: Language) -> Seq<char> {
    match l {
        Language::En => "en"@,
        Language::Id => "id"@,
    }
}

impl Language {
    /// The code of the language, as it is displayed.
    pub fn code(&self) -> (r: &'static str)
        ensures
            r@ == code_of(*self),
    {
        match self {
            Language::En => "en",
            Language::Id => "id",
        }
    }
}

/// A translation direction.
#[derive(Debug, Clone, Copy, PartialEq, Eq, Structural)]
pub struct LanguagePair {
    pub from: Language,
    pub to: Language,
}

/// The directions offered: within English, within Indonesian, English into
/// Indonesian, and Indonesian into English.
pub open spec fn supported() -> Seq<LanguagePair> {
    seq![
        LanguagePair { from: Language::En, to: Language::En },
        LanguagePair { from: Language::Id, to: Language::Id },
        LanguagePair { from: Language::En, to: Language::Id },
        LanguagePair { from: Language::Id, to: Language::En },
    ]
}

impl LanguagePair {
    /// The directions offered, in order.
    pub fn supported_pairs() -> (r: Vec<LanguagePair>)
        ensures
            r@ == supported(),
    {
        let mut r: Vec<LanguagePair> = Vec::new();
        r.push(LanguagePair { from: Language::En, to: Language::En });
        r.push(LanguagePair { from: Language::Id, to: Language::Id });
        r.push(LanguagePair { from: Language::En, to: Language::Id });
        r.push(LanguagePair { from: Language::Id, to: Language::En });
        assert(r@ =~= supported());
        r
    }

    /// The direction as displayed: `from -> to`.
    pub fn label(&self) -> (r: String)
        ensures
            r@ == code_of(self.from) + " -> "@ + code_of(self.to),
    {
        let mut r = owned(self.from.code());
        r.append(" -> ");
        r.append(self.to.code());
        r
    }
}

/// Every pair of languages is offered, each exactly once.
pub proof fn supported_pairs_cover_all_directions(from: Language, to: Language)
    ensures
        exists|i: int| 0 <= i < supported().len() && supported()[i] == (LanguagePair { from, to }),
        forall|i: int, j: int| 0 <= i < j < supported().len() ==> supported()[i] != supported()[j],
{
    let p = LanguagePair { from, to };
    match (from, to) {
        (Language::En, Language::En) => assert(supported()[0] == p),
        (Language::Id, Language::Id) => assert(supported()[1] == p),
        (Language::En, Language::Id) => assert(supported()[2] == p),
        (Language::Id, Language::En) => assert(supported()[3] == p),
    }
}

} // verus!

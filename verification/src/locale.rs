//! The locale identifier value: a language code and an optional region code.

use vstd::prelude::*;

verus! {

/// Mathematical value of a locale identifier: the language code and the
/// optional region code, each as a sequence of characters.
pub struct LocaleSpec {
    pub language: Seq<char>,
    pub region: Option<Seq<char>>,
}

impl LocaleSpec {
    /// A well-formed locale identifier always carries a language code.
    pub open spec fn wf(self) -> bool {
        self.language.len() > 0
    }
}

/// A structured locale identifier, e.g. language `"en"` with region
/// `Some("US")`, or language `"zh"` with no region.
#[derive(Debug, Clone, PartialEq, Eq)]
pub struct LanguageIdentifier {
    /// The language code, e.g. `"en"` or `"zh"`. Always present.
    pub language: String,
    /// The optional region code, e.g. `"US"` or `"TW"`.
    pub region: Option<String>,
}

impl View for LanguageIdentifier {
    type V = LocaleSpec;

    open spec fn view(&self) -> LocaleSpec {
        LocaleSpec { language: self.language@, region: self.region.deep_view() }
    }
}

impl DeepView for LanguageIdentifier {
    type V = LocaleSpec;

    open spec fn deep_view(&self) -> LocaleSpec {
        self.view()
    }
}

impl LanguageIdentifier {
    /// Build a locale identifier from its two codes.
    pub fn new(language: String, region: Option<String>) -> (r: Self)
        ensures
            r@.language == language@,
            r@.region == region.deep_view(),
    {
        LanguageIdentifier { language, region }
    }
}

/// Whether two optional region codes agree, including the case where both
/// are absent.
pub fn region_eq(a: &Option<String>, b: &Option<String>) -> (r: bool)
    ensures
        r == (a.deep_view() == b.deep_view()),
{
    match a {
        Some(x) => match b {
            Some(y) => *x == *y,
            None => false,
        },
        None => match b {
            Some(_) => false,
            None => true,
        },
    }
}

} // verus!

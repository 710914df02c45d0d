//! The negotiation core: the client's accepted locales in preference order,
//! and the scan that matches them against the server's supported locales.

use vstd::prelude::*;

use crate::locale::{region_eq, LanguageIdentifier, LocaleSpec};

verus! {

/// The client's accepted locales, most preferred first.
#[derive(Debug, Clone, PartialEq, Eq)]
pub struct AcceptLanguage {
    pub accept_language: Vec<LanguageIdentifier>,
}

impl View for AcceptLanguage {
    type V = Seq<LocaleSpec>;

    open spec fn view(&self) -> Seq<LocaleSpec> {
        self.accept_language.deep_view()
    }
}

/// Whether an accepted locale and a supported locale agree on the language
/// code.
pub open spec fn language_matches(a: LocaleSpec, s: LocaleSpec) -> bool {
    a.language == s.language
}

/// Whether an accepted locale and a supported locale agree on both the
/// language code and the optional region code (both absent also counts).
pub open spec fn exact_matches(a: LocaleSpec, s: LocaleSpec) -> bool {
    a.language == s.language && a.region == s.region
}

/// Whether `acc[i]` shares a language with some supported locale.
pub open spec fn language_match_at(acc: Seq<LocaleSpec>, sup: Seq<LocaleSpec>, i: int) -> bool {
    &&& 0 <= i < acc.len()
    &&& exists|j: int| 0 <= j < sup.len() && #[trigger] language_matches(acc[i], sup[j])
}

/// Whether `acc[i]` matches some supported locale exactly.
pub open spec fn exact_match_at(acc: Seq<LocaleSpec>, sup: Seq<LocaleSpec>, i: int) -> bool {
    &&& 0 <= i < acc.len()
    &&& exists|j: int| 0 <= j < sup.len() && #[trigger] exact_matches(acc[i], sup[j])
}

/// Whether `acc[i]` is the earliest accepted locale that shares a language
/// with some supported locale: the entry whose language the language-only
/// fallback carries.
pub open spec fn first_language_match_at(acc: Seq<LocaleSpec>, sup: Seq<LocaleSpec>, i: int) -> bool {
    &&& language_match_at(acc, sup, i)
    &&& forall|k: int| 0 <= k < i ==> !(#[trigger] language_match_at(acc, sup, k))
}

/// Whether any accepted locale matches some supported locale exactly.
pub open spec fn some_exact_match(acc: Seq<LocaleSpec>, sup: Seq<LocaleSpec>) -> bool {
    exists|i: int| #[trigger] exact_match_at(acc, sup, i)
}

/// Whether any accepted locale shares a language with some supported locale.
pub open spec fn some_language_match(acc: Seq<LocaleSpec>, sup: Seq<LocaleSpec>) -> bool {
    exists|i: int| #[trigger] language_match_at(acc, sup, i)
}

/// A client that accepts no locale matches nothing: with an empty accepted
/// sequence there is neither an exact nor a language-only match against any
/// supported sequence, so every operation returns nothing.
pub proof fn lemma_empty_accepted_matches_nothing(sup: Seq<LocaleSpec>)
    ensures
        !some_exact_match(Seq::<LocaleSpec>::empty(), sup),
        !some_language_match(Seq::<LocaleSpec>::empty(), sup),
{
}

/// Mathematical value of a returned `(language, region)` pair.
pub open spec fn pair_view(r: Option<(String, Option<String>)>) -> Option<
    (Seq<char>, Option<Seq<char>>),
> {
    match r {
        Some(p) => Some((p.0@, p.1.deep_view())),
        None => None,
    }
}

impl AcceptLanguage {
    /// The region code of the first accepted locale that carries one, or
    /// nothing if no accepted locale does.
    pub fn get_first_region(&self) -> (r: Option<String>)
        ensures
            match r {
                Some(reg) => exists|i: int|
                    0 <= i < self@.len() && (#[trigger] self@[i].region) == Some(reg@) && (
                    forall|k: int| 0 <= k < i ==> (#[trigger] self@[k].region) is None),
                None => forall|i: int| 0 <= i < self@.len() ==> (#[trigger] self@[i].region) is None,
            },
    {
        let n = self.accept_language.len();
        let mut idx: usize = 0;
        while idx < n
            invariant
                n == self.accept_language.len(),
                idx <= n,
                forall|k: int| 0 <= k < idx ==> (#[trigger] self@[k].region) is None,
            decreases n - idx,
        {
            match &self.accept_language[idx].region {
                Some(reg) => {
                    proof {
                        assert(self@[idx as int].region == Some(reg@));
                    }
                    return Some(reg.clone());
                },
                None => {},
            }
            idx += 1;
        }
        None
    }

    /// The language code of the most preferred accepted locale, or nothing
    /// if the client accepts none.
    pub fn get_first_language(&self) -> (r: Option<String>)
        ensures
            match r {
                Some(lang) => self@.len() > 0 && lang@ == self@[0].language,
                None => self@.len() == 0,
            },
    {
        if self.accept_language.len() > 0 {
            Some(self.accept_language[0].language.clone())
        } else {
            None
        }
    }

    /// The `(language, region)` pair of the most preferred accepted locale,
    /// or nothing if the client accepts none. The pair always reflects the
    /// first entry, even when that entry lacks a region and a later entry
    /// carries one.
    pub fn get_first_language_region(&self) -> (r: Option<(String, Option<String>)>)
        ensures
            match r {
                Some(p) => self@.len() > 0 && pair_view(r) == Some(
                    (self@[0].language, self@[0].region),
                ),
                None => self@.len() == 0,
            },
    {
        if self.accept_language.len() > 0 {
            let first = &self.accept_language[0];
            Some((first.language.clone(), first.region.clone()))
        } else {
            None
        }
    }

    /// The best supported locale for this client. An exact
    /// `(language, region)` match anywhere in the scan wins and is returned
    /// as soon as it is found; otherwise the language of the earliest
    /// accepted entry whose language the server offers is returned with no
    /// region; otherwise nothing.
    pub fn get_appropriate_language_region(
        &self,
        locales: &[LanguageIdentifier],
    ) -> (r: Option<(String, Option<String>)>)
        ensures
            some_exact_match(self@, locales.deep_view()) ==> exists|i: int|
                {
                    &&& #[trigger] exact_match_at(self@, locales.deep_view(), i)
                    &&& forall|k: int|
                        0 <= k < i ==> !(#[trigger] exact_match_at(self@, locales.deep_view(), k))
                    &&& pair_view(r) == Some((self@[i].language, self@[i].region))
                },
            !some_exact_match(self@, locales.deep_view()) && some_language_match(
                self@,
                locales.deep_view(),
            ) ==> exists|i: int|
                {
                    &&& #[trigger] first_language_match_at(self@, locales.deep_view(), i)
                    &&& pair_view(r) == Some((self@[i].language, None::<Seq<char>>))
                },
            !some_language_match(self@, locales.deep_view()) ==> r is None,
    {
        let ghost acc = self@;
        let ghost sup = locales.deep_view();
        let mut filtered_language: Option<(String, Option<String>)> = None;
        let n = self.accept_language.len();
        let m = locales.len();
        let mut i: usize = 0;
        while i < n
            invariant
                n == self.accept_language.len(),
                m == locales.len(),
                acc == self@,
                sup == locales.deep_view(),
                acc.len() == n,
                sup.len() == m,
                i <= n,
                forall|k: int| 0 <= k < i ==> !(#[trigger] exact_match_at(acc, sup, k)),
                match filtered_language {
                    None => forall|k: int|
                        0 <= k < i ==> !(#[trigger] language_match_at(acc, sup, k)),
                    Some(p) => exists|k: int|
                        {
                            &&& #[trigger] first_language_match_at(acc, sup, k)
                            &&& k < i
                            &&& p.0@ == acc[k].language
                            &&& p.1 is None
                        },
                },
            decreases n - i,
        {
            let locale = &self.accept_language[i];
            let mut j: usize = 0;
            while j < m
                invariant
                    n == self.accept_language.len(),
                    m == locales.len(),
                    acc == self@,
                    sup == locales.deep_view(),
                    acc.len() == n,
                    sup.len() == m,
                    0 <= i < n,
                    j <= m,
                    locale@ == acc[i as int],
                    forall|k: int| 0 <= k < i ==> !(#[trigger] exact_match_at(acc, sup, k)),
                    forall|t: int|
                        0 <= t < j ==> !exact_matches(acc[i as int], #[trigger] sup[t]),
                    match filtered_language {
                        None => (forall|k: int|
                            0 <= k < i ==> !(#[trigger] language_match_at(acc, sup, k)))
                            && (forall|t: int|
                            0 <= t < j ==> !language_matches(acc[i as int], #[trigger] sup[t])),
                        Some(p) => exists|k: int|
                            {
                                &&& #[trigger] first_language_match_at(acc, sup, k)
                                &&& k <= i
                                &&& p.0@ == acc[k].language
                                &&& p.1 is None
                            },
                    },
                decreases m - j,
            {
                let t_locale = &locales[j];
                proof {
                    assert(sup[j as int] == t_locale@);
                }
                if locale.language == t_locale.language {
                    proof {
                        assert(language_matches(acc[i as int], sup[j as int]));
                    }
                    if region_eq(&locale.region, &t_locale.region) {
                        proof {
                            assert(exact_matches(acc[i as int], sup[j as int]));
                            assert(exact_match_at(acc, sup, i as int));
                            assert(language_match_at(acc, sup, i as int));
                        }
                        return Some((locale.language.clone(), locale.region.clone()));
                    } else {
                        if filtered_language.is_none() {
                            proof {
                                assert(language_match_at(acc, sup, i as int));
                                assert(first_language_match_at(acc, sup, i as int));
                            }
                            filtered_language = Some((locale.language.clone(), None));
                        }
                    }
                }
                j += 1;
            }
            proof {
                assert(!exact_match_at(acc, sup, i as int));
                if filtered_language is None {
                    assert(!language_match_at(acc, sup, i as int));
                }
            }
            i += 1;
        }
        proof {
            assert(!some_exact_match(acc, sup));
            if filtered_language is None {
                assert(!some_language_match(acc, sup));
            }
        }
        filtered_language
    }
}

} // verus!

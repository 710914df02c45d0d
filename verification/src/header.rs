//! From header text to locales: tokenizing an `Accept-Language` header value
//! into quality-ordered tags, and parsing each tag into a locale identifier.
//!
//! The two steps themselves are done by outside parsers; their results are
//! named, and everything built on top of them is verified against those
//! names.

use vstd::prelude::*;

use crate::locale::{LanguageIdentifier, LocaleSpec};
use crate::negotiate::AcceptLanguage;
use vstd::std_specs::iter::IteratorSpec;

verus! {

/// The ordered list of language tags denoted by an `Accept-Language` header
/// value: highest quality first, ties in the header's own order, empty tags
/// dropped. The tokenizer is only ever handed header text whose quality
/// values are totally ordered (no NaN), where this order is fully determined
/// by the header text.
pub uninterp spec fn header_tags(header: Seq<char>) -> Seq<Seq<char>>;

/// The header text with every space removed, as the tokenizer strips it
/// before splitting on commas.
pub open spec fn stripped_text(s: Seq<char>) -> Seq<char>
    decreases s.len(),
{
    if s.len() == 0 {
        Seq::empty()
    } else {
        stripped_text(s.drop_last()) + (if s.last() == ' ' {
            Seq::<char>::empty()
        } else {
            seq![s.last()]
        })
    }
}

/// Whether the text from position `i` on spells a NaN float value that runs
/// to a `;`, a `,` or the end of the text: an optional sign, then "nan" in
/// any case. That is the one spelling `f32` parsing turns into NaN.
pub open spec fn nan_value_at(s: Seq<char>, i: int) -> bool {
    let j = if i < s.len() && (s[i] == '+' || s[i] == '-') {
        i + 1
    } else {
        i
    };
    &&& 0 <= i
    &&& j + 3 <= s.len()
    &&& (s[j] == 'n' || s[j] == 'N')
    &&& (s[j + 1] == 'a' || s[j + 1] == 'A')
    &&& (s[j + 2] == 'n' || s[j + 2] == 'N')
    &&& (j + 3 == s.len() || s[j + 3] == ';' || s[j + 3] == ',')
}

/// Whether a space-stripped header text holds an `=` whose value spells NaN.
/// Every header whose tokenization would give some tag a NaN quality is of
/// this shape; a header free of it gives the tag sort only totally ordered
/// qualities.
pub open spec fn has_nan_quality(s: Seq<char>) -> bool {
    exists|i: int| 1 <= i <= s.len() && s[i - 1] == '=' && #[trigger] nan_value_at(s, i)
}

/// Relies on accept_language::parse: the quality-ordered tag list is a
/// function of the header text alone, and an empty header value yields no
/// tags. A header that smuggles a NaN quality value in is kept out: on such
/// input the sort inside the call compares with a comparator that is not a
/// total order, which std's sort may answer with a panic.
#[verifier::external_body]
fn quality_sorted_tags(header: &str) -> (r: Vec<String>)
    requires
        !has_nan_quality(stripped_text(header@)),
    ensures
        r.deep_view() == header_tags(header@),
        header@.len() == 0 ==> r.deep_view().len() == 0,
{
    accept_language::parse(header)
}

/// The header's characters with every space removed.
fn stripped_chars(header: &str) -> (r: Vec<char>)
    ensures
        r@ == stripped_text(header@),
{
    let mut out: Vec<char> = Vec::new();
    let mut it = header.chars();
    let ghost all = header@;
    let ghost mut seen: Seq<char> = Seq::empty();
    proof {
        assert(seen + it.remaining() =~= all);
    }
    loop
        invariant
            seen + it.remaining() == all,
            out@ == stripped_text(seen),
        ensures
            out@ == stripped_text(all),
        decreases all.len() - seen.len(),
    {
        let ghost before = seen;
        match it.next() {
            Some(c) => {
                if c != ' ' {
                    out.push(c);
                }
                proof {
                    seen = seen.push(c);
                    assert(seen.drop_last() =~= before);
                    assert(seen + it.remaining() =~= all);
                    if c == ' ' {
                        assert(out@ =~= stripped_text(seen));
                    } else {
                        assert(out@ =~= stripped_text(before) + seq![c]);
                    }
                }
            },
            None => {
                proof {
                    assert(seen =~= all);
                }
                break ;
            },
        }
    }
    out
}

/// Whether the text spells a NaN value at position `i`.
fn nan_value_check(chars: &Vec<char>, i: usize) -> (r: bool)
    requires
        i <= chars@.len(),
    ensures
        r == nan_value_at(chars@, i as int),
{
    let n = chars.len();
    let j = if i < n && (chars[i] == '+' || chars[i] == '-') {
        i + 1
    } else {
        i
    };
    if n - j < 3 {
        return false;
    }
    if !((chars[j] == 'n' || chars[j] == 'N') && (chars[j + 1] == 'a' || chars[j + 1] == 'A') && (
    chars[j + 2] == 'n' || chars[j + 2] == 'N')) {
        return false;
    }
    j + 3 == n || chars[j + 3] == ';' || chars[j + 3] == ','
}

/// Whether the raw header text would hand the tag sort a NaN quality value:
/// after removing spaces, some `=` is followed by the NaN spelling run to a
/// `;`, a `,` or the end. Callers screen header text with this before
/// tokenizing it.
pub fn header_has_nan_quality(header: &str) -> (r: bool)
    ensures
        r == has_nan_quality(stripped_text(header@)),
{
    let chars = stripped_chars(header);
    let n = chars.len();
    let mut i: usize = 0;
    while i < n
        invariant
            n == chars@.len(),
            chars@ == stripped_text(header@),
            i <= n,
            forall|k: int|
                1 <= k <= i ==> !(chars@[k - 1] == '=' && #[trigger] nan_value_at(chars@, k)),
        decreases n - i,
    {
        if chars[i] == '=' {
            if nan_value_check(&chars, i + 1) {
                proof {
                    assert(chars@[i as int] == '=' && nan_value_at(chars@, i + 1));
                }
                return true;
            }
        }
        i += 1;
    }
    false
}

/// The locale identifier denoted by one language tag, or nothing where the
/// tag is not a well-formed language identifier.
pub uninterp spec fn parsed_locale(tag: Seq<char>) -> Option<LocaleSpec>;

/// Relies on unic_langid::parser::parse_language_identifier: whether a tag
/// parses, and its language and region subtags, are a function of the tag
/// text alone; the parser canonicalizes, and the language subtag it hands
/// back is never empty (the undetermined language reads "und").
#[verifier::external_body]
fn parse_locale_tag(tag: &str) -> (r: Option<LanguageIdentifier>)
    ensures
        r.deep_view() == parsed_locale(tag@),
        r matches Some(l) ==> l@.wf(),
{
    match unic_langid::parser::parse_language_identifier(tag.as_bytes()) {
        Ok(li) => Some(
            LanguageIdentifier {
                language: li.language.as_str().to_owned(),
                region: li.region.map(|rg| rg.as_str().to_owned()),
            },
        ),
        Err(_) => None,
    }
}

/// The locales denoted by a tag list: each tag's locale in order, tags that
/// do not parse dropped.
pub open spec fn parsed_locales(tags: Seq<Seq<char>>) -> Seq<LocaleSpec>
    decreases tags.len(),
{
    if tags.len() == 0 {
        Seq::empty()
    } else {
        parsed_locales(tags.drop_last()) + match parsed_locale(tags.last()) {
            Some(l) => seq![l],
            None => Seq::<LocaleSpec>::empty(),
        }
    }
}

/// Parse a raw `Accept-Language` header value into the client's accepted
/// locales: tags in quality order, tags that are not well-formed language
/// identifiers silently dropped. Every locale that comes out is well-formed.
/// A header that would hand the tokenizer a NaN quality value is rejected
/// whole and yields no locales, like a header that parses to none.
pub fn parse_accept_language(header: &str) -> (r: AcceptLanguage)
    ensures
        !has_nan_quality(stripped_text(header@)) ==> r@ == parsed_locales(header_tags(header@)),
        has_nan_quality(stripped_text(header@)) ==> r@.len() == 0,
        forall|i: int| 0 <= i < r@.len() ==> (#[trigger] r@[i]).wf(),
{
    if header_has_nan_quality(header) {
        return AcceptLanguage { accept_language: Vec::new() };
    }
    let tags = quality_sorted_tags(header);
    let mut out: Vec<LanguageIdentifier> = Vec::new();
    let mut idx: usize = 0;
    while idx < tags.len()
        invariant
            tags.deep_view() == header_tags(header@),
            idx <= tags@.len(),
            out.deep_view() == parsed_locales(tags.deep_view().take(idx as int)),
            forall|i: int| 0 <= i < out.deep_view().len() ==> (#[trigger] out.deep_view()[i]).wf(),
        decreases tags@.len() - idx,
    {
        let ghost full = tags.deep_view();
        let ghost before = out.deep_view();
        match parse_locale_tag(tags[idx].as_str()) {
            Some(l) => {
                proof {
                    assert(parsed_locale(full[idx as int]) == Some(l@));
                }
                out.push(l);
                proof {
                    assert(out.deep_view() =~= before + seq![l@]);
                }
            },
            None => {
                proof {
                    assert(parsed_locale(full[idx as int]) is None);
                }
            },
        }
        proof {
            assert(full.take(idx + 1).drop_last() =~= full.take(idx as int));
            assert(full.take(idx + 1).last() == full[idx as int]);
            assert(out.deep_view() =~= parsed_locales(full.take(idx + 1)));
        }
        idx += 1;
    }
    proof {
        assert(tags.deep_view().take(tags.deep_view().len() as int) =~= tags.deep_view());
    }
    AcceptLanguage { accept_language: out }
}

/// Build the server's supported locales from its configured tag strings,
/// reporting a configuration error (nothing) on the first malformed entry.
pub fn parse_locale_list(tags: &Vec<String>) -> (r: Option<Vec<LanguageIdentifier>>)
    ensures
        match r {
            Some(v) => {
                &&& v.deep_view().len() == tags.deep_view().len()
                &&& forall|i: int|
                    0 <= i < tags.deep_view().len() ==> parsed_locale(
                        #[trigger] tags.deep_view()[i],
                    ) == Some(v.deep_view()[i])
            },
            None => exists|i: int|
                0 <= i < tags.deep_view().len() && parsed_locale(
                    #[trigger] tags.deep_view()[i],
                ) is None,
        },
{
    let mut out: Vec<LanguageIdentifier> = Vec::new();
    let mut idx: usize = 0;
    while idx < tags.len()
        invariant
            idx <= tags@.len(),
            out.deep_view().len() == idx,
            forall|i: int|
                0 <= i < idx ==> parsed_locale(#[trigger] tags.deep_view()[i]) == Some(
                    out.deep_view()[i],
                ),
        decreases tags@.len() - idx,
    {
        let ghost before = out.deep_view();
        match parse_locale_tag(tags[idx].as_str()) {
            Some(l) => {
                out.push(l);
                proof {
                    assert(out.deep_view() =~= before + seq![l@]);
                }
            },
            None => {
                proof {
                    assert(parsed_locale(tags.deep_view()[idx as int]) is None);
                }
                return None;
            },
        }
        idx += 1;
    }
    Some(out)
}

} // verus!

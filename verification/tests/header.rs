use locale_negotiator::header::{header_has_nan_quality, parse_accept_language, parse_locale_list};
use locale_negotiator::locale::LanguageIdentifier;

fn lid(language: &str, region: Option<&str>) -> LanguageIdentifier {
    LanguageIdentifier::new(language.to_owned(), region.map(|r| r.to_owned()))
}

#[test]
fn parses_header_in_order() {
    let acc = parse_accept_language("en-US, en-GB;q=0.5");
    assert_eq!(acc.accept_language, vec![lid("en", Some("US")), lid("en", Some("GB"))]);
}

#[test]
fn orders_tags_by_quality() {
    let acc = parse_accept_language("en;q=0.5, zh-TW");
    assert_eq!(acc.accept_language, vec![lid("zh", Some("TW")), lid("en", None)]);
}

#[test]
fn empty_header_yields_no_locales() {
    let acc = parse_accept_language("");
    assert_eq!(acc.accept_language, vec![]);
}

#[test]
fn canonicalizes_case_and_separator() {
    let acc = parse_accept_language("EN_us");
    assert_eq!(acc.accept_language, vec![lid("en", Some("US"))]);
}

#[test]
fn drops_malformed_tags() {
    let acc = parse_accept_language("abcdefghijk, fr");
    assert_eq!(acc.accept_language, vec![lid("fr", None)]);
}

#[test]
fn numeric_region_is_kept() {
    let acc = parse_accept_language("es-419");
    assert_eq!(acc.accept_language, vec![lid("es", Some("419"))]);
}

#[test]
fn locale_list_parses_all_entries() {
    let tags = vec!["en-US".to_owned(), "zh_TW".to_owned()];
    let locales = parse_locale_list(&tags);
    assert_eq!(locales, Some(vec![lid("en", Some("US")), lid("zh", Some("TW"))]));
}

#[test]
fn locale_list_rejects_malformed_entry() {
    let tags = vec!["en-US".to_owned(), "x".to_owned()];
    assert_eq!(parse_locale_list(&tags), None);
}

#[test]
fn nan_quality_header_yields_no_locales() {
    let acc = parse_accept_language("en;q=nan, fr");
    assert_eq!(acc.accept_language, vec![]);
}

#[test]
fn nan_quality_is_found_through_case_sign_and_spaces() {
    assert!(header_has_nan_quality("en;q=nan"));
    assert!(header_has_nan_quality("en;q=NaN, fr"));
    assert!(header_has_nan_quality("zh;q=-nan"));
    assert!(header_has_nan_quality("zh;q=+NAN;x"));
    assert!(header_has_nan_quality("en;q= n a n"));
}

#[test]
fn ordinary_headers_are_not_screened_out() {
    assert!(!header_has_nan_quality(""));
    assert!(!header_has_nan_quality("en-US, en-GB;q=0.5"));
    assert!(!header_has_nan_quality("nan-TW, nan"));
    assert!(!header_has_nan_quality("en;q=nano"));
}

#[test]
fn min_nan_language_tag_still_parses() {
    let acc = parse_accept_language("nan-TW, nan;q=0.5");
    assert_eq!(acc.accept_language, vec![lid("nan", Some("TW")), lid("nan", None)]);
}

#[test]
fn non_nan_quality_spelling_is_parsed_not_screened() {
    // "nano" is not a float, so its tag keeps the default zero quality and
    // sorts last; the header as a whole is fine.
    let acc = parse_accept_language("en;q=nano, fr");
    assert_eq!(acc.accept_language, vec![lid("fr", None), lid("en", None)]);
}

#[test]
fn parsed_header_negotiates_against_supported() {
    let acc = parse_accept_language("zh-HK;q=0.9, en-US");
    let supported = parse_locale_list(&vec!["zh-TW".to_owned(), "en-GB".to_owned()]).unwrap();
    let r = acc.get_appropriate_language_region(&supported);
    assert_eq!(r, Some(("en".to_owned(), None)));
}

//! Language/region negotiation between a client's accepted locales and a
//! server's supported locales.
//!
//! The library models a locale as a language code with an optional region
//! code, holds the client's preferences in order, and picks the best
//! supported locale: the first exact `(language, region)` match anywhere in
//! the scan, else a language-only fallback taken from the earliest accepted
//! entry whose language the server offers, else nothing.

pub mod header;
pub mod locale;
pub mod negotiate;

//! Language detection over a small fixed vocabulary of stopwords.  The
//! numeric token-estimation heuristics live with the transports outside the
//! library; this module holds the part of the estimator that is a pure
//! decision on text.

use vstd::prelude::*;
use crate::text::{lower, has_substring, to_lowercase, contains_str};

verus! {

/// The language detected from a text's stopwords: English, French, Spanish
/// or German, tried in that order; English when nothing matches.
pub open spec fn detected_language_spec(text: Seq<char>) -> Seq<char> {
    let t = lower(text);
    if has_substring(t, "the "@) || has_substring(t, " and "@) || has_substring(t, " is "@) {
        "en"@
    } else if has_substring(t, " le "@) || has_substring(t, " la "@) || has_substring(t, " et "@)
        || has_substring(t, " pour "@) || has_substring(t, " avec "@) {
        "fr"@
    } else if has_substring(t, " el "@) || has_substring(t, " la "@) || has_substring(t, " y "@) {
        "es"@
    } else if has_substring(t, " der "@) || has_substring(t, " die "@) || has_substring(
        t,
        " und "@,
    ) {
        "de"@
    } else {
        "en"@
    }
}

/// Detects the language of a text from a fixed stopword vocabulary.
pub fn detect_language(text: &str) -> (r: String)
    ensures
        r@ == detected_language_spec(text@),
{
    let t = to_lowercase(text);
    let ts = t.as_str();
    if contains_str(ts, "the ") || contains_str(ts, " and ") || contains_str(ts, " is ") {
        String::from_str("en")
    } else if contains_str(ts, " le ") || contains_str(ts, " la ") || contains_str(ts, " et ")
        || contains_str(ts, " pour ") || contains_str(ts, " avec ") {
        String::from_str("fr")
    } else if contains_str(ts, " el ") || contains_str(ts, " la ") || contains_str(ts, " y ") {
        String::from_str("es")
    } else if contains_str(ts, " der ") || contains_str(ts, " die ") || contains_str(
        ts,
        " und ",
    ) {
        String::from_str("de")
    } else {
        String::from_str("en")
    }
}

} // verus!

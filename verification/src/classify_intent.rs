//! Three-way intent classification from a model response, with a keyword
//! fallback over the sentence itself.

use vstd::prelude::*;
use crate::text::{lower, has_substring, to_lowercase, contains_str, views_of};

verus! {

/// The three intent classes.
#[derive(Debug, Clone, PartialEq, Eq, Structural)]
pub enum IntentType {
    ActionableRequest,
    GeneralQuestion,
    HelpRequest,
}

/// The multilingual help keywords the fallback scans the sentence for.
pub open spec fn help_keyword_views() -> Seq<Seq<char>> {
    seq![
        "what can i do"@,
        "que puis-je faire"@,
        "qu'est-ce que je peux faire avec cette application"@,
        "what can i do with this app"@,
        "help"@,
        "aide"@,
        "aidez-moi"@,
        "available"@,
        "disponible"@,
        "options"@,
        "capabilities"@,
        "capacités"@,
        "features"@,
        "fonctionnalités"@,
        "how to use"@,
        "comment utiliser"@,
        "show me"@,
        "montre-moi"@,
        "list"@,
        "lister"@,
        "was kann ich"@,
        "hilfe"@,
        "wie kann"@,
        "fähigkeiten"@,
        "qué puedo"@,
        "ayuda"@,
        "ayúdame"@,
        "cómo"@,
        "capacidades"@,
    ]
}

/// The fallback: the lower-cased sentence mentions one of the help keywords.
pub open spec fn help_fallback(sentence: Seq<char>) -> bool {
    exists|i: int|
        0 <= i < help_keyword_views().len() && has_substring(
            lower(sentence),
            #[trigger] help_keyword_views()[i],
        )
}

/// The classification rule: the response is searched case-insensitively for
/// the tokens "actionable", "help" and "general", in that order of priority;
/// when none occurs, the sentence decides between a help request (when it
/// mentions a help keyword) and a general question.
pub open spec fn classify_spec(response: Seq<char>, sentence: Seq<char>) -> IntentType {
    if has_substring(lower(response), "actionable"@) {
        IntentType::ActionableRequest
    } else if has_substring(lower(response), "help"@) {
        IntentType::HelpRequest
    } else if has_substring(lower(response), "general"@) {
        IntentType::GeneralQuestion
    } else if help_fallback(sentence) {
        IntentType::HelpRequest
    } else {
        IntentType::GeneralQuestion
    }
}

fn help_keywords() -> (r: Vec<String>)
    ensures
        views_of(r@) == help_keyword_views(),
{
    let mut v: Vec<String> = Vec::new();
    v.push(String::from_str("what can i do"));
    v.push(String::from_str("que puis-je faire"));
    v.push(String::from_str("qu'est-ce que je peux faire avec cette application"));
    v.push(String::from_str("what can i do with this app"));
    v.push(String::from_str("help"));
    v.push(String::from_str("aide"));
    v.push(String::from_str("aidez-moi"));
    v.push(String::from_str("available"));
    v.push(String::from_str("disponible"));
    v.push(String::from_str("options"));
    v.push(String::from_str("capabilities"));
    v.push(String::from_str("capacités"));
    v.push(String::from_str("features"));
    v.push(String::from_str("fonctionnalités"));
    v.push(String::from_str("how to use"));
    v.push(String::from_str("comment utiliser"));
    v.push(String::from_str("show me"));
    v.push(String::from_str("montre-moi"));
    v.push(String::from_str("list"));
    v.push(String::from_str("lister"));
    v.push(String::from_str("was kann ich"));
    v.push(String::from_str("hilfe"));
    v.push(String::from_str("wie kann"));
    v.push(String::from_str("fähigkeiten"));
    v.push(String::from_str("qué puedo"));
    v.push(String::from_str("ayuda"));
    v.push(String::from_str("ayúdame"));
    v.push(String::from_str("cómo"));
    v.push(String::from_str("capacidades"));
    proof {
        assert(views_of(v@) =~= help_keyword_views());
    }
    v
}

/// Classifies a sentence's intent from a fixed model response.  The result
/// is a function of the response and sentence alone: the same pair always
/// yields the same class, with or without the keyword fallback.
#[verifier::loop_isolation(false)]
pub fn classify_intent_from_response(sentence: &str, response: &str) -> (r: IntentType)
    ensures
        r == classify_spec(response@, sentence@),
{
    let response_lower = to_lowercase(response);
    if contains_str(response_lower.as_str(), "actionable") {
        return IntentType::ActionableRequest;
    }
    if contains_str(response_lower.as_str(), "help") {
        return IntentType::HelpRequest;
    }
    if contains_str(response_lower.as_str(), "general") {
        return IntentType::GeneralQuestion;
    }
    let sentence_lower = to_lowercase(sentence);
    let keywords = help_keywords();
    let n = keywords.len();
    let mut i: usize = 0;
    while i < n
        invariant
            n == keywords@.len(),
            views_of(keywords@) == help_keyword_views(),
            sentence_lower@ == lower(sentence@),
            0 <= i <= n,
            forall|j: int|
                0 <= j < i ==> !has_substring(lower(sentence@), help_keyword_views()[j]),
        decreases n - i,
    {
        if contains_str(sentence_lower.as_str(), keywords[i].as_str()) {
            proof {
                assert(views_of(keywords@)[i as int] == keywords@[i as int]@);
                assert(has_substring(lower(sentence@), help_keyword_views()[i as int]));
                assert(help_fallback(sentence@));
            }
            return IntentType::HelpRequest;
        }
        i = i + 1;
    }
    IntentType::GeneralQuestion
}

/// Classification is deterministic: it is a function of the response and the
/// sentence, both when a token of the response decides and when the keyword
/// fallback decides.
pub proof fn lemma_classification_deterministic(
    response: Seq<char>,
    sentence: Seq<char>,
    r1: IntentType,
    r2: IntentType,
)
    requires
        r1 == classify_spec(response, sentence),
        r2 == classify_spec(response, sentence),
    ensures
        r1 == r2,
        !has_substring(lower(response), "actionable"@) && !has_substring(
            lower(response),
            "help"@,
        ) && !has_substring(lower(response), "general"@) ==> r1 == (if help_fallback(sentence) {
            IntentType::HelpRequest
        } else {
            IntentType::GeneralQuestion
        }),
{
}

} // verus!

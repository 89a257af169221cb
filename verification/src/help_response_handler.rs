//! Help answers: a human-readable list of the user's capabilities, and the
//! language-aware help response around it.

use vstd::prelude::*;
use crate::text::{has_substring, contains_str, join_with, join_with_strings, views_of, str_eq,
    trim, to_lowercase};
use crate::models::EnhancedEndpoint;
use crate::providers::{ModelProvider, ModelConfig, GenerationResult};
use crate::prompts::PromptManager;
use crate::errors::AnalysisError;
use crate::endpoint_client::string_clone;

verus! {

/// Character-wise lexicographic order, starting the comparison at `i`.
pub open spec fn lex_le_from(a: Seq<char>, b: Seq<char>, i: int) -> bool
    decreases a.len() - i,
{
    if i < 0 || i >= a.len() {
        true
    } else if i >= b.len() {
        false
    } else if a[i] != b[i] {
        a[i] < b[i]
    } else {
        lex_le_from(a, b, i + 1)
    }
}

pub open spec fn lex_le(a: Seq<char>, b: Seq<char>) -> bool {
    lex_le_from(a, b, 0)
}

/// Compares two strings lexicographically by characters.
pub fn lex_le_exec(a: &str, b: &str) -> (r: bool)
    ensures
        r == lex_le(a@, b@),
{
    let av = crate::text::chars_of(a);
    let bv = crate::text::chars_of(b);
    let an = av.len();
    let bn = bv.len();
    let mut i: usize = 0;
    while i < an && i < bn && av[i] == bv[i]
        invariant
            an == a@.len(),
            bn == b@.len(),
            av@ == a@,
            bv@ == b@,
            0 <= i <= an,
            i <= bn,
            lex_le(a@, b@) == lex_le_from(a@, b@, i as int),
            forall|q: int| 0 <= q < i ==> a@[q] == b@[q],
        decreases an - i,
    {
        i = i + 1;
    }
    if i >= an {
        true
    } else if i >= bn {
        false
    } else {
        av[i] < bv[i]
    }
}

/// Insertion into a sorted sequence, before the first element that is not
/// smaller.
pub open spec fn insert_sorted(s: Seq<Seq<char>>, x: Seq<char>) -> Seq<Seq<char>>
    decreases s.len(),
{
    if s.len() == 0 {
        seq![x]
    } else if lex_le(x, s[0]) {
        seq![x] + s
    } else {
        seq![s[0]] + insert_sorted(s.subrange(1, s.len() as int), x)
    }
}

/// Sorting by repeated insertion, left to right.
pub open spec fn sort_lines(s: Seq<Seq<char>>) -> Seq<Seq<char>>
    decreases s.len(),
{
    if s.len() == 0 {
        Seq::<Seq<char>>::empty()
    } else {
        insert_sorted(sort_lines(s.drop_last()), s.last())
    }
}

/// Removal of adjacent duplicates.
pub open spec fn dedup_adjacent(s: Seq<Seq<char>>) -> Seq<Seq<char>>
    decreases s.len(),
{
    if s.len() == 0 {
        Seq::<Seq<char>>::empty()
    } else if s.len() == 1 {
        s
    } else if s[0] == s[1] {
        dedup_adjacent(s.subrange(1, s.len() as int))
    } else {
        seq![s[0]] + dedup_adjacent(s.subrange(1, s.len() as int))
    }
}

/// The bullet line describing one endpoint, chosen by keywords of its id.
pub open spec fn capability_line(
    id: Seq<char>,
    name: Seq<char>,
    description: Seq<char>,
) -> Seq<char> {
    if has_substring(id, "email"@) {
        "• Send emails ("@ + description + ")"@
    } else if has_substring(id, "meeting"@) || has_substring(id, "schedule"@) {
        "• Schedule meetings and appointments ("@ + description + ")"@
    } else if has_substring(id, "ticket"@) || has_substring(id, "support"@) {
        "• Create support tickets ("@ + description + ")"@
    } else if has_substring(id, "report"@) || has_substring(id, "generate"@) {
        "• Generate reports and documents ("@ + description + ")"@
    } else if has_substring(id, "deploy"@) {
        "• Deploy applications ("@ + description + ")"@
    } else if has_substring(id, "payment"@) || has_substring(id, "pay"@) {
        "• Process payments ("@ + description + ")"@
    } else if has_substring(id, "backup"@) {
        "• Backup databases ("@ + description + ")"@
    } else if has_substring(id, "log"@) {
        "• Analyze application logs ("@ + description + ")"@
    } else {
        "• "@ + name + " ("@ + description + ")"@
    }
}

/// The capability listing: one line per endpoint, sorted, with duplicates
/// removed; a fixed sentence when there are no endpoints.
pub open spec fn capabilities_text(es: Seq<EnhancedEndpoint>) -> Seq<char> {
    if es.len() == 0 {
        "No capabilities currently available."@
    } else {
        join_with(
            dedup_adjacent(
                sort_lines(
                    es.map_values(|e: EnhancedEndpoint| capability_line(e.id@, e.name@, e.description@)),
                ),
            ),
            "\n"@,
        )
    }
}

fn capability_line_exec(e: &EnhancedEndpoint) -> (r: String)
    ensures
        r@ == capability_line(e.id@, e.name@, e.description@),
{
    let id = e.id.as_str();
    let mut out: String;
    if contains_str(id, "email") {
        out = String::from_str("• Send emails (");
    } else if contains_str(id, "meeting") || contains_str(id, "schedule") {
        out = String::from_str("• Schedule meetings and appointments (");
    } else if contains_str(id, "ticket") || contains_str(id, "support") {
        out = String::from_str("• Create support tickets (");
    } else if contains_str(id, "report") || contains_str(id, "generate") {
        out = String::from_str("• Generate reports and documents (");
    } else if contains_str(id, "deploy") {
        out = String::from_str("• Deploy applications (");
    } else if contains_str(id, "payment") || contains_str(id, "pay") {
        out = String::from_str("• Process payments (");
    } else if contains_str(id, "backup") {
        out = String::from_str("• Backup databases (");
    } else if contains_str(id, "log") {
        out = String::from_str("• Analyze application logs (");
    } else {
        out = String::from_str("• ");
        out.append(e.name.as_str());
        out.append(" (");
    }
    out.append(e.description.as_str());
    out.append(")");
    out
}

proof fn lemma_insert_sorted_at(s: Seq<Seq<char>>, x: Seq<char>, j: int)
    requires
        0 <= j <= s.len(),
        forall|q: int| 0 <= q < j ==> !lex_le(x, #[trigger] s[q]),
        j < s.len() ==> lex_le(x, s[j]),
    ensures
        insert_sorted(s, x) == s.subrange(0, j) + seq![x] + s.subrange(j, s.len() as int),
    decreases j,
{
    if s.len() == 0 {
        assert(insert_sorted(s, x) =~= s.subrange(0, j) + seq![x] + s.subrange(
            j,
            s.len() as int,
        ));
    } else if j == 0 {
        assert(insert_sorted(s, x) =~= s.subrange(0, 0) + seq![x] + s.subrange(
            0,
            s.len() as int,
        ));
    } else {
        let rest = s.subrange(1, s.len() as int);
        assert forall|q: int| 0 <= q < j - 1 implies !lex_le(x, #[trigger] rest[q]) by {
            assert(rest[q] == s[q + 1]);
        }
        if j - 1 < rest.len() {
            assert(rest[j - 1] == s[j]);
        }
        lemma_insert_sorted_at(rest, x, j - 1);
        assert(insert_sorted(s, x) =~= s.subrange(0, j) + seq![x] + s.subrange(
            j,
            s.len() as int,
        ));
    }
}

/// Inserts a line into a sorted list of lines.
fn insert_line(acc: &mut Vec<String>, line: String)
    ensures
        views_of(final(acc)@) == insert_sorted(views_of(old(acc)@), line@),
{
    let n = acc.len();
    let mut j: usize = 0;
    while j < n && !lex_le_exec(line.as_str(), acc[j].as_str())
        invariant
            n == acc@.len(),
            acc@ == old(acc)@,
            0 <= j <= n,
            forall|q: int| 0 <= q < j ==> !lex_le(line@, #[trigger] views_of(acc@)[q]),
        decreases n - j,
    {
        proof {
            assert(views_of(acc@)[j as int] == acc@[j as int]@);
        }
        j = j + 1;
    }
    proof {
        if j < n {
            assert(views_of(acc@)[j as int] == acc@[j as int]@);
        }
        lemma_insert_sorted_at(views_of(acc@), line@, j as int);
    }
    let ghost ov = views_of(acc@);
    acc.insert(j, line);
    proof {
        assert(views_of(acc@) =~= ov.subrange(0, j as int) + seq![line@] + ov.subrange(
            j as int,
            ov.len() as int,
        ));
    }
}

/// Builds the human-readable capability listing for the user's endpoints.
pub fn create_capabilities_list(endpoints: &Vec<EnhancedEndpoint>) -> (r: String)
    ensures
        r@ == capabilities_text(endpoints@),
{
    if endpoints.len() == 0 {
        return String::from_str("No capabilities currently available.");
    }
    let ghost line_of = |e: EnhancedEndpoint| capability_line(e.id@, e.name@, e.description@);
    let n = endpoints.len();
    let mut sorted: Vec<String> = Vec::new();
    let mut i: usize = 0;
    proof {
        assert(endpoints@.subrange(0, 0) =~= Seq::<EnhancedEndpoint>::empty());
        assert(views_of(sorted@) =~= sort_lines(
            endpoints@.subrange(0, 0).map_values(line_of),
        )) by {
            assert(endpoints@.subrange(0, 0).map_values(line_of) =~= Seq::<Seq<char>>::empty());
        }
    }
    while i < n
        invariant
            n == endpoints@.len(),
            line_of == (|e: EnhancedEndpoint| capability_line(e.id@, e.name@, e.description@)),
            0 <= i <= n,
            views_of(sorted@) == sort_lines(endpoints@.subrange(0, i as int).map_values(line_of)),
        decreases n - i,
    {
        let line = capability_line_exec(&endpoints[i]);
        proof {
            let pre = endpoints@.subrange(0, i as int).map_values(line_of);
            let pre1 = endpoints@.subrange(0, i + 1 as int).map_values(line_of);
            assert(endpoints@.subrange(0, i + 1 as int).drop_last() =~= endpoints@.subrange(
                0,
                i as int,
            ));
            assert(pre1.drop_last() =~= pre);
            assert(pre1.last() == line_of(endpoints@[i as int]));
            assert(pre1.len() > 0);
            assert(sort_lines(pre1) == insert_sorted(sort_lines(pre), line@));
        }
        insert_line(&mut sorted, line);
        i = i + 1;
    }
    proof {
        assert(endpoints@.subrange(0, n as int) =~= endpoints@);
    }
    let sn = sorted.len();
    let mut deduped: Vec<String> = Vec::new();
    let mut k: usize = 0;
    proof {
        assert(views_of(sorted@).subrange(0, views_of(sorted@).len() as int) =~= views_of(
            sorted@,
        ));
    }
    while k < sn
        invariant
            sn == sorted@.len(),
            0 <= k <= sn,
            views_of(deduped@) + dedup_adjacent(views_of(sorted@).subrange(k as int, sn as int))
                == dedup_adjacent(views_of(sorted@)),
        decreases sn - k,
    {
        let ghost sv = views_of(sorted@);
        let ghost rem = sv.subrange(k as int, sn as int);
        proof {
            assert(rem[0] == sv[k as int]);
            assert(rem.subrange(1, rem.len() as int) =~= sv.subrange(k + 1 as int, sn as int));
            assert(sv[k as int] == sorted@[k as int]@);
            if (k as int) + 1 < sn {
                assert(rem[1] == sv[k + 1]);
                assert(sv[k + 1] == sorted@[k + 1]@);
            }
        }
        if k + 1 < sn && str_eq(sorted[k].as_str(), sorted[k + 1].as_str()) {
            // adjacent duplicate: skip this line
        } else {
            let ghost od = views_of(deduped@);
            let s = string_clone(&sorted[k]);
            deduped.push(s);
            proof {
                assert(views_of(deduped@) =~= od.push(sv[k as int]));
                if (k as int) + 1 < sn {
                    assert(rem.len() >= 2 && rem[0] != rem[1]);
                    assert(dedup_adjacent(rem) == seq![rem[0]] + dedup_adjacent(
                        rem.subrange(1, rem.len() as int),
                    ));
                } else {
                    assert(rem.len() == 1);
                }
                assert(od.push(sv[k as int]) + dedup_adjacent(
                    sv.subrange(k + 1 as int, sn as int),
                ) =~= od + dedup_adjacent(rem));
            }
        }
        proof {
            if k + 1 < sn && sorted@[k as int]@ == sorted@[k + 1]@ {
                assert(dedup_adjacent(rem) == dedup_adjacent(
                    sv.subrange(k + 1 as int, sn as int),
                ));
            }
        }
        k = k + 1;
    }
    proof {
        assert(views_of(sorted@).subrange(sn as int, sn as int) =~= Seq::<Seq<char>>::empty());
        assert(dedup_adjacent(Seq::<Seq<char>>::empty()) =~= Seq::<Seq<char>>::empty());
        assert(views_of(deduped@) + Seq::<Seq<char>>::empty() =~= views_of(deduped@));
    }
    join_with_strings(&deduped, "\n")
}

/// The language codes the help flow accepts from the detector.
pub open spec fn known_language_code(s: Seq<char>) -> bool {
    s == "en"@ || s == "fr"@ || s == "es"@ || s == "de"@ || s == "it"@ || s == "pt"@ || s
        == "nl"@ || s == "ru"@ || s == "ja"@ || s == "zh"@ || s == "ko"@ || s == "ar"@
}

/// Asks the provider for the language of the sentence and validates the
/// answer: whatever comes back, the result is a known two-letter code, with
/// English as the fallback.
pub fn detect_language_with_llm<P: ModelProvider>(
    sentence: &str,
    provider: &P,
    model: &ModelConfig,
) -> (r: Result<String, AnalysisError>)
    ensures
        r matches Ok(code) ==> known_language_code(code@),
        r matches Err(e) ==> e is Provider,
{
    let mut prompt = String::from_str("Detect the language of this user input: \"");
    prompt.append(sentence);
    prompt.append("\"\n\nRespond with ONLY the two-letter language code:\n");
    prompt.append("- en (English)\n- fr (French)\n- es (Spanish)\n- de (German)\n");
    prompt.append("- it (Italian)\n- pt (Portuguese)\n- nl (Dutch)\n- ru (Russian)\n");
    prompt.append("- ja (Japanese)\n- zh (Chinese)\n- ko (Korean)\n- ar (Arabic)\n\n");
    prompt.append("If the language is not in this list or unclear, respond with \"en\".\n");
    prompt.append("Respond with only the two-letter code, nothing else.");
    let result = match provider.generate(prompt.as_str(), model) {
        Ok(g) => g,
        Err(e) => {
            return Err(AnalysisError::Provider(e));
        },
    };
    let trimmed = trim(result.content.as_str());
    let detected = to_lowercase(trimmed.as_str());
    let ds = detected.as_str();
    if str_eq(ds, "en") || str_eq(ds, "fr") || str_eq(ds, "es") || str_eq(ds, "de") || str_eq(
        ds,
        "it",
    ) || str_eq(ds, "pt") || str_eq(ds, "nl") || str_eq(ds, "ru") || str_eq(ds, "ja") || str_eq(
        ds,
        "zh",
    ) || str_eq(ds, "ko") || str_eq(ds, "ar") {
        Ok(detected)
    } else {
        Ok(String::from_str("en"))
    }
}

/// Builds the help answer for a known detected language: English is
/// answered with the capability listing itself, without a further model
/// call; any other language is answered through the language-aware help
/// prompt.
pub fn help_response_for_language<P: ModelProvider>(
    sentence: &str,
    available_endpoints: &Vec<EnhancedEndpoint>,
    detected_language: &str,
    provider: &P,
    prompts: &PromptManager,
    model: &ModelConfig,
) -> (r: Result<GenerationResult, AnalysisError>)
    ensures
        detected_language@ == "en"@ ==> (r matches Ok(g) && g.content@ == capabilities_text(
            available_endpoints@,
        )),
        r matches Err(e) ==> e is Provider,
{
    let listing = create_capabilities_list(available_endpoints);
    if str_eq(detected_language, "en") {
        let usage = provider.estimate_usage(sentence, listing.as_str());
        return Ok(GenerationResult { content: listing, usage });
    }
    let full_prompt = prompts.format_help_response_with_language(
        sentence,
        listing.as_str(),
        detected_language,
        Some("v1"),
    );
    match provider.generate(full_prompt.as_str(), model) {
        Ok(g) => Ok(g),
        Err(e) => Err(AnalysisError::Provider(e)),
    }
}

/// Builds the help answer: detects the sentence's language with the
/// provider, then answers for that language; see
/// `help_response_for_language` for the per-language rule.
pub fn handle_help_request<P: ModelProvider>(
    sentence: &str,
    available_endpoints: &Vec<EnhancedEndpoint>,
    provider: &P,
    prompts: &PromptManager,
    model: &ModelConfig,
) -> (r: Result<GenerationResult, AnalysisError>)
    ensures
        r matches Err(e) ==> e is Provider,
{
    let detected = match detect_language_with_llm(sentence, provider, model) {
        Ok(code) => code,
        Err(e) => {
            return Err(e);
        },
    };
    help_response_for_language(
        sentence,
        available_endpoints,
        detected.as_str(),
        provider,
        prompts,
        model,
    )
}

} // verus!

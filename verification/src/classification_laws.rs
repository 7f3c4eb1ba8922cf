//! What a request is taken to mean, said of the words that stand in it.

use crate::classifier::{
    after_marker, classification, content_terms, corroboration_terms, first_count, fold, fold_all,
    is_outer_punctuation, latest_terms, mail_classification, mail_terms, normalized,
    outer_punctuation, outside_number, plural_mail_terms, quoted_analysis_terms,
    singular_mail_terms, tail_query, target, target_markers, unread_terms, urls_in, web_fact_terms,
    web_scope_terms, word_count_value, word_url, ClassificationModel, IntentModel,
};
use crate::text::{
    collapse, contains, contains_any, digits_value, first_index, has_digit, is_digit, join,
    lowercase, signed_value, strip, trim, unsigned_value, words,
};
use crate::text_laws::stripping_leaves_the_core;
use crate::types::{EvidenceIntent, EvidenceScope};
use crate::weburl::parsed_url;
use vstd::prelude::*;

verus! {

proof fn lemma_mail_terms(s: Seq<char>)
    ensures
        contains_any(s, mail_terms()) <==> contains(s, "mail"@)
            || contains(s, "email"@)
            || contains(s, "e mail"@)
            || contains(s, "inbox"@)
            || contains(s, "posta"@)
            || contains(s, "sprava"@),
{
    let terms = mail_terms();
    assert(terms.len() == 6);
    assert(terms[0] == "mail");
    assert(terms[1] == "email");
    assert(terms[2] == "e mail");
    assert(terms[3] == "inbox");
    assert(terms[4] == "posta");
    assert(terms[5] == "sprava");
    if contains_any(s, terms) {
        let i = choose|i: int| 0 <= i < terms.len() && contains(s, (#[trigger] terms[i])@);
        assert(i == 0 || i == 1 || i == 2 || i == 3 || i == 4 || i == 5);
    }
}

proof fn lemma_web_scope_terms(s: Seq<char>)
    ensures
        contains_any(s, web_scope_terms()) <==> contains(s, "online"@)
            || contains(s, "web"@)
            || contains(s, "internet"@)
            || contains(s, "price"@)
            || contains(s, "weather"@)
            || contains(s, "population"@)
            || contains(s, "compare"@)
            || contains(s, "versus"@)
            || contains(s, "aktual"@)
            || contains(s, "dnes"@)
            || contains(s, "cena"@)
            || contains(s, "pocasie"@)
            || contains(s, "porovnaj"@)
            || contains(s, "medical"@)
            || contains(s, "medication"@)
            || contains(s, "treatment"@)
            || contains(s, "legal"@)
            || contains(s, "law"@)
            || contains(s, "financial"@)
            || contains(s, "investment"@)
            || contains(s, "zdravot"@)
            || contains(s, "liek"@)
            || contains(s, "pravne"@)
            || contains(s, "zakon"@)
            || contains(s, "financ"@)
            || contains(s, "investic"@),
{
    let terms = web_scope_terms();
    assert(terms.len() == 26);
    assert(terms[0] == "online");
    assert(terms[1] == "web");
    assert(terms[2] == "internet");
    assert(terms[3] == "price");
    assert(terms[4] == "weather");
    assert(terms[5] == "population");
    assert(terms[6] == "compare");
    assert(terms[7] == "versus");
    assert(terms[8] == "aktual");
    assert(terms[9] == "dnes");
    assert(terms[10] == "cena");
    assert(terms[11] == "pocasie");
    assert(terms[12] == "porovnaj");
    assert(terms[13] == "medical");
    assert(terms[14] == "medication");
    assert(terms[15] == "treatment");
    assert(terms[16] == "legal");
    assert(terms[17] == "law");
    assert(terms[18] == "financial");
    assert(terms[19] == "investment");
    assert(terms[20] == "zdravot");
    assert(terms[21] == "liek");
    assert(terms[22] == "pravne");
    assert(terms[23] == "zakon");
    assert(terms[24] == "financ");
    assert(terms[25] == "investic");
    if contains_any(s, terms) {
        let i = choose|i: int| 0 <= i < terms.len() && contains(s, (#[trigger] terms[i])@);
        assert(i == 0 || i == 1 || i == 2 || i == 3 || i == 4 || i == 5 || i == 6 || i == 7 || i == 8 || i == 9 || i == 10 || i == 11 || i == 12 || i == 13 || i == 14 || i == 15 || i == 16 || i == 17 || i == 18 || i == 19 || i == 20 || i == 21 || i == 22 || i == 23 || i == 24 || i == 25);
    }
}

proof fn lemma_web_fact_terms(s: Seq<char>)
    ensures
        contains_any(s, web_fact_terms()) <==> contains(s, "current"@)
            || contains(s, "today"@)
            || contains(s, "latest"@)
            || contains(s, "online"@)
            || contains(s, "web"@)
            || contains(s, "internet"@)
            || contains(s, "price"@)
            || contains(s, "weather"@)
            || contains(s, "population"@)
            || contains(s, "compare"@)
            || contains(s, "versus"@)
            || contains(s, "aktual"@)
            || contains(s, "dnes"@)
            || contains(s, "cena"@)
            || contains(s, "pocasie"@)
            || contains(s, "porovnaj"@)
            || contains(s, "medical"@)
            || contains(s, "medication"@)
            || contains(s, "treatment"@)
            || contains(s, "legal"@)
            || contains(s, "law"@)
            || contains(s, "financial"@)
            || contains(s, "investment"@)
            || contains(s, "zdravot"@)
            || contains(s, "liek"@)
            || contains(s, "pravne"@)
            || contains(s, "zakon"@)
            || contains(s, "financ"@)
            || contains(s, "investic"@),
{
    let terms = web_fact_terms();
    assert(terms.len() == 29);
    assert(terms[0] == "current");
    assert(terms[1] == "today");
    assert(terms[2] == "latest");
    assert(terms[3] == "online");
    assert(terms[4] == "web");
    assert(terms[5] == "internet");
    assert(terms[6] == "price");
    assert(terms[7] == "weather");
    assert(terms[8] == "population");
    assert(terms[9] == "compare");
    assert(terms[10] == "versus");
    assert(terms[11] == "aktual");
    assert(terms[12] == "dnes");
    assert(terms[13] == "cena");
    assert(terms[14] == "pocasie");
    assert(terms[15] == "porovnaj");
    assert(terms[16] == "medical");
    assert(terms[17] == "medication");
    assert(terms[18] == "treatment");
    assert(terms[19] == "legal");
    assert(terms[20] == "law");
    assert(terms[21] == "financial");
    assert(terms[22] == "investment");
    assert(terms[23] == "zdravot");
    assert(terms[24] == "liek");
    assert(terms[25] == "pravne");
    assert(terms[26] == "zakon");
    assert(terms[27] == "financ");
    assert(terms[28] == "investic");
    if contains_any(s, terms) {
        let i = choose|i: int| 0 <= i < terms.len() && contains(s, (#[trigger] terms[i])@);
        assert(i == 0 || i == 1 || i == 2 || i == 3 || i == 4 || i == 5 || i == 6 || i == 7 || i == 8 || i == 9 || i == 10 || i == 11 || i == 12 || i == 13 || i == 14 || i == 15 || i == 16 || i == 17 || i == 18 || i == 19 || i == 20 || i == 21 || i == 22 || i == 23 || i == 24 || i == 25 || i == 26 || i == 27 || i == 28);
    }
}

proof fn lemma_corroboration_terms(s: Seq<char>)
    ensures
        contains_any(s, corroboration_terms()) <==> contains(s, "compare"@)
            || contains(s, "versus"@)
            || contains(s, " vs "@)
            || contains(s, "current"@)
            || contains(s, "today"@)
            || contains(s, "latest"@)
            || contains(s, "weather"@)
            || contains(s, "prices"@)
            || contains(s, "price"@)
            || contains(s, "conflict"@)
            || contains(s, "medical"@)
            || contains(s, "medication"@)
            || contains(s, "treatment"@)
            || contains(s, "legal"@)
            || contains(s, "law"@)
            || contains(s, "financial"@)
            || contains(s, "investment"@)
            || contains(s, "consequential"@)
            || contains(s, "porovnaj"@)
            || contains(s, "aktual"@)
            || contains(s, "dnes"@)
            || contains(s, "pocasie"@)
            || contains(s, "ceny"@)
            || contains(s, "pravne"@)
            || contains(s, "financ"@)
            || contains(s, "zdravot"@)
            || contains(s, "liek"@)
            || contains(s, "zakon"@)
            || contains(s, "investic"@),
{
    let terms = corroboration_terms();
    assert(terms.len() == 29);
    assert(terms[0] == "compare");
    assert(terms[1] == "versus");
    assert(terms[2] == " vs ");
    assert(terms[3] == "current");
    assert(terms[4] == "today");
    assert(terms[5] == "latest");
    assert(terms[6] == "weather");
    assert(terms[7] == "prices");
    assert(terms[8] == "price");
    assert(terms[9] == "conflict");
    assert(terms[10] == "medical");
    assert(terms[11] == "medication");
    assert(terms[12] == "treatment");
    assert(terms[13] == "legal");
    assert(terms[14] == "law");
    assert(terms[15] == "financial");
    assert(terms[16] == "investment");
    assert(terms[17] == "consequential");
    assert(terms[18] == "porovnaj");
    assert(terms[19] == "aktual");
    assert(terms[20] == "dnes");
    assert(terms[21] == "pocasie");
    assert(terms[22] == "ceny");
    assert(terms[23] == "pravne");
    assert(terms[24] == "financ");
    assert(terms[25] == "zdravot");
    assert(terms[26] == "liek");
    assert(terms[27] == "zakon");
    assert(terms[28] == "investic");
    if contains_any(s, terms) {
        let i = choose|i: int| 0 <= i < terms.len() && contains(s, (#[trigger] terms[i])@);
        assert(i == 0 || i == 1 || i == 2 || i == 3 || i == 4 || i == 5 || i == 6 || i == 7 || i == 8 || i == 9 || i == 10 || i == 11 || i == 12 || i == 13 || i == 14 || i == 15 || i == 16 || i == 17 || i == 18 || i == 19 || i == 20 || i == 21 || i == 22 || i == 23 || i == 24 || i == 25 || i == 26 || i == 27 || i == 28);
    }
}

proof fn lemma_content_terms(s: Seq<char>)
    ensures
        contains_any(s, content_terms()) <==> contains(s, "read"@)
            || contains(s, "what is in"@)
            || contains(s, "what's in"@)
            || contains(s, "summar"@)
            || contains(s, "precitaj"@)
            || contains(s, "zhrn"@)
            || contains(s, "obsah"@),
{
    let terms = content_terms();
    assert(terms.len() == 7);
    assert(terms[0] == "read");
    assert(terms[1] == "what is in");
    assert(terms[2] == "what's in");
    assert(terms[3] == "summar");
    assert(terms[4] == "precitaj");
    assert(terms[5] == "zhrn");
    assert(terms[6] == "obsah");
    if contains_any(s, terms) {
        let i = choose|i: int| 0 <= i < terms.len() && contains(s, (#[trigger] terms[i])@);
        assert(i == 0 || i == 1 || i == 2 || i == 3 || i == 4 || i == 5 || i == 6);
    }
}

proof fn lemma_latest_terms(s: Seq<char>)
    ensures
        contains_any(s, latest_terms()) <==> contains(s, "latest"@)
            || contains(s, "recent"@)
            || contains(s, "last"@)
            || contains(s, "newest"@)
            || contains(s, "posledn"@)
            || contains(s, "najnov"@)
            || contains(s, "nedavn"@),
{
    let terms = latest_terms();
    assert(terms.len() == 7);
    assert(terms[0] == "latest");
    assert(terms[1] == "recent");
    assert(terms[2] == "last");
    assert(terms[3] == "newest");
    assert(terms[4] == "posledn");
    assert(terms[5] == "najnov");
    assert(terms[6] == "nedavn");
    if contains_any(s, terms) {
        let i = choose|i: int| 0 <= i < terms.len() && contains(s, (#[trigger] terms[i])@);
        assert(i == 0 || i == 1 || i == 2 || i == 3 || i == 4 || i == 5 || i == 6);
    }
}

proof fn lemma_unread_terms(s: Seq<char>)
    ensures
        contains_any(s, unread_terms()) <==> contains(s, "unread"@)
            || contains(s, "neprecitan"@),
{
    let terms = unread_terms();
    assert(terms.len() == 2);
    assert(terms[0] == "unread");
    assert(terms[1] == "neprecitan");
    if contains_any(s, terms) {
        let i = choose|i: int| 0 <= i < terms.len() && contains(s, (#[trigger] terms[i])@);
        assert(i == 0 || i == 1);
    }
}

proof fn lemma_plural_mail_terms(s: Seq<char>)
    ensures
        contains_any(s, plural_mail_terms()) <==> contains(s, "emails"@)
            || contains(s, "mails"@)
            || contains(s, "spravy"@)
            || contains(s, "emaily"@)
            || contains(s, "maily"@),
{
    let terms = plural_mail_terms();
    assert(terms.len() == 5);
    assert(terms[0] == "emails");
    assert(terms[1] == "mails");
    assert(terms[2] == "spravy");
    assert(terms[3] == "emaily");
    assert(terms[4] == "maily");
    if contains_any(s, terms) {
        let i = choose|i: int| 0 <= i < terms.len() && contains(s, (#[trigger] terms[i])@);
        assert(i == 0 || i == 1 || i == 2 || i == 3 || i == 4);
    }
}

proof fn lemma_singular_mail_terms(s: Seq<char>)
    ensures
        contains_any(s, singular_mail_terms()) <==> contains(s, " email"@)
            || contains(s, "mail"@)
            || contains(s, "spravu"@)
            || contains(s, "message"@),
{
    let terms = singular_mail_terms();
    assert(terms.len() == 4);
    assert(terms[0] == " email");
    assert(terms[1] == "mail");
    assert(terms[2] == "spravu");
    assert(terms[3] == "message");
    if contains_any(s, terms) {
        let i = choose|i: int| 0 <= i < terms.len() && contains(s, (#[trigger] terms[i])@);
        assert(i == 0 || i == 1 || i == 2 || i == 3);
    }
}

proof fn lemma_quoted_analysis_terms(s: Seq<char>)
    ensures
        contains_any(s, quoted_analysis_terms()) <==> contains(s, "analyze the instructions"@)
            || contains(s, "analyse the instructions"@)
            || contains(s, "analyze as quoted"@)
            || contains(s, "quote the instructions"@)
            || contains(s, "prompt injection"@)
            || contains(s, "analyzuj instrukcie"@)
            || contains(s, "analyzuj pokyny"@)
            || contains(s, "cituj instrukcie"@)
            || contains(s, "cituj pokyny"@),
{
    let terms = quoted_analysis_terms();
    assert(terms.len() == 9);
    assert(terms[0] == "analyze the instructions");
    assert(terms[1] == "analyse the instructions");
    assert(terms[2] == "analyze as quoted");
    assert(terms[3] == "quote the instructions");
    assert(terms[4] == "prompt injection");
    assert(terms[5] == "analyzuj instrukcie");
    assert(terms[6] == "analyzuj pokyny");
    assert(terms[7] == "cituj instrukcie");
    assert(terms[8] == "cituj pokyny");
    if contains_any(s, terms) {
        let i = choose|i: int| 0 <= i < terms.len() && contains(s, (#[trigger] terms[i])@);
        assert(i == 0 || i == 1 || i == 2 || i == 3 || i == 4 || i == 5 || i == 6 || i == 7 || i == 8);
    }
}

/// The intent of a request that was recognised, without the wrapping of a quoted
/// analysis.
pub open spec fn core_intent(outcome: ClassificationModel) -> Option<IntentModel> {
    match outcome {
        ClassificationModel::Recognized(IntentModel::Quoted { intent }) => Some(*intent),
        ClassificationModel::Recognized(intent) => Some(intent),
        _ => None,
    }
}

/// A request for the newest messages is for unread ones exactly where it says so.
pub proof fn unread_messages_are_asked_for_by_name(request: Seq<char>)
    ensures
        ({
            let plain = normalized(trim(request));
            let says = contains(plain, "unread"@) || contains(plain, "neprecitan"@);
            match core_intent(classification(request)) {
                Some(IntentModel::MailLatestHeaders { unread_only, .. }) => unread_only == says,
                Some(IntentModel::MailLatestContent { unread_only, .. }) => unread_only == says,
                _ => true,
            }
        }),
{
    lemma_unread_terms(normalized(trim(request)));
}

/// What messages say is read exactly where the request asks for it; else their headers
/// are enough.
pub proof fn content_is_read_where_it_is_asked_for(request: Seq<char>)
    ensures
        ({
            let plain = normalized(trim(request));
            let asks_content = {
                ||| contains(plain, "read"@)
                ||| contains(plain, "what is in"@)
                ||| contains(plain, "what's in"@)
                ||| contains(plain, "summar"@)
                ||| contains(plain, "precitaj"@)
                ||| contains(plain, "zhrn"@)
                ||| contains(plain, "obsah"@)
            };
            match core_intent(classification(request)) {
                Some(IntentModel::MailLatestHeaders { .. }) => !asks_content,
                Some(IntentModel::MailLatestContent { .. }) => asks_content,
                Some(IntentModel::MailTargeted { needs_content, .. }) => needs_content
                    == asks_content,
                _ => true,
            }
        }),
{
    lemma_content_terms(normalized(trim(request)));
}

/// A question of fact is corroborated exactly where it asks for what changes or is
/// disputed, and it is searched for as it was written.
pub proof fn disputable_facts_are_corroborated(request: Seq<char>)
    ensures
        ({
            let plain = normalized(trim(request));
            let disputable = {
                ||| contains(plain, "compare"@)
                ||| contains(plain, "versus"@)
                ||| contains(plain, " vs "@)
                ||| contains(plain, "current"@)
                ||| contains(plain, "today"@)
                ||| contains(plain, "latest"@)
                ||| contains(plain, "weather"@)
                ||| contains(plain, "prices"@)
                ||| contains(plain, "price"@)
                ||| contains(plain, "conflict"@)
                ||| contains(plain, "medical"@)
                ||| contains(plain, "medication"@)
                ||| contains(plain, "treatment"@)
                ||| contains(plain, "legal"@)
                ||| contains(plain, "law"@)
                ||| contains(plain, "financial"@)
                ||| contains(plain, "investment"@)
                ||| contains(plain, "consequential"@)
                ||| contains(plain, "porovnaj"@)
                ||| contains(plain, "aktual"@)
                ||| contains(plain, "dnes"@)
                ||| contains(plain, "pocasie"@)
                ||| contains(plain, "ceny"@)
                ||| contains(plain, "pravne"@)
                ||| contains(plain, "financ"@)
                ||| contains(plain, "zdravot"@)
                ||| contains(plain, "liek"@)
                ||| contains(plain, "zakon"@)
                ||| contains(plain, "investic"@)
            };
            core_intent(classification(request)) matches Some(
                IntentModel::WebFact { query, verification },
            ) ==> query == trim(request) && (verification is Corroborated <==> disputable) && (
            verification is SingleAuthoritative <==> !disputable)
        }),
{
    lemma_corroboration_terms(normalized(trim(request)));
}

/// Content is quoted exactly where the request asks to analyse it as data and an
/// intent reads content.
pub proof fn quoted_analysis_is_asked_for(request: Seq<char>)
    ensures
        ({
            let plain = normalized(trim(request));
            let asks_analysis = {
                ||| contains(plain, "analyze the instructions"@)
                ||| contains(plain, "analyse the instructions"@)
                ||| contains(plain, "analyze as quoted"@)
                ||| contains(plain, "quote the instructions"@)
                ||| contains(plain, "prompt injection"@)
                ||| contains(plain, "analyzuj instrukcie"@)
                ||| contains(plain, "analyzuj pokyny"@)
                ||| contains(plain, "cituj instrukcie"@)
                ||| contains(plain, "cituj pokyny"@)
            };
            let outcome = classification(request);
            let quoted = outcome matches ClassificationModel::Recognized(intent)
                && intent is Quoted;
            &&& quoted ==> asks_analysis
            &&& outcome is Recognized && asks_analysis && !quoted ==> {
                let intent = outcome->Recognized_0;
                ||| intent is MailLatestHeaders
                ||| intent is MailTargeted && !intent->needs_content
            }
        }),
{
    lemma_quoted_analysis_terms(normalized(trim(request)));
}

/// Mail is read only where the request names it, and a request that names both mail
/// and the web, or mail and one page, is asked back.
pub proof fn mail_is_read_where_it_is_named(request: Seq<char>)
    ensures
        ({
            let plain = normalized(trim(request));
            let names_mail = {
                ||| contains(plain, "mail"@)
                ||| contains(plain, "email"@)
                ||| contains(plain, "e mail"@)
                ||| contains(plain, "inbox"@)
                ||| contains(plain, "posta"@)
                ||| contains(plain, "sprava"@)
            };
            let names_web = {
                ||| contains(plain, "online"@)
                ||| contains(plain, "web"@)
                ||| contains(plain, "internet"@)
                ||| contains(plain, "price"@)
                ||| contains(plain, "weather"@)
                ||| contains(plain, "population"@)
                ||| contains(plain, "compare"@)
                ||| contains(plain, "versus"@)
                ||| contains(plain, "aktual"@)
                ||| contains(plain, "dnes"@)
                ||| contains(plain, "cena"@)
                ||| contains(plain, "pocasie"@)
                ||| contains(plain, "porovnaj"@)
                ||| contains(plain, "medical"@)
                ||| contains(plain, "medication"@)
                ||| contains(plain, "treatment"@)
                ||| contains(plain, "legal"@)
                ||| contains(plain, "law"@)
                ||| contains(plain, "financial"@)
                ||| contains(plain, "investment"@)
                ||| contains(plain, "zdravot"@)
                ||| contains(plain, "liek"@)
                ||| contains(plain, "pravne"@)
                ||| contains(plain, "zakon"@)
                ||| contains(plain, "financ"@)
                ||| contains(plain, "investic"@)
            };
            let pages = urls_in(words(trim(request)));
            let outcome = classification(request);
            &&& (core_intent(outcome) matches Some(intent) && (intent is MailLatestHeaders
                || intent is MailLatestContent || intent is MailTargeted)) ==> names_mail
                && !names_web && pages.len() == 0
            &&& trim(request).len() > 0 && names_mail && (names_web || pages.len() == 1)
                ==> (outcome matches ClassificationModel::NeedsClarification {
                prompt,
                alternatives,
            } && prompt == "Should I inspect Mail or research the web first?"@ && alternatives
                == seq![
                ("Inspect Mail"@, EvidenceScope::MailContent),
                ("Research the web"@, EvidenceScope::Web),
            ])
            &&& (core_intent(outcome) matches Some(intent) && (intent is WebFact
                || intent is WebDirectPage)) ==> !names_mail
        }),
{
    lemma_mail_terms(normalized(trim(request)));
    lemma_web_scope_terms(normalized(trim(request)));
}

/// A request without mail and without a page is a question of fact exactly where it
/// holds one of these words; one without any of them is left to conversation.
pub proof fn facts_are_asked_for_by_these_words(request: Seq<char>)
    requires
        trim(request).len() > 0,
        !contains_any(normalized(trim(request)), mail_terms()),
        urls_in(words(trim(request))).len() == 0,
    ensures
        ({
            let plain = normalized(trim(request));
            let asks_fact = {
                ||| contains(plain, "current"@)
                ||| contains(plain, "today"@)
                ||| contains(plain, "latest"@)
                ||| contains(plain, "online"@)
                ||| contains(plain, "web"@)
                ||| contains(plain, "internet"@)
                ||| contains(plain, "price"@)
                ||| contains(plain, "weather"@)
                ||| contains(plain, "population"@)
                ||| contains(plain, "compare"@)
                ||| contains(plain, "versus"@)
                ||| contains(plain, "aktual"@)
                ||| contains(plain, "dnes"@)
                ||| contains(plain, "cena"@)
                ||| contains(plain, "pocasie"@)
                ||| contains(plain, "porovnaj"@)
                ||| contains(plain, "medical"@)
                ||| contains(plain, "medication"@)
                ||| contains(plain, "treatment"@)
                ||| contains(plain, "legal"@)
                ||| contains(plain, "law"@)
                ||| contains(plain, "financial"@)
                ||| contains(plain, "investment"@)
                ||| contains(plain, "zdravot"@)
                ||| contains(plain, "liek"@)
                ||| contains(plain, "pravne"@)
                ||| contains(plain, "zakon"@)
                ||| contains(plain, "financ"@)
                ||| contains(plain, "investic"@)
            };
            let outcome = classification(request);
            &&& asks_fact <==> (core_intent(outcome) matches Some(intent) && intent is WebFact)
            &&& !asks_fact <==> outcome is NotEvidenceIntent
        }),
{
    lemma_web_fact_terms(normalized(trim(request)));
}

/// A request that names one page and no mail is for that page; one that names several
/// is asked back; an empty one means nothing.
pub proof fn pages_are_asked_for_by_address(request: Seq<char>)
    ensures
        ({
            let plain = normalized(trim(request));
            let pages = urls_in(words(trim(request)));
            let outcome = classification(request);
            &&& trim(request).len() == 0 ==> outcome is NotEvidenceIntent
            &&& core_intent(outcome) matches Some(IntentModel::WebDirectPage { url }) ==> pages
                == seq![url]
            &&& trim(request).len() > 0 && pages.len() == 1 && !contains_any(plain, mail_terms())
                ==> core_intent(outcome) == Some(IntentModel::WebDirectPage { url: pages[0] })
            &&& trim(request).len() > 0 && pages.len() > 1 && !contains_any(plain, mail_terms())
                ==> (outcome matches ClassificationModel::NeedsClarification {
                prompt,
                alternatives,
            } && prompt == "Which web page should I inspect first?"@ && alternatives == seq![
                ("Inspect the first page"@, EvidenceScope::Web),
                ("Inspect the second page"@, EvidenceScope::Web),
            ])
        }),
{
    let pages = urls_in(words(trim(request)));
    if pages.len() == 1 {
        assert(pages =~= seq![pages[0]]);
    }
}

/// How many messages a request for the newest ones is for: the number that it states,
/// of which at most ten are inspected and at most 255 counted; without a number one
/// where it speaks of one message, and else three. A number that is not positive is
/// asked back.
pub proof fn messages_are_counted_as_stated(request: Seq<char>)
    ensures
        ({
            let plain = normalized(trim(request));
            let plural = {
                ||| contains(plain, "emails"@)
                ||| contains(plain, "mails"@)
                ||| contains(plain, "spravy"@)
                ||| contains(plain, "emaily"@)
                ||| contains(plain, "maily"@)
            };
            let one = {
                ||| contains(plain, " email"@)
                ||| contains(plain, "mail"@)
                ||| contains(plain, "spravu"@)
                ||| contains(plain, "message"@)
            };
            let stated = first_count(words(trim(request)));
            let outcome = classification(request);
            match core_intent(outcome) {
                Some(IntentModel::MailLatestHeaders { count, .. }) => {
                    &&& stated matches Some(v) ==> v > 0 && count == if v <= 10 {
                        v as int
                    } else {
                        10
                    }
                    &&& stated is None ==> count == if one && !plural {
                        1int
                    } else {
                        3int
                    }
                },
                Some(IntentModel::MailLatestContent { count, requested_count, .. }) => {
                    &&& stated matches Some(v) ==> v > 0 && count == if v <= 10 {
                        v as int
                    } else {
                        10
                    }
                    &&& stated matches Some(v) ==> requested_count == if v <= 255 {
                        v as int
                    } else {
                        255
                    }
                    &&& stated is None ==> count == requested_count && count == if one && !plural {
                        1int
                    } else {
                        3int
                    }
                },
                _ => true,
            }
        }),
{
    lemma_plural_mail_terms(normalized(trim(request)));
    lemma_singular_mail_terms(normalized(trim(request)));
}

/// A request that names mail and nothing to look for is for the newest messages where
/// it says so, and else left to conversation; a number that is not positive is asked
/// back.
pub proof fn newest_messages_are_asked_for_by_name(original: Seq<char>, plain: Seq<char>)
    requires
        target(original, plain, target_markers()) is None,
    ensures
        ({
            let newest = {
                ||| contains(plain, "latest"@)
                ||| contains(plain, "recent"@)
                ||| contains(plain, "last"@)
                ||| contains(plain, "newest"@)
                ||| contains(plain, "posledn"@)
                ||| contains(plain, "najnov"@)
                ||| contains(plain, "nedavn"@)
            };
            let outcome = mail_classification(original, plain);
            let stated = first_count(words(original));
            &&& !newest <==> outcome is NotEvidenceIntent
            &&& newest && (stated matches Some(v) && v <= 0) ==> (outcome matches
                ClassificationModel::NeedsClarification { prompt, alternatives } && prompt
                == "How many emails should I inspect? Please choose a positive number."@
                && alternatives == seq![
                ("One email"@, EvidenceScope::MailContent),
                ("Three emails"@, EvidenceScope::MailContent),
            ])
            &&& newest && (stated matches Some(v) ==> v > 0) ==> (core_intent(outcome) matches Some(
                intent,
            ) && (intent is MailLatestHeaders || intent is MailLatestContent))
        }),
{
    lemma_latest_terms(plain);
}

/// The last `n` words of a text, or all of them, in lower case and without the
/// punctuation around them.
pub open spec fn last_words(original: Seq<char>, n: int) -> Seq<char> {
    let all = words(original);
    lowercase(
        strip(
            join(
                if n < all.len() {
                    all.subrange(all.len() - n, all.len() as int)
                } else {
                    all
                },
                " "@,
            ),
            |c: char|
                c == '.' || c == ',' || c == ';' || c == ':' || c == '!' || c == '?' || c == '('
                    || c == ')' || c == '[' || c == ']' || c == '{' || c == '}' || c == '<' || c
                    == '>' || c == '"' || c == '\'',
        ),
    )
}

proof fn lemma_last_words(original: Seq<char>, n: int)
    requires
        0 <= n,
    ensures
        tail_query(original, n) == last_words(original, n),
{
    let marks = |c: char|
        c == '.' || c == ',' || c == ';' || c == ':' || c == '!' || c == '?' || c == '(' || c == ')'
            || c == '[' || c == ']' || c == '{' || c == '}' || c == '<' || c == '>' || c == '"' || c
            == '\'';
    assert forall|c: char| #[trigger] outer_punctuation()(c) == marks(c) by {
        assert(is_outer_punctuation(c) == marks(c));
    }
    assert(outer_punctuation() =~= marks);
    let all = words(original);
    if n < all.len() {
        assert(all.skip(all.len() - n) =~= all.subrange(all.len() - n, all.len() as int));
    }
}

/// What a request looks for is what stands behind the first of these words that it
/// holds, in the words of the request; with none of them it looks for nothing.
#[verifier::rlimit(40)]
pub proof fn targets_stand_behind_these_words(original: Seq<char>, plain: Seq<char>)
    ensures
        !contains(plain, " from "@) && !contains(plain, " od "@) && !contains(plain, " subject "@) && !contains(plain, " predmet "@) && !contains(plain, " conversation "@) && !contains(plain, " vlakno "@) ==> target(original, plain, target_markers()) is None,
        contains(plain, " from "@) ==> ({
            let rest = trim(plain.skip(first_index(plain, " from "@) + " from "@.len()));
            let said = last_words(original, words(rest).len() as int);
            &&& rest.len() == 0 ==> target(original, plain, target_markers()) is None
            &&& rest.len() > 0 && said.len() > 0 ==> target(original, plain, target_markers())
                == Some(said)
        }),
        contains(plain, " od "@) && !contains(plain, " from "@) ==> ({
            let rest = trim(plain.skip(first_index(plain, " od "@) + " od "@.len()));
            let said = last_words(original, words(rest).len() as int);
            &&& rest.len() == 0 ==> target(original, plain, target_markers()) is None
            &&& rest.len() > 0 && said.len() > 0 ==> target(original, plain, target_markers())
                == Some(said)
        }),
        contains(plain, " subject "@) && !contains(plain, " from "@) && !contains(plain, " od "@) ==> ({
            let rest = trim(plain.skip(first_index(plain, " subject "@) + " subject "@.len()));
            let said = last_words(original, words(rest).len() as int);
            &&& rest.len() == 0 ==> target(original, plain, target_markers()) is None
            &&& rest.len() > 0 && said.len() > 0 ==> target(original, plain, target_markers())
                == Some(said)
        }),
        contains(plain, " predmet "@) && !contains(plain, " from "@) && !contains(plain, " od "@) && !contains(plain, " subject "@) ==> ({
            let rest = trim(plain.skip(first_index(plain, " predmet "@) + " predmet "@.len()));
            let said = last_words(original, words(rest).len() as int);
            &&& rest.len() == 0 ==> target(original, plain, target_markers()) is None
            &&& rest.len() > 0 && said.len() > 0 ==> target(original, plain, target_markers())
                == Some(said)
        }),
        contains(plain, " conversation "@) && !contains(plain, " from "@) && !contains(plain, " od "@) && !contains(plain, " subject "@) && !contains(plain, " predmet "@) ==> ({
            let rest = trim(plain.skip(first_index(plain, " conversation "@) + " conversation "@.len()));
            let said = last_words(original, words(rest).len() as int);
            &&& rest.len() == 0 ==> target(original, plain, target_markers()) is None
            &&& rest.len() > 0 && said.len() > 0 ==> target(original, plain, target_markers())
                == Some(said)
        }),
        contains(plain, " vlakno "@) && !contains(plain, " from "@) && !contains(plain, " od "@) && !contains(plain, " subject "@) && !contains(plain, " predmet "@) && !contains(plain, " conversation "@) ==> ({
            let rest = trim(plain.skip(first_index(plain, " vlakno "@) + " vlakno "@.len()));
            let said = last_words(original, words(rest).len() as int);
            &&& rest.len() == 0 ==> target(original, plain, target_markers()) is None
            &&& rest.len() > 0 && said.len() > 0 ==> target(original, plain, target_markers())
                == Some(said)
        }),
{
    let markers = target_markers();
    assert(markers[0] == " from ");
    assert(markers[1] == " od ");
    assert(markers[2] == " subject ");
    assert(markers[3] == " predmet ");
    assert(markers[4] == " conversation ");
    assert(markers[5] == " vlakno ");
    let rest0 = markers.skip(0);
    assert(rest0[0] == markers[0]);
    assert(rest0.drop_first() =~= markers.skip(1));
    lemma_last_words(original, words(after_marker(plain, markers[0]@)).len() as int);
    let rest1 = markers.skip(1);
    assert(rest1[0] == markers[1]);
    assert(rest1.drop_first() =~= markers.skip(2));
    lemma_last_words(original, words(after_marker(plain, markers[1]@)).len() as int);
    let rest2 = markers.skip(2);
    assert(rest2[0] == markers[2]);
    assert(rest2.drop_first() =~= markers.skip(3));
    lemma_last_words(original, words(after_marker(plain, markers[2]@)).len() as int);
    let rest3 = markers.skip(3);
    assert(rest3[0] == markers[3]);
    assert(rest3.drop_first() =~= markers.skip(4));
    lemma_last_words(original, words(after_marker(plain, markers[3]@)).len() as int);
    let rest4 = markers.skip(4);
    assert(rest4[0] == markers[4]);
    assert(rest4.drop_first() =~= markers.skip(5));
    lemma_last_words(original, words(after_marker(plain, markers[4]@)).len() as int);
    let rest5 = markers.skip(5);
    assert(rest5[0] == markers[5]);
    assert(rest5.drop_first() =~= markers.skip(6));
    lemma_last_words(original, words(after_marker(plain, markers[5]@)).len() as int);
    assert(markers.skip(0) =~= markers);
    assert(markers.skip(6) =~= Seq::empty());
    assert(!contains(plain, markers[5]@) ==> target(original, plain, rest5) == target(
        original,
        plain,
        markers.skip(6),
    ));
    assert(!contains(plain, markers[4]@) ==> target(original, plain, rest4) == target(
        original,
        plain,
        markers.skip(5),
    ));
    assert(!contains(plain, markers[3]@) ==> target(original, plain, rest3) == target(
        original,
        plain,
        markers.skip(4),
    ));
    assert(!contains(plain, markers[2]@) ==> target(original, plain, rest2) == target(
        original,
        plain,
        markers.skip(3),
    ));
    assert(!contains(plain, markers[1]@) ==> target(original, plain, rest1) == target(
        original,
        plain,
        markers.skip(2),
    ));
    assert(!contains(plain, markers[0]@) ==> target(original, plain, rest0) == target(
        original,
        plain,
        markers.skip(1),
    ));
}

/// The addresses of a text come in the order of its words, and each is a word that,
/// without the punctuation around it, is a web address.
pub proof fn addresses_come_in_the_order_of_the_words(
    parts: Seq<Seq<char>>,
    word: Seq<char>,
)
    ensures
        word_url(word) matches Some(url) ==> {
            &&& urls_in(parts.push(word)) == urls_in(parts).push(url)
            &&& parsed_url(strip(word, outer_punctuation())) == Some(url)
            &&& url.scheme@ == "http"@ || url.scheme@ == "https"@
        },
        word_url(word) is None ==> {
            &&& urls_in(parts.push(word)) == urls_in(parts)
            &&& parsed_url(strip(word, outer_punctuation())) matches Some(url) ==> url.scheme@
                != "http"@ && url.scheme@ != "https"@
        },
        urls_in(Seq::empty()).len() == 0,
{
    assert(parts.push(word).drop_last() =~= parts);
}

/// A number is a word of digits, whatever stands around them; the first of a text
/// counts.
pub proof fn the_first_number_counts(
    before: Seq<Seq<char>>,
    pre: Seq<char>,
    digits: Seq<char>,
    post: Seq<char>,
    behind: Seq<Seq<char>>,
)
    requires
        digits.len() > 0,
        forall|i: int| 0 <= i < digits.len() ==> 48 <= #[trigger] digits[i] as u32 <= 57,
        digits_value(digits) <= 32767,
        forall|i: int|
            0 <= i < pre.len() ==> !(48 <= #[trigger] pre[i] as u32 <= 57) && pre[i] != '-'
                && pre[i] != '+',
        forall|i: int|
            0 <= i < post.len() ==> !(48 <= #[trigger] post[i] as u32 <= 57) && post[i] != '-'
                && post[i] != '+',
        forall|i: int| 0 <= i < before.len() ==> !has_digit(#[trigger] before[i]),
    ensures
        first_count(before + seq![pre + digits + post] + behind) == Some(
            digits_value(digits) as i16,
        ),
        first_count(before) is None,
    decreases before.len(),
{
    let word = pre + digits + post;
    let all = before + seq![word] + behind;
    let class = outside_number();
    assert(is_digit(digits[0]));
    assert(is_digit(digits[digits.len() - 1]));
    if before.len() == 0 {
        stripping_leaves_the_core(pre, digits, post, class);
        assert(all[0] == word);
        assert(has_digit(digits));
        assert(digits[0] != '-' && digits[0] != '+');
        assert(unsigned_value(digits) == Some(digits_value(digits)));
        assert(signed_value(digits) == Some(digits_value(digits) as int));
    } else {
        let rest = before.drop_first();
        assert forall|i: int| 0 <= i < rest.len() implies !has_digit(#[trigger] rest[i]) by {
            assert(rest[i] == before[i + 1]);
        }
        the_first_number_counts(rest, pre, digits, post, behind);
        assert(all.drop_first() =~= rest + seq![word] + behind);
        lemma_no_digit_no_number(before[0]);
        assert(all[0] == before[0]);
    }
}

proof fn lemma_no_digit_no_number(word: Seq<char>)
    requires
        !has_digit(word),
    ensures
        word_count_value(word) is None,
{
    let core = strip(word, outside_number());
    crate::text_laws::stripped_texts_are_stretches(word, outside_number());
    if has_digit(core) {
        let k = choose|k: int| 0 <= k < core.len() && is_digit(#[trigger] core[k]);
        let i = choose|i: int|
            0 <= i && i + core.len() <= word.len() && core == #[trigger] word.subrange(
                i,
                i + core.len(),
            );
        assert(word[i + k] == core[k]);
    }
}

/// A letter of the Slovak alphabet is read without its mark, a hyphen and an
/// underscore are read as a space, and everything else as it is.
pub proof fn letters_are_read_without_marks(c: char)
    ensures
        c == 'á' || c == 'ä' ==> fold(c) == 'a',
        c == 'č' ==> fold(c) == 'c',
        c == 'ď' ==> fold(c) == 'd',
        c == 'é' ==> fold(c) == 'e',
        c == 'í' ==> fold(c) == 'i',
        c == 'ľ' || c == 'ĺ' ==> fold(c) == 'l',
        c == 'ň' ==> fold(c) == 'n',
        c == 'ó' || c == 'ô' ==> fold(c) == 'o',
        c == 'ŕ' ==> fold(c) == 'r',
        c == 'š' ==> fold(c) == 's',
        c == 'ť' ==> fold(c) == 't',
        c == 'ú' ==> fold(c) == 'u',
        c == 'ý' ==> fold(c) == 'y',
        c == 'ž' ==> fold(c) == 'z',
        c == '-' || c == '_' ==> fold(c) == ' ',
        (c as u32) < 128 && c != '-' && c != '_' ==> fold(c) == c,
{
}

/// An intent and its model agree field by field.
pub proof fn models_agree_with_their_intents(intent: EvidenceIntent)
    ensures
        intent matches EvidenceIntent::MailLatestHeaders { count, unread_only } ==> intent@ == (
        IntentModel::MailLatestHeaders { count, unread_only }),
        intent matches EvidenceIntent::MailLatestContent { count, requested_count, unread_only }
            ==> intent@ == (IntentModel::MailLatestContent {
            count,
            requested_count,
            unread_only,
        }),
        intent matches EvidenceIntent::MailTargeted { query, needs_content } ==> intent@ == (
        IntentModel::MailTargeted { query: query@, needs_content }),
        intent matches EvidenceIntent::WebDirectPage { url } ==> intent@ == (
        IntentModel::WebDirectPage { url }),
        intent matches EvidenceIntent::WebFact { query, verification } ==> intent@ == (
        IntentModel::WebFact { query: query@, verification }),
        intent matches EvidenceIntent::AnalyzeQuotedEvidence { intent: inner } ==> intent@ == (
        IntentModel::Quoted { intent: Box::new(inner@) }),
{
}

/// A request is read in lower case, letter by letter without marks, and with one space
/// between its words.
pub proof fn requests_are_read_letter_by_letter(value: Seq<char>)
    ensures
        fold_all(value).len() == value.len(),
        forall|i: int| 0 <= i < value.len() ==> #[trigger] fold_all(value)[i] == fold(value[i]),
        normalized(value) == collapse(
            Seq::new(lowercase(value).len(), |i: int| fold(lowercase(value)[i])),
        ),
{
    assert(fold_all(lowercase(value)) =~= Seq::new(
        lowercase(value).len(),
        |i: int| fold(lowercase(value)[i]),
    ));
}

} // verus!

use bagent_evidence::address::{is_prohibited_ip, v4_literal_of, IpAddress};
use bagent_evidence::bytes::{byte_length, byte_prefix_of, floor_boundary};
use bagent_evidence::classifier::{
    explicit_count, has_any, is_singular_mail, is_web_fact, needs_corroboration, normalize,
    targeted_query,
};
use bagent_evidence::conflicts::{contains_negation, scalar_claim_tokens};
use bagent_evidence::fetch::{
    append_bounded, failure_of_status, normalize_network_error, supported_content_type,
    WebNetworkError, MAX_BODY_BYTES,
};
use bagent_evidence::html::{
    body_text, escape_untrusted_text, html_to_text, normalize_ddg_href, parse_ddg_lite,
    percent_decode,
};
use bagent_evidence::identity::{
    candidate_id_for_url_text, passage_id_for_url, short_hash, source_identity_for,
};
use bagent_evidence::numeric::{
    contains_year_or_explicit_date, extract_single_year, labelled_value_claim,
    normalize_numeric_claim, numeric_tokens, single_non_year_number,
};
use bagent_evidence::order::{order_of, sort_set};
use bagent_evidence::passages::{
    normalize_visible_text, normalized_dedup_text, split_long_block,
    text_is_cookie_or_menu_boilerplate, MAX_PASSAGE_CHARS,
};
use bagent_evidence::ranking::{candidate_freshness_score, direct_web_candidate};
use bagent_evidence::relevance::normalized_ranking_terms;
use bagent_evidence::text::{parse_unsigned, sha256_str};
use bagent_evidence::types::{normalize_key_part, FailureCode, ProviderSet, WebProvider};
use bagent_evidence::weburl::{normalize_url, normalized_url_string, WebUrl};

fn chars(text: &str) -> Vec<char> {
    text.chars().collect()
}

fn url(text: &str) -> WebUrl {
    WebUrl::parse(text).unwrap()
}

#[test]
fn digests_are_those_of_sha_256() {
    assert_eq!(
        sha256_str("abc"),
        "ba7816bf8f01cfea414140de5dae2223b00361a396177a9cb410ff61f20015ad"
    );
    assert_eq!(short_hash("abc"), "ba7816bf8f01cfea");
    assert_eq!(
        candidate_id_for_url_text("abc").as_str(),
        candidate_id_for_url_text("abc").as_str()
    );
    assert_ne!(
        passage_id_for_url(&url("https://a.example/"), 1).as_str(),
        passage_id_for_url(&url("https://a.example/"), 2).as_str()
    );
}

#[test]
fn markup_is_reduced_to_its_text() {
    assert_eq!(
        html_to_text("a<b>bold</b> &lt;x&gt; &amp;amp; <script>no()</script><p>end</p>"),
        "a bold <x> &amp; end"
    );
    assert_eq!(html_to_text("<style>p{}</style ><i>tail"), "tail");
    assert_eq!(html_to_text("open <b"), "open");
    assert_eq!(body_text(&b"caf\xc3\xa9 \xff".to_vec()), "café \u{fffd}");
    assert_eq!(escape_untrusted_text("<a> & b"), "&lt;a&gt; &amp; b");
}

#[test]
fn encoded_addresses_are_decoded() {
    assert_eq!(percent_decode("a%20b+c%zz%4"), "a b c%zz%4");
    assert_eq!(percent_decode("%+5x"), "\u{5}x");
    assert_eq!(percent_decode("%C3%A9"), "é");
    assert_eq!(
        normalize_ddg_href("//duckduckgo.com/l/?uddg=https%3A%2F%2Fa.example%2F&rut=1"),
        "https://a.example/"
    );
    assert_eq!(normalize_ddg_href("//a.example/x"), "https://a.example/x");
    assert_eq!(normalize_ddg_href("https://a.example"), "https://a.example");
}

#[test]
fn result_pages_are_read_by_their_links() {
    let page = r#"<a rel="nofollow" href="//duckduckgo.com/l/?uddg=https%3A%2F%2Fa.example%2F" class='result-link'>One &amp; only</a>
        <td class='result-snippet'>A snippet</td>"#;
    assert_eq!(
        parse_ddg_lite(page, 6),
        vec![(
            "One & only".to_string(),
            "https://a.example/".to_string(),
            "A snippet".to_string()
        )]
    );
    assert!(parse_ddg_lite(page, 0).is_empty());
}

#[test]
fn figures_and_years_are_told_apart() {
    assert_eq!(
        numeric_tokens("In 2024, about (5,432,100) people: 12.5%!"),
        ["2024,", "5,432,100", "12.5%"]
    );
    assert_eq!(
        single_non_year_number("5,432 in 2021").as_deref(),
        Some("5,432")
    );
    assert_eq!(single_non_year_number("1 and 2"), None);
    assert_eq!(extract_single_year("01,999").as_deref(), Some("1999"));
    assert_eq!(extract_single_year("1999 and 2001"), None);
    assert_eq!(extract_single_year("in ,+2024 or so").as_deref(), Some("2024"));
    assert_eq!(extract_single_year("in ,-2024 or so"), None);
    assert!(contains_year_or_explicit_date("01/02/03"));
    assert!(!contains_year_or_explicit_date("12345"));
    assert_eq!(normalize_numeric_claim("0,012.3400"), "12.34");
    assert_eq!(normalize_numeric_claim("000"), "0");
    assert_eq!(normalize_numeric_claim("1.000"), "1");
    assert_eq!(
        labelled_value_claim("Bratislava", "Population (census)", "475,503 (2021)").as_deref(),
        Some("Bratislava Population (census) was 475,503 in 2021.")
    );
    assert_eq!(
        labelled_value_claim("Bratislava", "Population", "475,503 (2021)"),
        None
    );
}

#[test]
fn passages_are_split_at_words() {
    assert_eq!(normalize_visible_text("  a \n b\t"), "a b");
    assert_eq!(normalized_dedup_text("Ahoj, SVET-1!"), "ahoj svet 1");
    assert_eq!(split_long_block("short"), ["short"]);
    let long = format!("{} {}", "a".repeat(1_199), "b".repeat(10));
    assert_eq!(
        split_long_block(&long),
        ["a".repeat(1_199), "b".repeat(10)]
    );
    let word = "c".repeat(MAX_PASSAGE_CHARS + 1);
    assert_eq!(
        split_long_block(&word),
        ["c".repeat(MAX_PASSAGE_CHARS), "c".to_string()]
    );
    assert!(text_is_cookie_or_menu_boilerplate("We use cookies."));
    assert!(text_is_cookie_or_menu_boilerplate("Home Products Careers"));
    assert!(!text_is_cookie_or_menu_boilerplate("Home. Products. Careers."));
}

#[test]
fn requests_are_normalized_before_they_are_read() {
    assert_eq!(normalize(" Prečítaj  E-MAIL "), "precitaj e mail");
    assert_eq!(explicit_count("last +5 mails"), Some(5));
    assert_eq!(explicit_count("(-3)"), Some(-3));
    assert_eq!(explicit_count("5-3 then 7"), Some(7));
    assert_eq!(explicit_count("99999"), None);
    assert!(is_singular_mail("read my email"));
    assert!(!is_singular_mail("read my emails"));
    assert!(has_any("abc", &["x", "b"]));
    assert!(!has_any("abc", &[]));
    assert!(needs_corroboration("compare a and b"));
    assert!(!is_web_fact("hello there"));
    assert_eq!(
        targeted_query("Find mail from Jana Nová.", "find mail from jana nova.").as_deref(),
        Some("jana nová")
    );
    assert_eq!(targeted_query("Find mail", "find mail"), None);
}

#[test]
fn normalized_requests_are_plain_and_stay() {
    for request in ["  Prečítaj  MÔJ posledný E-mail ", "ľĹšŤ_žÝ", "READ\tmy\u{a0}mail", ""] {
        let once = normalize(request);
        assert_eq!(normalize(&once), once);
        assert!(!once.contains("  ") && once.trim() == once);
        assert!(!once.chars().any(|c| c.is_ascii_uppercase() || "áäčďéíľĺňóôŕšťúýž-_".contains(c)));
    }
    assert_eq!(
        normalize("  Prečítaj  MÔJ posledný E-mail "),
        "precitaj moj posledny e mail"
    );
    assert_eq!(normalize("read\tMY mail"), normalize(" READ my  Mail"));
}

#[test]
fn queries_have_one_form_in_a_key() {
    assert_eq!(normalize_key_part("  Ahoj \t SVET "), "ahoj svet");
    assert_eq!(normalize_key_part("ahoj svet"), "ahoj svet");
    assert_eq!(normalize_key_part("\n"), "");
    assert_eq!(
        normalize_key_part("Who is\u{2003}it"),
        normalize_key_part(" who IS it ")
    );
}

#[test]
fn providers_have_one_key_in_any_order() {
    let key = |providers: Vec<WebProvider>| ProviderSet(providers).key_part();
    assert_eq!(
        key(vec![
            WebProvider::Wikipedia,
            WebProvider::DuckDuckGo,
            WebProvider::Wikipedia
        ]),
        "duckduckgo+wikipedia"
    );
    assert_eq!(
        key(vec![WebProvider::DuckDuckGo, WebProvider::Wikipedia]),
        "duckduckgo+wikipedia"
    );
    assert_eq!(key(vec![WebProvider::Tavily, WebProvider::Direct]), "direct+tavily");
    assert_ne!(key(vec![WebProvider::Tavily]), key(vec![WebProvider::Wikipedia]));
    assert_eq!(key(vec![]), "");
}

#[test]
fn terms_do_not_depend_on_how_a_question_is_put() {
    assert_eq!(normalized_ranking_terms("Slovakia"), ["slovak"]);
    assert_eq!(normalized_ranking_terms("Slovak"), ["slovak"]);
    assert_eq!(normalized_ranking_terms("presidential"), ["president"]);
    assert_eq!(normalized_ranking_terms("President"), ["president"]);
    assert_eq!(
        normalized_ranking_terms("zebra ANT ant-zebra, it"),
        normalized_ranking_terms("ant ZEBRA")
    );
    assert_eq!(normalized_ranking_terms("zebra ant žx9"), ["ant", "zebra"]);
}

#[test]
fn numerals_of_one_number_have_one_form() {
    for numeral in ["475,503", "475503.0", "0475503."] {
        assert_eq!(normalize_numeric_claim(numeral), "475503");
    }
    assert_eq!(normalize_numeric_claim("007.500"), "7.5");
    assert_eq!(normalize_numeric_claim("0.0"), "0");
    assert_eq!(normalize_numeric_claim("7.5"), "7.5");
    assert_eq!(normalize_numeric_claim("1.20.30"), "1.20.3");
}

#[test]
fn texts_that_say_the_same_have_one_key() {
    assert_eq!(normalized_dedup_text("--A b;C!"), "a b c");
    assert_eq!(normalized_dedup_text("a b c"), "a b c");
    assert_eq!(normalized_dedup_text("A...B\n(c)"), "a b c");
    assert_eq!(normalized_dedup_text("?!"), "");
    assert_ne!(normalized_dedup_text("ab c"), normalized_dedup_text("a bc"));
}

#[test]
fn questions_are_ranked_by_their_terms() {
    assert_eq!(
        normalized_ranking_terms("Who is the presidential candidate of Slovakia? Rates, rates!"),
        ["candidate", "president", "rate", "slovak"]
    );
    let mut dated = direct_web_candidate(&url("https://a.example/2019/report-20211"));
    dated.title = "Report 2023".to_string();
    assert_eq!(candidate_freshness_score(&dated), 2023);
    dated.title = "Report".to_string();
    assert_eq!(candidate_freshness_score(&dated), 2019);
}

#[test]
fn claims_are_compared_by_figures_and_negations() {
    assert_eq!(scalar_claim_tokens("it cost $42 (or 5%) x"), ["$42", "5%"]);
    assert_eq!(scalar_claim_tokens("7% then 42 and (7%) or 42"), ["42", "7%"]);
    assert!(scalar_claim_tokens("no figures").is_empty());
    assert!(contains_negation("it is not so"));
    assert!(!contains_negation("it is noted"));
}

#[test]
fn addresses_have_one_canonical_form() {
    let messy = url("https://A.example:443/p?utm_source=x&b=2&a=1&GCLID=3#part");
    assert_eq!(
        normalize_url(&messy).unwrap().text,
        "https://a.example/p?a=1&b=2"
    );
    assert_eq!(
        normalized_url_string(&url("ftp://a.example/x#y")),
        "ftp://a.example/x#y"
    );
    assert_eq!(
        source_identity_for(&url("https://www.news.bbc.co.uk/x")).as_str(),
        "bbc.co.uk"
    );
    assert_eq!(
        source_identity_for(&url("https://en.wikipedia.org/")).as_str(),
        "wikipedia.org"
    );
    assert_eq!(
        url("https://a.example/x/").join("../y").unwrap().text,
        "https://a.example/y"
    );
}

#[test]
fn local_addresses_are_refused() {
    for prohibited in [
        IpAddress::V4(127, 0, 0, 1),
        IpAddress::V4(10, 1, 2, 3),
        IpAddress::V4(192, 168, 0, 1),
        IpAddress::V4(169, 254, 0, 1),
        IpAddress::V6(0, 0, 0, 0, 0, 0, 0, 1),
        IpAddress::V6(0xfe80, 0, 0, 0, 0, 0, 0, 1),
    ] {
        assert!(is_prohibited_ip(prohibited), "{prohibited:?}");
    }
    assert!(!is_prohibited_ip(IpAddress::V4(8, 8, 8, 8)));
    assert_eq!(
        v4_literal_of(&chars("1.2.3.4")),
        Some(IpAddress::V4(1, 2, 3, 4))
    );
    assert_eq!(v4_literal_of(&chars("1.2.3.256")), None);
    assert_eq!(v4_literal_of(&chars("example.com")), None);
}

#[test]
fn responses_are_bounded_and_classified() {
    let mut body = vec![0u8; MAX_BODY_BYTES - 1];
    assert!(append_bounded(&mut body, b"ab"));
    assert_eq!(body.len(), MAX_BODY_BYTES);
    let mut small = Vec::new();
    assert!(!append_bounded(&mut small, b"ab"));
    assert_eq!(small, b"ab");
    assert_eq!(failure_of_status(429), Some(FailureCode::RateLimited));
    assert_eq!(failure_of_status(503), Some(FailureCode::Http5xx(503)));
    assert_eq!(failure_of_status(404), Some(FailureCode::Http4xx(404)));
    assert_eq!(failure_of_status(200), None);
    assert!(supported_content_type("text/html; charset=utf-8"));
    assert!(!supported_content_type("image/png"));
    assert_eq!(
        normalize_network_error(false, false, "Connection Reset by peer"),
        WebNetworkError::ConnectionReset
    );
    assert_eq!(
        normalize_network_error(true, true, "x"),
        WebNetworkError::TimedOut
    );
    assert_eq!(
        normalize_network_error(false, true, "x"),
        WebNetworkError::InvalidResponse
    );
}

#[test]
fn texts_are_measured_in_bytes() {
    let text = chars("aé€");
    assert_eq!(byte_length(&text), 6);
    assert_eq!(floor_boundary(&text, 5), 2);
    assert_eq!(byte_prefix_of(&text, 3), chars("aé"));
}

#[test]
fn keys_are_ordered_and_equal_keys_keep_their_place() {
    assert_eq!(
        order_of(&vec![vec![2], vec![1, 5], vec![1], vec![2]]),
        [2, 1, 0, 3]
    );
    assert_eq!(
        sort_set(&vec![chars("b"), chars("a"), chars("b")]),
        [chars("a"), chars("b")]
    );
    assert_eq!(parse_unsigned(&chars("255"), 255), Some(255));
    assert_eq!(parse_unsigned(&chars("256"), 255), None);
    assert_eq!(parse_unsigned(&chars(""), 255), None);
}

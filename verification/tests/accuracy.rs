use factcheck::Checkable;
use factcheck::Information;
use factcheck::Source;
use factcheck::Statistic;

fn src(location: &str, trusted: bool) -> Source {
    Source { location: location.to_string(), trusted }
}

fn stat(sources: Vec<Source>, description: &str, value: i32) -> Statistic {
    Statistic { sources, description: description.to_string(), value }
}

fn doc(name: &str, is_trusted: bool, topics: &[&str], statistics: Vec<Statistic>) -> Information {
    Information {
        website_name: name.to_string(),
        is_trusted,
        website_topics: topics.iter().map(|t| t.to_string()).collect(),
        statistics,
    }
}

fn reference_doc() -> Information {
    doc(
        "gov.example",
        true,
        &["health"],
        vec![stat(
            vec![src("ministry", true)],
            "covid vaccination rate",
            70,
        )],
    )
}

#[test]
fn substring_search_finds_inner_matches() {
    let hay: Vec<char> = "vaccination".chars().collect();
    assert!(factcheck::is_substring(&hay, &"vac".chars().collect()));
    assert!(factcheck::is_substring(&hay, &"nation".chars().collect()));
    assert!(factcheck::is_substring(&hay, &Vec::new()));
    assert!(!factcheck::is_substring(&hay, &"vaccinations".chars().collect()));
    assert!(!factcheck::is_substring(&hay, &"xyz".chars().collect()));
}

#[test]
fn token_counting_uses_substrings_and_multiplicity() {
    let other: Vec<char> = "vax".chars().collect();
    let tokens: Vec<char> = "v  v ax\tva q".chars().collect();
    // "v" twice and "ax" and "va" occur inside "vax"; "q" does not.
    assert_eq!(factcheck::count_matching_tokens(&tokens, &other), 4);
    assert_eq!(factcheck::count_matching_tokens(&Vec::new(), &other), 0);
    assert_eq!(factcheck::count_matching_tokens(&"   ".chars().collect(), &other), 0);
}

#[test]
fn token_overlap_matches_inside_words() {
    // Seven "v" tokens all occur inside "vax": count 7 exceeds the
    // threshold (55% of the average length 8, rounded: 4), so values
    // decide rather than the source fallback.
    let a = stat(vec![src("blog", false)], "v v v v v v v", 3);
    let b = stat(vec![], "vax", 3);
    assert!(a == b);
    let c = stat(vec![src("gov", true)], "v v v v v v v", 4);
    assert!(c != b);
}

#[test]
fn source_accuracy_follows_trust() {
    assert!(src("gov", true).is_accurate());
    assert!(!src("blog", false).is_accurate());
}

#[test]
fn source_with_sources_not_supported() {
    let s = src("gov", true);
    assert_eq!(
        s.is_accurate_with_sources(vec![src("other", true)]),
        Err("Error not supported".to_string())
    );
}

#[test]
fn accuracy_score_unsupported() {
    assert_eq!(src("gov", true).accuracy_score(), None);
    assert_eq!(stat(vec![], "a", 1).accuracy_score(), None);
    assert_eq!(doc("w", true, &[], vec![]).accuracy_score(), None);
}

#[test]
fn identical_statistics_equal_regardless_of_sources() {
    let a = stat(vec![src("blog", false)], "ice cream sales", 12);
    let b = stat(vec![], "ice cream sales", 12);
    assert!(a == b);
}

#[test]
fn disjoint_trusted_statistics_equal_despite_values() {
    let a = stat(vec![src("gov", true), src("lab", true)], "alpha", 1);
    let b = stat(vec![], "zzz", 999);
    assert!(a == b);
}

#[test]
fn disjoint_untrusted_statistics_unequal() {
    let a = stat(vec![src("gov", true), src("blog", false)], "alpha", 1);
    let b = stat(vec![], "zzz", 1);
    assert!(a != b);
}

#[test]
fn token_overlap_equal_values() {
    // Six "x" tokens all occur in "x": count 6 exceeds the threshold
    // (55% of the average length 6, rounded: 3), so values decide.
    let a = stat(vec![src("blog", false)], "x x x x x x", 5);
    let b = stat(vec![], "x", 5);
    assert!(a == b);
}

#[test]
fn token_overlap_differing_values() {
    // Same overlap as above, but differing values: unequal even though
    // every source of the left statistic is trusted.
    let a = stat(vec![src("gov", true)], "x x x x x x", 5);
    let b = stat(vec![], "x", 6);
    assert!(a != b);
}

#[test]
fn threshold_boundary_uses_fallback() {
    // Three tokens occur in the other description; the threshold is
    // (55 * ((5 + 7) / 2) + 50) / 100 = 3, and 3 does not strictly exceed
    // 3, so the source-trust fallback decides.
    let a = stat(vec![], "a b c", 1);
    let b = stat(vec![], "a b c d", 2);
    assert!(a == b);
    let c = stat(vec![src("blog", false)], "a b c", 1);
    assert!(c != b);
}

#[test]
fn fallback_is_asymmetric() {
    let a = stat(vec![src("gov", true)], "alpha beta", 1);
    let b = stat(vec![src("blog", false)], "gamma delta", 2);
    assert!(a == b);
    assert!(b != a);
}

#[test]
fn statistic_accuracy_follows_sources() {
    assert!(stat(vec![], "no sources", 0).is_accurate());
    assert!(stat(vec![src("gov", true), src("lab", true)], "s", 1).is_accurate());
    assert!(!stat(vec![src("gov", true), src("blog", false)], "s", 1).is_accurate());
}

#[test]
fn statistic_with_sources_empty_list_vacuous() {
    let a = stat(vec![src("blog", false)], "anything", 3);
    assert_eq!(a.is_accurate_with_sources(vec![]), Ok(true));
}

#[test]
fn statistic_with_sources_mismatch() {
    let a = stat(vec![src("blog", false)], "alpha", 1);
    let matching = stat(vec![], "alpha", 1);
    let clashing = stat(vec![], "zzz", 2);
    assert_eq!(a.is_accurate_with_sources(vec![matching, clashing]), Ok(false));
}

#[test]
fn trusted_document_accurate_for_any_list() {
    let d = doc("gov.example", true, &[], vec![]);
    assert_eq!(d.is_accurate_with_sources(vec![]), Ok(true));
    let e = doc("gov.example", true, &["health"], vec![]);
    assert_eq!(e.is_accurate_with_sources(vec![reference_doc()]), Ok(true));
}

#[test]
fn no_topic_overlap_errors() {
    let d = doc("blog.example", false, &["finance"], vec![]);
    assert_eq!(
        d.is_accurate_with_sources(vec![reference_doc()]),
        Err("Error no relevant sources".to_string())
    );
    let e = doc("blog.example", false, &["finance"], vec![]);
    assert_eq!(
        e.is_accurate_with_sources(vec![]),
        Err("Error no relevant sources".to_string())
    );
}

#[test]
fn matching_document_is_accurate() {
    let b = doc(
        "news.example",
        false,
        &["news", "health"],
        vec![stat(vec![], "covid vaccination rate", 70)],
    );
    assert_eq!(b.is_accurate_with_sources(vec![reference_doc()]), Ok(true));
}

#[test]
fn fallback_document_is_accurate() {
    // The statistic contradicts the reference value and shares no
    // description token with it, but all its sources are trusted, so the
    // fallback declares it equal and the document accurate.
    let c = doc(
        "optimist.example",
        false,
        &["health"],
        vec![stat(vec![src("lab", true)], "zzz qqq", 9999)],
    );
    assert_eq!(c.is_accurate_with_sources(vec![reference_doc()]), Ok(true));
}

#[test]
fn unrelated_document_errors() {
    let d = doc(
        "sports.example",
        false,
        &["sports"],
        vec![stat(vec![], "covid vaccination rate", 70)],
    );
    assert_eq!(
        d.is_accurate_with_sources(vec![reference_doc()]),
        Err("Error no relevant sources".to_string())
    );
}

#[test]
fn failing_statistic_makes_document_inaccurate() {
    let b = doc(
        "rumor.example",
        false,
        &["health"],
        vec![stat(vec![src("blog", false)], "zzz qqq", 1)],
    );
    assert_eq!(b.is_accurate_with_sources(vec![reference_doc()]), Ok(false));
}

#[test]
fn every_relevant_document_must_pass() {
    // Relevant reference with no statistics: vacuously passed.  A second
    // relevant reference whose statistic clashes still fails the document.
    let empty_ref = doc("empty.example", true, &["health"], vec![]);
    let b = doc(
        "rumor.example",
        false,
        &["health"],
        vec![stat(vec![src("blog", false)], "zzz qqq", 1)],
    );
    assert_eq!(
        b.is_accurate_with_sources(vec![empty_ref.clone()]),
        Ok(true)
    );
    assert_eq!(
        b.is_accurate_with_sources(vec![empty_ref, reference_doc()]),
        Ok(false)
    );
}

#[test]
fn document_accuracy_follows_statistics() {
    let good = doc(
        "site.example",
        false,
        &["health"],
        vec![stat(vec![src("gov", true)], "a", 1)],
    );
    assert!(good.is_accurate());
    let bad = doc(
        "site.example",
        false,
        &["health"],
        vec![
            stat(vec![src("gov", true)], "a", 1),
            stat(vec![src("blog", false)], "b", 2),
        ],
    );
    assert!(!bad.is_accurate());
    let trusted = doc("gov.example", true, &[], vec![stat(vec![src("blog", false)], "a", 1)]);
    assert!(trusted.is_accurate());
}

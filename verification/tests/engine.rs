use ars::engine::{
    assemble_corpus, build_snapshot, consult_cache, hidden_selectors, network_blocked, rebuild,
    reread, restore_snapshot, store_snapshot, CacheOutcome,
};

const RULES: &str = "||ads.example^\n@@||ads.example/allowed.js\n##.ad-banner\n###sidebar-ad\nsite.example##.promo\n";

fn strings(items: &[&str]) -> Vec<String> {
    items.iter().map(|s| s.to_string()).collect()
}

#[test]
fn assemble_corpus_joins_the_files_in_order() {
    assert_eq!(assemble_corpus(&strings(&["a\n", "b\n", "", "c"])), "a\nb\nc");
    assert_eq!(assemble_corpus(&Vec::new()), "");
}

#[test]
fn a_matching_block_rule_blocks_the_request() {
    let engine = build_snapshot(RULES);
    assert_eq!(
        network_blocked(&engine, "https://ads.example/x.js", "https://site.example", "script"),
        Some(true)
    );
}

#[test]
fn a_request_that_no_rule_matches_is_not_blocked() {
    let engine = build_snapshot(RULES);
    assert_eq!(
        network_blocked(&engine, "https://cdn.example/x.js", "https://site.example", "script"),
        Some(false)
    );
}

#[test]
fn an_exception_rule_lets_the_request_through() {
    let engine = build_snapshot(RULES);
    assert_eq!(
        network_blocked(&engine, "https://ads.example/allowed.js", "https://site.example", "script"),
        Some(false)
    );
}

#[test]
fn an_empty_snapshot_blocks_nothing() {
    let engine = build_snapshot("");
    assert_eq!(
        network_blocked(&engine, "https://ads.example/x.js", "https://site.example", "script"),
        Some(false)
    );
}

#[test]
fn an_address_without_host_makes_no_request() {
    let engine = build_snapshot(RULES);
    assert_eq!(network_blocked(&engine, "", "https://site.example", "script"), None);
    assert_eq!(network_blocked(&engine, "not an address", "https://site.example", "script"), None);
}

#[test]
fn a_source_without_host_still_makes_a_request() {
    let engine = build_snapshot(RULES);
    assert_eq!(network_blocked(&engine, "https://ads.example/x.js", "", "script"), Some(true));
}

#[test]
fn a_stored_snapshot_starts_with_the_header() {
    let engine = build_snapshot(RULES);
    let bytes = store_snapshot(&engine).expect("the snapshot is encoded");
    assert!(bytes.len() >= 5);
    assert_eq!(&bytes[..5], &[0xd1, 0xd9, 0x3a, 0xaf, 0][..]);
}

#[test]
fn a_restored_snapshot_answers_as_the_stored_one() {
    let engine = build_snapshot(RULES);
    let bytes = store_snapshot(&engine).expect("the snapshot is encoded");
    let restored = restore_snapshot(&bytes).expect("the bytes are read back");
    let queries = [
        ("https://ads.example/x.js", "https://site.example", "script"),
        ("https://ads.example/allowed.js", "https://site.example", "script"),
        ("https://cdn.example/x.js", "https://site.example", "image"),
        ("https://sub.ads.example/", "https://ads.example", "document"),
        ("", "", ""),
    ];
    for (url, source, kind) in queries {
        assert_eq!(
            network_blocked(&restored, url, source, kind),
            network_blocked(&engine, url, source, kind)
        );
    }
    let ids = strings(&["sidebar-ad", "main"]);
    let classes = strings(&["ad-banner", "content"]);
    for url in ["https://site.example/page", "https://other.example/"] {
        let mut before = hidden_selectors(&engine, url, &ids, &classes);
        let mut after = hidden_selectors(&restored, url, &ids, &classes);
        before.sort();
        after.sort();
        assert_eq!(after, before);
    }
}

#[test]
fn bytes_that_hold_no_snapshot_are_refused() {
    assert!(restore_snapshot(&Vec::new()).is_none());
    assert!(restore_snapshot(&vec![1, 2, 3]).is_none());
    assert!(restore_snapshot(&vec![31, 139, 8, 0, 0, 0, 0, 0, 0, 255, 1]).is_none());
    assert!(restore_snapshot(&vec![0xd1, 0xd9, 0x3a, 0xaf, 7]).is_none());
    assert!(restore_snapshot(&vec![0xd1, 0xd9, 0x3a, 0xaf, 0]).is_none());
    assert!(restore_snapshot(&vec![0xd1, 0xd9, 0x3a, 0xaf, 0, 0xc1, 0xc1]).is_none());
}

#[test]
fn the_bare_magic_bytes_are_refused() {
    assert!(restore_snapshot(&vec![0xd1, 0xd9, 0x3a, 0xaf]).is_none());
    assert!(restore_snapshot(&vec![0xd1, 0xd9, 0x3a]).is_none());
}

#[test]
fn a_truncated_snapshot_is_refused() {
    let engine = build_snapshot(RULES);
    let mut bytes = store_snapshot(&engine).expect("the snapshot is encoded");
    bytes.truncate(bytes.len() / 2);
    assert!(restore_snapshot(&bytes).is_none());
}

#[test]
fn a_good_cache_is_reused() {
    let engine = build_snapshot(RULES);
    let bytes = store_snapshot(&engine).expect("the snapshot is encoded");
    match consult_cache(Some(bytes)) {
        CacheOutcome::Reuse(reused) => assert_eq!(
            network_blocked(&reused, "https://ads.example/x.js", "https://site.example", "script"),
            Some(true)
        ),
        CacheOutcome::Rebuild => panic!("a good cache was not reused"),
    }
}

#[test]
fn a_bad_or_unread_cache_leads_to_a_rebuild() {
    assert!(matches!(consult_cache(None), CacheOutcome::Rebuild));
    assert!(matches!(consult_cache(Some(Vec::new())), CacheOutcome::Rebuild));
    assert!(matches!(consult_cache(Some(vec![0xd1, 0xd9, 0x3a, 0xaf])), CacheOutcome::Rebuild));
    assert!(matches!(consult_cache(Some(vec![9; 64])), CacheOutcome::Rebuild));
}

#[test]
fn rebuild_compiles_all_files_and_encodes_the_snapshot() {
    let files = strings(&["! Title: one\n||ads.example^\n", "# custom\n||tracker.example^\n"]);
    let rebuilt = rebuild(&files);
    assert_eq!(
        network_blocked(&rebuilt.engine, "https://ads.example/x.js", "https://site.example", "script"),
        Some(true)
    );
    assert_eq!(
        network_blocked(&rebuilt.engine, "https://tracker.example/t.gif", "https://site.example", "image"),
        Some(true)
    );
    let bytes = rebuilt.cache.expect("the snapshot is encoded");
    let restored = restore_snapshot(&bytes).expect("the bytes are read back");
    assert_eq!(
        network_blocked(&restored, "https://tracker.example/t.gif", "https://site.example", "image"),
        Some(true)
    );
}

#[test]
fn a_rule_split_over_two_files_is_one_rule() {
    let rebuilt = rebuild(&strings(&["||ads.exa", "mple^\n"]));
    assert_eq!(
        network_blocked(&rebuilt.engine, "https://ads.example/x.js", "https://site.example", "script"),
        Some(true)
    );
}

#[test]
fn selectors_for_classes_come_before_those_for_ids_and_the_page() {
    let engine = build_snapshot(RULES);
    let selectors = hidden_selectors(
        &engine,
        "https://site.example/page",
        &strings(&["sidebar-ad", "main"]),
        &strings(&["content", "ad-banner"]),
    );
    assert_eq!(selectors, strings(&[".ad-banner", "#sidebar-ad", ".promo"]));
}

#[test]
fn page_selectors_depend_on_the_page() {
    let engine = build_snapshot(RULES);
    let selectors = hidden_selectors(&engine, "https://other.example/", &strings(&[""]), &strings(&[""]));
    assert_eq!(selectors, Vec::<String>::new());
}

#[test]
fn page_selectors_come_each_once() {
    let engine = build_snapshot("site.example##.a\nsite.example##.b\nsite.example##.a\n##div[data-ad]\n");
    let mut selectors = hidden_selectors(&engine, "https://site.example/", &strings(&[""]), &strings(&[""]));
    selectors.sort();
    assert_eq!(selectors, strings(&[".a", ".b", "div[data-ad]"]));
}

#[test]
fn storing_a_snapshot_twice_gives_the_same_bytes() {
    let engine = build_snapshot(RULES);
    let first = store_snapshot(&engine).expect("the snapshot is encoded");
    let second = store_snapshot(&engine).expect("the snapshot is encoded");
    assert_eq!(first, second);
}

#[test]
fn snapshots_of_the_same_rules_are_stored_as_the_same_bytes() {
    let rules = "||ads.example^\n||tracker.example^$third-party\n@@||ads.example/ok.js\n##.ad-banner\n##.ad-box > a\n###sidebar-ad\nsite.example##.promo\nother.example##.promo\nsite.example#@#.ad-banner\n##div[data-ad]\n";
    let one = store_snapshot(&build_snapshot(rules)).expect("the snapshot is encoded");
    let two = store_snapshot(&build_snapshot(rules)).expect("the snapshot is encoded");
    assert_eq!(one, two);
}

#[test]
fn snapshots_of_different_rules_are_stored_as_different_bytes() {
    let one = store_snapshot(&build_snapshot("||ads.example^\n")).expect("the snapshot is encoded");
    let two = store_snapshot(&build_snapshot("||tracker.example^\n")).expect("the snapshot is encoded");
    assert_ne!(one, two);
}

#[test]
fn an_empty_snapshot_is_stored_and_read_back() {
    let bytes = store_snapshot(&build_snapshot("")).expect("the snapshot is encoded");
    assert_eq!(&bytes[..5], &[0xd1, 0xd9, 0x3a, 0xaf, 0][..]);
    assert!(restore_snapshot(&bytes).is_some());
}

#[test]
fn rebuild_hands_out_the_bytes_of_its_own_snapshot() {
    let rebuilt = rebuild(&strings(&["||ads.example^\n", "##.ad-banner\n"]));
    assert_eq!(rebuilt.cache, store_snapshot(&rebuilt.engine));
    assert!(rebuilt.cache.is_some());
}

#[test]
fn a_reread_snapshot_answers_as_the_one_stored() {
    let snapshot = build_snapshot(RULES);
    let copy = match reread(&snapshot) {
        CacheOutcome::Reuse(copy) => copy,
        CacheOutcome::Rebuild => panic!("the stored snapshot was not read back"),
    };
    for (url, source, kind) in [
        ("https://ads.example/x.js", "https://site.example", "script"),
        ("https://ads.example/allowed.js", "https://site.example", "script"),
        ("https://cdn.example/x.js", "https://site.example", "image"),
    ] {
        assert_eq!(
            network_blocked(&copy, url, source, kind),
            network_blocked(&snapshot, url, source, kind)
        );
    }
}

#[test]
fn a_snapshot_read_back_twice_is_stored_as_the_same_bytes() {
    let snapshot = build_snapshot(RULES);
    let first = match reread(&snapshot) {
        CacheOutcome::Reuse(copy) => copy,
        CacheOutcome::Rebuild => panic!("the stored snapshot was not read back"),
    };
    let second = match reread(&first) {
        CacheOutcome::Reuse(copy) => copy,
        CacheOutcome::Rebuild => panic!("the copy was not read back"),
    };
    assert_eq!(store_snapshot(&second), store_snapshot(&first));
    assert_eq!(
        network_blocked(&second, "https://ads.example/x.js", "https://site.example", "script"),
        Some(true)
    );
    let selectors = hidden_selectors(
        &second,
        "https://site.example/page",
        &strings(&["sidebar-ad"]),
        &strings(&["ad-banner"]),
    );
    assert_eq!(selectors, strings(&[".ad-banner", "#sidebar-ad", ".promo"]));
}

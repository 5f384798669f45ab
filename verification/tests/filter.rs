use panther::catalog::{Extension, Source};
use panther::filter::{filter_by_lang, probe_targets};

fn source_at(base_url: &str) -> Source {
    Source {
        name: format!("source at {}", base_url),
        lang: "xx".to_string(),
        id: "0".to_string(),
        base_url: base_url.to_string(),
    }
}

fn extension_in(name: &str, lang: &str, urls: &[&str]) -> Extension {
    Extension {
        name: name.to_string(),
        pkg: format!("pkg.{}", name),
        apk: format!("{}.apk", name),
        lang: lang.to_string(),
        code: 1,
        version: "1.0".to_string(),
        nsfw: 0,
        sources: urls.iter().map(|url| source_at(url)).collect(),
    }
}

fn mixed_catalog() -> Vec<Extension> {
    vec![
        extension_in("a", "es", &["http://a1", "http://a2"]),
        extension_in("b", "en", &["http://b1"]),
        extension_in("c", "es", &[]),
        extension_in("d", "ES", &["http://d1"]),
        extension_in("e", "es-419", &["http://e1"]),
        extension_in("f", "es", &["http://f1"]),
    ]
}

fn names(extensions: &Vec<Extension>) -> Vec<String> {
    extensions.iter().map(|e| e.name.clone()).collect()
}

#[test]
fn filter_keeps_exactly_the_language_in_order() {
    let catalog = mixed_catalog();
    let kept = filter_by_lang(&catalog, "es");
    assert_eq!(names(&kept), vec!["a", "c", "f"]);
    assert_eq!(kept[0], catalog[0]);
    assert_eq!(kept[1], catalog[2]);
    assert_eq!(kept[2], catalog[5]);
    assert_eq!(catalog, mixed_catalog());
}

#[test]
fn filter_compares_the_language_with_case() {
    let catalog = mixed_catalog();
    assert_eq!(names(&filter_by_lang(&catalog, "ES")), vec!["d"]);
    assert_eq!(names(&filter_by_lang(&catalog, "Es")), Vec::<String>::new());
    assert_eq!(names(&filter_by_lang(&catalog, "es-419")), vec!["e"]);
    assert_eq!(names(&filter_by_lang(&catalog, "e")), Vec::<String>::new());
}

#[test]
fn filter_with_no_match_gives_an_empty_result() {
    assert_eq!(filter_by_lang(&mixed_catalog(), "fr"), vec![]);
    assert_eq!(filter_by_lang(&vec![], "es"), vec![]);
    assert_eq!(filter_by_lang(&mixed_catalog(), ""), vec![]);
}

#[test]
fn filter_twice_is_filter_once() {
    for lang in ["es", "en", "ES", "fr", ""] {
        let once = filter_by_lang(&mixed_catalog(), lang);
        let twice = filter_by_lang(&once, lang);
        assert_eq!(twice, once);
    }
}

#[test]
fn targets_follow_extensions_then_sources() {
    let targets = probe_targets(&mixed_catalog());
    assert_eq!(targets, vec!["http://a1", "http://a2", "http://b1", "http://d1", "http://e1", "http://f1"]);
}

#[test]
fn targets_of_the_kept_extensions_only() {
    let kept = filter_by_lang(&mixed_catalog(), "es");
    assert_eq!(probe_targets(&kept), vec!["http://a1", "http://a2", "http://f1"]);
}

#[test]
fn no_extensions_or_no_sources_give_no_targets() {
    assert_eq!(probe_targets(&vec![]), Vec::<String>::new());
    assert_eq!(probe_targets(&vec![extension_in("c", "es", &[])]), Vec::<String>::new());
}

#[test]
fn a_target_is_the_base_address_and_may_repeat() {
    let catalog = vec![
        extension_in("a", "es", &["http://same", "http://same"]),
        extension_in("b", "es", &["http://same"]),
    ];
    assert_eq!(probe_targets(&catalog), vec!["http://same", "http://same", "http://same"]);
}

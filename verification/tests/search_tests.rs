use cosmic_store::catalog::{Collection, Component, Icon, MetadataStore};
use cosmic_store::search::{byte_length, collect_hits, search, tier, weigh, weight, Matcher};
use std::sync::Arc;
use cosmic_store::text::Translatable;

fn component(name: &str, summary: Option<&str>) -> Component {
    Component {
        name: Translatable::with_default(name),
        summary: summary.map(Translatable::with_default),
        description: None,
        icon: None,
    }
}

fn store_of(components: Vec<Component>) -> MetadataStore {
    let mut store = MetadataStore::new();
    store.insert("main", Arc::new(Collection { origin: Some("distro".to_string()), components }));
    store
}

fn matcher(query: &str) -> Matcher {
    match Matcher::new(query) {
        Ok(m) => m,
        Err(e) => panic!("query did not compile: {}", e.message),
    }
}

#[test]
fn tier_values() {
    assert_eq!(tier(Some((0, 7)), 7), Some(0));
    assert_eq!(tier(Some((0, 3)), 7), Some(1));
    assert_eq!(tier(Some((2, 7)), 7), Some(2));
    assert_eq!(tier(None, 7), None);
}

#[test]
fn weight_values() {
    assert_eq!(weight(Some((0, 4)), 4, None, 9), Some(0));
    assert_eq!(weight(Some((0, 2)), 4, Some((0, 9)), 9), Some(1));
    assert_eq!(weight(Some((1, 3)), 4, None, 9), Some(2));
    assert_eq!(weight(None, 4, Some((0, 9)), 9), Some(3));
    assert_eq!(weight(None, 4, Some((0, 4)), 9), Some(4));
    assert_eq!(weight(None, 4, Some((5, 9)), 9), Some(5));
    assert_eq!(weight(None, 4, None, 9), None);
}

#[test]
fn summary_tier_goes_by_summary_length() {
    let m = matcher("editor");
    assert_eq!(weigh(&m, "Foo", "Editor"), Some(3));
    assert_eq!(weigh(&m, "Foo", "Editor of text"), Some(4));
    assert_eq!(weigh(&m, "Foo", "A text editor"), Some(5));
    assert_eq!(weigh(&m, "Foo", "Viewer"), None);
}

#[test]
fn name_tiers_are_case_insensitive() {
    let m = matcher("firefox");
    assert_eq!(weigh(&m, "Firefox", ""), Some(0));
    assert_eq!(weigh(&m, "FIREFOX Developer Edition", ""), Some(1));
    assert_eq!(weigh(&m, "Mozilla Firefox", "firefox"), Some(2));
}

#[test]
fn byte_length_counts_bytes() {
    assert_eq!(byte_length(""), 0);
    assert_eq!(byte_length("abc"), 3);
    assert_eq!(byte_length("é"), 2);
}

#[test]
fn exact_match_of_multibyte_name() {
    let m = matcher("café");
    assert_eq!(weigh(&m, "Café", ""), Some(0));
    assert_eq!(weigh(&m, "Café au lait", ""), Some(1));
}

#[test]
fn query_is_taken_literally() {
    let m = matcher("a.c");
    assert_eq!(m.source(), "a\\.c");
    assert_eq!(weigh(&m, "abc", "abc"), None);
    assert_eq!(weigh(&m, "A.C", ""), Some(0));
    let star = matcher("c++ (");
    assert_eq!(weigh(&star, "C++ (compiler)", ""), Some(1));
}

#[test]
fn firefox_exact_before_prefix() {
    let store = store_of(vec![
        component("Firefox Developer Edition", Some("Browser for developers")),
        component("Firefox", Some("Web browser")),
        component("Files", Some("File manager")),
    ]);
    let results = search(&store, &matcher("firefox"), "en-US");
    assert_eq!(results.len(), 2);
    assert_eq!(results[0].name, "Firefox");
    assert_eq!(results[0].weight, 0);
    assert_eq!(results[0].component_index, 1);
    assert_eq!(results[1].name, "Firefox Developer Edition");
    assert_eq!(results[1].weight, 1);
    assert_eq!(results[1].component_index, 0);
}

#[test]
fn result_holds_what_is_shown() {
    let mut store = MetadataStore::new();
    store.insert("first", Arc::new(Collection { origin: None, components: vec![component("Alpha", None)] }));
    let mut shown = component("Beta", Some("Second letter"));
    shown.icon = Some("beta.png".to_string());
    store.insert("second", Arc::new(Collection { origin: Some("repo".to_string()), components: vec![shown] }));
    let results = search(&store, &matcher("beta"), "en-US");
    assert_eq!(results.len(), 1);
    let r = &results[0];
    assert_eq!(r.id, "second");
    assert_eq!(r.backend_name, "appstream");
    assert_eq!(r.name, "Beta");
    assert_eq!(r.summary, "Second letter");
    match &r.icon {
        Icon::Asset { origin, reference } => {
            assert_eq!(origin.as_deref(), Some("repo"));
            assert_eq!(reference, "beta.png");
        }
        Icon::Placeholder => panic!("the icon asset was lost"),
    }
    assert_eq!(r.collection_index, 1);
    assert_eq!(r.component_index, 0);
    assert_eq!(r.collection.origin, Some("repo".to_string()));
    assert_eq!(r.collection.components.len(), 1);
}

#[test]
fn equal_weight_in_natural_name_order() {
    let store = store_of(vec![
        component("File 10", None),
        component("File 2", None),
        component("file 1", None),
        component("My File", None),
        component("File", None),
    ]);
    let results = search(&store, &matcher("file"), "en-US");
    let names: Vec<&str> = results.iter().map(|r| r.name.as_str()).collect();
    assert_eq!(names, vec!["File", "file 1", "File 2", "File 10", "My File"]);
    let weights: Vec<usize> = results.iter().map(|r| r.weight).collect();
    assert_eq!(weights, vec![0, 1, 1, 1, 2]);
}

#[test]
fn weights_order_before_names() {
    let store = store_of(vec![
        component("Zed", Some("An editor")),
        component("An editor for all", None),
        component("Best editor", None),
        component("Editor", None),
        component("Other", Some("editor")),
        component("Plain", Some("Editor of things")),
        component("Nothing", Some("to see")),
    ]);
    let results = search(&store, &matcher("editor"), "en-US");
    let got: Vec<(usize, &str)> = results.iter().map(|r| (r.weight, r.name.as_str())).collect();
    assert_eq!(
        got,
        vec![
            (0, "Editor"),
            (2, "An editor for all"),
            (2, "Best editor"),
            (3, "Other"),
            (4, "Plain"),
            (5, "Zed"),
        ]
    );
}

#[test]
fn component_without_asset_gets_placeholder() {
    let store = store_of(vec![component("Alpha", None)]);
    let results = search(&store, &matcher("alpha"), "en-US");
    assert!(matches!(results[0].icon, Icon::Placeholder));
    let plain = component("Plain", None);
    assert!(matches!(MetadataStore::icon(&Some("x".to_string()), &plain), Icon::Placeholder));
    let mut with = component("With", None);
    with.icon = Some("w.png".to_string());
    match MetadataStore::icon(&None, &with) {
        Icon::Asset { origin, reference } => {
            assert_eq!(origin, None);
            assert_eq!(reference, "w.png");
        }
        Icon::Placeholder => panic!("the icon asset was lost"),
    }
}

#[test]
fn no_match_gives_empty_results() {
    let store = store_of(vec![component("Alpha", Some("first"))]);
    assert_eq!(search(&store, &matcher("zzz"), "en-US").len(), 0);
    assert_eq!(search(&MetadataStore::new(), &matcher("a"), "en-US").len(), 0);
}

#[test]
fn walk_keeps_store_order() {
    let mut store = MetadataStore::new();
    store.insert("a", Arc::new(Collection { origin: None, components: vec![component("x2", None), component("y", None)] }));
    store.insert("b", Arc::new(Collection { origin: None, components: vec![component("x1", None)] }));
    let hits = collect_hits(&store, &matcher("x"), "en-US");
    let got: Vec<(usize, usize)> = hits.iter().map(|h| (h.collection_index, h.component_index)).collect();
    assert_eq!(got, vec![(0, 0), (1, 0)]);
    let ranked = search(&store, &matcher("x"), "en-US");
    let names: Vec<&str> = ranked.iter().map(|h| h.name.as_str()).collect();
    assert_eq!(names, vec!["x1", "x2"]);
}

#[test]
fn search_uses_the_locale() {
    let mut name = Translatable::with_default("Calculator");
    name.add_for_locale(Some("de"), "Rechner");
    let store = store_of(vec![Component { name, summary: None, description: None, icon: None }]);
    assert_eq!(search(&store, &matcher("rechner"), "de").len(), 1);
    assert_eq!(search(&store, &matcher("rechner"), "en-US").len(), 0);
    assert_eq!(search(&store, &matcher("calc"), "en-US")[0].name, "Calculator");
}

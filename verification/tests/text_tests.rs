use cosmic_store::catalog::{Collection, Component, MetadataStore, ParsedFile};
use std::sync::Arc;
use cosmic_store::text::{get_markup_translatable, get_translatable, MarkupTranslatable, Translatable};

#[test]
fn translatable_prefers_the_locale() {
    let mut t = Translatable::with_default("Files");
    t.add_for_locale(Some("fr"), "Fichiers");
    assert_eq!(get_translatable(&t, "fr"), "Fichiers");
    assert_eq!(get_translatable(&t, "de"), "Files");
    assert_eq!(get_translatable(&t, "C"), "Files");
}

#[test]
fn translatable_without_texts_is_empty() {
    let t = Translatable::new();
    assert_eq!(get_translatable(&t, "en-US"), "");
    assert!(t.get_default().is_none());
    let mut only = Translatable::new();
    only.add_for_locale(Some("es"), "Archivos");
    assert_eq!(get_translatable(&only, "en-US"), "");
    assert_eq!(get_translatable(&only, "es"), "Archivos");
}

#[test]
fn later_text_replaces_earlier() {
    let mut t = Translatable::new();
    t.add_for_locale(None, "one");
    t.add_for_locale(None, "two");
    t.add_for_locale(Some("it"), "uno");
    t.add_for_locale(Some("it"), "due");
    assert_eq!(t.get_default().map(|s| s.as_str()), Some("two"));
    assert_eq!(t.get_for_locale("it").map(|s| s.as_str()), Some("due"));
    assert!(t.get_for_locale("pt").is_none());
}

#[test]
fn markup_translatable_falls_back() {
    let mut texts = Translatable::with_default("<p>Hello</p>");
    texts.add_for_locale(Some("cs"), "<p>Ahoj</p>");
    let m = MarkupTranslatable { texts };
    assert_eq!(get_markup_translatable(&m, "cs"), "<p>Ahoj</p>");
    assert_eq!(get_markup_translatable(&m, "en-GB"), "<p>Hello</p>");
    let none = MarkupTranslatable { texts: Translatable::new() };
    assert_eq!(get_markup_translatable(&none, "cs"), "");
}

#[test]
fn component_texts() {
    let c = Component {
        name: Translatable::with_default("Maps"),
        summary: None,
        description: None,
        icon: None,
    };
    assert_eq!(c.localized_name("en-US"), "Maps");
    assert_eq!(c.localized_summary("en-US"), "");
    let d = Component {
        name: Translatable::new(),
        summary: Some(Translatable::with_default("Find places")),
        description: None,
        icon: None,
    };
    assert_eq!(d.localized_name("en-US"), "");
    assert_eq!(d.localized_summary("en-US"), "Find places");
}

#[test]
fn store_insert_and_replace() {
    let mut store = MetadataStore::new();
    assert_eq!(store.len(), 0);
    store.insert("a", Arc::new(Collection { origin: None, components: vec![] }));
    store.insert("b", Arc::new(Collection { origin: Some("one".to_string()), components: vec![] }));
    assert_eq!(store.len(), 2);
    assert_eq!(store.position("b"), Some(1));
    assert_eq!(store.position("c"), None);
    store.insert("a", Arc::new(Collection { origin: Some("fresh".to_string()), components: vec![] }));
    assert_eq!(store.len(), 2);
    assert_eq!(store.entry(0).id, "a");
    assert_eq!(store.entry(0).collection.origin, Some("fresh".to_string()));
    assert_eq!(store.entry(1).collection.origin, Some("one".to_string()));
}

fn parsed(id: &str, origin: &str) -> ParsedFile {
    ParsedFile {
        id: id.to_string(),
        outcome: Ok(Arc::new(Collection { origin: Some(origin.to_string()), components: vec![] })),
    }
}

fn unreadable(id: &str) -> ParsedFile {
    ParsedFile { id: id.to_string(), outcome: Err("malformed".to_string()) }
}

#[test]
fn load_skips_files_that_failed() {
    let files = vec![parsed("a", "one"), unreadable("b"), parsed("c", "three")];
    let store = MetadataStore::load(&files);
    assert_eq!(store.len(), 2);
    assert_eq!(store.entry(0).id, "a");
    assert_eq!(store.entry(1).id, "c");
    assert_eq!(store.entry(1).collection.origin, Some("three".to_string()));
    assert_eq!(store.position("b"), None);
}

#[test]
fn load_of_nothing_readable_is_empty() {
    assert_eq!(MetadataStore::load(&vec![unreadable("a"), unreadable("b")]).len(), 0);
    assert_eq!(MetadataStore::load(&Vec::new()).len(), 0);
}

#[test]
fn load_keeps_the_last_of_an_identifier() {
    let files = vec![parsed("a", "old"), parsed("b", "other"), parsed("a", "new"), unreadable("a")];
    let store = MetadataStore::load(&files);
    assert_eq!(store.len(), 2);
    assert_eq!(store.entry(0).id, "a");
    assert_eq!(store.entry(0).collection.origin, Some("new".to_string()));
    assert_eq!(store.entry(1).collection.origin, Some("other".to_string()));
}

#[test]
fn insert_returns_the_place() {
    let mut store = MetadataStore::new();
    let empty = || Arc::new(Collection { origin: None, components: vec![] });
    assert_eq!(store.insert("x", empty()), 0);
    assert_eq!(store.insert("y", empty()), 1);
    assert_eq!(store.insert("x", empty()), 0);
}

use window_buttons::icons::IconResolver;

#[test]
fn cache_remembers_search_results() {
    let mut cache = IconResolver::new();
    assert_eq!(cache.resolve("org.foo.Bar"), None);
    cache.store("org.foo.Bar", "/usr/share/icons/foo.svg");
    assert_eq!(
        cache.resolve("org.foo.Bar"),
        Some("/usr/share/icons/foo.svg".to_string())
    );
    assert_eq!(cache.resolve("org.other"), None);
}

#[test]
fn first_stored_path_stands() {
    let mut cache = IconResolver::new();
    cache.store("app", "/first.svg");
    cache.store("app", "/second.svg");
    assert_eq!(cache.resolve("app"), Some("/first.svg".to_string()));
}

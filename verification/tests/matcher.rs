use cog_patterns::builtin::builtin_patterns;
use cog_patterns::matcher::{first_suggestion, PatternMatcher};
use cog_patterns::patterns::{CodePattern, PatternCategory, PatternContext};

fn custom(id: &str, sig: &str) -> CodePattern {
    CodePattern::new(
        id,
        PatternCategory::Custom("t".to_string()),
        sig,
        0.5f32.to_bits(),
        PatternContext::for_language("rust"),
    )
}

#[test]
fn builtin_library_is_non_empty() {
    assert!(builtin_patterns().len() >= 10);
}

#[test]
fn rust_patterns_present() {
    let lib = builtin_patterns();
    assert!(lib.contains_key("rust-result-propagation"));
    assert!(lib.contains_key("rust-async-tokio"));
}

#[test]
fn cross_language_patterns_present() {
    let lib = builtin_patterns();
    assert!(lib.contains_key("pattern-observer"));
    assert!(lib.contains_key("pattern-strategy"));
}

#[test]
fn new_loads_builtin_patterns() {
    let m = PatternMatcher::new();
    assert!(!m.is_empty());
    assert_eq!(m.len(), 20);
    assert_eq!(m.patterns()[0].id, "rust-result-propagation");
    assert_eq!(m.patterns()[19].id, "pattern-iterator");
}

#[test]
fn match_code_finds_rust_patterns() {
    let m = PatternMatcher::new();
    let code = "fn foo() -> Result<i32, E> { Ok(1) }";
    let matches = m.match_code(code, "rust");
    assert!(!matches.is_empty());
}

#[test]
fn register_and_match() {
    let mut m = PatternMatcher::empty();
    let pattern = CodePattern::new(
        "my-pattern",
        PatternCategory::Custom("test".to_string()),
        "specific_marker",
        0.9f32.to_bits(),
        PatternContext::for_language("rust"),
    );
    m.register(pattern);
    let matches = m.match_code("let x = specific_marker;", "rust");
    assert!(!matches.is_empty());
}

#[test]
fn record_outcome_updates_success_rate() {
    let mut m = PatternMatcher::empty();
    m.register(custom("p", "sig"));
    m.record_outcome("p", |bits| (f32::from_bits(bits) * 0.9 + 0.1).to_bits());
    let p = m.get("p").unwrap();
    assert!(f32::from_bits(p.success_rate_bits) > 0.5);
    assert_eq!(p.match_count, 1);
}

#[test]
fn unregister_removes_pattern() {
    let mut m = PatternMatcher::empty();
    m.register(custom("to-remove", "sig"));
    assert!(m.get("to-remove").is_some());
    m.unregister("to-remove");
    assert!(m.get("to-remove").is_none());
}

#[test]
fn register_replaces_in_place() {
    let mut m = PatternMatcher::empty();
    m.register(custom("a", "one"));
    m.register(custom("b", "two"));
    m.register(custom("a", "three"));
    assert_eq!(m.len(), 2);
    let ps = m.patterns();
    assert_eq!(ps[0].id, "a");
    assert_eq!(ps[0].signature, "three");
    assert_eq!(ps[1].id, "b");
}

#[test]
fn unregister_returns_pattern_and_keeps_order() {
    let mut m = PatternMatcher::empty();
    m.register(custom("a", "1"));
    m.register(custom("b", "2"));
    m.register(custom("c", "3"));
    let removed = m.unregister("b").unwrap();
    assert_eq!(removed.signature, "2");
    assert!(m.unregister("b").is_none());
    let ids: Vec<String> = m.patterns().into_iter().map(|p| p.id).collect();
    assert_eq!(ids, vec!["a".to_string(), "c".to_string()]);
}

#[test]
fn register_unregister_roundtrip() {
    let mut m = PatternMatcher::new();
    let before: Vec<String> = m.patterns().into_iter().map(|p| p.id).collect();
    m.register(custom("fresh", "x"));
    assert_eq!(m.len(), 21);
    m.unregister("fresh");
    let after: Vec<String> = m.patterns().into_iter().map(|p| p.id).collect();
    assert_eq!(before, after);
}

#[test]
fn record_outcome_on_unknown_id_changes_nothing() {
    let mut m = PatternMatcher::empty();
    m.register(custom("p", "sig"));
    m.record_outcome("q", |_| 0);
    let p = m.get("p").unwrap();
    assert_eq!(p.match_count, 0);
    assert_eq!(p.success_rate_bits, 0.5f32.to_bits());
}

#[test]
fn match_code_respects_language() {
    let m = PatternMatcher::new();
    let ids = |v: Vec<CodePattern>| v.into_iter().map(|p| p.id).collect::<Vec<_>>();
    let py = ids(m.match_code("with open(path) as f: data = f.read()", "python"));
    assert!(py.contains(&"py-context-manager".to_string()));
    assert!(!py.iter().any(|id| id.starts_with("rust-")));
    let rust = ids(m.match_code("pub struct ClientBuilder { x: u8 }", "rust"));
    assert!(rust.contains(&"rust-builder".to_string()));
    assert!(m.match_code("", "haskell").is_empty());
}

#[test]
fn suggestion_helpers() {
    let m = PatternMatcher::new();
    let hints = m.suggestion_hints("Async tokio server", "go");
    assert_eq!(hints.language.as_deref(), Some("go"));
    assert_eq!(hints.framework.as_deref(), Some("tokio"));
    let ranked = vec![
        (custom("a", "x"), false),
        (custom("b", "y"), true),
        (custom("c", "z"), true),
    ];
    assert_eq!(first_suggestion(&ranked, "rust").unwrap().id, "b");
    assert!(first_suggestion(&ranked, "go").is_none());
}

#[test]
fn default_is_the_builtin_library() {
    let m = PatternMatcher::default();
    assert_eq!(m.len(), builtin_patterns().len());
    assert!(m.get("cpp-raii").is_some());
    assert!(m.get("missing").is_none());
}

#[test]
fn registered_ids_stay_distinct() {
    let mut m = PatternMatcher::empty();
    m.register(custom("a", "x"));
    m.register(custom("b", "y"));
    m.register(custom("a", "z"));
    assert_eq!(m.len(), 2);
    let ids: Vec<String> = m.patterns().iter().map(|p| p.id.clone()).collect();
    assert_eq!(ids, vec!["a".to_string(), "b".to_string()]);
    assert_eq!(m.get("a").map(|p| p.signature), Some("z".to_string()));
}

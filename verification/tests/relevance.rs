use cog_patterns::patterns::{CodePattern, PatternCategory, PatternComplexity, PatternContext};
use cog_patterns::relevance::{
    detect_category_hints, detect_framework, detect_language, extract_keywords,
    keywords_for_category, rank_order, RelevanceScorer, TaskHints,
};

fn rust_pattern(id: &str) -> CodePattern {
    let mut p = CodePattern::new(
        id,
        PatternCategory::ErrorHandling,
        "-> Result<T, E>",
        0.9f32.to_bits(),
        PatternContext {
            language: "rust".to_string(),
            framework: None,
            complexity: PatternComplexity::Low,
            tags: vec![],
        },
    );
    p.description = "Propagate errors with Result and ?".to_string();
    p.examples = vec!["fn parse() -> Result<T, E> { Ok(x?) }".to_string()];
    p
}

#[test]
fn language_detected_from_keywords() {
    let s = RelevanceScorer::new();
    let hints = s.extract_hints("implement a tokio async server in Rust");
    assert_eq!(hints.language.as_deref(), Some("rust"));
    assert_eq!(hints.framework.as_deref(), Some("tokio"));
    assert!(hints.keywords.contains(&"server".to_string()));
}

#[test]
fn category_hints_detected() {
    let s = RelevanceScorer::new();
    let hints = s.extract_hints("add error handling for async parse function");
    assert!(hints.category_hints.contains(&PatternCategory::ErrorHandling));
    assert!(hints.category_hints.contains(&PatternCategory::Async));
}

#[test]
fn language_table_order_decides() {
    assert_eq!(detect_language("python or rust"), Some("rust".to_string()));
    assert_eq!(detect_language("a django site"), Some("python".to_string()));
    assert_eq!(detect_language("let's go now"), Some("go".to_string()));
    assert_eq!(detect_language("c++ templates"), Some("cpp".to_string()));
    assert_eq!(detect_language("nothing here"), None);
    assert_eq!(detect_framework("sqlx and axum"), Some("axum".to_string()));
    assert_eq!(detect_framework("plain"), None);
}

#[test]
fn keywords_are_trimmed_and_filtered() {
    let k = extract_keywords("the (quick) fox, is on top!! é ab");
    assert_eq!(k, vec!["quick".to_string(), "fox".to_string(), "top".to_string()]);
    assert!(extract_keywords("").is_empty());
    // Two-byte characters count twice toward the length.
    assert_eq!(extract_keywords("éé"), vec!["éé".to_string()]);
}

#[test]
fn category_hints_in_fixed_order() {
    let h = detect_category_hints("state machine with iterator and a guard, new factory");
    assert_eq!(
        h,
        vec![
            PatternCategory::Factory,
            PatternCategory::StateMachine,
            PatternCategory::Iterator,
            PatternCategory::Raii
        ]
    );
    assert!(detect_category_hints("machine only").is_empty());
}

#[test]
fn category_keywords() {
    assert_eq!(keywords_for_category(&PatternCategory::Strategy), vec!["strategy", "algorithm", "policy"]);
    assert!(keywords_for_category(&PatternCategory::Custom("x".to_string())).is_empty());
}

#[test]
fn extract_hints_lowercases_first() {
    let s = RelevanceScorer::new();
    let hints = s.extract_hints("Use DJANGO With Observers");
    assert_eq!(hints.language.as_deref(), Some("python"));
    assert_eq!(hints.keywords, vec!["django".to_string(), "observers".to_string()]);
    assert_eq!(hints.category_hints, vec![PatternCategory::Observer]);
}

#[test]
fn score_components_of_rust_pattern() {
    let s = RelevanceScorer::new();
    let hints = s.extract_hints("implement error handling in tokio rust");
    let p = rust_pattern("rust-result");
    let c = s.score_components(&p, &hints);
    assert!(c.language_match);
    assert!(!c.framework_match);
    assert!(c.category_match);
    assert_eq!(c.keyword_hits, 1);
    assert_eq!(c.keyword_total, 6);
    let empty = TaskHints::default();
    let c = s.score_components(&p, &empty);
    assert!(!c.language_match && !c.framework_match && !c.category_match);
    assert_eq!(c.keyword_hits, 0);
}

#[test]
fn rank_order_is_stable_and_descending() {
    assert_eq!(rank_order(&vec![3, 9, 3, 1, 9]), vec![1, 4, 0, 2, 3]);
    assert!(rank_order(&vec![]).is_empty());
    assert_eq!(rank_order(&vec![5, 5, 5]), vec![0, 1, 2]);
}

#[test]
fn keywords_of_joined_words_concatenate() {
    let (a, b) = ("parse the (config) file", "an async server, for tokio!");
    let joined = format!("{} {}", a, b);
    let mut both = extract_keywords(a);
    both.extend(extract_keywords(b));
    assert_eq!(extract_keywords(&joined), both);
    assert_eq!(both, vec!["parse", "config", "file", "async", "server", "tokio"]);
}

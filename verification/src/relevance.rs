//! Relevance scoring: how well a pattern matches a task description.
//!
//! Relevance combines language and framework matches, category hints, keyword overlap
//! and the pattern's success rate.
use vstd::prelude::*;
use crate::patterns::{
    clone_opt_string, clone_strings, opt_view, string_views, CategoryView, CodePattern,
    PatternCategory,
};
use crate::text::{
    chars_of, contains_chars, range_equals, str_equals, runs, seq_contains, str_contains, trim_non_alphanumeric,
    to_lowercase, lowercase, trim_non_alphanumeric_bounds, utf8_len, utf8_longer_than, word_char, word_runs, run_length, lemma_run_length_bounded, is_whitespace,
};

verus! {

/// Keywords that name a language, each with the language it names, in the order in
/// which they are tried.
pub open spec fn language_table() -> Seq<(Seq<char>, Seq<char>)> {
    seq![
        ("rust"@, "rust"@),
        ("borrow"@, "rust"@),
        ("crate"@, "rust"@),
        ("tokio"@, "rust"@),
        ("python"@, "python"@),
        ("django"@, "python"@),
        ("typescript"@, "typescript"@),
        ("javascript"@, "javascript"@),
        ("node"@, "javascript"@),
        ("go "@, "go"@),
        ("golang"@, "go"@),
        ("java "@, "java"@),
        ("kotlin"@, "kotlin"@),
        ("swift"@, "swift"@),
        ("c++"@, "cpp"@),
    ]
}

/// The value of the first entry of `table`, from index `i` on, whose key occurs in `text`.
pub open spec fn first_match(table: Seq<(Seq<char>, Seq<char>)>, text: Seq<char>, i: int) -> Option<
    Seq<char>,
>
    decreases table.len() - i,
{
    if i < 0 || i >= table.len() {
        None
    } else if seq_contains(text, table[i].0) {
        Some(table[i].1)
    } else {
        first_match(table, text, i + 1)
    }
}

/// The language that a lowercase task description mentions first in table order.
pub open spec fn detected_language(lower: Seq<char>) -> Option<Seq<char>> {
    first_match(language_table(), lower, 0)
}

/// The frameworks that are recognized, in the order in which they are tried.
pub open spec fn framework_table() -> Seq<(Seq<char>, Seq<char>)> {
    seq![
        ("tokio"@, "tokio"@),
        ("axum"@, "axum"@),
        ("actix"@, "actix"@),
        ("rocket"@, "rocket"@),
        ("warp"@, "warp"@),
        ("hyper"@, "hyper"@),
        ("reqwest"@, "reqwest"@),
        ("serde"@, "serde"@),
        ("diesel"@, "diesel"@),
        ("sqlx"@, "sqlx"@),
    ]
}

/// The first framework, in table order, that a lowercase task description mentions.
pub open spec fn detected_framework(lower: Seq<char>) -> Option<Seq<char>> {
    first_match(framework_table(), lower, 0)
}

fn first_table_match(table: &[(&str, &str)], lower: &str) -> (r: Option<String>)
    ensures
        opt_view(r) == first_match(
            table@.map_values(|e: (&str, &str)| (e.0@, e.1@)),
            lower@,
            0,
        ),
{
    let ghost t = table@.map_values(|e: (&str, &str)| (e.0@, e.1@));
    let mut i: usize = 0;
    while i < table.len()
        invariant
            i <= table.len(),
            t == table@.map_values(|e: (&str, &str)| (e.0@, e.1@)),
            first_match(t, lower@, 0) == first_match(t, lower@, i as int),
        decreases table.len() - i,
    {
        let (kw, name) = table[i];
        assert(t[i as int] == (kw@, name@));
        if str_contains(lower, kw) {
            return Some(name.to_string());
        }
        i = i + 1;
    }
    None
}

/// Detects the language that a lowercase task description mentions.
pub fn detect_language(lower: &str) -> (r: Option<String>)
    ensures
        opt_view(r) == detected_language(lower@),
{
    let table: [(&str, &str); 15] = [
        ("rust", "rust"),
        ("borrow", "rust"),
        ("crate", "rust"),
        ("tokio", "rust"),
        ("python", "python"),
        ("django", "python"),
        ("typescript", "typescript"),
        ("javascript", "javascript"),
        ("node", "javascript"),
        ("go ", "go"),
        ("golang", "go"),
        ("java ", "java"),
        ("kotlin", "kotlin"),
        ("swift", "swift"),
        ("c++", "cpp"),
    ];
    assert(table@.map_values(|e: (&str, &str)| (e.0@, e.1@)) =~= language_table());
    first_table_match(&table, lower)
}

/// Detects the framework that a lowercase task description mentions.
pub fn detect_framework(lower: &str) -> (r: Option<String>)
    ensures
        opt_view(r) == detected_framework(lower@),
{
    let table: [(&str, &str); 10] = [
        ("tokio", "tokio"),
        ("axum", "axum"),
        ("actix", "actix"),
        ("rocket", "rocket"),
        ("warp", "warp"),
        ("hyper", "hyper"),
        ("reqwest", "reqwest"),
        ("serde", "serde"),
        ("diesel", "diesel"),
        ("sqlx", "sqlx"),
    ];
    assert(table@.map_values(|e: (&str, &str)| (e.0@, e.1@)) =~= framework_table());
    first_table_match(&table, lower)
}

/// Words that are never keywords.
pub open spec fn stop_words() -> Seq<Seq<char>> {
    seq![
        "the"@, "a"@, "an"@, "in"@, "on"@, "at"@, "to"@, "for"@, "of"@, "and"@, "or"@, "is"@,
        "are"@, "be"@, "with"@, "as"@, "by"@, "this"@, "that"@, "it"@, "from"@, "use"@, "make"@,
        "create"@, "write"@, "implement"@, "add"@, "new"@, "function"@, "method"@, "class"@,
    ]
}

/// A trimmed word is kept as a keyword when its UTF-8 encoding is longer than two bytes
/// and it is not a stop word.
pub open spec fn is_keyword(w: Seq<char>) -> bool {
    utf8_len(w) > 2 && !stop_words().contains(w)
}

/// The keywords among the given words, each trimmed of non-alphanumeric characters at
/// both ends, in order.
pub open spec fn keywords_among(words: Seq<Seq<char>>) -> Seq<Seq<char>>
    decreases words.len(),
{
    if words.len() == 0 {
        seq![]
    } else {
        let prev = keywords_among(words.drop_last());
        let t = trim_non_alphanumeric(words.last());
        if is_keyword(t) {
            prev.push(t)
        } else {
            prev
        }
    }
}

/// The keywords of a lowercase task description: its whitespace-separated words,
/// trimmed of non-alphanumeric characters, longer than two bytes and not stop words.
pub open spec fn keywords_of(lower: Seq<char>) -> Seq<Seq<char>> {
    keywords_among(runs(lower, word_char(false)))
}

fn is_stop_word(v: &Vec<char>, lo: usize, hi: usize) -> (r: bool)
    requires
        lo <= hi <= v.len(),
    ensures
        r == stop_words().contains(v@.subrange(lo as int, hi as int)),
{
    let words: [&str; 31] = [
        "the", "a", "an", "in", "on", "at", "to", "for", "of", "and", "or", "is", "are", "be",
        "with", "as", "by", "this", "that", "it", "from", "use", "make", "create", "write",
        "implement", "add", "new", "function", "method", "class",
    ];
    let ghost sw = stop_words();
    assert(words@.map_values(|w: &str| w@) =~= sw);
    let ghost w = v@.subrange(lo as int, hi as int);
    let mut i: usize = 0;
    while i < 31
        invariant
            i <= 31,
            sw == stop_words(),
            sw.len() == 31,
            w == v@.subrange(lo as int, hi as int),
            lo <= hi <= v.len(),
            words@.map_values(|w: &str| w@) == sw,
            forall|k: int| 0 <= k < i ==> sw[k] != w,
        decreases 31 - i,
    {
        assert(sw[i as int] == words@[i as int]@);
        if range_equals(v, lo, hi, &chars_of(words[i])) {
            assert(sw[i as int] == w);
            return true;
        }
        i = i + 1;
    }
    false
}

/// Extracts the keywords of a lowercase task description.
pub fn extract_keywords(lower: &str) -> (r: Vec<String>)
    ensures
        string_views(r@) == keywords_of(lower@),
{
    let v = chars_of(lower);
    let words = word_runs(&v, 0, v.len(), false);
    let ghost ws = runs(v@.subrange(0, v@.len() as int), word_char(false));
    assert(v@.subrange(0, v@.len() as int) =~= v@);
    let mut out: Vec<String> = Vec::new();
    let mut i: usize = 0;
    while i < words.len()
        invariant
            v@ == lower@,
            i <= words.len(),
            ws == runs(v@, word_char(false)),
            ws.len() == words.len(),
            forall|j: int| 0 <= j < words.len() ==> ws[j] == v@.subrange(
                (#[trigger] words@[j]).0 as int,
                words@[j].1 as int,
            ),
            forall|j: int| 0 <= j < words.len() ==> 0 <= (#[trigger] words@[j]).0 <= words@[j].1
                <= v.len(),
            string_views(out@) == keywords_among(ws.take(i as int)),
        decreases words.len() - i,
    {
        let (lo, hi) = words[i];
        let (a, b) = trim_non_alphanumeric_bounds(&v, lo, hi);
        let t = lower.substring_char(a, b);
        assert(ws.take(i + 1).drop_last() =~= ws.take(i as int));
        assert(ws.take(i + 1).last() == ws[i as int]);
        assert(t@ == trim_non_alphanumeric(ws[i as int]));
        let long = utf8_longer_than(&v, a, b, 2);
        let keep = long && !is_stop_word(&v, a, b);
        assert(keep == is_keyword(t@));
        if keep {
            let ghost old_out = out@;
            out.push(t.to_string());
            assert(string_views(out@) =~= string_views(old_out).push(t@));
        }
        i = i + 1;
    }
    assert(ws.take(words.len() as int) =~= ws);
    out
}

/// `text` contains at least one of the given words.
pub open spec fn mentions_any(text: Seq<char>, words: Seq<Seq<char>>) -> bool {
    exists|i: int| 0 <= i < words.len() && seq_contains(text, #[trigger] words[i])
}

/// The category hints of a lowercase task description, in this fixed order:
/// error handling, async, builder, factory, observer, state machine, strategy,
/// repository, decorator, iterator, RAII.
pub open spec fn category_hints_of(l: Seq<char>) -> Seq<CategoryView> {
    hints_for_flags(
        mentions_any(l, seq!["error"@, "result"@, "exception"@]),
        mentions_any(l, seq!["async"@, "await"@, "concurrent"@]),
        mentions_any(l, seq!["build"@, "construct"@, "configure"@]),
        mentions_any(l, seq!["factory"@, "create"@, "new"@]),
        mentions_any(l, seq!["observ"@, "subscribe"@, "notify"@]),
        seq_contains(l, "state"@) && seq_contains(l, "machine"@),
        mentions_any(l, seq!["strategy"@, "algorithm"@]),
        mentions_any(l, seq!["repository"@, "dao"@, "store"@]),
        mentions_any(l, seq!["decorat"@, "wrap"@]),
        mentions_any(l, seq!["iter"@, "map"@, "fold"@]),
        mentions_any(l, seq!["raii"@, "drop"@, "guard"@]),
    )
}

/// The categories whose flags are set, in the fixed hint order.
pub open spec fn hints_for_flags(
    error: bool,
    async_: bool,
    builder: bool,
    factory: bool,
    observer: bool,
    state_machine: bool,
    strategy: bool,
    repository: bool,
    decorator: bool,
    iterator: bool,
    raii: bool,
) -> Seq<CategoryView> {
    let h1 = push_when(Seq::<CategoryView>::empty(), error, CategoryView::ErrorHandling);
    let h2 = push_when(h1, async_, CategoryView::Async);
    let h3 = push_when(h2, builder, CategoryView::Builder);
    let h4 = push_when(h3, factory, CategoryView::Factory);
    let h5 = push_when(h4, observer, CategoryView::Observer);
    let h6 = push_when(h5, state_machine, CategoryView::StateMachine);
    let h7 = push_when(h6, strategy, CategoryView::Strategy);
    let h8 = push_when(h7, repository, CategoryView::Repository);
    let h9 = push_when(h8, decorator, CategoryView::Decorator);
    let h10 = push_when(h9, iterator, CategoryView::Iterator);
    push_when(h10, raii, CategoryView::Raii)
}

/// `h` with `c` appended when `cond` holds.
#[verifier::opaque]
pub open spec fn push_when(h: Seq<CategoryView>, cond: bool, c: CategoryView) -> Seq<CategoryView> {
    if cond {
        h.push(c)
    } else {
        h
    }
}

/// The views of a list of categories.
pub open spec fn categories_view(v: Seq<PatternCategory>) -> Seq<CategoryView> {
    v.map_values(|c: PatternCategory| c@)
}

fn mentions_any_exec(lower: &Vec<char>, words: &[&str]) -> (r: bool)
    ensures
        r == mentions_any(lower@, words@.map_values(|w: &str| w@)),
{
    let ghost ws = words@.map_values(|w: &str| w@);
    let mut i: usize = 0;
    while i < words.len()
        invariant
            i <= words.len(),
            ws == words@.map_values(|w: &str| w@),
            forall|k: int| 0 <= k < i ==> !seq_contains(lower@, #[trigger] ws[k]),
        decreases words.len() - i,
    {
        assert(ws[i as int] == words@[i as int]@);
        if contains_chars(lower, &chars_of(words[i])) {
            return true;
        }
        i = i + 1;
    }
    false
}

fn push_if(hints: &mut Vec<PatternCategory>, cond: bool, c: PatternCategory)
    ensures
        categories_view(final(hints)@) == push_when(categories_view(old(hints)@), cond, c@),
{
    reveal(push_when);
    let ghost before = hints@;
    if cond {
        hints.push(c);
        assert(categories_view(hints@) =~= categories_view(before).push(c@));
    }
}

/// Detects the pattern categories that a lowercase task description hints at.
pub fn detect_category_hints(lower: &str) -> (r: Vec<PatternCategory>)
    ensures
        categories_view(r@) == category_hints_of(lower@),
{
    let l = chars_of(lower);
    let mut hints: Vec<PatternCategory> = Vec::new();
    assert(categories_view(hints@) =~= Seq::<CategoryView>::empty());
    let w1: [&str; 3] = ["error", "result", "exception"];
    assert(w1@.map_values(|w: &str| w@) =~= seq!["error"@, "result"@, "exception"@]);
    push_if(&mut hints, mentions_any_exec(&l, &w1), PatternCategory::ErrorHandling);
    let w2: [&str; 3] = ["async", "await", "concurrent"];
    assert(w2@.map_values(|w: &str| w@) =~= seq!["async"@, "await"@, "concurrent"@]);
    push_if(&mut hints, mentions_any_exec(&l, &w2), PatternCategory::Async);
    let w3: [&str; 3] = ["build", "construct", "configure"];
    assert(w3@.map_values(|w: &str| w@) =~= seq!["build"@, "construct"@, "configure"@]);
    push_if(&mut hints, mentions_any_exec(&l, &w3), PatternCategory::Builder);
    let w4: [&str; 3] = ["factory", "create", "new"];
    assert(w4@.map_values(|w: &str| w@) =~= seq!["factory"@, "create"@, "new"@]);
    push_if(&mut hints, mentions_any_exec(&l, &w4), PatternCategory::Factory);
    let w5: [&str; 3] = ["observ", "subscribe", "notify"];
    assert(w5@.map_values(|w: &str| w@) =~= seq!["observ"@, "subscribe"@, "notify"@]);
    push_if(&mut hints, mentions_any_exec(&l, &w5), PatternCategory::Observer);
    let state_machine = contains_chars(&l, &chars_of("state")) && contains_chars(
        &l,
        &chars_of("machine"),
    );
    push_if(&mut hints, state_machine, PatternCategory::StateMachine);
    let w7: [&str; 2] = ["strategy", "algorithm"];
    assert(w7@.map_values(|w: &str| w@) =~= seq!["strategy"@, "algorithm"@]);
    push_if(&mut hints, mentions_any_exec(&l, &w7), PatternCategory::Strategy);
    let w8: [&str; 3] = ["repository", "dao", "store"];
    assert(w8@.map_values(|w: &str| w@) =~= seq!["repository"@, "dao"@, "store"@]);
    push_if(&mut hints, mentions_any_exec(&l, &w8), PatternCategory::Repository);
    let w9: [&str; 2] = ["decorat", "wrap"];
    assert(w9@.map_values(|w: &str| w@) =~= seq!["decorat"@, "wrap"@]);
    push_if(&mut hints, mentions_any_exec(&l, &w9), PatternCategory::Decorator);
    let w10: [&str; 3] = ["iter", "map", "fold"];
    assert(w10@.map_values(|w: &str| w@) =~= seq!["iter"@, "map"@, "fold"@]);
    push_if(&mut hints, mentions_any_exec(&l, &w10), PatternCategory::Iterator);
    let w11: [&str; 3] = ["raii", "drop", "guard"];
    assert(w11@.map_values(|w: &str| w@) =~= seq!["raii"@, "drop"@, "guard"@]);
    push_if(&mut hints, mentions_any_exec(&l, &w11), PatternCategory::Raii);
    hints
}

/// The keywords associated with each category (none for custom categories).
pub open spec fn category_keywords(c: CategoryView) -> Seq<Seq<char>> {
    match c {
        CategoryView::ErrorHandling => seq![
            "error"@,
            "result"@,
            "option"@,
            "handle"@,
            "parse"@,
            "panic"@,
        ],
        CategoryView::Async => seq![
            "async"@,
            "await"@,
            "tokio"@,
            "spawn"@,
            "future"@,
            "concurrent"@,
        ],
        CategoryView::Builder => seq!["builder"@, "construct"@, "create"@, "config"@, "chain"@],
        CategoryView::Factory => seq!["factory"@, "create"@, "new"@, "instantiate"@],
        CategoryView::Observer => seq![
            "observer"@,
            "subscribe"@,
            "publish"@,
            "notify"@,
            "listener"@,
        ],
        CategoryView::StateMachine => seq!["state"@, "machine"@, "transition"@, "finite"@],
        CategoryView::Strategy => seq!["strategy"@, "algorithm"@, "policy"@],
        CategoryView::Repository => seq!["repository"@, "dao"@, "store"@, "persist"@],
        CategoryView::Decorator => seq!["decorator"@, "wrap"@, "middleware"@, "intercept"@],
        CategoryView::Iterator => seq!["iter"@, "map"@, "fold"@, "collect"@, "filter"@],
        CategoryView::Raii => seq!["raii"@, "drop"@, "guard"@, "scope"@, "lifetime"@],
        CategoryView::Custom(_) => seq![],
    }
}

/// The keywords associated with a pattern category.
pub fn keywords_for_category(category: &PatternCategory) -> (r: Vec<&'static str>)
    ensures
        r@.map_values(|w: &str| w@) == category_keywords(category@),
{
    let r = match category {
        PatternCategory::ErrorHandling => vec!["error", "result", "option", "handle", "parse", "panic"],
        PatternCategory::Async => vec!["async", "await", "tokio", "spawn", "future", "concurrent"],
        PatternCategory::Builder => vec!["builder", "construct", "create", "config", "chain"],
        PatternCategory::Factory => vec!["factory", "create", "new", "instantiate"],
        PatternCategory::Observer => vec!["observer", "subscribe", "publish", "notify", "listener"],
        PatternCategory::StateMachine => vec!["state", "machine", "transition", "finite"],
        PatternCategory::Strategy => vec!["strategy", "algorithm", "policy"],
        PatternCategory::Repository => vec!["repository", "dao", "store", "persist"],
        PatternCategory::Decorator => vec!["decorator", "wrap", "middleware", "intercept"],
        PatternCategory::Iterator => vec!["iter", "map", "fold", "collect", "filter"],
        PatternCategory::Raii => vec!["raii", "drop", "guard", "scope", "lifetime"],
        PatternCategory::Custom(_) => vec![],
    };
    assert(r@.map_values(|w: &str| w@) =~= category_keywords(category@));
    r
}

/// Hints extracted from a task description.
#[derive(Debug, PartialEq)]
pub struct TaskHints {
    /// Programming language mentioned in the task.
    pub language: Option<String>,
    /// Framework mentioned (e.g. "tokio", "axum").
    pub framework: Option<String>,
    /// Keywords extracted from the task.
    pub keywords: Vec<String>,
    /// Category hints (e.g. error handling, async).
    pub category_hints: Vec<PatternCategory>,
}

/// The mathematical value of [`TaskHints`].
pub struct HintsView {
    pub language: Option<Seq<char>>,
    pub framework: Option<Seq<char>>,
    pub keywords: Seq<Seq<char>>,
    pub category_hints: Seq<CategoryView>,
}

impl View for TaskHints {
    type V = HintsView;

    open spec fn view(&self) -> HintsView {
        HintsView {
            language: opt_view(self.language),
            framework: opt_view(self.framework),
            keywords: string_views(self.keywords@),
            category_hints: categories_view(self.category_hints@),
        }
    }
}

fn clone_categories(v: &Vec<PatternCategory>) -> (r: Vec<PatternCategory>)
    ensures
        categories_view(r@) == categories_view(v@),
{
    let mut r: Vec<PatternCategory> = Vec::new();
    let mut i: usize = 0;
    while i < v.len()
        invariant
            i <= v.len(),
            r.len() == i,
            forall|j: int| 0 <= j < i ==> (#[trigger] r@[j])@ == v@[j]@,
        decreases v.len() - i,
    {
        r.push(v[i].clone());
        i = i + 1;
    }
    assert(categories_view(r@) =~= categories_view(v@));
    r
}

impl Clone for TaskHints {
    fn clone(&self) -> (r: Self)
        ensures
            r@ == self@,
    {
        TaskHints {
            language: clone_opt_string(&self.language),
            framework: clone_opt_string(&self.framework),
            keywords: clone_strings(&self.keywords),
            category_hints: clone_categories(&self.category_hints),
        }
    }
}

impl Default for TaskHints {
    fn default() -> (r: Self)
        ensures
            r@ == (HintsView {
                language: None,
                framework: None,
                keywords: seq![],
                category_hints: seq![],
            }),
    {
        let r = TaskHints {
            language: None,
            framework: None,
            keywords: Vec::new(),
            category_hints: Vec::new(),
        };
        assert(string_views(r.keywords@) =~= seq![]);
        assert(categories_view(r.category_hints@) =~= seq![]);
        r
    }
}

/// The hints of a lowercase task description.
pub open spec fn hints_of(lower: Seq<char>) -> HintsView {
    HintsView {
        language: detected_language(lower),
        framework: detected_framework(lower),
        keywords: keywords_of(lower),
        category_hints: category_hints_of(lower),
    }
}

/// Scores patterns against a task description.
#[derive(Debug, Clone, Copy, Default)]
pub struct RelevanceScorer;

/// The parts of a relevance score that do not involve the success rate: whether the
/// language, framework and category match, and how many of the pattern category's
/// keywords the task mentions.
#[derive(Debug, Clone, Copy, PartialEq, Eq, Structural)]
pub struct ScoreComponents {
    /// The task names the pattern's language.
    pub language_match: bool,
    /// The task names the pattern's framework.
    pub framework_match: bool,
    /// The task hints at the pattern's category.
    pub category_match: bool,
    /// How many keywords of the pattern's category are among the task's keywords.
    pub keyword_hits: usize,
    /// How many keywords the pattern's category has.
    pub keyword_total: usize,
}

/// How many of the words in `candidates` occur in `words`.
pub open spec fn count_present(candidates: Seq<Seq<char>>, words: Seq<Seq<char>>) -> nat
    decreases candidates.len(),
{
    if candidates.len() == 0 {
        0
    } else {
        count_present(candidates.drop_last(), words) + if words.contains(candidates.last()) {
            1nat
        } else {
            0nat
        }
    }
}

proof fn lemma_count_present_bounded(candidates: Seq<Seq<char>>, words: Seq<Seq<char>>)
    ensures
        count_present(candidates, words) <= candidates.len(),
    decreases candidates.len(),
{
    if candidates.len() > 0 {
        lemma_count_present_bounded(candidates.drop_last(), words);
    }
}

/// The score components of a pattern (its category, language and framework) against
/// task hints.
pub open spec fn components_of(
    category: CategoryView,
    language: Seq<char>,
    framework: Option<Seq<char>>,
    hints: HintsView,
) -> (bool, bool, bool, nat, nat) {
    (
        hints.language == Some(language),
        hints.framework is Some && framework == hints.framework,
        hints.category_hints.contains(category),
        if hints.keywords.len() == 0 {
            0
        } else {
            count_present(category_keywords(category), hints.keywords)
        },
        category_keywords(category).len(),
    )
}

fn strings_contain(words: &Vec<String>, w: &str) -> (r: bool)
    ensures
        r == string_views(words@).contains(w@),
{
    let ghost ws = string_views(words@);
    let mut i: usize = 0;
    while i < words.len()
        invariant
            i <= words.len(),
            ws == string_views(words@),
            forall|k: int| 0 <= k < i ==> ws[k] != w@,
        decreases words.len() - i,
    {
        if str_equals(words[i].as_str(), w) {
            assert(ws[i as int] == w@);
            return true;
        }
        i = i + 1;
    }
    false
}

fn categories_contain(cats: &Vec<PatternCategory>, c: &PatternCategory) -> (r: bool)
    ensures
        r == categories_view(cats@).contains(c@),
{
    let ghost cs = categories_view(cats@);
    let mut i: usize = 0;
    while i < cats.len()
        invariant
            i <= cats.len(),
            cs == categories_view(cats@),
            forall|k: int| 0 <= k < i ==> cs[k] != c@,
        decreases cats.len() - i,
    {
        if cats[i].eq(c) {
            assert(cs[i as int] == c@);
            return true;
        }
        i = i + 1;
    }
    false
}

fn opt_str_eq(a: &Option<String>, b: &Option<String>) -> (r: bool)
    ensures
        r == (opt_view(*a) == opt_view(*b)),
{
    match (a, b) {
        (Some(x), Some(y)) => x.eq(y),
        (None, None) => true,
        _ => false,
    }
}

impl RelevanceScorer {
    /// Constructs a new scorer.
    pub fn new() -> (r: Self) {
        RelevanceScorer
    }

    /// Extracts hints from a free-form task description: the hints of its lowercase form.
    pub fn extract_hints(&self, task: &str) -> (r: TaskHints)
        ensures
            r@ == hints_of(lowercase(task@)),
    {
        let lower = to_lowercase(task);
        self.hints_from_lowercase(lower.as_str())
    }

    /// The hints of a task description that is already in lowercase.
    pub fn hints_from_lowercase(&self, lower: &str) -> (r: TaskHints)
        ensures
            r@ == hints_of(lower@),
    {
        TaskHints {
            language: detect_language(lower),
            framework: detect_framework(lower),
            keywords: extract_keywords(lower),
            category_hints: detect_category_hints(lower),
        }
    }

    /// The parts of a pattern's relevance score that do not involve its success rate.
    pub fn score_components(&self, pattern: &CodePattern, hints: &TaskHints) -> (r: ScoreComponents)
        ensures
            (r.language_match, r.framework_match, r.category_match, r.keyword_hits as nat,
                r.keyword_total as nat) == components_of(
                pattern.pattern_type@,
                pattern.context.language@,
                opt_view(pattern.context.framework),
                hints@,
            ),
    {
        let language_match = match &hints.language {
            Some(lang) => pattern.context.language.eq(lang),
            None => false,
        };
        let framework_match = match &hints.framework {
            Some(_) => opt_str_eq(&pattern.context.framework, &hints.framework),
            None => false,
        };
        let category_match = categories_contain(&hints.category_hints, &pattern.pattern_type);
        let pat_keywords = keywords_for_category(&pattern.pattern_type);
        let ghost pk = category_keywords(pattern.pattern_type@);
        let ghost hk = string_views(hints.keywords@);
        let mut hits: usize = 0;
        if hints.keywords.len() > 0 {
            let mut i: usize = 0;
            while i < pat_keywords.len()
                invariant
                    i <= pat_keywords.len(),
                    pat_keywords@.map_values(|w: &str| w@) == pk,
                    hk == string_views(hints.keywords@),
                    hits == count_present(pk.take(i as int), hk),
                    hits <= i,
                decreases pat_keywords.len() - i,
            {
                assert(pk.take(i + 1).drop_last() =~= pk.take(i as int));
                assert(pk[i as int] == pat_keywords@[i as int]@);
                if strings_contain(&hints.keywords, pat_keywords[i]) {
                    hits = hits + 1;
                }
                i = i + 1;
            }
            assert(pk.take(pat_keywords.len() as int) =~= pk);
        } else {
            assert(hk.len() == 0);
        }
        ScoreComponents {
            language_match,
            framework_match,
            category_match,
            keyword_hits: hits,
            keyword_total: pat_keywords.len(),
        }
    }
}

/// `order` lists the indices of `keys` from the largest key to the smallest, each index
/// exactly once, with equal keys in increasing index order (a stable descending sort).
pub open spec fn is_rank_order(keys: Seq<u32>, order: Seq<usize>) -> bool {
    &&& order.len() == keys.len()
    &&& forall|i: int| 0 <= i < order.len() ==> (#[trigger] order[i]) < keys.len()
    &&& forall|i: int, j: int| 0 <= i < j < order.len() ==> order[i] != order[j]
    &&& forall|i: int, j: int|
        0 <= i < j < order.len() ==> keys[#[trigger] order[i] as int] >= keys[#[trigger] order[j] as int]
    &&& forall|i: int, j: int|
        0 <= i < j < order.len() && keys[order[i] as int] == keys[order[j] as int] ==> #[trigger] order[i]
            < #[trigger] order[j]
}

/// `order` is a stable descending order of the first `n` indices of `keys`.
pub open spec fn is_rank_order_prefix(keys: Seq<u32>, order: Seq<usize>, n: int) -> bool {
    &&& order.len() == n
    &&& forall|i: int| 0 <= i < order.len() ==> (#[trigger] order[i]) < n
    &&& forall|i: int, j: int| 0 <= i < j < order.len() ==> order[i] != order[j]
    &&& forall|i: int, j: int|
        0 <= i < j < order.len() ==> keys[#[trigger] order[i] as int] >= keys[#[trigger] order[j] as int]
    &&& forall|i: int, j: int|
        0 <= i < j < order.len() && keys[order[i] as int] == keys[order[j] as int] ==> #[trigger] order[i]
            < #[trigger] order[j]
}

/// Orders the indices of `keys` by descending key, keeping equal keys in index order.
pub fn rank_order(keys: &Vec<u32>) -> (order: Vec<usize>)
    ensures
        is_rank_order(keys@, order@),
{
    let ghost ks = keys@;
    let mut order: Vec<usize> = Vec::new();
    let mut k: usize = 0;
    while k < keys.len()
        invariant
            k <= keys.len(),
            ks == keys@,
            is_rank_order_prefix(ks, order@, k as int),
        decreases keys.len() - k,
    {
        let key = keys[k];
        let mut p: usize = 0;
        while p < order.len() && keys[order[p]] >= key
            invariant
                p <= order.len(),
                ks == keys@,
                key == ks[k as int],
                is_rank_order_prefix(ks, order@, k as int),
                k < keys.len(),
                forall|q: int| 0 <= q < p ==> ks[#[trigger] order@[q] as int] >= key,
            decreases order.len() - p,
        {
            p = p + 1;
        }
        let ghost old_order = order@;
        proof {
            assert forall|q: int| p <= q < old_order.len() implies ks[#[trigger] old_order[q] as int]
                < key by {
                if q > p {
                    assert(ks[old_order[p as int] as int] >= ks[old_order[q] as int]);
                }
            }
        }
        order.insert(p, k);
        proof {
            let o = order@;
            assert(o == old_order.insert(p as int, k));
            assert forall|i: int| 0 <= i < o.len() implies (#[trigger] o[i]) < k + 1 by {
                if i < p {
                    assert(o[i] == old_order[i]);
                } else if i > p {
                    assert(o[i] == old_order[i - 1]);
                }
            }
            assert forall|i: int, j: int| 0 <= i < j < o.len() implies o[i] != o[j] by {
                if i < p && j < p {
                    assert(o[i] == old_order[i] && o[j] == old_order[j]);
                } else if i < p && j == p {
                    assert(o[i] == old_order[i]);
                } else if i < p && j > p {
                    assert(o[i] == old_order[i] && o[j] == old_order[j - 1]);
                } else if i == p {
                    assert(o[j] == old_order[j - 1]);
                } else {
                    assert(o[i] == old_order[i - 1] && o[j] == old_order[j - 1]);
                }
            }
            assert forall|i: int, j: int| 0 <= i < j < o.len() implies ks[#[trigger] o[i] as int]
                >= ks[#[trigger] o[j] as int] by {
                if i < p && j < p {
                    assert(o[i] == old_order[i] && o[j] == old_order[j]);
                } else if i < p && j == p {
                    assert(o[i] == old_order[i]);
                } else if i < p && j > p {
                    assert(o[i] == old_order[i] && o[j] == old_order[j - 1]);
                    assert(ks[old_order[j - 1] as int] < key);
                } else if i == p {
                    assert(o[j] == old_order[j - 1]);
                    assert(ks[old_order[j - 1] as int] < key);
                } else {
                    assert(o[i] == old_order[i - 1] && o[j] == old_order[j - 1]);
                }
            }
            assert forall|i: int, j: int|
                0 <= i < j < o.len() && ks[o[i] as int] == ks[o[j] as int] implies #[trigger] o[i]
                < #[trigger] o[j] by {
                if i < p && j < p {
                    assert(o[i] == old_order[i] && o[j] == old_order[j]);
                } else if i < p && j == p {
                    assert(o[i] == old_order[i]);
                } else if i < p && j > p {
                    assert(o[i] == old_order[i] && o[j] == old_order[j - 1]);
                    assert(ks[old_order[j - 1] as int] < key);
                } else if i == p {
                    assert(o[j] == old_order[j - 1]);
                    assert(ks[old_order[j - 1] as int] < key);
                } else {
                    assert(o[i] == old_order[i - 1] && o[j] == old_order[j - 1]);
                }
            }
        }
        k = k + 1;
    }
    order
}

/// A rank order lists every index of `keys`.
proof fn lemma_rank_order_covers(keys: Seq<u32>, order: Seq<usize>, v: int) -> (i: int)
    requires
        is_rank_order(keys, order),
        0 <= v < keys.len(),
    ensures
        0 <= i < order.len(),
        order[i] == v,
{
    let n = keys.len() as int;
    let s = order.map_values(|x: usize| x as int);
    assert forall|i: int, j: int| 0 <= i < s.len() && 0 <= j < s.len() && i != j implies s[i]
        != s[j] by {
        if i < j {
            assert(order[i] != order[j]);
        } else {
            assert(order[j] != order[i]);
        }
    }
    s.unique_seq_to_set();
    vstd::set_lib::lemma_int_range(0, n);
    let r = vstd::set_lib::set_int_range(0, n);
    assert forall|x: int| s.to_set().contains(x) implies r.contains(x) by {
        let k = choose|k: int| 0 <= k < s.len() && s[k] == x;
        assert(order[k] < keys.len());
    }
    vstd::seq_lib::seq_to_set_is_finite(s);
    vstd::set_lib::lemma_subset_equality(s.to_set(), r);
    assert(r.contains(v));
    assert(s.to_set().contains(v));
    let k = choose|k: int| 0 <= k < s.len() && s[k] == v;
    k
}

proof fn lemma_rank_orders_agree_below(keys: Seq<u32>, a: Seq<usize>, b: Seq<usize>, i: int)
    requires
        is_rank_order(keys, a),
        is_rank_order(keys, b),
        0 <= i <= a.len(),
    ensures
        forall|j: int| 0 <= j < i ==> a[j] == b[j],
    decreases i,
{
    if i > 0 {
        lemma_rank_orders_agree_below(keys, a, b, i - 1);
        let k = i - 1;
        let x = a[k];
        let y = b[k];
        if x != y {
            let p = lemma_rank_order_covers(keys, a, y as int);
            let q = lemma_rank_order_covers(keys, b, x as int);
            if p < k {
                assert(b[p] == a[p]);
                assert(b[p] != b[k]);
            }
            if q < k {
                assert(a[q] == b[q]);
                assert(a[q] != a[k]);
            }
            assert(p > k && q > k);
            assert(keys[a[k] as int] >= keys[a[p] as int]);
            assert(keys[b[k] as int] >= keys[b[q] as int]);
            assert(a[k] < a[p]);
            assert(b[k] < b[q]);
        }
    }
}

/// The rank order of a list of keys is unique: any two stable descending orders of the
/// same keys are equal, so ranking is determined by the scores alone.
pub proof fn lemma_rank_order_unique(keys: Seq<u32>, a: Seq<usize>, b: Seq<usize>)
    requires
        is_rank_order(keys, a),
        is_rank_order(keys, b),
    ensures
        a == b,
{
    lemma_rank_orders_agree_below(keys, a, b, a.len() as int);
    assert(a =~= b);
}

/// Every extracted keyword is longer than two bytes in UTF-8 and is not a stop word, and
/// there are no more keywords than words.
pub proof fn lemma_keywords_are_keywords(words: Seq<Seq<char>>)
    ensures
        keywords_among(words).len() <= words.len(),
        forall|i: int| 0 <= i < keywords_among(words).len() ==> is_keyword(#[trigger] keywords_among(words)[i]),
    decreases words.len(),
{
    if words.len() > 0 {
        lemma_keywords_are_keywords(words.drop_last());
        let prev = keywords_among(words.drop_last());
        let t = trim_non_alphanumeric(words.last());
        if is_keyword(t) {
            assert forall|i: int| 0 <= i < prev.push(t).len() implies is_keyword(#[trigger] prev.push(t)[i]) by {
                if i < prev.len() {
                    assert(prev.push(t)[i] == prev[i]);
                }
            }
        }
    }
}

/// The position of each built-in category in the order in which hints are detected.
spec fn hint_rank(c: CategoryView) -> int {
    match c {
        CategoryView::ErrorHandling => 0,
        CategoryView::Async => 1,
        CategoryView::Builder => 2,
        CategoryView::Factory => 3,
        CategoryView::Observer => 4,
        CategoryView::StateMachine => 5,
        CategoryView::Strategy => 6,
        CategoryView::Repository => 7,
        CategoryView::Decorator => 8,
        CategoryView::Iterator => 9,
        CategoryView::Raii => 10,
        CategoryView::Custom(_) => 11,
    }
}

proof fn lemma_push_when(h: Seq<CategoryView>, cond: bool, c: CategoryView, k: int)
    requires
        h.no_duplicates(),
        forall|i: int| 0 <= i < h.len() ==> hint_rank(#[trigger] h[i]) < k,
        hint_rank(c) == k,
    ensures
        push_when(h, cond, c).no_duplicates(),
        forall|i: int| 0 <= i < push_when(h, cond, c).len() ==> hint_rank(#[trigger] push_when(h, cond, c)[i]) < k + 1,
{
    reveal(push_when);
    if cond {
        let g = h.push(c);
        assert forall|i: int| 0 <= i < g.len() implies hint_rank(#[trigger] g[i]) < k + 1 by {
            if i < h.len() {
                assert(g[i] == h[i]);
            }
        }
        assert forall|i: int, j: int| 0 <= i < g.len() && 0 <= j < g.len() && i != j implies g[i] != g[j] by {
            if i < h.len() && j < h.len() {
                assert(g[i] == h[i] && g[j] == h[j]);
            } else if i < h.len() {
                assert(g[i] == h[i]);
                assert(hint_rank(g[i]) < k);
            } else {
                assert(g[j] == h[j]);
                assert(hint_rank(g[j]) < k);
            }
        }
    }
}

proof fn lemma_hints_for_flags_distinct(
    c1: bool,
    c2: bool,
    c3: bool,
    c4: bool,
    c5: bool,
    c6: bool,
    c7: bool,
    c8: bool,
    c9: bool,
    c10: bool,
    c11: bool,
)
    ensures
        hints_for_flags(c1, c2, c3, c4, c5, c6, c7, c8, c9, c10, c11).no_duplicates(),
{
    let h0 = Seq::<CategoryView>::empty();
    let h1 = push_when(h0, c1, CategoryView::ErrorHandling);
    lemma_push_when(h0, c1, CategoryView::ErrorHandling, 0);
    let h2 = push_when(h1, c2, CategoryView::Async);
    lemma_push_when(h1, c2, CategoryView::Async, 1);
    let h3 = push_when(h2, c3, CategoryView::Builder);
    lemma_push_when(h2, c3, CategoryView::Builder, 2);
    let h4 = push_when(h3, c4, CategoryView::Factory);
    lemma_push_when(h3, c4, CategoryView::Factory, 3);
    let h5 = push_when(h4, c5, CategoryView::Observer);
    lemma_push_when(h4, c5, CategoryView::Observer, 4);
    let h6 = push_when(h5, c6, CategoryView::StateMachine);
    lemma_push_when(h5, c6, CategoryView::StateMachine, 5);
    let h7 = push_when(h6, c7, CategoryView::Strategy);
    lemma_push_when(h6, c7, CategoryView::Strategy, 6);
    let h8 = push_when(h7, c8, CategoryView::Repository);
    lemma_push_when(h7, c8, CategoryView::Repository, 7);
    let h9 = push_when(h8, c9, CategoryView::Decorator);
    lemma_push_when(h8, c9, CategoryView::Decorator, 8);
    let h10 = push_when(h9, c10, CategoryView::Iterator);
    lemma_push_when(h9, c10, CategoryView::Iterator, 9);
    lemma_push_when(h10, c11, CategoryView::Raii, 10);
}

/// Each category is hinted at most once.
pub proof fn lemma_category_hints_distinct(l: Seq<char>)
    ensures
        category_hints_of(l).no_duplicates(),
{
    lemma_hints_for_flags_distinct(
        mentions_any(l, seq!["error"@, "result"@, "exception"@]),
        mentions_any(l, seq!["async"@, "await"@, "concurrent"@]),
        mentions_any(l, seq!["build"@, "construct"@, "configure"@]),
        mentions_any(l, seq!["factory"@, "create"@, "new"@]),
        mentions_any(l, seq!["observ"@, "subscribe"@, "notify"@]),
        seq_contains(l, "state"@) && seq_contains(l, "machine"@),
        mentions_any(l, seq!["strategy"@, "algorithm"@]),
        mentions_any(l, seq!["repository"@, "dao"@, "store"@]),
        mentions_any(l, seq!["decorat"@, "wrap"@]),
        mentions_any(l, seq!["iter"@, "map"@, "fold"@]),
        mentions_any(l, seq!["raii"@, "drop"@, "guard"@]),
    );
}

/// A run stops at a separator that is not a run character.
proof fn lemma_run_length_before_separator(a: Seq<char>, c: char, b: Seq<char>, p: spec_fn(char) -> bool)
    requires
        !p(c),
    ensures
        run_length(a + seq![c] + b, p) == run_length(a, p),
    decreases a.len(),
{
    let z = a + seq![c] + b;
    if a.len() == 0 {
        assert(z[0] == c);
    } else {
        assert(z[0] == a[0]);
        if p(a[0]) {
            assert(z.drop_first() =~= a.drop_first() + seq![c] + b);
            lemma_run_length_before_separator(a.drop_first(), c, b, p);
        }
    }
}

/// The runs of two texts joined by a separator that is not a run character are the runs
/// of the first text followed by those of the second.
proof fn lemma_runs_split(a: Seq<char>, c: char, b: Seq<char>, p: spec_fn(char) -> bool)
    requires
        !p(c),
    ensures
        runs(a + seq![c] + b, p) == runs(a, p) + runs(b, p),
    decreases a.len(),
{
    let z = a + seq![c] + b;
    if a.len() == 0 {
        assert(z[0] == c);
        assert(z.drop_first() =~= b);
        assert(runs(a, p) + runs(b, p) =~= runs(b, p));
    } else if !p(a[0]) {
        assert(z[0] == a[0]);
        assert(z.drop_first() =~= a.drop_first() + seq![c] + b);
        lemma_runs_split(a.drop_first(), c, b, p);
    } else {
        assert(z[0] == a[0]);
        lemma_run_length_before_separator(a, c, b, p);
        lemma_run_length_bounded(a, p);
        let k = run_length(a, p) as int;
        assert(z.take(k) =~= a.take(k));
        assert(z.skip(k) =~= a.skip(k) + seq![c] + b);
        lemma_runs_split(a.skip(k), c, b, p);
        assert(runs(z, p) == seq![a.take(k)] + runs(z.skip(k), p));
        assert(runs(a, p) == seq![a.take(k)] + runs(a.skip(k), p));
        assert(seq![a.take(k)] + (runs(a.skip(k), p) + runs(b, p)) =~= (seq![a.take(k)] + runs(
            a.skip(k),
            p,
        )) + runs(b, p));
    }
}

/// The keywords among two lists of words are the keywords among the first list followed
/// by those among the second.
proof fn lemma_keywords_among_concat(w1: Seq<Seq<char>>, w2: Seq<Seq<char>>)
    ensures
        keywords_among(w1 + w2) == keywords_among(w1) + keywords_among(w2),
    decreases w2.len(),
{
    if w2.len() == 0 {
        assert(w1 + w2 =~= w1);
        assert(keywords_among(w1) + keywords_among(w2) =~= keywords_among(w1));
    } else {
        let w = w1 + w2;
        assert(w.drop_last() =~= w1 + w2.drop_last());
        assert(w.last() == w2.last());
        lemma_keywords_among_concat(w1, w2.drop_last());
        let t = trim_non_alphanumeric(w2.last());
        if is_keyword(t) {
            assert((keywords_among(w1) + keywords_among(w2.drop_last())).push(t) =~= keywords_among(w1)
                + keywords_among(w2.drop_last()).push(t));
        }
    }
}

/// The keywords of two texts joined by a space are the keywords of the first text
/// followed by those of the second.
pub proof fn lemma_keywords_of_joined_words(a: Seq<char>, b: Seq<char>)
    ensures
        keywords_of(a + seq![' '] + b) == keywords_of(a) + keywords_of(b),
{
    assert(is_whitespace(' '));
    lemma_runs_split(a, ' ', b, word_char(false));
    lemma_keywords_among_concat(runs(a, word_char(false)), runs(b, word_char(false)));
}

/// The number of keywords counted present is the number of candidates that occur among
/// the words.
proof fn lemma_count_present_is_filter(candidates: Seq<Seq<char>>, words: Seq<Seq<char>>)
    ensures
        count_present(candidates, words) == candidates.filter(|k: Seq<char>| words.contains(k)).len(),
    decreases candidates.len(),
{
    let pred = |k: Seq<char>| words.contains(k);
    if candidates.len() == 0 {
        assert(candidates.filter(pred) =~= Seq::<Seq<char>>::empty());
    } else {
        let prev = candidates.drop_last();
        lemma_count_present_is_filter(prev, words);
        assert(candidates =~= prev + seq![candidates.last()]);
        Seq::filter_distributes_over_add(prev, seq![candidates.last()], pred);
        reveal_with_fuel(Seq::filter, 2);
        assert(seq![candidates.last()].drop_last() =~= Seq::<Seq<char>>::empty());
    }
}

/// The score components of a pattern against task hints: the language matches exactly
/// when the hints name the pattern's language; the framework matches exactly when the
/// hints name a framework and it is the pattern's; the category matches exactly when the
/// pattern's category is one of the hinted categories, wherever it stands among them;
/// the keyword hits count the category's keywords that are among the hinted keywords
/// (none when there are no hinted keywords), out of all the category's keywords.
pub proof fn lemma_score_components(
    category: CategoryView,
    language: Seq<char>,
    framework: Option<Seq<char>>,
    hints: HintsView,
)
    ensures
        components_of(category, language, framework, hints).0 <==> hints.language == Some(language),
        components_of(category, language, framework, hints).1 <==> exists|f: Seq<char>|
            hints.framework == Some(f) && framework == Some(f),
        components_of(category, language, framework, hints).2 <==> exists|i: int|
            0 <= i < hints.category_hints.len() && hints.category_hints[i] == category,
        hints.keywords.len() > 0 ==> components_of(category, language, framework, hints).3
            == category_keywords(category).filter(|k: Seq<char>| hints.keywords.contains(k)).len(),
        hints.keywords.len() == 0 ==> components_of(category, language, framework, hints).3 == 0,
        components_of(category, language, framework, hints).3 <= components_of(
            category,
            language,
            framework,
            hints,
        ).4,
        components_of(category, language, framework, hints).4 == category_keywords(category).len(),
{
    lemma_count_present_is_filter(category_keywords(category), hints.keywords);
    lemma_count_present_bounded(category_keywords(category), hints.keywords);
    if components_of(category, language, framework, hints).1 {
        assert(hints.framework == Some(hints.framework->0) && framework == Some(hints.framework->0));
    }
}

/// The language a lowercase task description is taken to be about: Rust when it mentions
/// "rust", "borrow", "crate" or "tokio"; otherwise Python for "python" or "django";
/// otherwise TypeScript for "typescript"; otherwise JavaScript for "javascript" or
/// "node"; otherwise Go for "go " or "golang"; otherwise Java for "java "; otherwise
/// Kotlin, Swift or C++ ("kotlin", "swift", "c++", in that order); otherwise none.
pub proof fn lemma_language_detection(lower: Seq<char>)
    ensures
        ({
            let rust = mentions_any(lower, seq!["rust"@, "borrow"@, "crate"@, "tokio"@]);
            let python = mentions_any(lower, seq!["python"@, "django"@]);
            let ts = seq_contains(lower, "typescript"@);
            let js = mentions_any(lower, seq!["javascript"@, "node"@]);
            let go = mentions_any(lower, seq!["go "@, "golang"@]);
            let java = seq_contains(lower, "java "@);
            let kotlin = seq_contains(lower, "kotlin"@);
            let swift = seq_contains(lower, "swift"@);
            let cpp = seq_contains(lower, "c++"@);
            detected_language(lower) == if rust {
                Some("rust"@)
            } else if python {
                Some("python"@)
            } else if ts {
                Some("typescript"@)
            } else if js {
                Some("javascript"@)
            } else if go {
                Some("go"@)
            } else if java {
                Some("java"@)
            } else if kotlin {
                Some("kotlin"@)
            } else if swift {
                Some("swift"@)
            } else if cpp {
                Some("cpp"@)
            } else {
                None
            }
        }),
{
    let t = language_table();
    reveal_with_fuel(first_match, 16);
    let rk = seq!["rust"@, "borrow"@, "crate"@, "tokio"@];
    let pk = seq!["python"@, "django"@];
    let jk = seq!["javascript"@, "node"@];
    let gk = seq!["go "@, "golang"@];
    assert(mentions_any(lower, rk) <==> seq_contains(lower, t[0].0) || seq_contains(lower, t[1].0)
        || seq_contains(lower, t[2].0) || seq_contains(lower, t[3].0)) by {
        if seq_contains(lower, t[0].0) { assert(seq_contains(lower, rk[0])); }
        if seq_contains(lower, t[1].0) { assert(seq_contains(lower, rk[1])); }
        if seq_contains(lower, t[2].0) { assert(seq_contains(lower, rk[2])); }
        if seq_contains(lower, t[3].0) { assert(seq_contains(lower, rk[3])); }
    }
    assert(mentions_any(lower, pk) <==> seq_contains(lower, t[4].0) || seq_contains(lower, t[5].0)) by {
        if seq_contains(lower, t[4].0) { assert(seq_contains(lower, pk[0])); }
        if seq_contains(lower, t[5].0) { assert(seq_contains(lower, pk[1])); }
    }
    assert(mentions_any(lower, jk) <==> seq_contains(lower, t[7].0) || seq_contains(lower, t[8].0)) by {
        if seq_contains(lower, t[7].0) { assert(seq_contains(lower, jk[0])); }
        if seq_contains(lower, t[8].0) { assert(seq_contains(lower, jk[1])); }
    }
    assert(mentions_any(lower, gk) <==> seq_contains(lower, t[9].0) || seq_contains(lower, t[10].0)) by {
        if seq_contains(lower, t[9].0) { assert(seq_contains(lower, gk[0])); }
        if seq_contains(lower, t[10].0) { assert(seq_contains(lower, gk[1])); }
    }
}

/// The framework a lowercase task description is taken to use: the first of "tokio",
/// "axum", "actix", "rocket", "warp", "hyper", "reqwest", "serde", "diesel", "sqlx" (in
/// that order) that it mentions, or none.
pub proof fn lemma_framework_detection(lower: Seq<char>)
    ensures
        detected_framework(lower) == if seq_contains(lower, "tokio"@) {
            Some("tokio"@)
        } else if seq_contains(lower, "axum"@) {
            Some("axum"@)
        } else if seq_contains(lower, "actix"@) {
            Some("actix"@)
        } else if seq_contains(lower, "rocket"@) {
            Some("rocket"@)
        } else if seq_contains(lower, "warp"@) {
            Some("warp"@)
        } else if seq_contains(lower, "hyper"@) {
            Some("hyper"@)
        } else if seq_contains(lower, "reqwest"@) {
            Some("reqwest"@)
        } else if seq_contains(lower, "serde"@) {
            Some("serde"@)
        } else if seq_contains(lower, "diesel"@) {
            Some("diesel"@)
        } else if seq_contains(lower, "sqlx"@) {
            Some("sqlx"@)
        } else {
            None
        },
{
    reveal_with_fuel(first_match, 11);
}

/// `push_when` adds `c` to what `h` holds exactly when `cond` holds.
proof fn lemma_push_when_contains(h: Seq<CategoryView>, cond: bool, c: CategoryView)
    ensures
        forall|x: CategoryView|
            #[trigger] push_when(h, cond, c).contains(x) <==> h.contains(x) || (cond && x == c),
{
    reveal(push_when);
    if cond {
        assert forall|x: CategoryView| #[trigger] h.push(c).contains(x) <==> h.contains(x) || x == c by {
            if h.push(c).contains(x) {
                let i = choose|i: int| 0 <= i < h.push(c).len() && h.push(c)[i] == x;
                if i < h.len() {
                    assert(h[i] == x);
                }
            }
            if h.contains(x) {
                let i = choose|i: int| 0 <= i < h.len() && h[i] == x;
                assert(h.push(c)[i] == x);
            }
            if x == c {
                assert(h.push(c)[h.len() as int] == x);
            }
        }
    }
}

/// The categories a lowercase task description hints at: error handling when it
/// mentions "error", "result" or "exception"; async for "async", "await" or
/// "concurrent"; builder for "build", "construct" or "configure"; factory for
/// "factory", "create" or "new"; observer for "observ", "subscribe" or "notify"; state
/// machine when it mentions both "state" and "machine"; strategy for "strategy" or
/// "algorithm"; repository for "repository", "dao" or "store"; decorator for "decorat"
/// or "wrap"; iterator for "iter", "map" or "fold"; RAII for "raii", "drop" or "guard".
pub proof fn lemma_category_hints_membership(l: Seq<char>)
    ensures
        category_hints_of(l).contains(CategoryView::ErrorHandling) <==> mentions_any(l, seq!["error"@, "result"@, "exception"@]),
        category_hints_of(l).contains(CategoryView::Async) <==> mentions_any(l, seq!["async"@, "await"@, "concurrent"@]),
        category_hints_of(l).contains(CategoryView::Builder) <==> mentions_any(l, seq!["build"@, "construct"@, "configure"@]),
        category_hints_of(l).contains(CategoryView::Factory) <==> mentions_any(l, seq!["factory"@, "create"@, "new"@]),
        category_hints_of(l).contains(CategoryView::Observer) <==> mentions_any(l, seq!["observ"@, "subscribe"@, "notify"@]),
        category_hints_of(l).contains(CategoryView::StateMachine) <==> seq_contains(l, "state"@) && seq_contains(l, "machine"@),
        category_hints_of(l).contains(CategoryView::Strategy) <==> mentions_any(l, seq!["strategy"@, "algorithm"@]),
        category_hints_of(l).contains(CategoryView::Repository) <==> mentions_any(l, seq!["repository"@, "dao"@, "store"@]),
        category_hints_of(l).contains(CategoryView::Decorator) <==> mentions_any(l, seq!["decorat"@, "wrap"@]),
        category_hints_of(l).contains(CategoryView::Iterator) <==> mentions_any(l, seq!["iter"@, "map"@, "fold"@]),
        category_hints_of(l).contains(CategoryView::Raii) <==> mentions_any(l, seq!["raii"@, "drop"@, "guard"@]),
{
    let h1 = push_when(Seq::<CategoryView>::empty(), mentions_any(l, seq!["error"@, "result"@, "exception"@]), CategoryView::ErrorHandling);
    lemma_push_when_contains(Seq::<CategoryView>::empty(), mentions_any(l, seq!["error"@, "result"@, "exception"@]), CategoryView::ErrorHandling);
    let h2 = push_when(h1, mentions_any(l, seq!["async"@, "await"@, "concurrent"@]), CategoryView::Async);
    lemma_push_when_contains(h1, mentions_any(l, seq!["async"@, "await"@, "concurrent"@]), CategoryView::Async);
    let h3 = push_when(h2, mentions_any(l, seq!["build"@, "construct"@, "configure"@]), CategoryView::Builder);
    lemma_push_when_contains(h2, mentions_any(l, seq!["build"@, "construct"@, "configure"@]), CategoryView::Builder);
    let h4 = push_when(h3, mentions_any(l, seq!["factory"@, "create"@, "new"@]), CategoryView::Factory);
    lemma_push_when_contains(h3, mentions_any(l, seq!["factory"@, "create"@, "new"@]), CategoryView::Factory);
    let h5 = push_when(h4, mentions_any(l, seq!["observ"@, "subscribe"@, "notify"@]), CategoryView::Observer);
    lemma_push_when_contains(h4, mentions_any(l, seq!["observ"@, "subscribe"@, "notify"@]), CategoryView::Observer);
    let h6 = push_when(h5, seq_contains(l, "state"@) && seq_contains(l, "machine"@), CategoryView::StateMachine);
    lemma_push_when_contains(h5, seq_contains(l, "state"@) && seq_contains(l, "machine"@), CategoryView::StateMachine);
    let h7 = push_when(h6, mentions_any(l, seq!["strategy"@, "algorithm"@]), CategoryView::Strategy);
    lemma_push_when_contains(h6, mentions_any(l, seq!["strategy"@, "algorithm"@]), CategoryView::Strategy);
    let h8 = push_when(h7, mentions_any(l, seq!["repository"@, "dao"@, "store"@]), CategoryView::Repository);
    lemma_push_when_contains(h7, mentions_any(l, seq!["repository"@, "dao"@, "store"@]), CategoryView::Repository);
    let h9 = push_when(h8, mentions_any(l, seq!["decorat"@, "wrap"@]), CategoryView::Decorator);
    lemma_push_when_contains(h8, mentions_any(l, seq!["decorat"@, "wrap"@]), CategoryView::Decorator);
    let h10 = push_when(h9, mentions_any(l, seq!["iter"@, "map"@, "fold"@]), CategoryView::Iterator);
    lemma_push_when_contains(h9, mentions_any(l, seq!["iter"@, "map"@, "fold"@]), CategoryView::Iterator);
    let h11 = push_when(h10, mentions_any(l, seq!["raii"@, "drop"@, "guard"@]), CategoryView::Raii);
    lemma_push_when_contains(h10, mentions_any(l, seq!["raii"@, "drop"@, "guard"@]), CategoryView::Raii);
    assert(category_hints_of(l) == h11);
}

} // verus!

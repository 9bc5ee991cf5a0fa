//! The pattern data model: languages, pattern categories and code patterns.
use vstd::prelude::*;

verus! {

/// A programming language.
#[derive(Debug, Clone, Copy, PartialEq, Eq, Hash, Structural)]
pub enum Language {
    /// Rust.
    Rust,
    /// Python.
    Python,
    /// TypeScript.
    TypeScript,
    /// JavaScript.
    JavaScript,
    /// Go.
    Go,
    /// Java.
    Java,
    /// Kotlin.
    Kotlin,
    /// Swift.
    Swift,
    /// C++.
    Cpp,
}

} // verus!

verus! {

/// Category of a code pattern.
#[derive(Debug)]
pub enum PatternCategory {
    /// Error handling (`Result`, exceptions, error values).
    ErrorHandling,
    /// Asynchronous and concurrent code.
    Async,
    /// Builder pattern.
    Builder,
    /// Factory pattern.
    Factory,
    /// Observer / publish-subscribe.
    Observer,
    /// State machine.
    StateMachine,
    /// Strategy pattern.
    Strategy,
    /// Repository / data access object.
    Repository,
    /// Decorator / wrapper.
    Decorator,
    /// Iterator.
    Iterator,
    /// Resource acquisition is initialization.
    Raii,
    /// A category named by the user.
    Custom(String),
}

/// The mathematical value of a [`PatternCategory`].
pub enum CategoryView {
    ErrorHandling,
    Async,
    Builder,
    Factory,
    Observer,
    StateMachine,
    Strategy,
    Repository,
    Decorator,
    Iterator,
    Raii,
    Custom(Seq<char>),
}

impl View for PatternCategory {
    type V = CategoryView;

    open spec fn view(&self) -> CategoryView {
        match self {
            PatternCategory::ErrorHandling => CategoryView::ErrorHandling,
            PatternCategory::Async => CategoryView::Async,
            PatternCategory::Builder => CategoryView::Builder,
            PatternCategory::Factory => CategoryView::Factory,
            PatternCategory::Observer => CategoryView::Observer,
            PatternCategory::StateMachine => CategoryView::StateMachine,
            PatternCategory::Strategy => CategoryView::Strategy,
            PatternCategory::Repository => CategoryView::Repository,
            PatternCategory::Decorator => CategoryView::Decorator,
            PatternCategory::Iterator => CategoryView::Iterator,
            PatternCategory::Raii => CategoryView::Raii,
            PatternCategory::Custom(name) => CategoryView::Custom(name@),
        }
    }
}

impl Clone for PatternCategory {
    fn clone(&self) -> (r: Self)
        ensures
            r@ == self@,
    {
        match self {
            PatternCategory::ErrorHandling => PatternCategory::ErrorHandling,
            PatternCategory::Async => PatternCategory::Async,
            PatternCategory::Builder => PatternCategory::Builder,
            PatternCategory::Factory => PatternCategory::Factory,
            PatternCategory::Observer => PatternCategory::Observer,
            PatternCategory::StateMachine => PatternCategory::StateMachine,
            PatternCategory::Strategy => PatternCategory::Strategy,
            PatternCategory::Repository => PatternCategory::Repository,
            PatternCategory::Decorator => PatternCategory::Decorator,
            PatternCategory::Iterator => PatternCategory::Iterator,
            PatternCategory::Raii => PatternCategory::Raii,
            PatternCategory::Custom(name) => PatternCategory::Custom(name.clone()),
        }
    }
}

impl PartialEq for PatternCategory {
    fn eq(&self, other: &Self) -> (r: bool) {
        match (self, other) {
            (PatternCategory::ErrorHandling, PatternCategory::ErrorHandling) => true,
            (PatternCategory::Async, PatternCategory::Async) => true,
            (PatternCategory::Builder, PatternCategory::Builder) => true,
            (PatternCategory::Factory, PatternCategory::Factory) => true,
            (PatternCategory::Observer, PatternCategory::Observer) => true,
            (PatternCategory::StateMachine, PatternCategory::StateMachine) => true,
            (PatternCategory::Strategy, PatternCategory::Strategy) => true,
            (PatternCategory::Repository, PatternCategory::Repository) => true,
            (PatternCategory::Decorator, PatternCategory::Decorator) => true,
            (PatternCategory::Iterator, PatternCategory::Iterator) => true,
            (PatternCategory::Raii, PatternCategory::Raii) => true,
            (PatternCategory::Custom(a), PatternCategory::Custom(b)) => a.eq(b),
            _ => false,
        }
    }
}

impl vstd::std_specs::cmp::PartialEqSpecImpl for PatternCategory {
    open spec fn obeys_eq_spec() -> bool {
        true
    }

    open spec fn eq_spec(&self, other: &Self) -> bool {
        self@ == other@
    }
}

impl Eq for PatternCategory {
}

/// The views of a list of strings.
pub open spec fn string_views(v: Seq<String>) -> Seq<Seq<char>> {
    v.map_values(|s: String| s@)
}

/// Copies a list of strings.
pub fn clone_strings(v: &Vec<String>) -> (r: Vec<String>)
    ensures
        string_views(r@) == string_views(v@),
{
    let mut r: Vec<String> = Vec::new();
    let mut i: usize = 0;
    while i < v.len()
        invariant
            i <= v.len(),
            r.len() == i,
            forall|j: int| 0 <= j < i ==> r@[j]@ == v@[j]@,
        decreases v.len() - i,
    {
        r.push(v[i].clone());
        i = i + 1;
    }
    assert(string_views(r@) =~= string_views(v@));
    r
}

/// Copies an optional string.
pub fn clone_opt_string(s: &Option<String>) -> (r: Option<String>)
    ensures
        opt_view(r) == opt_view(*s),
{
    match s {
        Some(x) => Some(x.clone()),
        None => None,
    }
}

/// The view of an optional string.
pub open spec fn opt_view(s: Option<String>) -> Option<Seq<char>> {
    match s {
        Some(x) => Some(x@),
        None => None,
    }
}

/// How hard a pattern is to apply.
#[derive(Debug, Clone, Copy, PartialEq, Eq, Hash, Structural)]
pub enum PatternComplexity {
    /// Straightforward.
    Low,
    /// Needs some design.
    Medium,
    /// Needs careful design.
    High,
}

/// Where a pattern applies.
#[derive(Debug)]
pub struct PatternContext {
    /// Language the pattern is written for (`"any"` for language-independent ones).
    pub language: String,
    /// Framework the pattern relies on, if any.
    pub framework: Option<String>,
    /// How hard the pattern is to apply.
    pub complexity: PatternComplexity,
    /// Free-form tags.
    pub tags: Vec<String>,
}

/// The mathematical value of a [`PatternContext`].
#[verifier::ext_equal]
pub struct ContextView {
    pub language: Seq<char>,
    pub framework: Option<Seq<char>>,
    pub complexity: PatternComplexity,
    pub tags: Seq<Seq<char>>,
}

impl View for PatternContext {
    type V = ContextView;

    open spec fn view(&self) -> ContextView {
        ContextView {
            language: self.language@,
            framework: opt_view(self.framework),
            complexity: self.complexity,
            tags: string_views(self.tags@),
        }
    }
}

impl Clone for PatternContext {
    fn clone(&self) -> (r: Self)
        ensures
            r@ == self@,
    {
        PatternContext {
            language: self.language.clone(),
            framework: clone_opt_string(&self.framework),
            complexity: self.complexity,
            tags: clone_strings(&self.tags),
        }
    }
}

impl PatternContext {
    /// A context for the given language, with no framework, medium complexity and no tags.
    pub fn for_language(language: &str) -> (r: Self)
        ensures
            r@ == (ContextView {
                language: language@,
                framework: None,
                complexity: PatternComplexity::Medium,
                tags: seq![],
            }),
    {
        let r = PatternContext {
            language: language.to_string(),
            framework: None,
            complexity: PatternComplexity::Medium,
            tags: Vec::new(),
        };
        assert(string_views(r.tags@) =~= seq![]);
        r
    }
}

/// A reusable code pattern.
#[derive(Debug)]
pub struct CodePattern {
    /// Unique identifier.
    pub id: String,
    /// Category.
    pub pattern_type: PatternCategory,
    /// Short structural signature of the idiom.
    pub signature: String,
    /// Observed success rate in `[0, 1]`, stored as the bits of an IEEE-754 single
    /// precision number.
    pub success_rate_bits: u32,
    /// Where the pattern applies.
    pub context: PatternContext,
    /// Human-readable description.
    pub description: String,
    /// Example snippets.
    pub examples: Vec<String>,
    /// What the pattern replaces.
    pub anti_patterns: Vec<String>,
    /// How often the pattern's outcome was recorded.
    pub match_count: u64,
}

/// The mathematical value of a [`CodePattern`].
#[verifier::ext_equal]
pub struct PatternView {
    pub id: Seq<char>,
    pub pattern_type: CategoryView,
    pub signature: Seq<char>,
    pub success_rate_bits: u32,
    pub context: ContextView,
    pub description: Seq<char>,
    pub examples: Seq<Seq<char>>,
    pub anti_patterns: Seq<Seq<char>>,
    pub match_count: u64,
}

impl View for CodePattern {
    type V = PatternView;

    open spec fn view(&self) -> PatternView {
        PatternView {
            id: self.id@,
            pattern_type: self.pattern_type@,
            signature: self.signature@,
            success_rate_bits: self.success_rate_bits,
            context: self.context@,
            description: self.description@,
            examples: string_views(self.examples@),
            anti_patterns: string_views(self.anti_patterns@),
            match_count: self.match_count,
        }
    }
}

impl Clone for CodePattern {
    fn clone(&self) -> (r: Self)
        ensures
            r@ == self@,
    {
        CodePattern {
            id: self.id.clone(),
            pattern_type: self.pattern_type.clone(),
            signature: self.signature.clone(),
            success_rate_bits: self.success_rate_bits,
            context: self.context.clone(),
            description: self.description.clone(),
            examples: clone_strings(&self.examples),
            anti_patterns: clone_strings(&self.anti_patterns),
            match_count: self.match_count,
        }
    }
}

impl CodePattern {
    /// A pattern with the given identity, category, signature, success rate (as the bits
    /// of an `f32`) and context; no description, examples or anti-patterns, and no
    /// recorded outcome.
    pub fn new(
        id: &str,
        pattern_type: PatternCategory,
        signature: &str,
        success_rate_bits: u32,
        context: PatternContext,
    ) -> (r: Self)
        ensures
            r@ == (PatternView {
                id: id@,
                pattern_type: pattern_type@,
                signature: signature@,
                success_rate_bits,
                context: context@,
                description: seq![],
                examples: seq![],
                anti_patterns: seq![],
                match_count: 0,
            }),
    {
        let r = CodePattern {
            id: id.to_string(),
            pattern_type,
            signature: signature.to_string(),
            success_rate_bits,
            context,
            description: String::new(),
            examples: Vec::new(),
            anti_patterns: Vec::new(),
            match_count: 0,
        };
        assert(string_views(r.examples@) =~= seq![]);
        assert(string_views(r.anti_patterns@) =~= seq![]);
        r
    }
}

} // verus!

//! Built-in pattern library: curated patterns for common idioms. They describe
//! well-established practices, not novel tricks.
use vstd::prelude::*;
use indexmap::IndexMap;
use crate::pattern_map::{entry_keys, map_insert, map_new, pattern_entries};
use crate::patterns::{
    string_views, CategoryView, CodePattern, ContextView, PatternCategory, PatternComplexity,
    PatternContext, PatternView,
};

verus! {

/// The `rust-result-propagation` pattern (success rate 0.95).
pub open spec fn rust_result_propagation_view() -> PatternView {
    PatternView {
        id: "rust-result-propagation"@,
        pattern_type: CategoryView::ErrorHandling,
        signature: "fn -> Result<T, E>"@,
        success_rate_bits: 0x3f73_3333,
        context: ContextView {
            language: "rust"@,
            framework: None,
            complexity: PatternComplexity::Low,
            tags: seq![],
        },
        description: "Propagate errors with the `?` operator instead of `unwrap()`."@,
        examples: seq!["fn parse(input: &str) -> Result<Data, Error> { let s = std::fs::read_to_string(input)?; Ok(parse_str(&s)) }"@],
        anti_patterns: seq!["unwrap() on fallible operations"@],
        match_count: 0,
    }
}

/// The `rust-async-tokio` pattern (success rate 0.92).
pub open spec fn rust_async_tokio_view() -> PatternView {
    PatternView {
        id: "rust-async-tokio"@,
        pattern_type: CategoryView::Async,
        signature: "#[tokio::main] + async fn"@,
        success_rate_bits: 0x3f6b_851f,
        context: ContextView {
            language: "rust"@,
            framework: Some("tokio"@),
            complexity: PatternComplexity::Medium,
            tags: seq![],
        },
        description: "Use `#[tokio::main]` for the entrypoint and `async fn` for asynchronous operations."@,
        examples: seq!["#[tokio::main]\nasync fn main() -> Result<(), Box<dyn std::error::Error>> { Ok(()) }"@],
        anti_patterns: seq![],
        match_count: 0,
    }
}

/// The `rust-option-combinators` pattern (success rate 0.9).
pub open spec fn rust_option_combinators_view() -> PatternView {
    PatternView {
        id: "rust-option-combinators"@,
        pattern_type: CategoryView::ErrorHandling,
        signature: "Option::map | Option::and_then | Option::or_else"@,
        success_rate_bits: 0x3f66_6666,
        context: ContextView {
            language: "rust"@,
            framework: None,
            complexity: PatternComplexity::Low,
            tags: seq![],
        },
        description: "Use Option combinators (`map`, `and_then`, `or_else`) instead of `match` when chaining transformations."@,
        examples: seq!["value.map(transform).and_then(fallback).unwrap_or(default)"@],
        anti_patterns: seq![],
        match_count: 0,
    }
}

/// The `rust-builder` pattern (success rate 0.88).
pub open spec fn rust_builder_view() -> PatternView {
    PatternView {
        id: "rust-builder"@,
        pattern_type: CategoryView::Builder,
        signature: "struct XBuilder { ... } with .field(..).build()"@,
        success_rate_bits: 0x3f61_47ae,
        context: ContextView {
            language: "rust"@,
            framework: None,
            complexity: PatternComplexity::Medium,
            tags: seq![],
        },
        description: "Use the builder pattern for structs with many optional fields."@,
        examples: seq!["Client::builder().timeout(Duration::from_secs(5)).build()"@],
        anti_patterns: seq![],
        match_count: 0,
    }
}

/// The `rust-newtype` pattern (success rate 0.85).
pub open spec fn rust_newtype_view() -> PatternView {
    PatternView {
        id: "rust-newtype"@,
        pattern_type: CategoryView::Custom("Newtype"@),
        signature: "struct Wrapper(Inner);"@,
        success_rate_bits: 0x3f59_999a,
        context: ContextView {
            language: "rust"@,
            framework: None,
            complexity: PatternComplexity::Low,
            tags: seq![],
        },
        description: "Wrap primitive types in a newtype to add type safety."@,
        examples: seq!["struct UserId(u64);"@],
        anti_patterns: seq![],
        match_count: 0,
    }
}

/// The `rust-typestate` pattern (success rate 0.78).
pub open spec fn rust_typestate_view() -> PatternView {
    PatternView {
        id: "rust-typestate"@,
        pattern_type: CategoryView::Custom("Typestate"@),
        signature: "struct Locked; struct Unlocked;"@,
        success_rate_bits: 0x3f47_ae14,
        context: ContextView {
            language: "rust"@,
            framework: None,
            complexity: PatternComplexity::High,
            tags: seq![],
        },
        description: "Encode state in the type system so invalid transitions become compile errors."@,
        examples: seq!["fn consume(self: File<Open>) { ... }"@],
        anti_patterns: seq![],
        match_count: 0,
    }
}

/// The `ts-async-await` pattern (success rate 0.9).
pub open spec fn ts_async_await_view() -> PatternView {
    PatternView {
        id: "ts-async-await"@,
        pattern_type: CategoryView::Async,
        signature: "async function + await"@,
        success_rate_bits: 0x3f66_6666,
        context: ContextView {
            language: "typescript"@,
            framework: None,
            complexity: PatternComplexity::Low,
            tags: seq![],
        },
        description: "Prefer `async/await` over raw Promise chains."@,
        examples: seq!["const x = await fetch(url);"@],
        anti_patterns: seq![],
        match_count: 0,
    }
}

/// The `ts-promise-all` pattern (success rate 0.88).
pub open spec fn ts_promise_all_view() -> PatternView {
    PatternView {
        id: "ts-promise-all"@,
        pattern_type: CategoryView::Async,
        signature: "Promise.all([...])"@,
        success_rate_bits: 0x3f61_47ae,
        context: ContextView {
            language: "typescript"@,
            framework: None,
            complexity: PatternComplexity::Medium,
            tags: seq![],
        },
        description: "Use `Promise.all` for parallel independent operations."@,
        examples: seq!["const [a, b] = await Promise.all([fetchA(), fetchB()]);"@],
        anti_patterns: seq![],
        match_count: 0,
    }
}

/// The `py-context-manager` pattern (success rate 0.92).
pub open spec fn py_context_manager_view() -> PatternView {
    PatternView {
        id: "py-context-manager"@,
        pattern_type: CategoryView::Raii,
        signature: "with open(...) as f:"@,
        success_rate_bits: 0x3f6b_851f,
        context: ContextView {
            language: "python"@,
            framework: None,
            complexity: PatternComplexity::Low,
            tags: seq![],
        },
        description: "Use `with` statements for resource management."@,
        examples: seq!["with open(path) as f: data = f.read()"@],
        anti_patterns: seq![],
        match_count: 0,
    }
}

/// The `py-dataclass` pattern (success rate 0.85).
pub open spec fn py_dataclass_view() -> PatternView {
    PatternView {
        id: "py-dataclass"@,
        pattern_type: CategoryView::Builder,
        signature: "@dataclass"@,
        success_rate_bits: 0x3f59_999a,
        context: ContextView {
            language: "python"@,
            framework: None,
            complexity: PatternComplexity::Low,
            tags: seq![],
        },
        description: "Use `@dataclass` for value-like classes."@,
        examples: seq!["@dataclass\nclass Point:\n    x: int\n    y: int"@],
        anti_patterns: seq![],
        match_count: 0,
    }
}

/// The `go-error-return` pattern (success rate 0.95).
pub open spec fn go_error_return_view() -> PatternView {
    PatternView {
        id: "go-error-return"@,
        pattern_type: CategoryView::ErrorHandling,
        signature: "func() (T, error)"@,
        success_rate_bits: 0x3f73_3333,
        context: ContextView {
            language: "go"@,
            framework: None,
            complexity: PatternComplexity::Low,
            tags: seq![],
        },
        description: "Return errors as values rather than panicking."@,
        examples: seq!["func parse(s string) (int, error) { ... }"@],
        anti_patterns: seq![],
        match_count: 0,
    }
}

/// The `go-goroutine-context` pattern (success rate 0.82).
pub open spec fn go_goroutine_with_context_view() -> PatternView {
    PatternView {
        id: "go-goroutine-context"@,
        pattern_type: CategoryView::Async,
        signature: "go func() { select { case <-ctx.Done(): ... } }"@,
        success_rate_bits: 0x3f51_eb85,
        context: ContextView {
            language: "go"@,
            framework: None,
            complexity: PatternComplexity::Medium,
            tags: seq![],
        },
        description: "Pass a context.Context to goroutines so they can be cancelled."@,
        examples: seq!["go worker(ctx)"@],
        anti_patterns: seq![],
        match_count: 0,
    }
}

/// The `java-try-with-resources` pattern (success rate 0.93).
pub open spec fn java_try_with_resources_view() -> PatternView {
    PatternView {
        id: "java-try-with-resources"@,
        pattern_type: CategoryView::Raii,
        signature: "try (Resource r = ...) { ... }"@,
        success_rate_bits: 0x3f6e_147b,
        context: ContextView {
            language: "java"@,
            framework: None,
            complexity: PatternComplexity::Low,
            tags: seq![],
        },
        description: "Use try-with-resources for AutoCloseable resources."@,
        examples: seq!["try (var conn = ds.getConnection()) { ... }"@],
        anti_patterns: seq![],
        match_count: 0,
    }
}

/// The `cpp-raii` pattern (success rate 0.9).
pub open spec fn cpp_raii_view() -> PatternView {
    PatternView {
        id: "cpp-raii"@,
        pattern_type: CategoryView::Raii,
        signature: "class Resource { ~Resource() { cleanup() } }"@,
        success_rate_bits: 0x3f66_6666,
        context: ContextView {
            language: "cpp"@,
            framework: None,
            complexity: PatternComplexity::Medium,
            tags: seq![],
        },
        description: "Tie resource lifetime to object lifetime via constructors/destructors."@,
        examples: seq!["std::unique_ptr<T>"@],
        anti_patterns: seq![],
        match_count: 0,
    }
}

/// The `pattern-observer` pattern (success rate 0.8).
pub open spec fn observer_pattern_view() -> PatternView {
    PatternView {
        id: "pattern-observer"@,
        pattern_type: CategoryView::Observer,
        signature: "trait Observer { fn update(&self, event: &Event); }"@,
        success_rate_bits: 0x3f4c_cccd,
        context: ContextView {
            language: "any"@,
            framework: None,
            complexity: PatternComplexity::Medium,
            tags: seq![],
        },
        description: "Decouple event producers from consumers via an Observer trait."@,
        examples: seq!["emitter.subscribe(observer)"@],
        anti_patterns: seq![],
        match_count: 0,
    }
}

/// The `pattern-strategy` pattern (success rate 0.82).
pub open spec fn strategy_pattern_view() -> PatternView {
    PatternView {
        id: "pattern-strategy"@,
        pattern_type: CategoryView::Strategy,
        signature: "trait Strategy { fn execute(&self); }"@,
        success_rate_bits: 0x3f51_eb85,
        context: ContextView {
            language: "any"@,
            framework: None,
            complexity: PatternComplexity::Medium,
            tags: seq![],
        },
        description: "Encapsulate algorithms behind a trait/interface so they can be swapped."@,
        examples: seq!["let sorter: Box<dyn Sorter> = Box::new(QuickSorter);"@],
        anti_patterns: seq![],
        match_count: 0,
    }
}

/// The `pattern-repository` pattern (success rate 0.8).
pub open spec fn repository_pattern_view() -> PatternView {
    PatternView {
        id: "pattern-repository"@,
        pattern_type: CategoryView::Repository,
        signature: "trait Repository { fn find(&self, id: Id) -> Option<T>; ... }"@,
        success_rate_bits: 0x3f4c_cccd,
        context: ContextView {
            language: "any"@,
            framework: None,
            complexity: PatternComplexity::Medium,
            tags: seq![],
        },
        description: "Hide data-access details behind a Repository trait."@,
        examples: seq!["let user = repo.find(user_id)?;"@],
        anti_patterns: seq![],
        match_count: 0,
    }
}

/// The `pattern-decorator` pattern (success rate 0.78).
pub open spec fn decorator_pattern_view() -> PatternView {
    PatternView {
        id: "pattern-decorator"@,
        pattern_type: CategoryView::Decorator,
        signature: "struct Decorator { inner: T }"@,
        success_rate_bits: 0x3f47_ae14,
        context: ContextView {
            language: "any"@,
            framework: None,
            complexity: PatternComplexity::Medium,
            tags: seq![],
        },
        description: "Add behavior by wrapping an object instead of subclassing."@,
        examples: seq!["let logged = Logging::new(inner);"@],
        anti_patterns: seq![],
        match_count: 0,
    }
}

/// The `pattern-factory` pattern (success rate 0.83).
pub open spec fn factory_pattern_view() -> PatternView {
    PatternView {
        id: "pattern-factory"@,
        pattern_type: CategoryView::Factory,
        signature: "fn create(kind: Kind) -> Box<dyn Product>"@,
        success_rate_bits: 0x3f54_7ae1,
        context: ContextView {
            language: "any"@,
            framework: None,
            complexity: PatternComplexity::Low,
            tags: seq![],
        },
        description: "Centralize object creation in a factory function."@,
        examples: seq!["let p = factory.create(Kind::A);"@],
        anti_patterns: seq![],
        match_count: 0,
    }
}

/// The `pattern-iterator` pattern (success rate 0.86).
pub open spec fn iterator_pattern_view() -> PatternView {
    PatternView {
        id: "pattern-iterator"@,
        pattern_type: CategoryView::Iterator,
        signature: "trait Iterator { type Item; fn next(&mut self) -> Option<Self::Item>; }"@,
        success_rate_bits: 0x3f5c_28f6,
        context: ContextView {
            language: "any"@,
            framework: None,
            complexity: PatternComplexity::Low,
            tags: seq![],
        },
        description: "Provide sequential access without exposing the underlying representation."@,
        examples: seq!["for x in iter { ... }"@],
        anti_patterns: seq![],
        match_count: 0,
    }
}

/// The built-in patterns, in library order.
pub open spec fn builtin_views() -> Seq<PatternView> {
    seq![
        rust_result_propagation_view(),
        rust_async_tokio_view(),
        rust_option_combinators_view(),
        rust_builder_view(),
        rust_newtype_view(),
        rust_typestate_view(),
        ts_async_await_view(),
        ts_promise_all_view(),
        py_context_manager_view(),
        py_dataclass_view(),
        go_error_return_view(),
        go_goroutine_with_context_view(),
        java_try_with_resources_view(),
        cpp_raii_view(),
        observer_pattern_view(),
        strategy_pattern_view(),
        repository_pattern_view(),
        decorator_pattern_view(),
        factory_pattern_view(),
        iterator_pattern_view(),
    ]
}

/// The entries of the built-in library: each pattern under its identifier.
pub open spec fn builtin_entries() -> Seq<(Seq<char>, PatternView)> {
    builtin_views().map_values(|p: PatternView| (p.id, p))
}

fn to_strings(items: &[&str]) -> (r: Vec<String>)
    ensures
        string_views(r@) == items@.map_values(|s: &str| s@),
{
    let mut r: Vec<String> = Vec::new();
    let mut i: usize = 0;
    while i < items.len()
        invariant
            i <= items.len(),
            r.len() == i,
            forall|j: int| 0 <= j < i ==> r@[j]@ == items@[j]@,
        decreases items.len() - i,
    {
        r.push(items[i].to_string());
        i = i + 1;
    }
    assert(string_views(r@) =~= items@.map_values(|s: &str| s@));
    r
}

fn ctx(lang: &str, framework: Option<&str>, complexity: PatternComplexity) -> (r: PatternContext)
    ensures
        r@ == (ContextView {
            language: lang@,
            framework: match framework {
                Some(f) => Some(f@),
                None => None,
            },
            complexity,
            tags: seq![],
        }),
{
    let r = PatternContext {
        language: lang.to_string(),
        framework: match framework {
            Some(f) => Some(f.to_string()),
            None => None,
        },
        complexity,
        tags: Vec::new(),
    };
    assert(string_views(r.tags@) =~= seq![]);
    r
}

fn rust_result_propagation() -> (p: CodePattern)
    ensures
        p@ == rust_result_propagation_view(),
{
    let mut p = CodePattern::new(
        "rust-result-propagation",
        PatternCategory::ErrorHandling,
        "fn -> Result<T, E>",
        0x3f73_3333,
        ctx("rust", None, PatternComplexity::Low),
    );
    p.description = "Propagate errors with the `?` operator instead of `unwrap()`.".to_string();
    let examples: [&str; 1] = ["fn parse(input: &str) -> Result<Data, Error> { let s = std::fs::read_to_string(input)?; Ok(parse_str(&s)) }"];
    p.examples = to_strings(&examples);
    let anti_patterns: [&str; 1] = ["unwrap() on fallible operations"];
    p.anti_patterns = to_strings(&anti_patterns);
    assert(p@ =~= rust_result_propagation_view());
    p
}

fn rust_async_tokio() -> (p: CodePattern)
    ensures
        p@ == rust_async_tokio_view(),
{
    let mut p = CodePattern::new(
        "rust-async-tokio",
        PatternCategory::Async,
        "#[tokio::main] + async fn",
        0x3f6b_851f,
        ctx("rust", Some("tokio"), PatternComplexity::Medium),
    );
    p.description = "Use `#[tokio::main]` for the entrypoint and `async fn` for asynchronous operations.".to_string();
    let examples: [&str; 1] = ["#[tokio::main]\nasync fn main() -> Result<(), Box<dyn std::error::Error>> { Ok(()) }"];
    p.examples = to_strings(&examples);
    assert(p@ =~= rust_async_tokio_view());
    p
}

fn rust_option_combinators() -> (p: CodePattern)
    ensures
        p@ == rust_option_combinators_view(),
{
    let mut p = CodePattern::new(
        "rust-option-combinators",
        PatternCategory::ErrorHandling,
        "Option::map | Option::and_then | Option::or_else",
        0x3f66_6666,
        ctx("rust", None, PatternComplexity::Low),
    );
    p.description = "Use Option combinators (`map`, `and_then`, `or_else`) instead of `match` when chaining transformations.".to_string();
    let examples: [&str; 1] = ["value.map(transform).and_then(fallback).unwrap_or(default)"];
    p.examples = to_strings(&examples);
    assert(p@ =~= rust_option_combinators_view());
    p
}

fn rust_builder() -> (p: CodePattern)
    ensures
        p@ == rust_builder_view(),
{
    let mut p = CodePattern::new(
        "rust-builder",
        PatternCategory::Builder,
        "struct XBuilder { ... } with .field(..).build()",
        0x3f61_47ae,
        ctx("rust", None, PatternComplexity::Medium),
    );
    p.description = "Use the builder pattern for structs with many optional fields.".to_string();
    let examples: [&str; 1] = ["Client::builder().timeout(Duration::from_secs(5)).build()"];
    p.examples = to_strings(&examples);
    assert(p@ =~= rust_builder_view());
    p
}

fn rust_newtype() -> (p: CodePattern)
    ensures
        p@ == rust_newtype_view(),
{
    let mut p = CodePattern::new(
        "rust-newtype",
        PatternCategory::Custom("Newtype".to_string()),
        "struct Wrapper(Inner);",
        0x3f59_999a,
        ctx("rust", None, PatternComplexity::Low),
    );
    p.description = "Wrap primitive types in a newtype to add type safety.".to_string();
    let examples: [&str; 1] = ["struct UserId(u64);"];
    p.examples = to_strings(&examples);
    assert(p@ =~= rust_newtype_view());
    p
}

fn rust_typestate() -> (p: CodePattern)
    ensures
        p@ == rust_typestate_view(),
{
    let mut p = CodePattern::new(
        "rust-typestate",
        PatternCategory::Custom("Typestate".to_string()),
        "struct Locked; struct Unlocked;",
        0x3f47_ae14,
        ctx("rust", None, PatternComplexity::High),
    );
    p.description = "Encode state in the type system so invalid transitions become compile errors.".to_string();
    let examples: [&str; 1] = ["fn consume(self: File<Open>) { ... }"];
    p.examples = to_strings(&examples);
    assert(p@ =~= rust_typestate_view());
    p
}

fn ts_async_await() -> (p: CodePattern)
    ensures
        p@ == ts_async_await_view(),
{
    let mut p = CodePattern::new(
        "ts-async-await",
        PatternCategory::Async,
        "async function + await",
        0x3f66_6666,
        ctx("typescript", None, PatternComplexity::Low),
    );
    p.description = "Prefer `async/await` over raw Promise chains.".to_string();
    let examples: [&str; 1] = ["const x = await fetch(url);"];
    p.examples = to_strings(&examples);
    assert(p@ =~= ts_async_await_view());
    p
}

fn ts_promise_all() -> (p: CodePattern)
    ensures
        p@ == ts_promise_all_view(),
{
    let mut p = CodePattern::new(
        "ts-promise-all",
        PatternCategory::Async,
        "Promise.all([...])",
        0x3f61_47ae,
        ctx("typescript", None, PatternComplexity::Medium),
    );
    p.description = "Use `Promise.all` for parallel independent operations.".to_string();
    let examples: [&str; 1] = ["const [a, b] = await Promise.all([fetchA(), fetchB()]);"];
    p.examples = to_strings(&examples);
    assert(p@ =~= ts_promise_all_view());
    p
}

fn py_context_manager() -> (p: CodePattern)
    ensures
        p@ == py_context_manager_view(),
{
    let mut p = CodePattern::new(
        "py-context-manager",
        PatternCategory::Raii,
        "with open(...) as f:",
        0x3f6b_851f,
        ctx("python", None, PatternComplexity::Low),
    );
    p.description = "Use `with` statements for resource management.".to_string();
    let examples: [&str; 1] = ["with open(path) as f: data = f.read()"];
    p.examples = to_strings(&examples);
    assert(p@ =~= py_context_manager_view());
    p
}

fn py_dataclass() -> (p: CodePattern)
    ensures
        p@ == py_dataclass_view(),
{
    let mut p = CodePattern::new(
        "py-dataclass",
        PatternCategory::Builder,
        "@dataclass",
        0x3f59_999a,
        ctx("python", None, PatternComplexity::Low),
    );
    p.description = "Use `@dataclass` for value-like classes.".to_string();
    let examples: [&str; 1] = ["@dataclass\nclass Point:\n    x: int\n    y: int"];
    p.examples = to_strings(&examples);
    assert(p@ =~= py_dataclass_view());
    p
}

fn go_error_return() -> (p: CodePattern)
    ensures
        p@ == go_error_return_view(),
{
    let mut p = CodePattern::new(
        "go-error-return",
        PatternCategory::ErrorHandling,
        "func() (T, error)",
        0x3f73_3333,
        ctx("go", None, PatternComplexity::Low),
    );
    p.description = "Return errors as values rather than panicking.".to_string();
    let examples: [&str; 1] = ["func parse(s string) (int, error) { ... }"];
    p.examples = to_strings(&examples);
    assert(p@ =~= go_error_return_view());
    p
}

fn go_goroutine_with_context() -> (p: CodePattern)
    ensures
        p@ == go_goroutine_with_context_view(),
{
    let mut p = CodePattern::new(
        "go-goroutine-context",
        PatternCategory::Async,
        "go func() { select { case <-ctx.Done(): ... } }",
        0x3f51_eb85,
        ctx("go", None, PatternComplexity::Medium),
    );
    p.description = "Pass a context.Context to goroutines so they can be cancelled.".to_string();
    let examples: [&str; 1] = ["go worker(ctx)"];
    p.examples = to_strings(&examples);
    assert(p@ =~= go_goroutine_with_context_view());
    p
}

fn java_try_with_resources() -> (p: CodePattern)
    ensures
        p@ == java_try_with_resources_view(),
{
    let mut p = CodePattern::new(
        "java-try-with-resources",
        PatternCategory::Raii,
        "try (Resource r = ...) { ... }",
        0x3f6e_147b,
        ctx("java", None, PatternComplexity::Low),
    );
    p.description = "Use try-with-resources for AutoCloseable resources.".to_string();
    let examples: [&str; 1] = ["try (var conn = ds.getConnection()) { ... }"];
    p.examples = to_strings(&examples);
    assert(p@ =~= java_try_with_resources_view());
    p
}

fn cpp_raii() -> (p: CodePattern)
    ensures
        p@ == cpp_raii_view(),
{
    let mut p = CodePattern::new(
        "cpp-raii",
        PatternCategory::Raii,
        "class Resource { ~Resource() { cleanup() } }",
        0x3f66_6666,
        ctx("cpp", None, PatternComplexity::Medium),
    );
    p.description = "Tie resource lifetime to object lifetime via constructors/destructors.".to_string();
    let examples: [&str; 1] = ["std::unique_ptr<T>"];
    p.examples = to_strings(&examples);
    assert(p@ =~= cpp_raii_view());
    p
}

fn observer_pattern() -> (p: CodePattern)
    ensures
        p@ == observer_pattern_view(),
{
    let mut p = CodePattern::new(
        "pattern-observer",
        PatternCategory::Observer,
        "trait Observer { fn update(&self, event: &Event); }",
        0x3f4c_cccd,
        ctx("any", None, PatternComplexity::Medium),
    );
    p.description = "Decouple event producers from consumers via an Observer trait.".to_string();
    let examples: [&str; 1] = ["emitter.subscribe(observer)"];
    p.examples = to_strings(&examples);
    assert(p@ =~= observer_pattern_view());
    p
}

fn strategy_pattern() -> (p: CodePattern)
    ensures
        p@ == strategy_pattern_view(),
{
    let mut p = CodePattern::new(
        "pattern-strategy",
        PatternCategory::Strategy,
        "trait Strategy { fn execute(&self); }",
        0x3f51_eb85,
        ctx("any", None, PatternComplexity::Medium),
    );
    p.description = "Encapsulate algorithms behind a trait/interface so they can be swapped.".to_string();
    let examples: [&str; 1] = ["let sorter: Box<dyn Sorter> = Box::new(QuickSorter);"];
    p.examples = to_strings(&examples);
    assert(p@ =~= strategy_pattern_view());
    p
}

fn repository_pattern() -> (p: CodePattern)
    ensures
        p@ == repository_pattern_view(),
{
    let mut p = CodePattern::new(
        "pattern-repository",
        PatternCategory::Repository,
        "trait Repository { fn find(&self, id: Id) -> Option<T>; ... }",
        0x3f4c_cccd,
        ctx("any", None, PatternComplexity::Medium),
    );
    p.description = "Hide data-access details behind a Repository trait.".to_string();
    let examples: [&str; 1] = ["let user = repo.find(user_id)?;"];
    p.examples = to_strings(&examples);
    assert(p@ =~= repository_pattern_view());
    p
}

fn decorator_pattern() -> (p: CodePattern)
    ensures
        p@ == decorator_pattern_view(),
{
    let mut p = CodePattern::new(
        "pattern-decorator",
        PatternCategory::Decorator,
        "struct Decorator { inner: T }",
        0x3f47_ae14,
        ctx("any", None, PatternComplexity::Medium),
    );
    p.description = "Add behavior by wrapping an object instead of subclassing.".to_string();
    let examples: [&str; 1] = ["let logged = Logging::new(inner);"];
    p.examples = to_strings(&examples);
    assert(p@ =~= decorator_pattern_view());
    p
}

fn factory_pattern() -> (p: CodePattern)
    ensures
        p@ == factory_pattern_view(),
{
    let mut p = CodePattern::new(
        "pattern-factory",
        PatternCategory::Factory,
        "fn create(kind: Kind) -> Box<dyn Product>",
        0x3f54_7ae1,
        ctx("any", None, PatternComplexity::Low),
    );
    p.description = "Centralize object creation in a factory function.".to_string();
    let examples: [&str; 1] = ["let p = factory.create(Kind::A);"];
    p.examples = to_strings(&examples);
    assert(p@ =~= factory_pattern_view());
    p
}

fn iterator_pattern() -> (p: CodePattern)
    ensures
        p@ == iterator_pattern_view(),
{
    let mut p = CodePattern::new(
        "pattern-iterator",
        PatternCategory::Iterator,
        "trait Iterator { type Item; fn next(&mut self) -> Option<Self::Item>; }",
        0x3f5c_28f6,
        ctx("any", None, PatternComplexity::Low),
    );
    p.description = "Provide sequential access without exposing the underlying representation.".to_string();
    let examples: [&str; 1] = ["for x in iter { ... }"];
    p.examples = to_strings(&examples);
    assert(p@ =~= iterator_pattern_view());
    p
}

/// A number that tells the built-in identifiers apart: length, first character and
/// second-to-last character.
spec fn id_code(s: Seq<char>) -> int {
    s.len() * 0x1_0000_0000_0000 + (s[0] as int) * 0x100_0000 + (s[s.len() - 2] as int)
}

/// No later element of `s` has the code of `x`.
spec fn code_differs_from_all(x: Seq<char>, s: Seq<Seq<char>>) -> bool
    decreases s.len(),
{
    s.len() == 0 || (id_code(x) != id_code(s[0]) && code_differs_from_all(x, s.drop_first()))
}

/// The elements of `s` have pairwise different codes.
spec fn codes_distinct(s: Seq<Seq<char>>) -> bool
    decreases s.len(),
{
    s.len() == 0 || (code_differs_from_all(s[0], s.drop_first()) && codes_distinct(s.drop_first()))
}

proof fn lemma_differs(x: Seq<char>, s: Seq<Seq<char>>, i: int)
    requires
        code_differs_from_all(x, s),
        0 <= i < s.len(),
    ensures
        x != s[i],
    decreases s.len(),
{
    if i > 0 {
        lemma_differs(x, s.drop_first(), i - 1);
    }
}

proof fn lemma_codes_distinct(s: Seq<Seq<char>>)
    requires
        codes_distinct(s),
    ensures
        s.no_duplicates(),
    decreases s.len(),
{
    if s.len() > 0 {
        let t = s.drop_first();
        lemma_codes_distinct(t);
        assert forall|i: int, j: int| 0 <= i < s.len() && 0 <= j < s.len() && i != j implies s[i]
            != s[j] by {
            if i == 0 {
                lemma_differs(s[0], t, j - 1);
            } else if j == 0 {
                lemma_differs(s[0], t, i - 1);
            } else {
                assert(s[i] == t[i - 1] && s[j] == t[j - 1]);
            }
        }
    }
}

/// The built-in patterns have distinct identifiers.
proof fn lemma_builtin_ids_distinct()
    ensures
        entry_keys(builtin_entries()).no_duplicates(),
{
    reveal_strlit("rust-result-propagation");
    reveal_strlit("rust-async-tokio");
    reveal_strlit("rust-option-combinators");
    reveal_strlit("rust-builder");
    reveal_strlit("rust-newtype");
    reveal_strlit("rust-typestate");
    reveal_strlit("ts-async-await");
    reveal_strlit("ts-promise-all");
    reveal_strlit("py-context-manager");
    reveal_strlit("py-dataclass");
    reveal_strlit("go-error-return");
    reveal_strlit("go-goroutine-context");
    reveal_strlit("java-try-with-resources");
    reveal_strlit("cpp-raii");
    reveal_strlit("pattern-observer");
    reveal_strlit("pattern-strategy");
    reveal_strlit("pattern-repository");
    reveal_strlit("pattern-decorator");
    reveal_strlit("pattern-factory");
    reveal_strlit("pattern-iterator");
    let ks = entry_keys(builtin_entries());
    let lits = seq!["rust-result-propagation"@, "rust-async-tokio"@, "rust-option-combinators"@, "rust-builder"@, "rust-newtype"@, "rust-typestate"@, "ts-async-await"@, "ts-promise-all"@, "py-context-manager"@, "py-dataclass"@, "go-error-return"@, "go-goroutine-context"@, "java-try-with-resources"@, "cpp-raii"@, "pattern-observer"@, "pattern-strategy"@, "pattern-repository"@, "pattern-decorator"@, "pattern-factory"@, "pattern-iterator"@];
    assert(ks =~= lits);
    reveal_with_fuel(codes_distinct, 21);
    reveal_with_fuel(code_differs_from_all, 21);
    assert(codes_distinct(lits));
    lemma_codes_distinct(lits);
}

/// The built-in pattern library: every built-in pattern under its identifier, in
/// library order.
pub fn builtin_patterns() -> (m: IndexMap<String, CodePattern>)
    ensures
        pattern_entries(m) == builtin_entries(),
        entry_keys(builtin_entries()).no_duplicates(),
{
    build()
}

fn build() -> (m: IndexMap<String, CodePattern>)
    ensures
        pattern_entries(m) == builtin_entries(),
        entry_keys(builtin_entries()).no_duplicates(),
{
    let patterns: Vec<CodePattern> = vec![
        rust_result_propagation(),
        rust_async_tokio(),
        rust_option_combinators(),
        rust_builder(),
        rust_newtype(),
        rust_typestate(),
        ts_async_await(),
        ts_promise_all(),
        py_context_manager(),
        py_dataclass(),
        go_error_return(),
        go_goroutine_with_context(),
        java_try_with_resources(),
        cpp_raii(),
        observer_pattern(),
        strategy_pattern(),
        repository_pattern(),
        decorator_pattern(),
        factory_pattern(),
        iterator_pattern(),
    ];
    let mut m = map_new();
    let mut i: usize = 0;
    proof {
        lemma_builtin_ids_distinct();
    }
    while i < patterns.len()
        invariant
            i <= patterns.len(),
            patterns@.len() == builtin_views().len(),
            forall|j: int| 0 <= j < patterns.len() ==> (#[trigger] patterns@[j])@ == builtin_views()[j],
            entry_keys(builtin_entries()).no_duplicates(),
            pattern_entries(m) == builtin_entries().take(i as int),
            entry_keys(pattern_entries(m)).no_duplicates(),
        decreases patterns.len() - i,
    {
        let p = patterns[i].clone();
        let ghost e = pattern_entries(m);
        proof {
            assert(entry_keys(builtin_entries())[i as int] == p@.id);
            if entry_keys(e).contains(p@.id) {
                let j = entry_keys(e).index_of(p@.id);
                assert(entry_keys(builtin_entries())[j] == p@.id);
            }
        }
        map_insert(&mut m, p.id.clone(), p);
        assert(builtin_entries().take(i + 1) =~= builtin_entries().take(i as int).push(
            builtin_entries()[i as int],
        ));
        i = i + 1;
    }
    assert(builtin_entries().take(i as int) =~= builtin_entries());
    m
}

} // verus!

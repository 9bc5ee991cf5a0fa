use cog_patterns::patterns::Language;
use cog_patterns::signature::{SignatureExtractor, SignatureKind};

#[test]
fn extracts_rust_signatures() {
    let code = r#"
            use std::io;
            pub struct Foo { x: i32 }
            impl Foo {
                pub fn new() -> Self { Self { x: 0 } }
                pub async fn run(&self) -> Result<(), io::Error> { Ok(()) }
            }
            unsafe fn danger() {}
            trait Greet { fn hi(&self); }
            macro_rules! my_macro { () => {}; }
            pub mod inner;
        "#;
    let sigs = SignatureExtractor::new().extract(code);
    let kinds: Vec<_> = sigs.iter().map(|s| s.kind.id()).collect();
    assert!(kinds.contains(&"import"));
    assert!(kinds.contains(&"struct"));
    assert!(kinds.contains(&"impl"));
    assert!(kinds.contains(&"function"));
    assert!(kinds.contains(&"async_function"));
    assert!(kinds.contains(&"unsafe"));
    assert!(kinds.contains(&"trait"));
    assert!(kinds.contains(&"macro"));
    assert!(kinds.contains(&"module"));
}

#[test]
fn helper_flags_work() {
    let e = SignatureExtractor::new();
    let code = "fn foo() -> Result<i32, E> { let x = bar()?; Ok(x) }";
    assert!(e.has_function(code));
    assert!(e.uses_result(code));
    assert!(!e.has_async(code));
    let code2 = "async fn foo() {}";
    assert!(e.has_async(code2));
}

#[test]
fn function_count_works() {
    let e = SignatureExtractor::new();
    assert_eq!(e.count_functions("fn a() {} fn b() {} fn c() {}"), 3);
    assert_eq!(e.count_functions("def x(): pass\ndef y(): pass"), 2);
}

#[test]
fn has_unsafe_only_for_rust() {
    let e = SignatureExtractor::new();
    assert!(e.has_unsafe("unsafe fn x() {}", Language::Rust));
    assert!(!e.has_unsafe("unsafe fn x() {}", Language::TypeScript));
}

#[test]
fn extract_numbers_lines_and_trims() {
    let e = SignatureExtractor::new();
    let sigs = e.extract("\n  fn a() {}\r\nlet x = 1;\n\tpub struct S;\n");
    assert_eq!(sigs.len(), 2);
    assert_eq!(sigs[0].line, 2);
    assert_eq!(sigs[0].kind, SignatureKind::Function);
    assert_eq!(sigs[0].text, "fn a() {}");
    assert_eq!(sigs[1].line, 4);
    assert_eq!(sigs[1].kind, SignatureKind::Struct);
    assert_eq!(sigs[1].text, "pub struct S;");
}

#[test]
fn extract_handles_empty_and_unicode_whitespace() {
    let e = SignatureExtractor::new();
    assert!(e.extract("").is_empty());
    let sigs = e.extract("\u{3000}\u{a0}enum Color { Red }");
    assert_eq!(sigs.len(), 1);
    assert_eq!(sigs[0].kind, SignatureKind::Enum);
    assert_eq!(sigs[0].text, "enum Color { Red }");
    // A carriage return without a line feed stays in the text.
    let sigs = e.extract("mod m;\r");
    assert_eq!(sigs[0].text, "mod m;\r");
}

#[test]
fn classify_prefers_the_first_matching_kind() {
    let e = SignatureExtractor::new();
    assert_eq!(e.classify_line("pub async fn run()"), Some(SignatureKind::AsyncFunction));
    assert_eq!(e.classify_line("#[macro_export]"), Some(SignatureKind::Macro));
    assert_eq!(e.classify_line("unsafe impl Send for X {}"), Some(SignatureKind::Unsafe));
    assert_eq!(e.classify_line("use a::b;"), Some(SignatureKind::Import));
    assert_eq!(e.classify_line("let x = fn_ptr;"), None);
}

#[test]
fn kind_ids_are_stable() {
    assert_eq!(SignatureKind::Function.id(), "function");
    assert_eq!(SignatureKind::AsyncFunction.id(), "async_function");
    assert_eq!(SignatureKind::Import.id(), "import");
    assert_eq!(SignatureKind::Macro.id(), "macro");
}

#[test]
fn count_functions_skips_marked_contexts() {
    let e = SignatureExtractor::new();
    assert_eq!(e.count_functions("unctifn x"), 0);
    assert_eq!(e.count_functions("capture func x"), 0);
    assert_eq!(e.count_functions("func main() {}"), 1);
    assert_eq!(e.count_functions("function f() {}"), 0);
    assert_eq!(e.count_functions(""), 0);
    assert_eq!(e.count_functions("é fn x"), 1);
}

#[test]
fn type_and_option_flags() {
    let e = SignatureExtractor::new();
    assert!(e.has_type_def("class A {}"));
    assert!(!e.has_type_def("let a = 1;"));
    assert!(e.uses_option("let x: Option<u8> = None;"));
    assert!(!e.uses_option("let x = 1;"));
    assert!(e.has_async("async{ }"));
    assert!(!e.has_function("let x = 1;"));
}

#[test]
fn counted_functions_are_found_by_has_function() {
    let e = SignatureExtractor::new();
    for code in ["def f(x):", "héllo fn main()", "ünïcode func run() {}", "fn a() {} fn b() {}"] {
        assert!(e.count_functions(code) > 0);
        assert!(e.has_function(code));
    }
    assert_eq!(e.count_functions("héllo fn main()"), 1);
    assert_eq!(e.count_functions("no definitions here"), 0);
}

#[test]
fn leading_newline_shifts_signature_lines() {
    let e = SignatureExtractor::new();
    let code = "fn a() {}\n  struct B;\n\nimpl B {}";
    let shifted: Vec<(u32, SignatureKind, String)> =
        e.extract(code).into_iter().map(|s| (s.line + 1, s.kind, s.text)).collect();
    let moved: Vec<(u32, SignatureKind, String)> =
        e.extract(&format!("\n{}", code)).into_iter().map(|s| (s.line, s.kind, s.text)).collect();
    assert_eq!(moved, shifted);
    assert_eq!(moved[1], (3, SignatureKind::Struct, "struct B;".to_string()));
}

#[test]
fn function_counts_add_across_a_line_feed() {
    let e = SignatureExtractor::new();
    let (a, b) = ("def f(): pass  uncti", "fn g() {} func h() {}");
    let joined = format!("{}\n{}", a, b);
    assert_eq!(e.count_functions(a), 1);
    assert_eq!(e.count_functions(b), 2);
    assert_eq!(e.count_functions(&joined), 3);
}

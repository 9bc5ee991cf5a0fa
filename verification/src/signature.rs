//! Signature extraction: short structural fingerprints of source code used for fast
//! pattern matching without a full parser. They are deliberately lossy: the goal is to
//! recognize categories of code, not exact syntax.
use vstd::prelude::*;
use vstd::string::StringSliceAdditionalSpecFns;
use vstd::utf8::{char_u32_cast, encode_scalar, encode_utf8, has_width_1_encoding};
use crate::patterns::Language;
use crate::text::{
    chars_of, contains_chars, has_prefix, newline_index, next_line, occurs_at, seq_contains, skip_whitespace, split_lines,
    str_contains, str_has_prefix, strip_cr, trim_start,
};

verus! {

/// Extracts lightweight signatures from source code.
#[derive(Debug, Clone, Copy, Default)]
pub struct SignatureExtractor;

/// Kind of signature.
#[derive(Debug, Clone, Copy, PartialEq, Eq, Hash, Structural)]
pub enum SignatureKind {
    /// Regular function.
    Function,
    /// Async function.
    AsyncFunction,
    /// Struct definition.
    Struct,
    /// Enum definition.
    Enum,
    /// Trait definition.
    Trait,
    /// Impl block.
    Impl,
    /// Module declaration.
    Module,
    /// Unsafe block.
    Unsafe,
    /// Macro definition.
    Macro,
    /// Use statement / import.
    Import,
}

/// The stable identifier of each signature kind.
pub open spec fn kind_id(kind: SignatureKind) -> Seq<char> {
    match kind {
        SignatureKind::Function => "function"@,
        SignatureKind::AsyncFunction => "async_function"@,
        SignatureKind::Struct => "struct"@,
        SignatureKind::Enum => "enum"@,
        SignatureKind::Trait => "trait"@,
        SignatureKind::Impl => "impl"@,
        SignatureKind::Module => "module"@,
        SignatureKind::Unsafe => "unsafe"@,
        SignatureKind::Macro => "macro"@,
        SignatureKind::Import => "import"@,
    }
}

impl SignatureKind {
    /// Stable identifier.
    pub fn id(self) -> (r: &'static str)
        ensures
            r@ == kind_id(self),
    {
        match self {
            SignatureKind::Function => "function",
            SignatureKind::AsyncFunction => "async_function",
            SignatureKind::Struct => "struct",
            SignatureKind::Enum => "enum",
            SignatureKind::Trait => "trait",
            SignatureKind::Impl => "impl",
            SignatureKind::Module => "module",
            SignatureKind::Unsafe => "unsafe",
            SignatureKind::Macro => "macro",
            SignatureKind::Import => "import",
        }
    }
}

/// A single extracted signature.
#[derive(Debug, PartialEq, Eq)]
pub struct Signature {
    /// 1-indexed line.
    pub line: u32,
    /// Signature kind.
    pub kind: SignatureKind,
    /// The line, with its leading whitespace removed.
    pub text: String,
}

impl View for Signature {
    type V = (u32, SignatureKind, Seq<char>);

    open spec fn view(&self) -> (u32, SignatureKind, Seq<char>) {
        (self.line, self.kind, self.text@)
    }
}

impl Clone for Signature {
    fn clone(&self) -> (r: Self)
        ensures
            r@ == self@,
    {
        Signature { line: self.line, kind: self.kind, text: self.text.clone() }
    }
}

/// The kind of signature that a line, with leading whitespace removed, opens with.
pub open spec fn classify(t: Seq<char>) -> Option<SignatureKind> {
    if has_prefix(t, "fn "@) || has_prefix(t, "pub fn "@) {
        Some(SignatureKind::Function)
    } else if has_prefix(t, "async fn "@) || has_prefix(t, "pub async fn "@) {
        Some(SignatureKind::AsyncFunction)
    } else if has_prefix(t, "struct "@) || has_prefix(t, "pub struct "@) {
        Some(SignatureKind::Struct)
    } else if has_prefix(t, "enum "@) || has_prefix(t, "pub enum "@) {
        Some(SignatureKind::Enum)
    } else if has_prefix(t, "trait "@) || has_prefix(t, "pub trait "@) {
        Some(SignatureKind::Trait)
    } else if has_prefix(t, "impl "@) {
        Some(SignatureKind::Impl)
    } else if has_prefix(t, "mod "@) || has_prefix(t, "pub mod "@) {
        Some(SignatureKind::Module)
    } else if has_prefix(t, "unsafe "@) {
        Some(SignatureKind::Unsafe)
    } else if has_prefix(t, "macro_rules!"@) || has_prefix(t, "#[macro_export]"@) {
        Some(SignatureKind::Macro)
    } else if has_prefix(t, "use "@) {
        Some(SignatureKind::Import)
    } else {
        None
    }
}

/// The signatures of the given lines, in order: one for each line whose trimmed text
/// classifies, with the line's 1-based number (as `u32`), its kind and its trimmed text.
pub open spec fn signatures_of_lines(lines: Seq<Seq<char>>) -> Seq<(u32, SignatureKind, Seq<char>)>
    decreases lines.len(),
{
    if lines.len() == 0 {
        seq![]
    } else {
        let prev = signatures_of_lines(lines.drop_last());
        let t = trim_start(lines.last());
        match classify(t) {
            Some(kind) => prev.push((lines.len() as u32, kind, t)),
            None => prev,
        }
    }
}

/// The signatures of a piece of source code, in line order.
pub open spec fn signatures_of(code: Seq<char>) -> Seq<(u32, SignatureKind, Seq<char>)> {
    signatures_of_lines(split_lines(code))
}

/// `pat` occurs in the byte sequence `b` starting at position `i`.
pub open spec fn bytes_occur_at(b: Seq<u8>, pat: Seq<u8>, i: int) -> bool {
    0 <= i && i + pat.len() <= b.len() && b.subrange(i, i + pat.len()) == pat
}

/// The bytes of `"fn "`.
pub open spec fn fn_kw() -> Seq<u8> {
    seq![102u8, 110u8, 32u8]
}

/// The bytes of `"def "`.
pub open spec fn def_kw() -> Seq<u8> {
    seq![100u8, 101u8, 102u8, 32u8]
}

/// The bytes of `"func "`.
pub open spec fn func_kw() -> Seq<u8> {
    seq![102u8, 117u8, 110u8, 99u8, 32u8]
}

/// The bytes of `"uncti"`: a `"fn "` right after them is not counted.
pub open spec fn uncti() -> Seq<u8> {
    seq![117u8, 110u8, 99u8, 116u8, 105u8]
}

/// The bytes of `"ture "`: a `"func "` right after them is not counted.
pub open spec fn ture() -> Seq<u8> {
    seq![116u8, 117u8, 114u8, 101u8, 32u8]
}

/// A function definition keyword starts at byte `i`: `"fn "` not preceded by
/// `"uncti"`, `"def "`, or `"func "` not preceded by `"ture "`.
pub open spec fn function_keyword_at(b: Seq<u8>, i: int) -> bool {
    ||| bytes_occur_at(b, fn_kw(), i) && !bytes_occur_at(b, uncti(), i - 5)
    ||| bytes_occur_at(b, def_kw(), i)
    ||| bytes_occur_at(b, func_kw(), i) && !bytes_occur_at(b, ture(), i - 5)
}

/// The number of positions below `n` at which a function definition keyword starts.
pub open spec fn keyword_positions_below(b: Seq<u8>, n: int) -> nat
    decreases n,
{
    if n <= 0 {
        0
    } else {
        keyword_positions_below(b, n - 1) + if function_keyword_at(b, n - 1) { 1nat } else { 0nat }
    }
}

/// The number of function definitions in the byte sequence `b`.
pub open spec fn function_count(b: Seq<u8>) -> nat {
    keyword_positions_below(b, b.len() as int)
}

proof fn lemma_positions_bounded(b: Seq<u8>, n: int)
    requires
        0 <= n,
    ensures
        keyword_positions_below(b, n) <= n,
    decreases n,
{
    if n > 0 {
        lemma_positions_bounded(b, n - 1);
    }
}

/// No keyword starts strictly inside a keyword of length `len` at `i`.
proof fn lemma_inside_not_keyword(b: Seq<u8>, i: int, len: int, j: int)
    requires
        0 <= i,
        i + len <= b.len(),
        3 <= len <= 5,
        1 <= j < len,
        len == 3 ==> bytes_occur_at(b, fn_kw(), i),
        len == 4 ==> bytes_occur_at(b, def_kw(), i),
        len == 5 ==> bytes_occur_at(b, func_kw(), i),
    ensures
        !function_keyword_at(b, i + j),
{
    let s = b.subrange(i, i + len);
    assert(s[j] == b[i + j]);
    if len == 3 {
        assert(fn_kw()[j] == b[i + j]);
    } else if len == 4 {
        assert(def_kw()[j] == b[i + j]);
        if j == 2 {
            assert(s[3] == b[i + 3]);
            assert(def_kw()[3] == b[i + 3]);
            if bytes_occur_at(b, fn_kw(), i + j) {
                assert(b.subrange(i + j, i + j + 3)[1] == b[i + 3]);
            }
            if bytes_occur_at(b, func_kw(), i + j) {
                assert(b.subrange(i + j, i + j + 5)[1] == b[i + 3]);
            }
        }
    } else {
        assert(func_kw()[j] == b[i + j]);
    }
    if bytes_occur_at(b, fn_kw(), i + j) {
        assert(b.subrange(i + j, i + j + 3)[0] == b[i + j]);
    }
    if bytes_occur_at(b, def_kw(), i + j) {
        assert(b.subrange(i + j, i + j + 4)[0] == b[i + j]);
    }
    if bytes_occur_at(b, func_kw(), i + j) {
        assert(b.subrange(i + j, i + j + 5)[0] == b[i + j]);
    }
}

/// Skipping over a keyword of length `len` at `i` skips no other keyword start.
proof fn lemma_skip(b: Seq<u8>, i: int, len: int)
    requires
        0 <= i,
        i + len <= b.len(),
        3 <= len <= 5,
        len == 3 ==> bytes_occur_at(b, fn_kw(), i),
        len == 4 ==> bytes_occur_at(b, def_kw(), i),
        len == 5 ==> bytes_occur_at(b, func_kw(), i),
    ensures
        keyword_positions_below(b, i + len) == keyword_positions_below(b, i) + if function_keyword_at(
            b,
            i,
        ) {
            1nat
        } else {
            0nat
        },
{
    if len >= 2 {
        lemma_inside_not_keyword(b, i, len, 1);
    }
    if len >= 3 {
        lemma_inside_not_keyword(b, i, len, 2);
    }
    if len >= 4 {
        lemma_inside_not_keyword(b, i, len, 3);
    }
    if len >= 5 {
        lemma_inside_not_keyword(b, i, len, 4);
    }
    assert(keyword_positions_below(b, i + 1) == keyword_positions_below(b, i) + if function_keyword_at(
        b,
        i,
    ) {
        1nat
    } else {
        0nat
    });
    if len >= 2 {
        assert(!function_keyword_at(b, i + 1));
        assert(keyword_positions_below(b, i + 2) == keyword_positions_below(b, i + 1));
    }
    if len >= 3 {
        assert(!function_keyword_at(b, i + 2));
        assert(keyword_positions_below(b, i + 3) == keyword_positions_below(b, i + 2));
    }
    if len >= 4 {
        assert(!function_keyword_at(b, i + 3));
        assert(keyword_positions_below(b, i + 4) == keyword_positions_below(b, i + 3));
    }
    if len >= 5 {
        assert(!function_keyword_at(b, i + 4));
        assert(keyword_positions_below(b, i + 5) == keyword_positions_below(b, i + 4));
    }
}

fn bytes_match(b: &[u8], i: usize, p0: u8, p1: u8, p2: u8, p3: u8, p4: u8, len: usize) -> (r: bool)
    requires
        1 <= len <= 5,
    ensures
        r == bytes_occur_at(b@, seq![p0, p1, p2, p3, p4].take(len as int), i as int),
{
    let ghost pat = seq![p0, p1, p2, p3, p4].take(len as int);
    if i > b.len() || len > b.len() - i {
        return false;
    }
    let r = b[i] == p0 && (len < 2 || b[i + 1] == p1) && (len < 3 || b[i + 2] == p2) && (len < 4
        || b[i + 3] == p3) && (len < 5 || b[i + 4] == p4);
    if r {
        assert(b@.subrange(i as int, i + len) =~= pat);
    } else {
        let ghost s = b@.subrange(i as int, i + len);
        if b[i] != p0 {
            assert(s[0] != pat[0]);
        } else if len >= 2 && b[i + 1] != p1 {
            assert(s[1] != pat[1]);
        } else if len >= 3 && b[i + 2] != p2 {
            assert(s[2] != pat[2]);
        } else if len >= 4 && b[i + 3] != p3 {
            assert(s[3] != pat[3]);
        } else {
            assert(s[4] != pat[4]);
        }
    }
    r
}

impl SignatureExtractor {
    /// Constructs a new extractor.
    pub fn new() -> (r: Self) {
        SignatureExtractor
    }

    /// Extracts all signatures present in the code, preserving order.
    pub fn extract(&self, code: &str) -> (out: Vec<Signature>)
        ensures
            out@.map_values(|s: Signature| s@) == signatures_of(code@),
    {
        let v = chars_of(code);
        let n = v.len();
        let mut out: Vec<Signature> = Vec::new();
        let mut pos: usize = 0;
        let mut i: usize = 0;
        let ghost mut done: Seq<Seq<char>> = seq![];
        assert(v@.skip(0) =~= v@);
        while pos < n
            invariant
                n == v.len(),
                v@ == code@,
                i <= pos <= n,
                done.len() == i,
                split_lines(v@) == done + split_lines(v@.skip(pos as int)),
                out@.map_values(|s: Signature| s@) == signatures_of_lines(done),
            decreases n - pos,
        {
            let (e, next) = next_line(&v, pos);
            let k = skip_whitespace(&v, pos, e);
            let ghost line = v@.subrange(pos as int, e as int);
            let trimmed = code.substring_char(k, e);
            let kind = self.classify_line(trimmed);
            proof {
                assert(done.push(line).drop_last() =~= done);
                assert(done + split_lines(v@.skip(pos as int)) =~= done.push(line) + split_lines(
                    v@.skip(next as int),
                ));
            }
            if let Some(kind) = kind {
                let sig = Signature { line: (i + 1) as u32, kind, text: trimmed.to_string() };
                out.push(sig);
                assert(out@.map_values(|s: Signature| s@) =~= signatures_of_lines(done).push(
                    ((i + 1) as u32, kind, trimmed@),
                ));
            }
            proof {
                done = done.push(line);
            }
            i = i + 1;
            pos = next;
        }
        assert(v@.skip(n as int) =~= Seq::<char>::empty());
        assert(done + Seq::<Seq<char>>::empty() =~= done);
        out
    }

    /// Classifies a line whose leading whitespace has been removed.
    pub fn classify_line(&self, trimmed: &str) -> (r: Option<SignatureKind>)
        ensures
            r == classify(trimmed@),
    {
        let t = chars_of(trimmed);
        if str_has_prefix(&t, "fn ") || str_has_prefix(&t, "pub fn ") {
            Some(SignatureKind::Function)
        } else if str_has_prefix(&t, "async fn ") || str_has_prefix(&t, "pub async fn ") {
            Some(SignatureKind::AsyncFunction)
        } else if str_has_prefix(&t, "struct ") || str_has_prefix(&t, "pub struct ") {
            Some(SignatureKind::Struct)
        } else if str_has_prefix(&t, "enum ") || str_has_prefix(&t, "pub enum ") {
            Some(SignatureKind::Enum)
        } else if str_has_prefix(&t, "trait ") || str_has_prefix(&t, "pub trait ") {
            Some(SignatureKind::Trait)
        } else if str_has_prefix(&t, "impl ") {
            Some(SignatureKind::Impl)
        } else if str_has_prefix(&t, "mod ") || str_has_prefix(&t, "pub mod ") {
            Some(SignatureKind::Module)
        } else if str_has_prefix(&t, "unsafe ") {
            Some(SignatureKind::Unsafe)
        } else if str_has_prefix(&t, "macro_rules!") || str_has_prefix(&t, "#[macro_export]") {
            Some(SignatureKind::Macro)
        } else if str_has_prefix(&t, "use ") {
            Some(SignatureKind::Import)
        } else {
            None
        }
    }

    /// Returns `true` if the code contains a function definition keyword.
    pub fn has_function(&self, code: &str) -> (r: bool)
        ensures
            r == (seq_contains(code@, "fn "@) || seq_contains(code@, "function "@) || seq_contains(
                code@,
                "def "@,
            ) || seq_contains(code@, "func "@)),
    {
        let c = chars_of(code);
        contains_chars(&c, &chars_of("fn ")) || contains_chars(&c, &chars_of("function "))
            || contains_chars(&c, &chars_of("def ")) || contains_chars(&c, &chars_of("func "))
    }

    /// Returns `true` if the code contains a type definition keyword.
    pub fn has_type_def(&self, code: &str) -> (r: bool)
        ensures
            r == (seq_contains(code@, "struct "@) || seq_contains(code@, "enum "@) || seq_contains(
                code@,
                "trait "@,
            ) || seq_contains(code@, "interface "@) || seq_contains(code@, "class "@)),
    {
        let c = chars_of(code);
        contains_chars(&c, &chars_of("struct ")) || contains_chars(&c, &chars_of("enum "))
            || contains_chars(&c, &chars_of("trait ")) || contains_chars(&c, &chars_of("interface "))
            || contains_chars(&c, &chars_of("class "))
    }

    /// Returns `true` if the code contains an `async` construct.
    pub fn has_async(&self, code: &str) -> (r: bool)
        ensures
            r == (seq_contains(code@, "async "@) || seq_contains(code@, "async\n"@) || seq_contains(
                code@,
                "async{"@,
            )),
    {
        let c = chars_of(code);
        contains_chars(&c, &chars_of("async ")) || contains_chars(&c, &chars_of("async\n"))
            || contains_chars(&c, &chars_of("async{"))
    }

    /// Returns `true` if the code uses `Result` or `?`.
    pub fn uses_result(&self, code: &str) -> (r: bool)
        ensures
            r == (seq_contains(code@, "Result<"@) || seq_contains(code@, "Ok("@) || seq_contains(
                code@,
                "?"@,
            )),
    {
        let c = chars_of(code);
        contains_chars(&c, &chars_of("Result<")) || contains_chars(&c, &chars_of("Ok("))
            || contains_chars(&c, &chars_of("?"))
    }

    /// Returns `true` if the code uses `Option`.
    pub fn uses_option(&self, code: &str) -> (r: bool)
        ensures
            r == (seq_contains(code@, "Option<"@) || seq_contains(code@, "Some("@) || seq_contains(
                code@,
                "None"@,
            )),
    {
        let c = chars_of(code);
        contains_chars(&c, &chars_of("Option<")) || contains_chars(&c, &chars_of("Some("))
            || contains_chars(&c, &chars_of("None"))
    }

    /// Returns `true` if the code contains unsafe code; only Rust code is examined.
    pub fn has_unsafe(&self, code: &str, language: Language) -> (r: bool)
        ensures
            r == (language == Language::Rust && seq_contains(code@, "unsafe "@)),
    {
        match language {
            Language::Rust => str_contains(code, "unsafe "),
            _ => false,
        }
    }

    /// Counts function definitions: occurrences of `"fn "` (not right after `"uncti"`),
    /// `"def "`, and `"func "` (not right after `"ture "`).
    pub fn count_functions(&self, code: &str) -> (count: usize)
        ensures
            count == function_count(code.spec_bytes()),
    {
        let bytes = code.as_bytes();
        let len = bytes.len();
        let ghost b = bytes@;
        assert(fn_kw() =~= seq![102u8, 110u8, 32u8, 0u8, 0u8].take(3));
        assert(def_kw() =~= seq![100u8, 101u8, 102u8, 32u8, 0u8].take(4));
        assert(func_kw() =~= seq![102u8, 117u8, 110u8, 99u8, 32u8].take(5));
        assert(uncti() =~= seq![117u8, 110u8, 99u8, 116u8, 105u8].take(5));
        assert(ture() =~= seq![116u8, 117u8, 114u8, 101u8, 32u8].take(5));
        let mut count: usize = 0;
        let mut i: usize = 0;
        while i < len
            invariant
                b == bytes@,
                len == b.len(),
                i <= len,
                count == keyword_positions_below(b, i as int),
                fn_kw() == seq![102u8, 110u8, 32u8, 0u8, 0u8].take(3),
                def_kw() == seq![100u8, 101u8, 102u8, 32u8, 0u8].take(4),
                func_kw() == seq![102u8, 117u8, 110u8, 99u8, 32u8].take(5),
                uncti() == seq![117u8, 110u8, 99u8, 116u8, 105u8].take(5),
                ture() == seq![116u8, 117u8, 114u8, 101u8, 32u8].take(5),
            decreases len - i,
        {
            proof {
                lemma_positions_bounded(b, i as int);
            }
            if bytes_match(bytes, i, 102, 110, 32, 0, 0, 3) {
                let after_uncti = i >= 5 && bytes_match(bytes, i - 5, 117, 110, 99, 116, 105, 5);
                proof {
                    lemma_skip(b, i as int, 3);
                }
                if !after_uncti {
                    count = count + 1;
                }
                i = i + 3;
                continue;
            }
            if bytes_match(bytes, i, 100, 101, 102, 32, 0, 4) {
                proof {
                    lemma_skip(b, i as int, 4);
                }
                count = count + 1;
                i = i + 4;
                continue;
            }
            if bytes_match(bytes, i, 102, 117, 110, 99, 32, 5) {
                let after_ture = i >= 5 && bytes_match(bytes, i - 5, 116, 117, 114, 101, 32, 5);
                proof {
                    lemma_skip(b, i as int, 5);
                }
                if !after_ture {
                    count = count + 1;
                }
                i = i + 5;
                continue;
            }
            assert(keyword_positions_below(b, i + 1) == keyword_positions_below(b, i as int));
            i = i + 1;
        }
        count
    }
}

/// A position below `n` at which a function definition keyword starts, when there is one.
proof fn lemma_counted_position(b: Seq<u8>, n: int) -> (i: int)
    requires
        keyword_positions_below(b, n) > 0,
    ensures
        0 <= i < n,
        function_keyword_at(b, i),
    decreases n,
{
    if n > 0 && function_keyword_at(b, n - 1) {
        n - 1
    } else {
        lemma_counted_position(b, n - 1)
    }
}

/// A byte below `0x80` in the encoding of one scalar is that scalar's whole one-byte
/// encoding.
proof fn lemma_scalar_ascii_byte(s: u32, p: int)
    requires
        0 <= p < encode_scalar(s).len(),
        encode_scalar(s)[p] < 0x80,
    ensures
        has_width_1_encoding(s),
        p == 0,
        encode_scalar(s).len() == 1,
        encode_scalar(s)[0] as u32 == s,
{
    assert(s <= 0x7F ==> ((s & 0x7F) as u8) as u32 == s) by (bit_vector);
    assert((0xC0u8 | (((s >> 6) & 0x1F) as u8)) >= 0x80u8) by (bit_vector);
    assert((0xE0u8 | (((s >> 12) & 0x0F) as u8)) >= 0x80u8) by (bit_vector);
    assert((0xF0u8 | (((s >> 18) & 0x7) as u8)) >= 0x80u8) by (bit_vector);
    assert((0x80u8 | ((s & 0x3F) as u8)) >= 0x80u8) by (bit_vector);
    assert((0x80u8 | (((s >> 6) & 0x3F) as u8)) >= 0x80u8) by (bit_vector);
    assert((0x80u8 | (((s >> 12) & 0x3F) as u8)) >= 0x80u8) by (bit_vector);
}

/// The encoding of a non-empty text is not empty.
proof fn lemma_encoding_nonempty(c: Seq<char>)
    requires
        c.len() > 0,
    ensures
        encode_utf8(c).len() > 0,
{
    assert(encode_utf8(c) == encode_scalar(c[0] as u32) + encode_utf8(c.drop_first()));
}

/// A run of bytes below `0x80` in the UTF-8 encoding of a text starts on a character
/// boundary `q` and spells out, character by character, the characters from `q` on.
proof fn lemma_ascii_run(c: Seq<char>, kw: Seq<u8>, p: int) -> (q: int)
    requires
        kw.len() > 0,
        forall|j: int| 0 <= j < kw.len() ==> #[trigger] kw[j] < 0x80,
        bytes_occur_at(encode_utf8(c), kw, p),
    ensures
        0 <= q,
        q + kw.len() <= c.len(),
        encode_utf8(c.take(q)).len() == p,
        forall|j: int| 0 <= j < kw.len() ==> #[trigger] c[q + j] as u32 == kw[j] as u32,
    decreases c.len(),
{
    let k = kw.len() as int;
    if c.len() == 0 {
        assert(encode_utf8(c).len() == 0);
        assert(false);
        0
    } else {
        let s = c[0] as u32;
        let head = encode_scalar(s);
        let rest = c.drop_first();
        let b = encode_utf8(c);
        assert(b == head + encode_utf8(rest));
        if p >= head.len() {
            let p1 = p - head.len();
            assert(encode_utf8(rest).subrange(p1, p1 + k) =~= b.subrange(p, p + k));
            let q1 = lemma_ascii_run(rest, kw, p1);
            assert(c.take(q1 + 1).drop_first() =~= rest.take(q1));
            assert(encode_utf8(c.take(q1 + 1)) == encode_scalar(c.take(q1 + 1)[0] as u32)
                + encode_utf8(c.take(q1 + 1).drop_first()));
            assert forall|j: int| 0 <= j < k implies #[trigger] c[q1 + 1 + j] as u32 == kw[j] as u32 by {
                assert(c[q1 + 1 + j] == rest[q1 + j]);
            }
            q1 + 1
        } else {
            assert(b[p] == kw[0]);
            assert(kw[0] < 0x80);
            lemma_scalar_ascii_byte(s, p);
            assert(c.take(0).len() == 0);
            assert(encode_utf8(c.take(0)).len() == 0);
            if k == 1 {
                assert(c[0] as u32 == kw[0] as u32);
                0
            } else {
                let kw2 = kw.drop_first();
                assert(encode_utf8(rest) =~= b.subrange(1, b.len() as int));
                assert(encode_utf8(rest).subrange(0, k - 1) =~= b.subrange(1, k));
                assert(b.subrange(1, k) =~= kw2);
                assert forall|j: int| 0 <= j < kw2.len() implies #[trigger] kw2[j] < 0x80 by {
                    assert(kw2[j] == kw[j + 1]);
                }
                let q1 = lemma_ascii_run(rest, kw2, 0);
                if q1 > 0 {
                    lemma_encoding_nonempty(rest.take(q1));
                }
                assert(q1 == 0);
                assert forall|j: int| 0 <= j < k implies #[trigger] c[j] as u32 == kw[j] as u32 by {
                    if j == 0 {
                        assert(head[0] == b[0]);
                    } else {
                        assert(c[j] == rest[j - 1]);
                        assert(kw2[j - 1] == kw[j]);
                        assert(rest[q1 + (j - 1)] as u32 == kw2[j - 1] as u32);
                        assert(c[0 + j] == c[j]);
                    }
                }
                assert forall|j: int| 0 <= j < k implies #[trigger] c[0 + j] as u32 == kw[j] as u32 by {
                    assert(c[0 + j] == c[j]);
                }
                0
            }
        }
    }
}

/// Two characters with the same scalar value are the same character.
proof fn lemma_same_scalar(a: char, b: char)
    requires
        a as u32 == b as u32,
    ensures
        a == b,
{
    char_u32_cast(a, a as u32);
    char_u32_cast(b, b as u32);
}

/// Whenever `count_functions` counts a function definition, `has_function` finds one: a
/// counted keyword is plain ASCII, so its bytes are whole characters of the text.
pub proof fn lemma_counted_function_is_found(code: &str)
    ensures
        function_count(code.spec_bytes()) > 0 ==> (seq_contains(code@, "fn "@) || seq_contains(
            code@,
            "function "@,
        ) || seq_contains(code@, "def "@) || seq_contains(code@, "func "@)),
{
    let b = code.spec_bytes();
    if function_count(b) > 0 {
        let i = lemma_counted_position(b, b.len() as int);
        reveal_strlit("fn ");
        reveal_strlit("def ");
        reveal_strlit("func ");
        let c = code@;
        if bytes_occur_at(b, fn_kw(), i) {
            let kw = fn_kw();
            assert(kw[0] < 0x80 && kw[1] < 0x80 && kw[2] < 0x80);
            let q = lemma_ascii_run(c, kw, i);
            assert(c[q + 0] as u32 == kw[0] as u32 && c[q + 1] as u32 == kw[1] as u32 && c[q + 2] as u32
                == kw[2] as u32);
            let w = "fn "@;
            assert(w.len() == 3 && w[0] == 'f' && w[1] == 'n' && w[2] == ' ');
            lemma_same_scalar(c[q + 0], w[0]);
            lemma_same_scalar(c[q + 1], w[1]);
            lemma_same_scalar(c[q + 2], w[2]);
            assert(c.subrange(q, q + 3) =~= w);
            assert(occurs_at(c, "fn "@, q));
        } else if bytes_occur_at(b, def_kw(), i) {
            let kw = def_kw();
            assert(kw[0] < 0x80 && kw[1] < 0x80 && kw[2] < 0x80 && kw[3] < 0x80);
            let q = lemma_ascii_run(c, kw, i);
            assert(c[q + 0] as u32 == kw[0] as u32 && c[q + 1] as u32 == kw[1] as u32 && c[q + 2] as u32
                == kw[2] as u32 && c[q + 3] as u32 == kw[3] as u32);
            let w = "def "@;
            assert(w.len() == 4 && w[0] == 'd' && w[1] == 'e' && w[2] == 'f' && w[3] == ' ');
            lemma_same_scalar(c[q + 0], w[0]);
            lemma_same_scalar(c[q + 1], w[1]);
            lemma_same_scalar(c[q + 2], w[2]);
            lemma_same_scalar(c[q + 3], w[3]);
            assert(c.subrange(q, q + 4) =~= w);
            assert(occurs_at(c, "def "@, q));
        } else {
            let kw = func_kw();
            assert(kw[0] < 0x80 && kw[1] < 0x80 && kw[2] < 0x80 && kw[3] < 0x80 && kw[4] < 0x80);
            let q = lemma_ascii_run(c, kw, i);
            assert(c[q + 0] as u32 == kw[0] as u32 && c[q + 1] as u32 == kw[1] as u32 && c[q + 2] as u32
                == kw[2] as u32 && c[q + 3] as u32 == kw[3] as u32 && c[q + 4] as u32 == kw[4] as u32);
            let w = "func "@;
            assert(w.len() == 5 && w[0] == 'f' && w[1] == 'u' && w[2] == 'n' && w[3] == 'c' && w[4] == ' ');
            lemma_same_scalar(c[q + 0], w[0]);
            lemma_same_scalar(c[q + 1], w[1]);
            lemma_same_scalar(c[q + 2], w[2]);
            lemma_same_scalar(c[q + 3], w[3]);
            lemma_same_scalar(c[q + 4], w[4]);
            assert(c.subrange(q, q + 5) =~= w);
            assert(occurs_at(c, "func "@, q));
        }
    }
}

/// The signatures of the first lines all carry line numbers between 1 and the number of
/// those lines, and the last one (if any) carries the number of the last classified line.
proof fn lemma_signature_lines_bounded(lines: Seq<Seq<char>>)
    requires
        lines.len() <= u32::MAX,
    ensures
        forall|i: int|
            0 <= i < signatures_of_lines(lines).len() ==> 1 <= (#[trigger] signatures_of_lines(lines)[i]).0
                <= lines.len(),
        signatures_of_lines(lines).len() <= lines.len(),
    decreases lines.len(),
{
    if lines.len() > 0 {
        lemma_signature_lines_bounded(lines.drop_last());
    }
}

/// Signatures come out in line order: their line numbers strictly increase, as long as
/// the code has no more lines than a `u32` can number.
pub proof fn lemma_signatures_in_line_order(code: Seq<char>)
    requires
        split_lines(code).len() <= u32::MAX,
    ensures
        forall|i: int, j: int|
            0 <= i < j < signatures_of(code).len() ==> (#[trigger] signatures_of(code)[i]).0
                < (#[trigger] signatures_of(code)[j]).0,
{
    lemma_lines_order(split_lines(code));
}

proof fn lemma_lines_order(lines: Seq<Seq<char>>)
    requires
        lines.len() <= u32::MAX,
    ensures
        forall|i: int, j: int|
            0 <= i < j < signatures_of_lines(lines).len() ==> (#[trigger] signatures_of_lines(lines)[i]).0
                < (#[trigger] signatures_of_lines(lines)[j]).0,
    decreases lines.len(),
{
    if lines.len() > 0 {
        let prev = lines.drop_last();
        lemma_lines_order(prev);
        lemma_signature_lines_bounded(prev);
        let ps = signatures_of_lines(prev);
        let s = signatures_of_lines(lines);
        assert forall|i: int, j: int| 0 <= i < j < s.len() implies (#[trigger] s[i]).0 < (#[trigger] s[j]).0 by {
            if j < ps.len() {
                assert(s[i] == ps[i] && s[j] == ps[j]);
            } else {
                assert(s[i] == ps[i]);
                assert(s[j].0 == lines.len() as u32);
            }
        }
    }
}

/// The signatures of `sigs`, each one line further down.
pub open spec fn shifted_down(sigs: Seq<(u32, SignatureKind, Seq<char>)>) -> Seq<(u32, SignatureKind, Seq<char>)> {
    sigs.map_values(|s: (u32, SignatureKind, Seq<char>)| ((s.0 + 1) as u32, s.1, s.2))
}

/// An empty line opens no signature.
proof fn lemma_empty_line_unclassified()
    ensures
        classify(trim_start(Seq::<char>::empty())) is None,
{
    reveal_strlit("fn ");
    reveal_strlit("pub fn ");
    reveal_strlit("async fn ");
    reveal_strlit("pub async fn ");
    reveal_strlit("struct ");
    reveal_strlit("pub struct ");
    reveal_strlit("enum ");
    reveal_strlit("pub enum ");
    reveal_strlit("trait ");
    reveal_strlit("pub trait ");
    reveal_strlit("impl ");
    reveal_strlit("mod ");
    reveal_strlit("pub mod ");
    reveal_strlit("unsafe ");
    reveal_strlit("macro_rules!");
    reveal_strlit("#[macro_export]");
    reveal_strlit("use ");
}

/// Putting a line that opens no signature in front of `lines` moves every signature of
/// `lines` one line down.
proof fn lemma_signatures_after_blank_line(l0: Seq<char>, lines: Seq<Seq<char>>)
    requires
        classify(trim_start(l0)) is None,
        lines.len() < u32::MAX,
    ensures
        signatures_of_lines(seq![l0] + lines) == shifted_down(signatures_of_lines(lines)),
    decreases lines.len(),
{
    let all = seq![l0] + lines;
    if lines.len() == 0 {
        assert(all.drop_last() =~= Seq::<Seq<char>>::empty());
        assert(all.last() == l0);
        assert(signatures_of_lines(all) == signatures_of_lines(all.drop_last()));
        assert(shifted_down(signatures_of_lines(lines)) =~= Seq::<(u32, SignatureKind, Seq<char>)>::empty());
    } else {
        let prev = lines.drop_last();
        lemma_signatures_after_blank_line(l0, prev);
        assert(all.drop_last() =~= seq![l0] + prev);
        assert(all.last() == lines.last());
        let t = trim_start(lines.last());
        let sp = signatures_of_lines(prev);
        let sl = signatures_of_lines(lines);
        match classify(t) {
            Some(kind) => {
                assert(sl == sp.push((lines.len() as u32, kind, t)));
                assert(signatures_of_lines(all) == signatures_of_lines(all.drop_last()).push(
                    (all.len() as u32, kind, t),
                ));
                assert(((lines.len() as u32) + 1) as u32 == all.len() as u32);
                assert(shifted_down(sl) =~= shifted_down(sp).push((all.len() as u32, kind, t)));
            },
            None => {
                assert(sl == sp);
                assert(signatures_of_lines(all) == signatures_of_lines(all.drop_last()));
            },
        }
    }
}

/// A line feed put in front of code moves every signature one line down, as long as the
/// code has fewer lines than a `u32` can number.
pub proof fn lemma_leading_newline_shifts_lines(code: Seq<char>)
    requires
        split_lines(code).len() < u32::MAX,
    ensures
        signatures_of(seq!['\n'] + code) == shifted_down(signatures_of(code)),
{
    let s = seq!['\n'] + code;
    assert(newline_index(s) == 0);
    assert(s.take(0) =~= Seq::<char>::empty());
    assert(s.skip(1) =~= code);
    assert(split_lines(s) == seq![strip_cr(s.take(0))] + split_lines(s.skip(1)));
    assert(strip_cr(Seq::<char>::empty()) =~= Seq::<char>::empty());
    lemma_empty_line_unclassified();
    lemma_signatures_after_blank_line(Seq::<char>::empty(), split_lines(code));
}

/// The UTF-8 encoding of two texts one after the other is the two encodings one after the
/// other.
proof fn lemma_encode_concat(x: Seq<char>, y: Seq<char>)
    ensures
        encode_utf8(x + y) == encode_utf8(x) + encode_utf8(y),
    decreases x.len(),
{
    if x.len() == 0 {
        assert(x + y =~= y);
    } else {
        lemma_encode_concat(x.drop_first(), y);
        assert((x + y).drop_first() =~= x.drop_first() + y);
        assert((x + y)[0] == x[0]);
    }
}

/// No byte of `pat` is a line feed.
pub open spec fn no_line_feed(pat: Seq<u8>) -> bool {
    forall|j: int| 0 <= j < pat.len() ==> #[trigger] pat[j] != 10u8
}

/// Up to the end of `x`, a pattern without line feeds occurs in `x + "\n" + y` where it
/// occurs in `x`.
proof fn lemma_occur_before_line_feed(x: Seq<u8>, y: Seq<u8>, pat: Seq<u8>, i: int)
    requires
        pat.len() > 0,
        no_line_feed(pat),
        i <= x.len(),
    ensures
        bytes_occur_at(x + seq![10u8] + y, pat, i) == bytes_occur_at(x, pat, i),
{
    let z = x + seq![10u8] + y;
    let n = pat.len() as int;
    if 0 <= i && i + n <= x.len() {
        assert(z.subrange(i, i + n) =~= x.subrange(i, i + n));
    } else if 0 <= i && bytes_occur_at(z, pat, i) {
        let d = x.len() - i;
        assert(z.subrange(i, i + n)[d] == z[x.len() as int]);
        assert(pat[d] != 10u8);
    }
}

/// From just after the line feed on, a pattern without line feeds occurs in
/// `x + "\n" + y` where it occurs in `y`; a window that would cover the line feed holds
/// no occurrence.
proof fn lemma_occur_after_line_feed(x: Seq<u8>, y: Seq<u8>, pat: Seq<u8>, j: int)
    requires
        pat.len() > 0,
        no_line_feed(pat),
        j >= -(pat.len() as int),
    ensures
        bytes_occur_at(x + seq![10u8] + y, pat, x.len() + 1 + j) == bytes_occur_at(y, pat, j),
{
    let z = x + seq![10u8] + y;
    let n = pat.len() as int;
    let i = x.len() + 1 + j;
    if 0 <= j && j + n <= y.len() {
        assert(z.subrange(i, i + n) =~= y.subrange(j, j + n));
    } else if j < 0 && bytes_occur_at(z, pat, i) {
        let d = x.len() - i;
        assert(z.subrange(i, i + n)[d] == z[x.len() as int]);
        assert(pat[d] != 10u8);
    }
}

proof fn lemma_keywords_have_no_line_feed()
    ensures
        no_line_feed(fn_kw()),
        no_line_feed(def_kw()),
        no_line_feed(func_kw()),
        no_line_feed(uncti()),
        no_line_feed(ture()),
{
}

/// Below the end of `x`, keyword positions of `x + "\n" + y` are those of `x`.
proof fn lemma_positions_before_line_feed(x: Seq<u8>, y: Seq<u8>, n: int)
    requires
        0 <= n <= x.len(),
    ensures
        keyword_positions_below(x + seq![10u8] + y, n) == keyword_positions_below(x, n),
    decreases n,
{
    if n > 0 {
        lemma_positions_before_line_feed(x, y, n - 1);
        let i = n - 1;
        lemma_keywords_have_no_line_feed();
        lemma_occur_before_line_feed(x, y, fn_kw(), i);
        lemma_occur_before_line_feed(x, y, uncti(), i - 5);
        lemma_occur_before_line_feed(x, y, def_kw(), i);
        lemma_occur_before_line_feed(x, y, func_kw(), i);
        lemma_occur_before_line_feed(x, y, ture(), i - 5);
    }
}

/// Past the line feed, keyword positions of `x + "\n" + y` are those of `x` followed by
/// those of `y`.
proof fn lemma_positions_after_line_feed(x: Seq<u8>, y: Seq<u8>, m: int)
    requires
        0 <= m <= y.len(),
    ensures
        keyword_positions_below(x + seq![10u8] + y, x.len() + 1 + m) == keyword_positions_below(
            x,
            x.len() as int,
        ) + keyword_positions_below(y, m),
    decreases m,
{
    let z = x + seq![10u8] + y;
    lemma_keywords_have_no_line_feed();
    if m == 0 {
        lemma_positions_before_line_feed(x, y, x.len() as int);
        let i = x.len() as int;
        lemma_occur_before_line_feed(x, y, fn_kw(), i);
        lemma_occur_before_line_feed(x, y, def_kw(), i);
        lemma_occur_before_line_feed(x, y, func_kw(), i);
        assert(!function_keyword_at(z, i));
        assert(keyword_positions_below(z, i + 1) == keyword_positions_below(z, i));
    } else {
        lemma_positions_after_line_feed(x, y, m - 1);
        let j = m - 1;
        lemma_occur_after_line_feed(x, y, fn_kw(), j);
        lemma_occur_after_line_feed(x, y, uncti(), j - 5);
        lemma_occur_after_line_feed(x, y, def_kw(), j);
        lemma_occur_after_line_feed(x, y, func_kw(), j);
        lemma_occur_after_line_feed(x, y, ture(), j - 5);
        assert(x.len() + 1 + j - 5 == x.len() + 1 + (j - 5));
        assert(function_keyword_at(z, x.len() + 1 + j) == function_keyword_at(y, j));
    }
}

/// Counting the function definitions of two texts joined by a line feed adds their
/// counts.
pub proof fn lemma_count_functions_of_joined_lines(a: &str, b: &str, joined: &str)
    requires
        joined@ == a@ + seq!['\n'] + b@,
    ensures
        function_count(joined.spec_bytes()) == function_count(a.spec_bytes()) + function_count(
            b.spec_bytes(),
        ),
{
    let nl = seq!['\n'];
    lemma_encode_concat(a@ + nl, b@);
    lemma_encode_concat(a@, nl);
    assert(nl.drop_first() =~= Seq::<char>::empty());
    assert((10u32 & 0x7Fu32) as u8 == 10u8) by (bit_vector);
    assert('\n' as u32 == 10u32);
    assert(nl[0] == '\n');
    assert(encode_utf8(nl.drop_first()) =~= Seq::<u8>::empty());
    assert(encode_scalar(10u32) =~= seq![10u8]);
    assert(encode_utf8(nl) =~= seq![10u8]);
    let x = encode_utf8(a@);
    let y = encode_utf8(b@);
    assert(joined.spec_bytes() == x + seq![10u8] + y);
    lemma_positions_after_line_feed(x, y, y.len() as int);
}

/// A text that starts with `a` has `a`'s characters at the positions that tell the
/// signature keywords apart.
proof fn lemma_prefix_chars(t: Seq<char>, a: Seq<char>)
    requires
        has_prefix(t, a),
    ensures
        a.len() > 0 ==> t[0] == a[0],
        a.len() > 1 ==> t[1] == a[1],
        a.len() > 4 ==> t[4] == a[4],
{
    let s = t.subrange(0, a.len() as int);
    if a.len() > 0 {
        assert(s[0] == t[0]);
    }
    if a.len() > 1 {
        assert(s[1] == t[1]);
    }
    if a.len() > 4 {
        assert(s[4] == t[4]);
    }
}

/// How a line, with its leading whitespace removed, is classified: a line that starts
/// with "fn " or "pub fn " opens a function; "async fn " or "pub async fn " an async
/// function; "struct " or "pub struct " a struct; "enum " or "pub enum " an enum;
/// "trait " or "pub trait " a trait; "impl " an impl block; "mod " or "pub mod " a
/// module; "unsafe " unsafe code; "macro_rules!" or "#[macro_export]" a macro; "use " an
/// import. No two of these starts fit one line, and a line that starts with none of them
/// opens no signature.
pub proof fn lemma_classify_by_prefix(t: Seq<char>)
    ensures
        has_prefix(t, "fn "@) || has_prefix(t, "pub fn "@) ==> classify(t) == Some(SignatureKind::Function),
        has_prefix(t, "async fn "@) || has_prefix(t, "pub async fn "@) ==> classify(t) == Some(SignatureKind::AsyncFunction),
        has_prefix(t, "struct "@) || has_prefix(t, "pub struct "@) ==> classify(t) == Some(SignatureKind::Struct),
        has_prefix(t, "enum "@) || has_prefix(t, "pub enum "@) ==> classify(t) == Some(SignatureKind::Enum),
        has_prefix(t, "trait "@) || has_prefix(t, "pub trait "@) ==> classify(t) == Some(SignatureKind::Trait),
        has_prefix(t, "impl "@) ==> classify(t) == Some(SignatureKind::Impl),
        has_prefix(t, "mod "@) || has_prefix(t, "pub mod "@) ==> classify(t) == Some(SignatureKind::Module),
        has_prefix(t, "unsafe "@) ==> classify(t) == Some(SignatureKind::Unsafe),
        has_prefix(t, "macro_rules!"@) || has_prefix(t, "#[macro_export]"@) ==> classify(t) == Some(SignatureKind::Macro),
        has_prefix(t, "use "@) ==> classify(t) == Some(SignatureKind::Import),
        classify(t) is None <==> !(has_prefix(t, "fn "@) || has_prefix(t, "pub fn "@) || has_prefix(t, "async fn "@) || has_prefix(t, "pub async fn "@) || has_prefix(t, "struct "@) || has_prefix(t, "pub struct "@) || has_prefix(t, "enum "@) || has_prefix(t, "pub enum "@) || has_prefix(t, "trait "@) || has_prefix(t, "pub trait "@) || has_prefix(t, "impl "@) || has_prefix(t, "mod "@) || has_prefix(t, "pub mod "@) || has_prefix(t, "unsafe "@) || has_prefix(t, "macro_rules!"@) || has_prefix(t, "#[macro_export]"@) || has_prefix(t, "use "@)),
{
    reveal_strlit("fn ");
    reveal_strlit("pub fn ");
    reveal_strlit("async fn ");
    reveal_strlit("pub async fn ");
    reveal_strlit("struct ");
    reveal_strlit("pub struct ");
    reveal_strlit("enum ");
    reveal_strlit("pub enum ");
    reveal_strlit("trait ");
    reveal_strlit("pub trait ");
    reveal_strlit("impl ");
    reveal_strlit("mod ");
    reveal_strlit("pub mod ");
    reveal_strlit("unsafe ");
    reveal_strlit("macro_rules!");
    reveal_strlit("#[macro_export]");
    reveal_strlit("use ");
    if has_prefix(t, "fn "@) {
        lemma_prefix_chars(t, "fn "@);
    }
    if has_prefix(t, "pub fn "@) {
        lemma_prefix_chars(t, "pub fn "@);
    }
    if has_prefix(t, "async fn "@) {
        lemma_prefix_chars(t, "async fn "@);
    }
    if has_prefix(t, "pub async fn "@) {
        lemma_prefix_chars(t, "pub async fn "@);
    }
    if has_prefix(t, "struct "@) {
        lemma_prefix_chars(t, "struct "@);
    }
    if has_prefix(t, "pub struct "@) {
        lemma_prefix_chars(t, "pub struct "@);
    }
    if has_prefix(t, "enum "@) {
        lemma_prefix_chars(t, "enum "@);
    }
    if has_prefix(t, "pub enum "@) {
        lemma_prefix_chars(t, "pub enum "@);
    }
    if has_prefix(t, "trait "@) {
        lemma_prefix_chars(t, "trait "@);
    }
    if has_prefix(t, "pub trait "@) {
        lemma_prefix_chars(t, "pub trait "@);
    }
    if has_prefix(t, "impl "@) {
        lemma_prefix_chars(t, "impl "@);
    }
    if has_prefix(t, "mod "@) {
        lemma_prefix_chars(t, "mod "@);
    }
    if has_prefix(t, "pub mod "@) {
        lemma_prefix_chars(t, "pub mod "@);
    }
    if has_prefix(t, "unsafe "@) {
        lemma_prefix_chars(t, "unsafe "@);
    }
    if has_prefix(t, "macro_rules!"@) {
        lemma_prefix_chars(t, "macro_rules!"@);
    }
    if has_prefix(t, "#[macro_export]"@) {
        lemma_prefix_chars(t, "#[macro_export]"@);
    }
    if has_prefix(t, "use "@) {
        lemma_prefix_chars(t, "use "@);
    }
}

} // verus!


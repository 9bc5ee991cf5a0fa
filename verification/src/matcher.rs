//! The pattern matcher: ties signatures, relevance and the pattern library together.
use vstd::prelude::*;
use indexmap::IndexMap;
use crate::builtin::{builtin_patterns, builtin_views};
use crate::pattern_map::{
    entry_keys, map_get, map_get_index, map_insert, map_is_empty, map_len, map_new,
    map_shift_remove, pattern_entries,
};
use crate::patterns::{CategoryView, CodePattern, PatternCategory, PatternView};
use crate::relevance::{hints_of, HintsView, RelevanceScorer, TaskHints};
use crate::signature::{signatures_of, Signature, SignatureExtractor, SignatureKind};
use crate::text::{
    chars_of, contains_chars, lowercase, runs, seq_contains, str_contains, str_equals,
    to_lowercase, utf8_len, utf8_longer_than, word_char, word_runs,
};

verus! {

/// The identifiers of a list of patterns.
pub open spec fn pattern_ids(ps: Seq<PatternView>) -> Seq<Seq<char>> {
    ps.map_values(|p: PatternView| p.id)
}

/// The pattern with identifier `id`, if any.
pub open spec fn lookup(ps: Seq<PatternView>, id: Seq<char>) -> Option<PatternView> {
    if pattern_ids(ps).contains(id) {
        Some(ps[pattern_ids(ps).index_of(id)])
    } else {
        None
    }
}

/// The patterns after registering `p`: a pattern with the same identifier is replaced
/// in place; otherwise `p` is appended.
pub open spec fn registered(ps: Seq<PatternView>, p: PatternView) -> Seq<PatternView> {
    if pattern_ids(ps).contains(p.id) {
        ps.update(pattern_ids(ps).index_of(p.id), p)
    } else {
        ps.push(p)
    }
}

/// The patterns after unregistering `id`: the pattern with that identifier, if any, is
/// removed and the others keep their order.
pub open spec fn unregistered(ps: Seq<PatternView>, id: Seq<char>) -> Seq<PatternView> {
    if pattern_ids(ps).contains(id) {
        ps.remove(pattern_ids(ps).index_of(id))
    } else {
        ps
    }
}

/// The view of an optional pattern.
pub open spec fn opt_pattern_view(p: Option<CodePattern>) -> Option<PatternView> {
    match p {
        Some(x) => Some(x@),
        None => None,
    }
}

/// The views of a list of patterns.
pub open spec fn patterns_view(v: Seq<CodePattern>) -> Seq<PatternView> {
    v.map_values(|p: CodePattern| p@)
}

/// Whether a signature of the given kind and text suggests a pattern of category `cat`.
pub open spec fn signature_suggests(cat: CategoryView, kind: SignatureKind, text: Seq<char>) -> bool {
    match (cat, kind) {
        (CategoryView::Async, SignatureKind::AsyncFunction) => true,
        (CategoryView::Async, SignatureKind::Function) => seq_contains(lowercase(text), "async"@),
        (CategoryView::Builder, SignatureKind::Struct) => seq_contains(lowercase(text), "builder"@),
        (CategoryView::Factory, SignatureKind::Function) => {
            let l = lowercase(text);
            seq_contains(l, "create"@) || seq_contains(l, "new"@) || seq_contains(l, "make"@)
        },
        (CategoryView::StateMachine, SignatureKind::Enum) => seq_contains(lowercase(text), "state"@),
        (CategoryView::ErrorHandling, _) => seq_contains(text, "Result"@) || seq_contains(
            text,
            "Option"@,
        ),
        _ => false,
    }
}

/// The code contains one of the example's words: its maximal alphanumeric runs whose
/// UTF-8 encoding is longer than three bytes.
pub open spec fn mentions_example(code: Seq<char>, example: Seq<char>) -> bool {
    let words = runs(example, word_char(true));
    exists|i: int| 0 <= i < words.len() && utf8_len(words[i]) > 3 && seq_contains(code, #[trigger] words[i])
}

/// A pattern applies to code in a language when it is for that language (or for any
/// language) and one of the code's signatures suggests its category, or the code
/// contains its signature (both in lowercase), or the code mentions one of its examples.
pub open spec fn pattern_applies(p: PatternView, code: Seq<char>, language: Seq<char>) -> bool {
    let sigs = signatures_of(code);
    &&& (p.context.language == "any"@ || p.context.language == language)
    &&& {
        ||| exists|i: int|
            0 <= i < sigs.len() && #[trigger] signature_suggests(p.pattern_type, sigs[i].1, sigs[i].2)
        ||| seq_contains(lowercase(code), lowercase(p.signature))
        ||| exists|k: int| 0 <= k < p.examples.len() && mentions_example(code, #[trigger] p.examples[k])
    }
}

/// The test of whether a pattern applies to the code.
pub open spec fn applies_to(code: Seq<char>, language: Seq<char>) -> spec_fn(PatternView) -> bool {
    |p: PatternView| pattern_applies(p, code, language)
}

/// The patterns of `ps` that apply to the code, in order.
pub open spec fn applicable(ps: Seq<PatternView>, code: Seq<char>, language: Seq<char>) -> Seq<
    PatternView,
> {
    ps.filter(applies_to(code, language))
}

/// A pattern after recording an outcome: one more match (saturating) and a new success
/// rate.
pub open spec fn with_outcome(p: PatternView, success_rate_bits: u32) -> PatternView {
    PatternView {
        success_rate_bits,
        match_count: if p.match_count == u64::MAX {
            p.match_count
        } else {
            (p.match_count + 1) as u64
        },
        ..p
    }
}

/// Pattern matcher with a built-in library and optional user-supplied patterns.
#[derive(Debug)]
pub struct PatternMatcher {
    patterns: IndexMap<String, CodePattern>,
    extractor: SignatureExtractor,
    scorer: RelevanceScorer,
}

impl PatternMatcher {
    /// Keys are distinct and each key is its pattern's identifier.
    #[verifier::type_invariant]
    spec fn inv(self) -> bool {
        let e = pattern_entries(self.patterns);
        &&& entry_keys(e).no_duplicates()
        &&& forall|j: int| 0 <= j < e.len() ==> (#[trigger] e[j]).0 == e[j].1.id
    }
}

impl Default for PatternMatcher {
    /// A matcher preloaded with the built-in patterns.
    fn default() -> (r: Self)
        ensures
            r@ == builtin_views(),
    {
        PatternMatcher::new()
    }
}

impl View for PatternMatcher {
    type V = Seq<PatternView>;

    /// The registered patterns, in registration order.
    closed spec fn view(&self) -> Seq<PatternView> {
        pattern_entries(self.patterns).map_values(|e: (Seq<char>, PatternView)| e.1)
    }
}

/// With keys equal to identifiers, the map's keys are the patterns' identifiers.
proof fn lemma_keys_are_ids(e: Seq<(Seq<char>, PatternView)>)
    requires
        forall|j: int| 0 <= j < e.len() ==> (#[trigger] e[j]).0 == e[j].1.id,
    ensures
        entry_keys(e) == pattern_ids(e.map_values(|x: (Seq<char>, PatternView)| x.1)),
{
    assert(entry_keys(e) =~= pattern_ids(e.map_values(|x: (Seq<char>, PatternView)| x.1)));
}

impl PatternMatcher {
    /// Constructs a matcher preloaded with the built-in patterns.
    pub fn new() -> (r: Self)
        ensures
            r@ == builtin_views(),
            pattern_ids(r@).no_duplicates(),
    {
        let patterns = builtin_patterns();
        proof {
            lemma_keys_are_ids(pattern_entries(patterns));
        }
        let r = PatternMatcher {
            patterns,
            extractor: SignatureExtractor::new(),
            scorer: RelevanceScorer::new(),
        };
        assert(r@ =~= builtin_views());
        r
    }

    /// Constructs a matcher with no patterns.
    pub fn empty() -> (r: Self)
        ensures
            r@ == Seq::<PatternView>::empty(),
    {
        let r = PatternMatcher {
            patterns: map_new(),
            extractor: SignatureExtractor::new(),
            scorer: RelevanceScorer::new(),
        };
        assert(r@ =~= Seq::<PatternView>::empty());
        r
    }

    /// Registers a pattern; a pattern with the same identifier is replaced in place.
    pub fn register(&mut self, pattern: CodePattern)
        ensures
            final(self)@ == registered(old(self)@, pattern@),
            pattern_ids(final(self)@).no_duplicates(),
    {
        proof {
            use_type_invariant(&*self);
            lemma_keys_are_ids(pattern_entries(self.patterns));
        }
        let ghost e = pattern_entries(self.patterns);
        let ghost pv = pattern@;
        let mut m = map_new();
        std::mem::swap(&mut m, &mut self.patterns);
        let key = pattern.id.clone();
        map_insert(&mut m, key, pattern);
        proof {
            let e2 = pattern_entries(m);
            assert forall|j: int| 0 <= j < e2.len() implies (#[trigger] e2[j]).0 == e2[j].1.id by {
                if entry_keys(e).contains(pv.id) {
                    if j != entry_keys(e).index_of(pv.id) {
                        assert(e2[j] == e[j]);
                    }
                } else if j < e.len() {
                    assert(e2[j] == e[j]);
                }
            }
            lemma_keys_are_ids(e2);
            assert(e2.map_values(|x: (Seq<char>, PatternView)| x.1) =~= registered(
                e.map_values(|x: (Seq<char>, PatternView)| x.1),
                pv,
            ));
        }
        self.patterns = m;
    }

    /// Unregisters the pattern with the given identifier, returning it.
    pub fn unregister(&mut self, id: &str) -> (r: Option<CodePattern>)
        ensures
            final(self)@ == unregistered(old(self)@, id@),
            opt_pattern_view(r) == lookup(old(self)@, id@),
            pattern_ids(final(self)@).no_duplicates(),
    {
        proof {
            use_type_invariant(&*self);
            lemma_keys_are_ids(pattern_entries(self.patterns));
        }
        let ghost e = pattern_entries(self.patterns);
        let mut m = map_new();
        std::mem::swap(&mut m, &mut self.patterns);
        let r = map_shift_remove(&mut m, id);
        proof {
            let e2 = pattern_entries(m);
            assert forall|j: int| 0 <= j < e2.len() implies (#[trigger] e2[j]).0 == e2[j].1.id by {
                if entry_keys(e).contains(id@) {
                    if j < entry_keys(e).index_of(id@) {
                        assert(e2[j] == e[j]);
                    } else {
                        assert(e2[j] == e[j + 1]);
                    }
                }
            }
            lemma_keys_are_ids(e2);
            assert(e2.map_values(|x: (Seq<char>, PatternView)| x.1) =~= unregistered(
                e.map_values(|x: (Seq<char>, PatternView)| x.1),
                id@,
            ));
        }
        self.patterns = m;
        r
    }

    /// Number of registered patterns.
    pub fn len(&self) -> (n: usize)
        ensures
            n == self@.len(),
            pattern_ids(self@).no_duplicates(),
    {
        proof {
            use_type_invariant(self);
            lemma_keys_are_ids(pattern_entries(self.patterns));
        }
        map_len(&self.patterns)
    }

    /// Returns `true` if no patterns are registered.
    pub fn is_empty(&self) -> (b: bool)
        ensures
            b == (self@.len() == 0),
            pattern_ids(self@).no_duplicates(),
    {
        proof {
            use_type_invariant(self);
            lemma_keys_are_ids(pattern_entries(self.patterns));
        }
        map_is_empty(&self.patterns)
    }

    /// All registered patterns (copies), in order.
    pub fn patterns(&self) -> (r: Vec<CodePattern>)
        ensures
            patterns_view(r@) == self@,
            pattern_ids(self@).no_duplicates(),
    {
        proof {
            use_type_invariant(self);
            lemma_keys_are_ids(pattern_entries(self.patterns));
        }
        let n = map_len(&self.patterns);
        let mut r: Vec<CodePattern> = Vec::new();
        let mut i: usize = 0;
        while i < n
            invariant
                i <= n,
                n == self@.len(),
                r.len() == i,
                forall|j: int| 0 <= j < i ==> (#[trigger] r@[j])@ == self@[j],
            decreases n - i,
        {
            match map_get_index(&self.patterns, i) {
                Some((_, p)) => {
                    r.push(p.clone());
                },
                None => {
                    assert(false);
                },
            }
            i = i + 1;
        }
        assert(patterns_view(r@) =~= self@);
        r
    }

    /// A copy of the pattern with the given identifier, if any.
    pub fn get(&self, id: &str) -> (r: Option<CodePattern>)
        ensures
            opt_pattern_view(r) == lookup(self@, id@),
            pattern_ids(self@).no_duplicates(),
    {
        proof {
            use_type_invariant(self);
            lemma_keys_are_ids(pattern_entries(self.patterns));
        }
        match map_get(&self.patterns, id) {
            Some(p) => Some(p.clone()),
            None => None,
        }
    }

    /// Finds the registered patterns that apply to a piece of code, in order.
    pub fn match_code(&self, code: &str, language: &str) -> (r: Vec<CodePattern>)
        ensures
            patterns_view(r@) == applicable(self@, code@, language@),
    {
        let sigs = self.extractor.extract(code);
        let lower = to_lowercase(code);
        let lower_chars = chars_of(lower.as_str());
        let n = map_len(&self.patterns);
        let ghost ps = self@;
        let mut out: Vec<CodePattern> = Vec::new();
        let mut i: usize = 0;
        assert(applicable(ps.take(0), code@, language@) =~= Seq::<PatternView>::empty()) by {
            reveal(Seq::filter);
        }
        assert(patterns_view(out@) =~= Seq::<PatternView>::empty());
        while i < n
            invariant
                i <= n,
                n == ps.len(),
                ps == self@,
                sigs@.map_values(|s: Signature| s@) == signatures_of(code@),
                lower_chars@ == lowercase(code@),
                patterns_view(out@) == applicable(ps.take(i as int), code@, language@),
            decreases n - i,
        {
            let entry = map_get_index(&self.patterns, i);
            if let Some((_, p)) = entry {
                let applies = Self::applies(p, code, language, &sigs, &lower_chars);
                proof {
                    reveal(Seq::filter);
                    assert(ps.take(i + 1).drop_last() =~= ps.take(i as int));
                    assert(ps.take(i + 1).last() == p@);
                }
                if applies {
                    let ghost before = out@;
                    out.push(p.clone());
                    assert(patterns_view(out@) =~= patterns_view(before).push(p@));
                }
            }
            i = i + 1;
        }
        assert(ps.take(n as int) =~= ps);
        out
    }

    /// Whether a pattern applies to code in a language, given the code's signatures and
    /// its lowercase form.
    pub fn applies(
        p: &CodePattern,
        code: &str,
        language: &str,
        sigs: &Vec<Signature>,
        lower: &Vec<char>,
    ) -> (r: bool)
        requires
            sigs@.map_values(|s: Signature| s@) == signatures_of(code@),
            lower@ == lowercase(code@),
        ensures
            r == pattern_applies(p@, code@, language@),
    {
        let ghost ss = signatures_of(code@);
        if !str_equals(p.context.language.as_str(), "any") && !str_equals(
            p.context.language.as_str(),
            language,
        ) {
            return false;
        }
        let mut sig_match = false;
        let mut j: usize = 0;
        while j < sigs.len()
            invariant
                j <= sigs.len(),
                ss == signatures_of(code@),
                sigs@.map_values(|s: Signature| s@) == ss,
                sig_match == exists|k: int|
                    0 <= k < j && #[trigger] signature_suggests(p.pattern_type@, ss[k].1, ss[k].2),
            decreases sigs.len() - j,
        {
            assert(ss[j as int] == sigs@[j as int]@);
            assert(ss[j as int].1 == sigs@[j as int].kind && ss[j as int].2 == sigs@[j as int].text@);
            if Self::signature_matches(p, &sigs[j]) {
                sig_match = true;
            }
            j = j + 1;
        }
        let literal_match = contains_chars(lower, &chars_of(to_lowercase(p.signature.as_str()).as_str()));
        let ghost exs = p@.examples;
        let mut example_match = false;
        let mut k: usize = 0;
        while k < p.examples.len()
            invariant
                k <= p.examples.len(),
                exs == p@.examples,
                exs.len() == p.examples.len(),
                example_match == exists|x: int| 0 <= x < k && mentions_example(code@, #[trigger] exs[x]),
            decreases p.examples.len() - k,
        {
            assert(exs[k as int] == p.examples@[k as int]@);
            if Self::code_contains_signature(code, p.examples[k].as_str()) {
                example_match = true;
            }
            k = k + 1;
        }
        sig_match || literal_match || example_match
    }

    /// Records an observed outcome for the pattern with the given identifier: one more
    /// match (saturating) and the success rate that `update` computes from the old one.
    /// Nothing changes when no pattern has that identifier.
    pub fn record_outcome<F: Fn(u32) -> u32>(&mut self, pattern_id: &str, update: F)
        requires
            forall|bits: u32| update.requires((bits,)),
        ensures
            pattern_ids(final(self)@).no_duplicates(),
            match lookup(old(self)@, pattern_id@) {
                Some(p) => exists|bits: u32|
                    update.ensures((p.success_rate_bits,), bits) && final(self)@ == registered(
                        old(self)@,
                        with_outcome(p, bits),
                    ),
                None => final(self)@ == old(self)@,
            },
    {
        proof {
            use_type_invariant(&*self);
            lemma_keys_are_ids(pattern_entries(self.patterns));
        }
        let found = match map_get(&self.patterns, pattern_id) {
            Some(p) => Some(p.clone()),
            None => None,
        };
        if let Some(mut p) = found {
            let ghost old_p = p@;
            p.match_count = p.match_count.saturating_add(1);
            let bits = update(p.success_rate_bits);
            p.success_rate_bits = bits;
            assert(p@ =~= with_outcome(old_p, bits));
            self.register(p);
        }
    }

    /// The hints used to suggest a pattern for a task in a given language: the task's
    /// hints, with the language replaced by the given one.
    pub fn suggestion_hints(&self, task: &str, language: &str) -> (r: TaskHints)
        ensures
            r@ == (HintsView { language: Some(language@), ..hints_of(lowercase(task@)) }),
    {
        let hints = self.scorer.extract_hints(task);
        TaskHints { language: Some(language.to_string()), ..hints }
    }

    /// Whether a signature suggests the pattern's category.
    fn signature_matches(pattern: &CodePattern, sig: &Signature) -> (r: bool)
        ensures
            r == signature_suggests(pattern.pattern_type@, sig.kind, sig.text@),
    {
        match (&pattern.pattern_type, sig.kind) {
            (PatternCategory::Async, SignatureKind::AsyncFunction) => true,
            (PatternCategory::Async, SignatureKind::Function) => {
                str_contains(to_lowercase(sig.text.as_str()).as_str(), "async")
            },
            (PatternCategory::Builder, SignatureKind::Struct) => {
                str_contains(to_lowercase(sig.text.as_str()).as_str(), "builder")
            },
            (PatternCategory::Factory, SignatureKind::Function) => {
                let lower = to_lowercase(sig.text.as_str());
                str_contains(lower.as_str(), "create") || str_contains(lower.as_str(), "new")
                    || str_contains(lower.as_str(), "make")
            },
            (PatternCategory::StateMachine, SignatureKind::Enum) => {
                str_contains(to_lowercase(sig.text.as_str()).as_str(), "state")
            },
            (PatternCategory::ErrorHandling, _) => {
                str_contains(sig.text.as_str(), "Result") || str_contains(sig.text.as_str(), "Option")
            },
            _ => false,
        }
    }

    /// Whether the code contains one of the example's words longer than three bytes.
    fn code_contains_signature(code: &str, example: &str) -> (r: bool)
        ensures
            r == mentions_example(code@, example@),
    {
        let c = chars_of(code);
        let e = chars_of(example);
        let words = word_runs(&e, 0, e.len(), true);
        assert(e@.subrange(0, e@.len() as int) =~= e@);
        let ghost ws = runs(e@, word_char(true));
        let mut i: usize = 0;
        while i < words.len()
            invariant
                i <= words.len(),
                c@ == code@,
                e@ == example@,
                ws == runs(e@, word_char(true)),
                ws.len() == words.len(),
                forall|j: int| 0 <= j < words.len() ==> ws[j] == e@.subrange(
                    (#[trigger] words@[j]).0 as int,
                    words@[j].1 as int,
                ),
                forall|j: int| 0 <= j < words.len() ==> 0 <= (#[trigger] words@[j]).0 <= words@[j].1
                    <= e.len(),
                forall|j: int|
                    0 <= j < i ==> !(utf8_len(#[trigger] ws[j]) > 3 && seq_contains(code@, ws[j])),
            decreases words.len() - i,
        {
            let (a, b) = words[i];
            let ghost w = ws[i as int];
            assert(w == e@.subrange(a as int, b as int));
            if utf8_longer_than(&e, a, b, 3) {
                let word = slice_chars(&e, a, b);
                if contains_chars(&c, &word) {
                    return true;
                }
            }
            i = i + 1;
        }
        false
    }
}

/// The characters `v[a..b]`.
fn slice_chars(v: &Vec<char>, a: usize, b: usize) -> (r: Vec<char>)
    requires
        a <= b <= v.len(),
    ensures
        r@ == v@.subrange(a as int, b as int),
{
    let mut r: Vec<char> = Vec::new();
    let mut i = a;
    while i < b
        invariant
            a <= i <= b <= v.len(),
            r@ == v@.subrange(a as int, i as int),
        decreases b - i,
    {
        r.push(v[i]);
        assert(r@ =~= v@.subrange(a as int, i + 1));
        i = i + 1;
    }
    r
}

/// The first pattern of a ranking, from position `i` on, that scored above zero and is
/// for the given language or for any language.
pub open spec fn first_suggested(ranked: Seq<(PatternView, bool)>, language: Seq<char>, i: int) -> Option<
    PatternView,
>
    decreases ranked.len() - i,
{
    if i < 0 || i >= ranked.len() {
        None
    } else if ranked[i].1 && (ranked[i].0.context.language == language
        || ranked[i].0.context.language == "any"@) {
        Some(ranked[i].0)
    } else {
        first_suggested(ranked, language, i + 1)
    }
}

/// The views of a ranking whose scores are reduced to whether they exceed zero.
pub open spec fn ranking_view(ranked: Seq<(CodePattern, bool)>) -> Seq<(PatternView, bool)> {
    ranked.map_values(|e: (CodePattern, bool)| (e.0@, e.1))
}

/// Picks the suggestion from a ranking, where each pattern comes with whether its score
/// exceeds zero: the first pattern that scored above zero and is for the given language
/// or for any language.
pub fn first_suggestion(ranked: &Vec<(CodePattern, bool)>, language: &str) -> (r: Option<CodePattern>)
    ensures
        opt_pattern_view(r) == first_suggested(ranking_view(ranked@), language@, 0),
{
    let ghost rv = ranking_view(ranked@);
    let mut i: usize = 0;
    while i < ranked.len()
        invariant
            i <= ranked.len(),
            rv == ranking_view(ranked@),
            first_suggested(rv, language@, 0) == first_suggested(rv, language@, i as int),
        decreases ranked.len() - i,
    {
        let (p, positive) = &ranked[i];
        assert(rv[i as int] == (p@, *positive));
        if *positive && (str_equals(p.context.language.as_str(), language) || str_equals(
            p.context.language.as_str(),
            "any",
        )) {
            return Some(p.clone());
        }
        i = i + 1;
    }
    None
}

/// After registering a pattern, looking up its identifier finds exactly that pattern.
pub proof fn lemma_register_then_get(ps: Seq<PatternView>, p: PatternView)
    requires
        pattern_ids(ps).no_duplicates(),
    ensures
        lookup(registered(ps, p), p.id) == Some(p),
{
    let ids = pattern_ids(ps);
    let r = registered(ps, p);
    let rids = pattern_ids(r);
    if ids.contains(p.id) {
        let j = ids.index_of(p.id);
        assert(rids[j] == p.id);
        assert(rids.contains(p.id));
        let k = rids.index_of(p.id);
        if k != j {
            assert(ids[k] == rids[k]);
            assert(ids[j] == p.id);
        }
    } else {
        assert(rids[ps.len() as int] == p.id);
        assert(rids.contains(p.id));
        let k = rids.index_of(p.id);
        if k != ps.len() {
            assert(ids[k] == rids[k]);
        }
    }
}

/// Registering a pattern changes no lookup of another identifier.
pub proof fn lemma_register_keeps_others(ps: Seq<PatternView>, p: PatternView, id: Seq<char>)
    requires
        pattern_ids(ps).no_duplicates(),
        id != p.id,
    ensures
        lookup(registered(ps, p), id) == lookup(ps, id),
{
    let ids = pattern_ids(ps);
    let r = registered(ps, p);
    let rids = pattern_ids(r);
    if ids.contains(id) {
        let j = ids.index_of(id);
        assert(rids[j] == id);
        assert(rids.contains(id));
        let k = rids.index_of(id);
        if k != j {
            if ids.contains(p.id) || k < ps.len() {
                assert(ids[k] == rids[k]);
            }
        }
    } else if rids.contains(id) {
        let k = rids.index_of(id);
        if ids.contains(p.id) || k < ps.len() {
            assert(ids[k] == rids[k]);
        }
    }
}

/// Registering keeps identifiers distinct, and adds one pattern exactly when its
/// identifier was new.
pub proof fn lemma_register_len(ps: Seq<PatternView>, p: PatternView)
    requires
        pattern_ids(ps).no_duplicates(),
    ensures
        pattern_ids(registered(ps, p)).no_duplicates(),
        registered(ps, p).len() == ps.len() + if lookup(ps, p.id) is None {
            1int
        } else {
            0int
        },
{
    let ids = pattern_ids(ps);
    let rids = pattern_ids(registered(ps, p));
    assert forall|i: int, j: int|
        0 <= i < rids.len() && 0 <= j < rids.len() && i != j implies rids[i] != rids[j] by {
        if ids.contains(p.id) {
            let k = ids.index_of(p.id);
            if i != k && j != k {
                assert(rids[i] == ids[i] && rids[j] == ids[j]);
            } else if i == k {
                assert(rids[j] == ids[j]);
            } else {
                assert(rids[i] == ids[i]);
            }
        } else {
            if i < ps.len() && j < ps.len() {
                assert(rids[i] == ids[i] && rids[j] == ids[j]);
            } else if i < ps.len() {
                assert(rids[i] == ids[i]);
            } else {
                assert(rids[j] == ids[j]);
            }
        }
    }
}

/// Registering the same pattern twice is the same as registering it once.
pub proof fn lemma_register_idempotent(ps: Seq<PatternView>, p: PatternView)
    requires
        pattern_ids(ps).no_duplicates(),
    ensures
        registered(registered(ps, p), p) == registered(ps, p),
{
    let r = registered(ps, p);
    lemma_register_len(ps, p);
    lemma_register_then_get(ps, p);
    let rids = pattern_ids(r);
    let k = rids.index_of(p.id);
    assert(r[k] == p);
    assert(registered(r, p) =~= r);
}

/// After unregistering an identifier, looking it up finds nothing.
pub proof fn lemma_unregister_then_get(ps: Seq<PatternView>, id: Seq<char>)
    requires
        pattern_ids(ps).no_duplicates(),
    ensures
        lookup(unregistered(ps, id), id) is None,
{
    let ids = pattern_ids(ps);
    let u = unregistered(ps, id);
    let uids = pattern_ids(u);
    if uids.contains(id) {
        let k = uids.index_of(id);
        let j = ids.index_of(id);
        if k < j {
            assert(uids[k] == ids[k]);
        } else {
            assert(uids[k] == ids[k + 1]);
        }
    }
}

/// Unregistering an identifier changes no lookup of another identifier.
pub proof fn lemma_unregister_keeps_others(ps: Seq<PatternView>, id: Seq<char>, other: Seq<char>)
    requires
        pattern_ids(ps).no_duplicates(),
        id != other,
    ensures
        lookup(unregistered(ps, id), other) == lookup(ps, other),
{
    let ids = pattern_ids(ps);
    let u = unregistered(ps, id);
    let uids = pattern_ids(u);
    if ids.contains(id) {
        let j = ids.index_of(id);
        if ids.contains(other) {
            let o = ids.index_of(other);
            let o2 = if o < j {
                o
            } else {
                o - 1
            };
            assert(uids[o2] == other);
            assert(uids.contains(other));
            let k = uids.index_of(other);
            if k != o2 {
                if k < j {
                    assert(uids[k] == ids[k]);
                } else {
                    assert(uids[k] == ids[k + 1]);
                }
            }
        } else if uids.contains(other) {
            let k = uids.index_of(other);
            if k < j {
                assert(uids[k] == ids[k]);
            } else {
                assert(uids[k] == ids[k + 1]);
            }
        }
    }
}

/// Unregistering a pattern that was just registered under a new identifier restores
/// the patterns as they were.
pub proof fn lemma_register_unregister_roundtrip(ps: Seq<PatternView>, p: PatternView)
    requires
        pattern_ids(ps).no_duplicates(),
        lookup(ps, p.id) is None,
    ensures
        unregistered(registered(ps, p), p.id) == ps,
{
    let r = registered(ps, p);
    assert(r == ps.push(p));
    let rids = pattern_ids(r);
    assert(rids[ps.len() as int] == p.id);
    let k = rids.index_of(p.id);
    if k != ps.len() {
        assert(pattern_ids(ps)[k] == rids[k]);
    }
    assert(r.remove(ps.len() as int) =~= ps);
}

/// Every pattern that applies to the code is registered and is for the code's language
/// or for any language; the applicable patterns keep their registration order.
pub proof fn lemma_applicable_patterns(ps: Seq<PatternView>, code: Seq<char>, language: Seq<char>)
    ensures
        applicable(ps, code, language).len() <= ps.len(),
        forall|i: int|
            0 <= i < applicable(ps, code, language).len() ==> ps.contains(
                #[trigger] applicable(ps, code, language)[i],
            ) && pattern_applies(applicable(ps, code, language)[i], code, language),
        forall|i: int|
            0 <= i < ps.len() && pattern_applies(ps[i], code, language) ==> applicable(
                ps,
                code,
                language,
            ).contains(#[trigger] ps[i]),
{
    let pred = applies_to(code, language);
    ps.lemma_filter_len(pred);
    assert forall|i: int| 0 <= i < applicable(ps, code, language).len() implies ps.contains(
        #[trigger] applicable(ps, code, language)[i],
    ) && pattern_applies(applicable(ps, code, language)[i], code, language) by {
        let f = applicable(ps, code, language);
        ps.lemma_filter_pred(pred, i);
        assert(f.contains(f[i]));
        ps.lemma_filter_contains_rev(pred, f[i]);
    }
    assert forall|i: int| 0 <= i < ps.len() && pattern_applies(ps[i], code, language) implies applicable(
        ps,
        code,
        language,
    ).contains(#[trigger] ps[i]) by {
        ps.lemma_filter_contains(pred, i);
    }
}

/// A registered pattern for the code's language, or for any language, is found whenever
/// the code contains its signature, both taken in lowercase.
pub proof fn lemma_match_by_signature(ps: Seq<PatternView>, code: Seq<char>, language: Seq<char>, i: int)
    requires
        0 <= i < ps.len(),
        ps[i].context.language == "any"@ || ps[i].context.language == language,
        seq_contains(lowercase(code), lowercase(ps[i].signature)),
    ensures
        applicable(ps, code, language).contains(ps[i]),
{
    ps.lemma_filter_contains(applies_to(code, language), i);
}

/// A registered pattern for the code's language, or for any language, is found whenever
/// one of the code's signatures suggests its category: an async function, or a function
/// whose lowercase text mentions "async", for an async pattern; a struct mentioning
/// "builder" for a builder; a function mentioning "create", "new" or "make" for a
/// factory; an enum mentioning "state" for a state machine; any signature whose text
/// mentions "Result" or "Option" for error handling.
pub proof fn lemma_match_by_code_signature(
    ps: Seq<PatternView>,
    code: Seq<char>,
    language: Seq<char>,
    i: int,
    j: int,
)
    requires
        0 <= i < ps.len(),
        ps[i].context.language == "any"@ || ps[i].context.language == language,
        0 <= j < signatures_of(code).len(),
        ({
            let cat = ps[i].pattern_type;
            let kind = signatures_of(code)[j].1;
            let text = signatures_of(code)[j].2;
            let low = lowercase(text);
            ||| cat == CategoryView::Async && kind == SignatureKind::AsyncFunction
            ||| cat == CategoryView::Async && kind == SignatureKind::Function && seq_contains(low, "async"@)
            ||| cat == CategoryView::Builder && kind == SignatureKind::Struct && seq_contains(low, "builder"@)
            ||| cat == CategoryView::Factory && kind == SignatureKind::Function && (seq_contains(low, "create"@)
                || seq_contains(low, "new"@) || seq_contains(low, "make"@))
            ||| cat == CategoryView::StateMachine && kind == SignatureKind::Enum && seq_contains(low, "state"@)
            ||| cat == CategoryView::ErrorHandling && (seq_contains(text, "Result"@) || seq_contains(
                text,
                "Option"@,
            ))
        }),
    ensures
        applicable(ps, code, language).contains(ps[i]),
{
    assert(signature_suggests(ps[i].pattern_type, signatures_of(code)[j].1, signatures_of(code)[j].2));
    ps.lemma_filter_contains(applies_to(code, language), i);
}

/// A registered pattern for the code's language, or for any language, is found whenever
/// the code contains a word of one of its examples: a maximal run of alphanumeric
/// characters that is longer than three bytes in UTF-8.
pub proof fn lemma_match_by_example(
    ps: Seq<PatternView>,
    code: Seq<char>,
    language: Seq<char>,
    i: int,
    k: int,
    w: int,
)
    requires
        0 <= i < ps.len(),
        ps[i].context.language == "any"@ || ps[i].context.language == language,
        0 <= k < ps[i].examples.len(),
        0 <= w < runs(ps[i].examples[k], word_char(true)).len(),
        utf8_len(runs(ps[i].examples[k], word_char(true))[w]) > 3,
        seq_contains(code, runs(ps[i].examples[k], word_char(true))[w]),
    ensures
        applicable(ps, code, language).contains(ps[i]),
{
    assert(mentions_example(code, ps[i].examples[k]));
    ps.lemma_filter_contains(applies_to(code, language), i);
}

/// Only patterns for the code's language or for any language are found, and never one
/// that is not registered.
pub proof fn lemma_match_language_filter(ps: Seq<PatternView>, code: Seq<char>, language: Seq<char>)
    ensures
        forall|j: int|
            0 <= j < applicable(ps, code, language).len() ==> {
                let q = #[trigger] applicable(ps, code, language)[j];
                &&& ps.contains(q)
                &&& (q.context.language == "any"@ || q.context.language == language)
            },
{
    lemma_applicable_patterns(ps, code, language);
}

/// The suggestion picked from a ranking from position `i` on is the first entry there
/// that scored above zero and is for the given language or for any language; there is
/// none exactly when no entry there is both.
proof fn lemma_first_suggested_from(ranked: Seq<(PatternView, bool)>, language: Seq<char>, i: int)
    requires
        0 <= i <= ranked.len(),
    ensures
        first_suggested(ranked, language, i) is None <==> forall|j: int|
            i <= j < ranked.len() ==> !(#[trigger] ranked[j].1 && (ranked[j].0.context.language
                == language || ranked[j].0.context.language == "any"@)),
        first_suggested(ranked, language, i) is Some ==> exists|k: int|
            i <= k < ranked.len() && #[trigger] ranked[k].0 == first_suggested(
                ranked,
                language,
                i,
            )->0 && ranked[k].1 && (ranked[k].0.context.language == language
                || ranked[k].0.context.language == "any"@) && forall|j: int|
                i <= j < k ==> !(#[trigger] ranked[j].1 && (ranked[j].0.context.language
                    == language || ranked[j].0.context.language == "any"@)),
    decreases ranked.len() - i,
{
    if i < ranked.len() {
        lemma_first_suggested_from(ranked, language, i + 1);
        if !(ranked[i].1 && (ranked[i].0.context.language == language
            || ranked[i].0.context.language == "any"@)) {
            if first_suggested(ranked, language, i) is Some {
                let k = choose|k: int|
                    i + 1 <= k < ranked.len() && #[trigger] ranked[k].0 == first_suggested(
                        ranked,
                        language,
                        i + 1,
                    )->0 && ranked[k].1 && (ranked[k].0.context.language == language
                        || ranked[k].0.context.language == "any"@) && forall|j: int|
                        i + 1 <= j < k ==> !(#[trigger] ranked[j].1 && (ranked[j].0.context.language
                            == language || ranked[j].0.context.language == "any"@));
                assert(ranked[k].0 == first_suggested(ranked, language, i)->0);
            }
        }
    }
}

/// The suggestion is the first entry of the ranking that scored above zero and whose
/// pattern is for the given language or for any language. There is a suggestion exactly
/// when some entry is both; in particular an entry for any language that scored above
/// zero always yields one.
pub proof fn lemma_suggestion_is_first_eligible(ranked: Seq<(PatternView, bool)>, language: Seq<char>)
    ensures
        first_suggested(ranked, language, 0) is None <==> forall|j: int|
            0 <= j < ranked.len() ==> !(#[trigger] ranked[j].1 && (ranked[j].0.context.language
                == language || ranked[j].0.context.language == "any"@)),
        first_suggested(ranked, language, 0) is Some ==> exists|k: int|
            0 <= k < ranked.len() && #[trigger] ranked[k].0 == first_suggested(
                ranked,
                language,
                0,
            )->0 && ranked[k].1 && (ranked[k].0.context.language == language
                || ranked[k].0.context.language == "any"@) && forall|j: int|
                0 <= j < k ==> !(#[trigger] ranked[j].1 && (ranked[j].0.context.language
                    == language || ranked[j].0.context.language == "any"@)),
{
    lemma_first_suggested_from(ranked, language, 0);
}

} // verus!

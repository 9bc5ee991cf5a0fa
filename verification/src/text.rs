//! Character-level text utilities shared by the signature extractor, the relevance
//! scorer and the matcher.
use vstd::prelude::*;

verus! {

/// Copies the characters of `s` into a vector.
pub fn chars_of(s: &str) -> (v: Vec<char>)
    ensures
        v@ == s@,
{
    let mut v: Vec<char> = Vec::new();
    for c in it: s.chars()
        invariant
            v@ == it.seq().take(it.index() as int),
    {
        v.push(c);
    }
    v
}

/// `needle` occurs in `hay` starting at position `i`.
pub open spec fn occurs_at(hay: Seq<char>, needle: Seq<char>, i: int) -> bool {
    0 <= i && i + needle.len() <= hay.len() && hay.subrange(i, i + needle.len()) == needle
}

/// `needle` occurs somewhere in `hay` (the empty needle occurs in every text).
pub open spec fn seq_contains(hay: Seq<char>, needle: Seq<char>) -> bool {
    exists|i: int| occurs_at(hay, needle, i)
}

/// `s` begins with `prefix`.
pub open spec fn has_prefix(s: Seq<char>, prefix: Seq<char>) -> bool {
    occurs_at(s, prefix, 0)
}

/// Tests whether `needle` occurs in `hay` at position `i`.
pub fn occurs_at_exec(hay: &Vec<char>, needle: &Vec<char>, i: usize) -> (r: bool)
    ensures
        r == occurs_at(hay@, needle@, i as int),
{
    if i > hay.len() || needle.len() > hay.len() - i {
        return false;
    }
    let mut j: usize = 0;
    while j < needle.len()
        invariant
            i + needle.len() <= hay.len(),
            j <= needle.len(),
            forall|k: int| 0 <= k < j ==> hay@[i + k] == needle@[k],
        decreases needle.len() - j,
    {
        if hay[i + j] != needle[j] {
            assert(hay@.subrange(i as int, i + needle.len())[j as int] != needle@[j as int]);
            return false;
        }
        j = j + 1;
    }
    assert(hay@.subrange(i as int, i + needle.len()) =~= needle@);
    true
}

/// Tests whether `needle` occurs anywhere in `hay`.
pub fn contains_chars(hay: &Vec<char>, needle: &Vec<char>) -> (r: bool)
    ensures
        r == seq_contains(hay@, needle@),
{
    if needle.len() > hay.len() {
        assert(!seq_contains(hay@, needle@));
        return false;
    }
    let last = hay.len() - needle.len();
    let mut i: usize = 0;
    while i <= last
        invariant
            last == hay.len() - needle.len(),
            needle.len() <= hay.len(),
            forall|k: int| 0 <= k < i ==> !occurs_at(hay@, needle@, k),
        decreases last + 1 - i,
    {
        if occurs_at_exec(hay, needle, i) {
            return true;
        }
        if i == last {
            assert forall|k: int| !occurs_at(hay@, needle@, k) by {
                if 0 <= k && k + needle.len() <= hay.len() {
                    assert(k <= i);
                }
            }
            return false;
        }
        i = i + 1;
    }
    false
}

/// Tests whether two texts are equal.
pub fn str_equals(a: &str, b: &str) -> (r: bool)
    ensures
        r == (a@ == b@),
{
    let x = chars_of(a);
    let y = chars_of(b);
    if x.len() != y.len() {
        return false;
    }
    let r = occurs_at_exec(&x, &y, 0);
    assert(r ==> x@.subrange(0, y.len() as int) =~= x@);
    assert(x@ == y@ ==> x@.subrange(0, y.len() as int) =~= x@);
    r
}

/// Tests whether the text `s` begins with `prefix`.
pub fn str_has_prefix(s: &Vec<char>, prefix: &str) -> (r: bool)
    ensures
        r == has_prefix(s@, prefix@),
{
    occurs_at_exec(s, &chars_of(prefix), 0)
}

/// Tests whether the text `hay` contains the text `needle`.
pub fn str_contains(hay: &str, needle: &str) -> (r: bool)
    ensures
        r == seq_contains(hay@, needle@),
{
    let h = chars_of(hay);
    let n = chars_of(needle);
    contains_chars(&h, &n)
}


/// The Unicode `White_Space` property, which `char::is_whitespace` and
/// `str::trim_start` use.
pub open spec fn is_whitespace(c: char) -> bool {
    let u = c as u32;
    ||| 0x9 <= u <= 0xD
    ||| u == 0x20
    ||| u == 0x85
    ||| u == 0xA0
    ||| u == 0x1680
    ||| 0x2000 <= u <= 0x200A
    ||| u == 0x2028
    ||| u == 0x2029
    ||| u == 0x202F
    ||| u == 0x205F
    ||| u == 0x3000
}

/// Tests the Unicode `White_Space` property of `c`.
pub fn is_whitespace_exec(c: char) -> (r: bool)
    ensures
        r == is_whitespace(c),
{
    let u = c as u32;
    (0x9 <= u && u <= 0xD) || u == 0x20 || u == 0x85 || u == 0xA0 || u == 0x1680 || (0x2000 <= u
        && u <= 0x200A) || u == 0x2028 || u == 0x2029 || u == 0x202F || u == 0x205F || u == 0x3000
}

/// `s` without its leading whitespace.
pub open spec fn trim_start(s: Seq<char>) -> Seq<char>
    decreases s.len(),
{
    if s.len() > 0 && is_whitespace(s[0]) {
        trim_start(s.drop_first())
    } else {
        s
    }
}

/// The position of the first non-whitespace character of `v[lo..hi]` (or `hi`).
pub fn skip_whitespace(v: &Vec<char>, lo: usize, hi: usize) -> (k: usize)
    requires
        lo <= hi <= v.len(),
    ensures
        lo <= k <= hi,
        v@.subrange(k as int, hi as int) == trim_start(v@.subrange(lo as int, hi as int)),
{
    let mut k = lo;
    while k < hi && is_whitespace_exec(v[k])
        invariant
            lo <= k <= hi <= v.len(),
            trim_start(v@.subrange(k as int, hi as int)) == trim_start(
                v@.subrange(lo as int, hi as int),
            ),
        decreases hi - k,
    {
        assert(v@.subrange(k as int, hi as int).drop_first() =~= v@.subrange(k + 1, hi as int));
        k = k + 1;
    }
    k
}

/// The index of the first line feed in `s`, or `s.len()` if there is none.
pub open spec fn newline_index(s: Seq<char>) -> nat
    decreases s.len(),
{
    if s.len() == 0 {
        0
    } else if s[0] == '\n' {
        0
    } else {
        1 + newline_index(s.drop_first())
    }
}

/// `line` without one trailing carriage return.
pub open spec fn strip_cr(line: Seq<char>) -> Seq<char> {
    if line.len() > 0 && line.last() == '\r' {
        line.drop_last()
    } else {
        line
    }
}

/// The first line feed lies within the text, and no earlier character is a line feed.
pub proof fn lemma_newline_index_bounded(s: Seq<char>)
    ensures
        newline_index(s) <= s.len(),
        newline_index(s) < s.len() ==> s[newline_index(s) as int] == '\n',
        forall|i: int| 0 <= i < newline_index(s) ==> s[i] != '\n',
    decreases s.len(),
{
    if s.len() > 0 && s[0] != '\n' {
        lemma_newline_index_bounded(s.drop_first());
        assert forall|i: int| 0 <= i < newline_index(s) implies s[i] != '\n' by {
            if i > 0 {
                assert(s[i] == s.drop_first()[i - 1]);
            }
        }
    }
}

/// The lines of `s` as `str::lines` yields them: split at line feeds, one trailing
/// carriage return removed from each line that ended in a line feed, and no final
/// empty line after a trailing line feed.
pub open spec fn split_lines(s: Seq<char>) -> Seq<Seq<char>>
    decreases s.len(),
{
    if s.len() == 0 {
        seq![]
    } else {
        let k = newline_index(s);
        proof {
            lemma_newline_index_bounded(s);
        }
        if k < s.len() {
            seq![strip_cr(s.take(k as int))] + split_lines(s.skip(k + 1int))
        } else {
            seq![s]
        }
    }
}

proof fn lemma_newline_index_is(s: Seq<char>, j: int)
    requires
        0 <= j <= s.len(),
        forall|i: int| 0 <= i < j ==> s[i] != '\n',
        j < s.len() ==> s[j] == '\n',
    ensures
        newline_index(s) == j,
    decreases s.len(),
{
    if s.len() > 0 && s[0] != '\n' {
        let t = s.drop_first();
        assert forall|i: int| 0 <= i < j - 1 implies t[i] != '\n' by {
            assert(t[i] == s[i + 1]);
        }
        if j - 1 < t.len() {
            assert(t[j - 1] == s[j]);
        }
        lemma_newline_index_is(t, j - 1);
    }
}

/// Finds the line that starts at `pos`: returns the end of its text (before any
/// `"\r\n"` or `"\n"`) and the start of the next line.
pub fn next_line(v: &Vec<char>, pos: usize) -> (r: (usize, usize))
    requires
        pos < v.len(),
    ensures
        pos <= r.0 <= r.1 <= v.len(),
        pos < r.1,
        split_lines(v@.skip(pos as int)) == seq![v@.subrange(pos as int, r.0 as int)] + split_lines(
            v@.skip(r.1 as int),
        ),
{
    let mut k = pos;
    while k < v.len() && v[k] != '\n'
        invariant
            pos <= k <= v.len(),
            forall|i: int| pos <= i < k ==> v@[i] != '\n',
        decreases v.len() - k,
    {
        k = k + 1;
    }
    let ghost s = v@.skip(pos as int);
    proof {
        assert forall|i: int| 0 <= i < k - pos implies s[i] != '\n' by {
            assert(s[i] == v@[pos + i]);
        }
        if k < v.len() {
            assert(s[k - pos] == v@[k as int]);
        }
        lemma_newline_index_is(s, k - pos);
    }
    if k < v.len() {
        let e = if k > pos && v[k - 1] == '\r' {
            k - 1
        } else {
            k
        };
        assert(s.take(k - pos) =~= v@.subrange(pos as int, k as int));
        assert(strip_cr(s.take(k - pos)) =~= v@.subrange(pos as int, e as int));
        assert(s.skip(k - pos + 1) =~= v@.skip(k + 1));
        (e, k + 1)
    } else {
        assert(s =~= v@.subrange(pos as int, k as int));
        assert(v@.skip(k as int) =~= Seq::<char>::empty());
        assert(split_lines(v@.skip(k as int)) =~= Seq::<Seq<char>>::empty());
        assert(seq![s] + Seq::<Seq<char>>::empty() =~= seq![s]);
        (k, k)
    }
}

/// The lowercase form of a text, as `str::to_lowercase` computes it (Unicode lowercase
/// mapping, with its context-dependent rules).
pub uninterp spec fn lowercase(s: Seq<char>) -> Seq<char>;

/// Calls `str::to_lowercase`. Its contract claims only that the result is the Unicode
/// lowercase form of the argument, a fixed function of the argument's characters; that
/// function is left unstated here.
#[verifier::external_body]
pub fn to_lowercase(s: &str) -> (r: String)
    ensures
        r@ == lowercase(s@),
{
    s.to_lowercase()
}

/// The Unicode `Alphabetic` or `Numeric` property, as `char::is_alphanumeric` tests it.
pub uninterp spec fn is_alphanumeric(c: char) -> bool;

/// Calls `char::is_alphanumeric`. Its contract claims only that the result is a fixed
/// function of the character (its Unicode `Alphabetic`/`Numeric` properties), left
/// unstated here.
#[verifier::external_body]
pub fn char_is_alphanumeric(c: char) -> (r: bool)
    ensures
        r == is_alphanumeric(c),
{
    c.is_alphanumeric()
}

/// The characters that make up words: non-whitespace characters, or alphanumeric ones.
pub open spec fn word_char(alnum: bool) -> spec_fn(char) -> bool {
    if alnum {
        |c: char| is_alphanumeric(c)
    } else {
        |c: char| !is_whitespace(c)
    }
}

fn is_word_char(c: char, alnum: bool) -> (r: bool)
    ensures
        r == word_char(alnum)(c),
{
    if alnum {
        char_is_alphanumeric(c)
    } else {
        !is_whitespace_exec(c)
    }
}

/// The length of the run of characters satisfying `p` at the start of `s`.
pub open spec fn run_length(s: Seq<char>, p: spec_fn(char) -> bool) -> nat
    decreases s.len(),
{
    if s.len() > 0 && p(s[0]) {
        1 + run_length(s.drop_first(), p)
    } else {
        0
    }
}

/// A run lies within the text, and is not empty when the text starts with a run character.
pub proof fn lemma_run_length_bounded(s: Seq<char>, p: spec_fn(char) -> bool)
    ensures
        run_length(s, p) <= s.len(),
        s.len() > 0 && p(s[0]) ==> run_length(s, p) >= 1,
    decreases s.len(),
{
    if s.len() > 0 && p(s[0]) {
        lemma_run_length_bounded(s.drop_first(), p);
    }
}

proof fn lemma_run_length_is(s: Seq<char>, p: spec_fn(char) -> bool, j: int)
    requires
        0 <= j <= s.len(),
        forall|i: int| 0 <= i < j ==> p(#[trigger] s[i]),
        j < s.len() ==> !p(s[j]),
    ensures
        run_length(s, p) == j,
    decreases s.len(),
{
    if j > 0 {
        let t = s.drop_first();
        assert forall|i: int| 0 <= i < j - 1 implies p(#[trigger] t[i]) by {
            assert(t[i] == s[i + 1]);
        }
        if j - 1 < t.len() {
            assert(t[j - 1] == s[j]);
        }
        assert(p(s[0]));
        lemma_run_length_is(t, p, j - 1);
    }
}

/// The maximal runs of characters of `s` that satisfy `p`, in order.
pub open spec fn runs(s: Seq<char>, p: spec_fn(char) -> bool) -> Seq<Seq<char>>
    decreases s.len(),
{
    if s.len() == 0 {
        seq![]
    } else if !p(s[0]) {
        runs(s.drop_first(), p)
    } else {
        let k = run_length(s, p);
        proof {
            lemma_run_length_bounded(s, p);
        }
        seq![s.take(k as int)] + runs(s.skip(k as int), p)
    }
}

/// The texts of a list of character ranges of `v`.
pub open spec fn range_texts(v: Seq<char>, bounds: Seq<(usize, usize)>) -> Seq<Seq<char>> {
    bounds.map_values(|b: (usize, usize)| v.subrange(b.0 as int, b.1 as int))
}

/// The bounds of the maximal runs of word characters in `v[lo..hi]`.
pub fn word_runs(v: &Vec<char>, lo: usize, hi: usize, alnum: bool) -> (r: Vec<(usize, usize)>)
    requires
        lo <= hi <= v.len(),
    ensures
        range_texts(v@, r@) == runs(v@.subrange(lo as int, hi as int), word_char(alnum)),
        forall|j: int| 0 <= j < r.len() ==> lo <= (#[trigger] r@[j]).0 <= r@[j].1 <= hi,
{
    let ghost p = word_char(alnum);
    let mut r: Vec<(usize, usize)> = Vec::new();
    let mut i = lo;
    while i < hi
        invariant
            lo <= i <= hi <= v.len(),
            p == word_char(alnum),
            runs(v@.subrange(lo as int, hi as int), p) == range_texts(v@, r@) + runs(
                v@.subrange(i as int, hi as int),
                p,
            ),
            forall|j: int| 0 <= j < r.len() ==> lo <= (#[trigger] r@[j]).0 <= r@[j].1 <= hi,
        decreases hi - i,
    {
        let ghost sub = v@.subrange(i as int, hi as int);
        if !is_word_char(v[i], alnum) {
            assert(sub.drop_first() =~= v@.subrange(i + 1, hi as int));
            i = i + 1;
        } else {
            let mut j = i + 1;
            while j < hi && is_word_char(v[j], alnum)
                invariant
                    i < j <= hi <= v.len(),
                    p == word_char(alnum),
                    forall|k: int| i <= k < j ==> p(#[trigger] v@[k]),
                decreases hi - j,
            {
                j = j + 1;
            }
            proof {
                assert forall|k: int| 0 <= k < j - i implies p(#[trigger] sub[k]) by {
                    assert(sub[k] == v@[i + k]);
                }
                if j < hi {
                    assert(sub[j - i] == v@[j as int]);
                }
                lemma_run_length_is(sub, p, j - i);
                assert(sub.take(j - i) =~= v@.subrange(i as int, j as int));
                assert(sub.skip(j - i) =~= v@.subrange(j as int, hi as int));
            }
            let ghost old_r = r@;
            r.push((i, j));
            assert(range_texts(v@, r@) =~= range_texts(v@, old_r).push(
                v@.subrange(i as int, j as int),
            ));
            assert(range_texts(v@, old_r) + runs(sub, p) =~= range_texts(v@, r@) + runs(
                v@.subrange(j as int, hi as int),
                p,
            ));
            i = j;
        }
    }
    assert(v@.subrange(hi as int, hi as int) =~= Seq::<char>::empty());
    assert(range_texts(v@, r@) + Seq::<Seq<char>>::empty() =~= range_texts(v@, r@));
    r
}

/// `s` without the characters satisfying `p` at its start.
pub open spec fn trim_start_by(s: Seq<char>, p: spec_fn(char) -> bool) -> Seq<char>
    decreases s.len(),
{
    if s.len() > 0 && p(s[0]) {
        trim_start_by(s.drop_first(), p)
    } else {
        s
    }
}

/// `s` without the characters satisfying `p` at its end.
pub open spec fn trim_end_by(s: Seq<char>, p: spec_fn(char) -> bool) -> Seq<char>
    decreases s.len(),
{
    if s.len() > 0 && p(s.last()) {
        trim_end_by(s.drop_last(), p)
    } else {
        s
    }
}

/// `s` without the non-alphanumeric characters at both of its ends, as
/// `str::trim_matches(|c| !c.is_alphanumeric())` computes it.
pub open spec fn trim_non_alphanumeric(s: Seq<char>) -> Seq<char> {
    let p = |c: char| !is_alphanumeric(c);
    trim_end_by(trim_start_by(s, p), p)
}

/// The bounds of `v[lo..hi]` without its non-alphanumeric characters at both ends.
pub fn trim_non_alphanumeric_bounds(v: &Vec<char>, lo: usize, hi: usize) -> (r: (usize, usize))
    requires
        lo <= hi <= v.len(),
    ensures
        lo <= r.0 <= r.1 <= hi,
        v@.subrange(r.0 as int, r.1 as int) == trim_non_alphanumeric(
            v@.subrange(lo as int, hi as int),
        ),
{
    let ghost p = |c: char| !is_alphanumeric(c);
    let mut a = lo;
    while a < hi && !char_is_alphanumeric(v[a])
        invariant
            lo <= a <= hi <= v.len(),
            p == (|c: char| !is_alphanumeric(c)),
            trim_start_by(v@.subrange(a as int, hi as int), p) == trim_start_by(
                v@.subrange(lo as int, hi as int),
                p,
            ),
        decreases hi - a,
    {
        assert(v@.subrange(a as int, hi as int).drop_first() =~= v@.subrange(a + 1, hi as int));
        a = a + 1;
    }
    assert(trim_start_by(v@.subrange(a as int, hi as int), p) == v@.subrange(a as int, hi as int));
    let mut b = hi;
    while b > a && !char_is_alphanumeric(v[b - 1])
        invariant
            lo <= a <= b <= hi <= v.len(),
            p == (|c: char| !is_alphanumeric(c)),
            trim_end_by(v@.subrange(a as int, b as int), p) == trim_end_by(
                v@.subrange(a as int, hi as int),
                p,
            ),
        decreases b - a,
    {
        assert(v@.subrange(a as int, b as int).drop_last() =~= v@.subrange(a as int, b - 1));
        b = b - 1;
    }
    (a, b)
}

/// Tests whether the characters `v[lo..hi]` spell `w`.
pub fn range_equals(v: &Vec<char>, lo: usize, hi: usize, w: &Vec<char>) -> (r: bool)
    requires
        lo <= hi <= v.len(),
    ensures
        r == (v@.subrange(lo as int, hi as int) == w@),
{
    if hi - lo != w.len() {
        assert(v@.subrange(lo as int, hi as int).len() != w@.len());
        return false;
    }
    let r = occurs_at_exec(v, w, lo);
    r
}

/// The number of bytes in the UTF-8 encoding of `c`.
pub open spec fn utf8_width(c: char) -> nat {
    let u = c as u32;
    if u < 0x80 {
        1
    } else if u < 0x800 {
        2
    } else if u < 0x10000 {
        3
    } else {
        4
    }
}

/// The number of bytes in the UTF-8 encoding of `s` (what `str::len` returns).
pub open spec fn utf8_len(s: Seq<char>) -> nat
    decreases s.len(),
{
    if s.len() == 0 {
        0
    } else {
        utf8_len(s.drop_last()) + utf8_width(s.last())
    }
}

/// Tests whether the UTF-8 encoding of `v[lo..hi]` is longer than `bound` bytes.
pub fn utf8_longer_than(v: &Vec<char>, lo: usize, hi: usize, bound: usize) -> (r: bool)
    requires
        lo <= hi <= v.len(),
        bound < usize::MAX - 4,
    ensures
        r == (utf8_len(v@.subrange(lo as int, hi as int)) > bound),
{
    let mut acc: usize = 0;
    let mut i = lo;
    while i < hi
        invariant
            lo <= i <= hi <= v.len(),
            bound < usize::MAX - 4,
            acc <= bound,
            acc == utf8_len(v@.subrange(lo as int, i as int)),
        decreases hi - i,
    {
        let u = v[i] as u32;
        let w: usize = if u < 0x80 {
            1
        } else if u < 0x800 {
            2
        } else if u < 0x10000 {
            3
        } else {
            4
        };
        assert(v@.subrange(lo as int, i + 1).drop_last() =~= v@.subrange(lo as int, i as int));
        acc = acc + w;
        i = i + 1;
        if acc > bound {
            proof {
                lemma_utf8_len_monotone(v@.subrange(lo as int, hi as int), i - lo);
                assert(v@.subrange(lo as int, hi as int).take(i - lo) =~= v@.subrange(
                    lo as int,
                    i as int,
                ));
            }
            return true;
        }
    }
    false
}

proof fn lemma_utf8_len_monotone(s: Seq<char>, k: int)
    requires
        0 <= k <= s.len(),
    ensures
        utf8_len(s.take(k)) <= utf8_len(s),
    decreases s.len() - k,
{
    if k < s.len() {
        lemma_utf8_len_monotone(s, k + 1);
        assert(s.take(k + 1).drop_last() =~= s.take(k));
    } else {
        assert(s.take(k) =~= s);
    }
}

} // verus!

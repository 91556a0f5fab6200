//! Character-level text helpers shared by the parsers: whitespace, trimming,
//! line and word splitting, decimal numbers.
use vstd::prelude::*;
use vstd::std_specs::iter::IteratorSpec;
use vstd::string::StringExecFns;

verus! {

broadcast use vstd::string::group_string_axioms;

// ---------------------------------------------------------------------------
// Characters
// ---------------------------------------------------------------------------

/// Unicode `White_Space`, the set that `char::is_whitespace`, `str::trim` and
/// `str::split_whitespace` use.
pub open spec fn is_ws(c: char) -> bool {
    let u = c as u32;
    ||| 0x09 <= u <= 0x0D
    ||| u == 0x20
    ||| u == 0x85
    ||| u == 0xA0
    ||| u == 0x1680
    ||| 0x2000 <= u <= 0x200A
    ||| u == 0x2028
    ||| u == 0x2029
    ||| u == 0x202F
    ||| u == 0x205F
    ||| u == 0x3000
}

pub fn is_whitespace(c: char) -> (b: bool)
    ensures
        b == is_ws(c),
{
    let u = c as u32;
    (0x09 <= u && u <= 0x0D) || u == 0x20 || u == 0x85 || u == 0xA0 || u == 0x1680 || (0x2000
        <= u && u <= 0x200A) || u == 0x2028 || u == 0x2029 || u == 0x202F || u == 0x205F || u
        == 0x3000
}

pub open spec fn non_ws() -> spec_fn(char) -> bool {
    |c: char| !is_ws(c)
}

pub open spec fn ws() -> spec_fn(char) -> bool {
    |c: char| is_ws(c)
}

pub open spec fn is_char(x: char) -> spec_fn(char) -> bool {
    |c: char| c == x
}

pub open spec fn is_ascii_digit(c: char) -> bool {
    '0' <= c && c <= '9'
}

pub open spec fn is_ascii_alpha(c: char) -> bool {
    ('a' <= c && c <= 'z') || ('A' <= c && c <= 'Z')
}

// ---------------------------------------------------------------------------
// Scanning
// ---------------------------------------------------------------------------

/// The first index at or after `i` whose character satisfies `p`, or the
/// length when there is none.
pub open spec fn scan_to(s: Seq<char>, i: int, p: spec_fn(char) -> bool) -> int
    decreases s.len() - i,
{
    if i >= s.len() {
        s.len() as int
    } else if p(s[i]) {
        i
    } else {
        scan_to(s, i + 1, p)
    }
}

/// The end of the suffix-free part: the largest `k <= j` such that `k == 0`
/// or `s[k - 1]` satisfies `p`.
pub open spec fn scan_back(s: Seq<char>, j: int, p: spec_fn(char) -> bool) -> int
    decreases j,
{
    if j <= 0 {
        0
    } else if p(s[j - 1]) {
        j
    } else {
        scan_back(s, j - 1, p)
    }
}

/// The forward scan stops at the first character from `i` on that satisfies
/// `p`, or at the end.
pub proof fn lemma_scan_to(s: Seq<char>, i: int, p: spec_fn(char) -> bool)
    requires
        0 <= i <= s.len(),
    ensures
        i <= scan_to(s, i, p) <= s.len(),
        forall|k: int| i <= k < scan_to(s, i, p) ==> !p(#[trigger] s[k]),
        scan_to(s, i, p) < s.len() ==> p(s[scan_to(s, i, p)]),
    decreases s.len() - i,
{
    if i < s.len() && !p(s[i]) {
        lemma_scan_to(s, i + 1, p);
    }
}

/// The backward scan stops just after the last character before `j` that
/// satisfies `p`, or at the start.
pub proof fn lemma_scan_back(s: Seq<char>, j: int, p: spec_fn(char) -> bool)
    requires
        0 <= j <= s.len(),
    ensures
        0 <= scan_back(s, j, p) <= j,
        forall|k: int| scan_back(s, j, p) <= k < j ==> !p(#[trigger] s[k]),
        scan_back(s, j, p) > 0 ==> p(s[scan_back(s, j, p) - 1]),
    decreases j,
{
    if j > 0 && !p(s[j - 1]) {
        lemma_scan_back(s, j - 1, p);
    }
}

/// If every character in `[i, j)` fails `p` and `j` is the end or satisfies
/// `p`, the scan from `i` stops at `j`.
pub proof fn lemma_scan_to_unique(s: Seq<char>, i: int, j: int, p: spec_fn(char) -> bool)
    requires
        0 <= i <= j <= s.len(),
        forall|k: int| i <= k < j ==> !p(#[trigger] s[k]),
        j < s.len() ==> p(s[j]),
    ensures
        scan_to(s, i, p) == j,
    decreases j - i,
{
    if i < j {
        lemma_scan_to_unique(s, i + 1, j, p);
    }
}

pub fn skip_whitespace(s: &[char], i: usize) -> (r: usize)
    requires
        i <= s@.len(),
    ensures
        r == scan_to(s@, i as int, non_ws()),
        i <= r <= s@.len(),
{
    let mut k = i;
    while k < s.len() && is_whitespace(s[k])
        invariant
            i <= k <= s@.len(),
            scan_to(s@, i as int, non_ws()) == scan_to(s@, k as int, non_ws()),
        decreases s@.len() - k,
    {
        k = k + 1;
    }
    k
}

pub fn skip_word(s: &[char], i: usize) -> (r: usize)
    requires
        i <= s@.len(),
    ensures
        r == scan_to(s@, i as int, ws()),
        i <= r <= s@.len(),
{
    let mut k = i;
    while k < s.len() && !is_whitespace(s[k])
        invariant
            i <= k <= s@.len(),
            scan_to(s@, i as int, ws()) == scan_to(s@, k as int, ws()),
        decreases s@.len() - k,
    {
        k = k + 1;
    }
    k
}

pub fn find_char(s: &[char], i: usize, c: char) -> (r: usize)
    requires
        i <= s@.len(),
    ensures
        r == scan_to(s@, i as int, is_char(c)),
        i <= r <= s@.len(),
{
    let mut k = i;
    while k < s.len() && s[k] != c
        invariant
            i <= k <= s@.len(),
            scan_to(s@, i as int, is_char(c)) == scan_to(s@, k as int, is_char(c)),
        decreases s@.len() - k,
    {
        k = k + 1;
    }
    k
}

pub fn skip_whitespace_back(s: &[char], j: usize) -> (r: usize)
    requires
        j <= s@.len(),
    ensures
        r == scan_back(s@, j as int, non_ws()),
        r <= j,
{
    let mut k = j;
    while k > 0 && is_whitespace(s[k - 1])
        invariant
            k <= j <= s@.len(),
            scan_back(s@, j as int, non_ws()) == scan_back(s@, k as int, non_ws()),
        decreases k,
    {
        k = k - 1;
    }
    k
}

// ---------------------------------------------------------------------------
// Trimming
// ---------------------------------------------------------------------------

/// `str::trim`: the text without leading and trailing whitespace.
pub open spec fn trim(s: Seq<char>) -> Seq<char> {
    let a = scan_to(s, 0, non_ws());
    let b = scan_back(s, s.len() as int, non_ws());
    if a < b {
        s.subrange(a, b)
    } else {
        Seq::empty()
    }
}

/// Trimmed text neither starts nor ends with whitespace, and is no longer than the input.
pub proof fn lemma_trim_bounds(s: Seq<char>)
    ensures
        trim(s).len() > 0 ==> !is_ws(trim(s)[0]) && !is_ws(trim(s).last()),
        trim(s).len() <= s.len(),
{
    lemma_scan_to(s, 0, non_ws());
    lemma_scan_back(s, s.len() as int, non_ws());
}

pub fn trim_slice(s: &[char]) -> (r: &[char])
    ensures
        r@ == trim(s@),
{
    let a = skip_whitespace(s, 0);
    let b = skip_whitespace_back(s, s.len());
    if a < b {
        &s[a..b]
    } else {
        proof {
            assert(trim(s@) =~= Seq::<char>::empty());
        }
        &s[0..0]
    }
}

/// `trim` in index form: bounds `(a, b)` with `s[a..b]` the trimmed text.
pub fn trim_bounds(s: &[char], lo: usize, hi: usize) -> (r: (usize, usize))
    requires
        lo <= hi <= s@.len(),
    ensures
        lo <= r.0 <= r.1 <= hi,
        s@.subrange(r.0 as int, r.1 as int) == trim(s@.subrange(lo as int, hi as int)),
{
    let ghost t = s@.subrange(lo as int, hi as int);
    let mut a = lo;
    while a < hi && is_whitespace(s[a])
        invariant
            lo <= a <= hi <= s@.len(),
            forall|k: int| lo <= k < a ==> is_ws(#[trigger] s@[k]),
        decreases hi - a,
    {
        a = a + 1;
    }
    let mut b = hi;
    while b > a && is_whitespace(s[b - 1])
        invariant
            lo <= a <= b <= hi <= s@.len(),
            forall|k: int| b <= k < hi ==> is_ws(#[trigger] s@[k]),
        decreases b,
    {
        b = b - 1;
    }
    proof {
        lemma_scan_to_unique(t, 0, (a - lo) as int, non_ws());
        if a < hi {
            lemma_scan_back_unique(t, (hi - lo) as int, (b - lo) as int, non_ws());
            assert(t.subrange((a - lo) as int, (b - lo) as int) =~= s@.subrange(a as int, b as int));
        } else {
            lemma_scan_back(t, t.len() as int, non_ws());
            assert(trim(t) =~= Seq::<char>::empty());
            assert(s@.subrange(a as int, b as int) =~= Seq::<char>::empty());
        }
    }
    (a, b)
}

/// If every character in `[k, j)` fails `p` and `k` is the start or follows
/// one that satisfies `p`, the scan back from `j` stops at `k`.
pub proof fn lemma_scan_back_unique(s: Seq<char>, j: int, k: int, p: spec_fn(char) -> bool)
    requires
        0 <= k <= j <= s.len(),
        forall|m: int| k <= m < j ==> !p(#[trigger] s[m]),
        k > 0 ==> p(s[k - 1]),
    ensures
        scan_back(s, j, p) == k,
    decreases j - k,
{
    if k < j {
        lemma_scan_back_unique(s, j - 1, k, p);
    }
}


// ---------------------------------------------------------------------------
// Splitting
// ---------------------------------------------------------------------------

/// A line without the `'\r'` that ends it, if any.
pub open spec fn strip_cr(l: Seq<char>) -> Seq<char> {
    if l.len() > 0 && l.last() == '\r' {
        l.drop_last()
    } else {
        l
    }
}

/// `str::lines` from index `i`: pieces ended by `'\n'` (with a `'\r'` before
/// the newline dropped), and a last unterminated piece when it is not empty.
pub open spec fn lines_from(s: Seq<char>, i: int) -> Seq<Seq<char>>
    decreases s.len() - i,
{
    if i < 0 || i >= s.len() {
        seq![]
    } else {
        let j = scan_to(s, i, is_char('\n'));
        proof {
            lemma_scan_to(s, i, is_char('\n'));
        }
        if j >= s.len() {
            seq![s.subrange(i, s.len() as int)]
        } else {
            seq![strip_cr(s.subrange(i, j))] + lines_from(s, j + 1)
        }
    }
}

/// `str::lines`.
pub open spec fn lines(s: Seq<char>) -> Seq<Seq<char>> {
    lines_from(s, 0)
}

/// `str::split_whitespace` from index `i`.
pub open spec fn words_from(s: Seq<char>, i: int) -> Seq<Seq<char>>
    decreases s.len() - i,
{
    if i < 0 || i >= s.len() {
        seq![]
    } else {
        let a = scan_to(s, i, non_ws());
        proof {
            lemma_scan_to(s, i, non_ws());
        }
        if a >= s.len() {
            seq![]
        } else {
            let b = scan_to(s, a, ws());
            proof {
                lemma_scan_to(s, a, ws());
            }
            seq![s.subrange(a, b)] + words_from(s, b)
        }
    }
}

/// `str::split_whitespace`.
pub open spec fn words(s: Seq<char>) -> Seq<Seq<char>> {
    words_from(s, 0)
}

/// `str::split(c)` from index `i`.
pub open spec fn split_from(s: Seq<char>, c: char, i: int) -> Seq<Seq<char>>
    decreases s.len() + 1 - i,
{
    if i < 0 || i > s.len() {
        seq![]
    } else {
        let j = scan_to(s, i, is_char(c));
        proof {
            lemma_scan_to(s, i, is_char(c));
        }
        if j >= s.len() {
            seq![s.subrange(i, s.len() as int)]
        } else {
            seq![s.subrange(i, j)] + split_from(s, c, j + 1)
        }
    }
}

/// `str::split(c)`.
pub open spec fn split(s: Seq<char>, c: char) -> Seq<Seq<char>> {
    split_from(s, c, 0)
}

/// `str::split_once(c)`: the text before and after the first `c`.
pub open spec fn split_once(s: Seq<char>, c: char) -> Option<(Seq<char>, Seq<char>)> {
    let j = scan_to(s, 0, is_char(c));
    if j < s.len() {
        Some((s.subrange(0, j), s.subrange(j + 1, s.len() as int)))
    } else {
        None
    }
}

/// Whether `c` occurs in `s`.
pub open spec fn has_char(s: Seq<char>, c: char) -> bool {
    exists|i: int| 0 <= i < s.len() && s[i] == c
}

/// `c` occurs in `s` exactly when the scan for it stops before the end.
pub proof fn lemma_has_char_scan(s: Seq<char>, c: char)
    ensures
        has_char(s, c) <==> scan_to(s, 0, is_char(c)) < s.len(),
{
    lemma_scan_to(s, 0, is_char(c));
    if has_char(s, c) {
        let i = choose|i: int| 0 <= i < s.len() && s[i] == c;
        assert(is_char(c)(s[i]));
    }
}

/// Bounds of the pieces that `spec` gives, each as `(start, end)` in `s`.
pub open spec fn pieces_are(s: Seq<char>, b: Seq<(usize, usize)>, pieces: Seq<Seq<char>>) -> bool {
    &&& b.len() == pieces.len()
    &&& forall|k: int|
        0 <= k < b.len() ==> {
            &&& (#[trigger] b[k]).0 <= b[k].1 <= s.len()
            &&& s.subrange(b[k].0 as int, b[k].1 as int) == pieces[k]
        }
}

/// Appending one more piece, with its bounds, keeps the bounds matching.
pub proof fn lemma_pieces_push(
    s: Seq<char>,
    b: Seq<(usize, usize)>,
    pieces: Seq<Seq<char>>,
    x: (usize, usize),
    p: Seq<char>,
)
    requires
        pieces_are(s, b, pieces),
        x.0 <= x.1 <= s.len(),
        s.subrange(x.0 as int, x.1 as int) == p,
    ensures
        pieces_are(s, b.push(x), pieces.push(p)),
{
    assert forall|k: int| 0 <= k < b.push(x).len() implies {
        &&& (#[trigger] b.push(x)[k]).0 <= b.push(x)[k].1 <= s.len()
        &&& s.subrange(b.push(x)[k].0 as int, b.push(x)[k].1 as int) == pieces.push(p)[k]
    } by {
        if k < b.len() {
            assert(b.push(x)[k] == b[k]);
        }
    }
}

/// The lines of `s`, as bounds into `s`.
pub fn line_bounds(s: &[char]) -> (r: Vec<(usize, usize)>)
    ensures
        pieces_are(s@, r@, lines(s@)),
{
    let mut r: Vec<(usize, usize)> = Vec::new();
    let ghost mut done: Seq<Seq<char>> = seq![];
    let mut pos: usize = 0;
    while pos < s.len()
        invariant
            pos <= s@.len(),
            pieces_are(s@, r@, done),
            lines(s@) == done + lines_from(s@, pos as int),
        decreases s@.len() - pos,
    {
        let j = find_char(s, pos, '\n');
        proof {
            lemma_scan_to(s@, pos as int, is_char('\n'));
        }
        if j == s.len() {
            proof {
                lemma_pieces_push(s@, r@, done, (pos, j), s@.subrange(pos as int, j as int));
                done = done.push(s@.subrange(pos as int, j as int));
                assert(lines_from(s@, j as int) =~= seq![]);
                assert(lines(s@) =~= done + lines_from(s@, j as int));
            }
            r.push((pos, j));
            pos = j;
        } else {
            let end = if j > pos && s[j - 1] == '\r' {
                j - 1
            } else {
                j
            };
            proof {
                let l = s@.subrange(pos as int, j as int);
                assert(strip_cr(l) =~= s@.subrange(pos as int, end as int));
                lemma_pieces_push(s@, r@, done, (pos, end), strip_cr(l));
                assert(done.push(strip_cr(l)) + lines_from(s@, j + 1) =~= done + (seq![strip_cr(l)]
                    + lines_from(s@, j + 1)));
                done = done.push(strip_cr(l));
            }
            r.push((pos, end));
            pos = j + 1;
        }
    }
    proof {
        assert(lines_from(s@, pos as int) =~= seq![]);
        assert(done + seq![] =~= done);
    }
    r
}

/// The whitespace-separated words of `s`, as bounds into `s`.
pub fn word_bounds(s: &[char]) -> (r: Vec<(usize, usize)>)
    ensures
        pieces_are(s@, r@, words(s@)),
{
    let mut r: Vec<(usize, usize)> = Vec::new();
    let ghost mut done: Seq<Seq<char>> = seq![];
    let mut pos: usize = 0;
    while pos < s.len()
        invariant
            pos <= s@.len(),
            pieces_are(s@, r@, done),
            words(s@) == done + words_from(s@, pos as int),
        decreases s@.len() - pos,
    {
        let a = skip_whitespace(s, pos);
        proof {
            lemma_scan_to(s@, pos as int, non_ws());
        }
        if a == s.len() {
            proof {
                assert(words_from(s@, pos as int) =~= seq![]);
                assert(words_from(s@, a as int) =~= seq![]);
            }
            pos = a;
        } else {
            let b = skip_word(s, a);
            proof {
                lemma_scan_to(s@, a as int, ws());
                let w = s@.subrange(a as int, b as int);
                lemma_pieces_push(s@, r@, done, (a, b), w);
                assert(done.push(w) + words_from(s@, b as int) =~= done + (seq![w] + words_from(
                    s@,
                    b as int,
                )));
                done = done.push(w);
            }
            r.push((a, b));
            pos = b;
        }
    }
    proof {
        assert(words_from(s@, pos as int) =~= seq![]);
        assert(done + seq![] =~= done);
    }
    r
}

/// The pieces of `s` between occurrences of `c`, as bounds into `s`.
pub fn split_bounds(s: &[char], c: char) -> (r: Vec<(usize, usize)>)
    ensures
        pieces_are(s@, r@, split(s@, c)),
        r@.len() >= 1,
{
    let mut r: Vec<(usize, usize)> = Vec::new();
    let ghost mut done: Seq<Seq<char>> = seq![];
    let mut pos: usize = 0;
    loop
        invariant_except_break
            pos <= s@.len(),
            pieces_are(s@, r@, done),
            split(s@, c) == done + split_from(s@, c, pos as int),
        ensures
            pieces_are(s@, r@, split(s@, c)),
            r@.len() >= 1,
        decreases s@.len() - pos,
    {
        let j = find_char(s, pos, c);
        proof {
            lemma_scan_to(s@, pos as int, is_char(c));
        }
        let ghost w = s@.subrange(pos as int, j as int);
        proof {
            lemma_pieces_push(s@, r@, done, (pos, j), w);
        }
        r.push((pos, j));
        if j == s.len() {
            proof {
                assert(split_from(s@, c, pos as int) =~= seq![w]);
                done = done.push(w);
                assert(split(s@, c) =~= done);
            }
            break ;
        }
        proof {
            assert(done.push(w) + split_from(s@, c, j + 1) =~= done + (seq![w] + split_from(
                s@,
                c,
                j + 1,
            )));
            done = done.push(w);
        }
        pos = j + 1;
    }
    r
}

// ---------------------------------------------------------------------------
// Prefixes and substrings
// ---------------------------------------------------------------------------

/// `str::starts_with` with a string pattern.
pub open spec fn starts_with(s: Seq<char>, p: Seq<char>) -> bool {
    p.len() <= s.len() && s.subrange(0, p.len() as int) == p
}

/// Whether `w` occurs in `s` at index `i`.
pub open spec fn occurs_at(s: Seq<char>, w: Seq<char>, i: int) -> bool {
    0 <= i && i + w.len() <= s.len() && s.subrange(i, i + w.len()) == w
}

/// `str::find`: the first index at or after `i` where `w` occurs.
pub open spec fn find_from(s: Seq<char>, w: Seq<char>, i: int) -> Option<int>
    decreases s.len() + 1 - i,
{
    if i < 0 || i + w.len() > s.len() {
        None
    } else if occurs_at(s, w, i) {
        Some(i)
    } else {
        find_from(s, w, i + 1)
    }
}

/// A match that `find_from` reports lies at or after `i` and is a real
/// occurrence.
pub proof fn lemma_find_from(s: Seq<char>, w: Seq<char>, i: int)
    ensures
        find_from(s, w, i) matches Some(j) ==> i <= j && occurs_at(s, w, j),
    decreases s.len() + 1 - i,
{
    if !(i < 0 || i + w.len() > s.len()) && !occurs_at(s, w, i) {
        lemma_find_from(s, w, i + 1);
    }
}

pub fn slice_starts_with(s: &[char], lit: &str) -> (b: bool)
    ensures
        b == starts_with(s@, lit@),
{
    let n = lit.unicode_len();
    if n > s.len() {
        return false;
    }
    range_is(s, 0, n, lit)
}

/// The first index at or after `i` where `lit` occurs in `s`.
pub fn find_lit(s: &[char], lit: &str) -> (r: Option<usize>)
    ensures
        match find_from(s@, lit@, 0) {
            Some(i) => r == Some(i as usize),
            None => r is None,
        },
{
    let n = lit.unicode_len();
    if n > s.len() {
        return None;
    }
    let last = s.len() - n;
    let mut i: usize = 0;
    loop
        invariant
            n == lit@.len(),
            n <= s@.len(),
            last == s@.len() - n,
            i <= last,
            last + n == s.len(),
            find_from(s@, lit@, 0) == find_from(s@, lit@, i as int),
        decreases last - i,
    {
        if range_is(s, i, i + n, lit) {
            return Some(i);
        }
        if i == last {
            assert(find_from(s@, lit@, i + 1) is None);
            return None;
        }
        i = i + 1;
    }
}

// ---------------------------------------------------------------------------
// Conversions
// ---------------------------------------------------------------------------

/// The characters of a string slice, in order.
pub fn chars_of(s: &str) -> (v: Vec<char>)
    ensures
        v@ == s@,
{
    let mut v: Vec<char> = Vec::new();
    let mut it = s.chars();
    assert(it.remaining() == s@);
    loop
        invariant
            v@ + it.remaining() == s@,
            it.obeys_prophetic_iter_laws(),
        ensures
            v@ == s@,
        decreases s@.len() - v@.len(),
    {
        match it.next() {
            Some(c) => {
                v.push(c);
                assert(v@ + it.remaining() =~= s@);
            },
            None => {
                assert(v@ =~= s@);
                break ;
            },
        }
    }
    v
}

/// `String::push`.
#[verifier::external_body]
pub(crate) fn push_char(s: &mut String, c: char)
    ensures
        final(s)@ == old(s)@.push(c),
{
    s.push(c);
}

/// A new string holding the given characters.
pub fn string_of(v: &[char]) -> (s: String)
    ensures
        s@ == v@,
{
    let mut s = String::new();
    let mut i: usize = 0;
    while i < v.len()
        invariant
            i <= v@.len(),
            s@ == v@.subrange(0, i as int),
        decreases v@.len() - i,
    {
        push_char(&mut s, v[i]);
        assert(s@ =~= v@.subrange(0, i + 1));
        i = i + 1;
    }
    assert(s@ =~= v@);
    s
}

/// Whether `s[lo..hi]` is exactly the literal `lit`.
pub fn range_is(s: &[char], lo: usize, hi: usize, lit: &str) -> (b: bool)
    requires
        lo <= hi <= s@.len(),
    ensures
        b == (s@.subrange(lo as int, hi as int) == lit@),
{
    let w = chars_of(lit);
    if hi - lo != w.len() {
        proof {
            if s@.subrange(lo as int, hi as int) == lit@ {
                assert(s@.subrange(lo as int, hi as int).len() == lit@.len());
            }
        }
        return false;
    }
    let mut k: usize = 0;
    while k < w.len()
        invariant
            k <= w@.len(),
            w@ == lit@,
            hi - lo == w@.len(),
            lo <= hi <= s@.len(),
            forall|m: int| 0 <= m < k ==> s@[lo + m] == #[trigger] w@[m],
        decreases w@.len() - k,
    {
        if s[lo + k] != w[k] {
            proof {
                if s@.subrange(lo as int, hi as int) == lit@ {
                    assert(s@.subrange(lo as int, hi as int)[k as int] == w@[k as int]);
                }
            }
            return false;
        }
        k = k + 1;
    }
    assert(s@.subrange(lo as int, hi as int) =~= w@);
    true
}

// ---------------------------------------------------------------------------
// Decimal numbers
// ---------------------------------------------------------------------------

pub open spec fn digit_value(c: char) -> nat {
    ((c as u32) - ('0' as u32)) as nat
}

pub open spec fn all_digits(s: Seq<char>) -> bool {
    forall|i: int| 0 <= i < s.len() ==> is_ascii_digit(#[trigger] s[i])
}

/// The number that a string of decimal digits denotes.
pub open spec fn decimal_value(s: Seq<char>) -> nat
    decreases s.len(),
{
    if s.len() == 0 {
        0
    } else {
        decimal_value(s.drop_last()) * 10 + digit_value(s.last())
    }
}

/// `<uN as FromStr>::from_str` for an unsigned type whose largest value is
/// `max`: an optional `+`, then one or more ASCII digits, denoting at most
/// `max`.
pub open spec fn parse_unsigned(s: Seq<char>, max: nat) -> Option<nat> {
    let d = if s.len() > 0 && s[0] == '+' {
        s.drop_first()
    } else {
        s
    };
    if d.len() > 0 && all_digits(d) && decimal_value(d) <= max {
        Some(decimal_value(d))
    } else {
        None
    }
}

/// A longer prefix of a digit string has a value at least as large.
pub proof fn lemma_decimal_value_prefix_mono(s: Seq<char>, i: int, j: int)
    requires
        0 <= i <= j <= s.len(),
        all_digits(s),
    ensures
        decimal_value(s.subrange(0, i)) <= decimal_value(s.subrange(0, j)),
    decreases j - i,
{
    if i < j {
        lemma_decimal_value_prefix_mono(s, i, j - 1);
        assert(s.subrange(0, j).drop_last() =~= s.subrange(0, j - 1));
    }
}

/// Parses `s[lo..hi]` as an unsigned decimal no larger than `max`, the way
/// `str::parse` does for unsigned integer types.
pub fn parse_decimal(s: &[char], lo: usize, hi: usize, max: u64) -> (r: Option<u64>)
    requires
        lo <= hi <= s@.len(),
    ensures
        match parse_unsigned(s@.subrange(lo as int, hi as int), max as nat) {
            Some(v) => r == Some(v as u64),
            None => r is None,
        },
{
    let ghost t = s@.subrange(lo as int, hi as int);
    let start = if lo < hi && s[lo] == '+' {
        lo + 1
    } else {
        lo
    };
    let ghost d = s@.subrange(start as int, hi as int);
    assert(d =~= (if t.len() > 0 && t[0] == '+' {
        t.drop_first()
    } else {
        t
    }));
    if start == hi {
        return None;
    }
    let mut value: u64 = 0;
    let mut k = start;
    while k < hi
        invariant
            lo <= start <= k <= hi <= s@.len(),
            d == s@.subrange(start as int, hi as int),
            t == s@.subrange(lo as int, hi as int),
            d == (if t.len() > 0 && t[0] == '+' {
                t.drop_first()
            } else {
                t
            }),
            all_digits(s@.subrange(start as int, k as int)),
            value as nat == decimal_value(s@.subrange(start as int, k as int)),
            value <= max,
        decreases hi - k,
    {
        let c = s[k];
        if !('0' <= c && c <= '9') {
            proof {
                assert(d[k - start] == c);
                assert(!is_ascii_digit(d[k - start]));
            }
            return None;
        }
        let digit = (c as u32 - '0' as u32) as u64;
        let ghost prefix = s@.subrange(start as int, k + 1);
        assert(prefix.drop_last() =~= s@.subrange(start as int, k as int));
        assert(all_digits(prefix)) by {
            assert forall|m: int| 0 <= m < prefix.len() implies is_ascii_digit(
                #[trigger] prefix[m],
            ) by {
                if m < prefix.len() - 1 {
                    assert(prefix[m] == s@.subrange(start as int, k as int)[m]);
                }
            }
        }
        let bigger = if digit <= max && value <= (max - digit) / 10 {
            Some(value * 10 + digit)
        } else {
            None
        };
        match bigger {
            Some(v) if v <= max => {
                value = v;
            },
            _ => {
                proof {
                    assert(decimal_value(prefix) > max) by (nonlinear_arith)
                        requires
                            decimal_value(prefix) == value * 10 + digit,
                            !(digit <= max && value <= (max - digit) / 10) || value * 10 + digit > max,
                            digit <= 9,
                            max >= 0,
                    {
                    }
                    // the full number is at least the prefix
                    if all_digits(d) {
                        lemma_decimal_value_prefix_mono(d, prefix.len() as int, d.len() as int);
                        assert(d.subrange(0, prefix.len() as int) =~= prefix);
                        assert(d.subrange(0, d.len() as int) =~= d);
                    }
                }
                return None;
            },
        }
        k = k + 1;
    }
    assert(s@.subrange(start as int, k as int) =~= d);
    Some(value)
}

/// The decimal digits of `n`, without leading zeros.
pub open spec fn decimal(n: nat) -> Seq<char>
    decreases n,
{
    if n < 10 {
        seq![digit_char(n)]
    } else {
        decimal(n / 10).push(digit_char(n % 10))
    }
}

pub open spec fn digit_char(d: nat) -> char {
    (d + 48) as char
}

/// Appends the decimal digits of `n` to `out`.
pub fn push_decimal(out: &mut String, n: u64)
    ensures
        final(out)@ == old(out)@ + decimal(n as nat),
    decreases n,
{
    if n >= 10 {
        push_decimal(out, n / 10);
    }
    let d = (n % 10) as u8;
    let c = (d + 48) as char;
    assert(c == digit_char((n % 10) as nat));
    push_char(out, c);
    assert(out@ =~= old(out)@ + decimal(n as nat));
}

/// Appends a literal to `out`.
pub fn push_str(out: &mut String, lit: &str)
    ensures
        final(out)@ == old(out)@ + lit@,
{
    out.append(lit);
}

} // verus!

//! Character-sequence helpers: searching, splitting, suffix tests and
//! case-insensitive ordering, each with an executable form proved against
//! its specification.

use vstd::prelude::*;

verus! {

/// Index of the first occurrence of `c` in `s`, or `s.len()` if `c` does not occur.
pub open spec fn char_pos(s: Seq<char>, c: char) -> nat
    decreases s.len(),
{
    if s.len() == 0 {
        0
    } else if s[0] == c {
        0
    } else {
        1 + char_pos(s.skip(1), c)
    }
}

/// `char_pos` is pinned by the facts an index scan establishes.
pub proof fn lemma_char_pos_is(s: Seq<char>, c: char, j: int)
    requires
        0 <= j <= s.len(),
        forall|k: int| 0 <= k < j ==> s[k] != c,
        j < s.len() ==> s[j] == c,
    ensures
        char_pos(s, c) == j,
    decreases s.len(),
{
    if j == 0 {
    } else {
        assert(s[0] != c);
        lemma_char_pos_is(s.skip(1), c, j - 1);
        assert forall|k: int| 0 <= k < j - 1 implies s.skip(1)[k] != c by {
            assert(s.skip(1)[k] == s[k + 1]);
        }
        if j - 1 < s.skip(1).len() {
            assert(s.skip(1)[j - 1] == s[j]);
        }
    }
}

/// The prefix of `s` that stands before the first occurrence of `c`
/// (all of `s` if `c` does not occur).
pub open spec fn before_char(s: Seq<char>, c: char) -> Seq<char> {
    s.take(char_pos(s, c) as int)
}

/// Drop the first `n` characters of `s`; empty if `s` is shorter than `n`.
pub open spec fn skip_front(s: Seq<char>, n: nat) -> Seq<char> {
    if s.len() < n {
        Seq::empty()
    } else {
        s.skip(n as int)
    }
}

/// The tokens of `s` split on the separator `c`.  A separator at the end
/// yields a trailing empty token; a string without separators is one token.
pub open spec fn split_on(s: Seq<char>, c: char) -> Seq<Seq<char>>
    decreases s.len(),
{
    if char_pos(s, c) >= s.len() {
        seq![s]
    } else {
        seq![before_char(s, c)] + split_on(s.skip(char_pos(s, c) as int + 1), c)
    }
}

/// The suffix of `s` that follows the last occurrence of `c`
/// (all of `s` if `c` does not occur; empty if `s` ends with `c`).
pub open spec fn tail_after(s: Seq<char>, c: char) -> Seq<char>
    decreases s.len(),
{
    if s.len() == 0 {
        s
    } else if s[s.len() - 1] == c {
        Seq::empty()
    } else {
        tail_after(s.drop_last(), c).push(s.last())
    }
}

/// `tail_after` is pinned by the facts a backward scan establishes.
#[verifier::rlimit(100)]
pub proof fn lemma_tail_after_is(s: Seq<char>, c: char, k: int)
    requires
        0 <= k <= s.len(),
        forall|j: int| k <= j < s.len() ==> s[j] != c,
        k > 0 ==> s[k - 1] == c,
    ensures
        tail_after(s, c) == s.skip(k),
    decreases s.len(),
{
    if s.len() == 0 {
        assert(s.skip(0) =~= s);
    } else if s[s.len() - 1] == c {
        assert(k == s.len());
        assert(s.skip(k) =~= Seq::<char>::empty());
    } else {
        assert(k < s.len());
        assert forall|j: int| k <= j < s.drop_last().len() implies s.drop_last()[j] != c by {
            assert(s.drop_last()[j] == s[j]);
        }
        if k > 0 {
            assert(s.drop_last()[k - 1] == s[k - 1]);
        }
        lemma_tail_after_is(s.drop_last(), c, k);
        assert(tail_after(s, c) == s.drop_last().skip(k).push(s.last()));
        assert(s.drop_last().skip(k).push(s.last()) =~= s.skip(k));
    }
}

/// `s` ends with `suffix`.
pub open spec fn has_suffix(s: Seq<char>, suffix: Seq<char>) -> bool {
    s.len() >= suffix.len() && s.skip(s.len() - suffix.len()) == suffix
}

/// Lexicographic order on character sequences, comparing scalar values.
pub open spec fn lex_le(a: Seq<char>, b: Seq<char>) -> bool
    decreases a.len(),
{
    if a.len() == 0 {
        true
    } else if b.len() == 0 {
        false
    } else if (a[0] as int) < (b[0] as int) {
        true
    } else if (a[0] as int) > (b[0] as int) {
        false
    } else {
        lex_le(a.skip(1), b.skip(1))
    }
}

pub proof fn lemma_lex_le_total(a: Seq<char>, b: Seq<char>)
    ensures
        lex_le(a, b) || lex_le(b, a),
    decreases a.len(),
{
    if a.len() == 0 {
    } else if b.len() == 0 {
    } else if a[0] == b[0] {
        lemma_lex_le_total(a.skip(1), b.skip(1));
    }
}

pub proof fn lemma_lex_le_trans(a: Seq<char>, b: Seq<char>, c: Seq<char>)
    requires
        lex_le(a, b),
        lex_le(b, c),
    ensures
        lex_le(a, c),
    decreases a.len(),
{
    if a.len() == 0 {
    } else if (a[0] as int) == (b[0] as int) && (b[0] as int) == (c[0] as int) {
        lemma_lex_le_trans(a.skip(1), b.skip(1), c.skip(1));
    }
}

/// Discarding an equal prefix does not change the lexicographic order.
pub proof fn lemma_lex_le_common_prefix(a: Seq<char>, b: Seq<char>, i: int)
    requires
        0 <= i <= a.len(),
        i <= b.len(),
        forall|k: int| 0 <= k < i ==> a[k] == b[k],
    ensures
        lex_le(a, b) == lex_le(a.skip(i), b.skip(i)),
    decreases i,
{
    if i > 0 {
        assert(a[0] == b[0]);
        assert forall|k: int| 0 <= k < i - 1 implies a.skip(1)[k] == b.skip(1)[k] by {
            assert(a.skip(1)[k] == a[k + 1]);
            assert(b.skip(1)[k] == b[k + 1]);
        }
        lemma_lex_le_common_prefix(a.skip(1), b.skip(1), i - 1);
        assert(a.skip(1).skip(i - 1) =~= a.skip(i));
        assert(b.skip(1).skip(i - 1) =~= b.skip(i));
        assert(lex_le(a, b) == lex_le(a.skip(1), b.skip(1)));
    } else {
        assert(a.skip(0) =~= a);
        assert(b.skip(0) =~= b);
    }
}

/// What `str::to_lowercase` returns for a given character sequence.
/// The result depends on the characters alone.
pub uninterp spec fn lower_of(s: Seq<char>) -> Seq<char>;

/// Relies on `str::to_lowercase`: the lowercase form of the string,
/// a function of its characters alone.
#[verifier::external_body]
pub(crate) fn lowercase(s: &str) -> (r: String)
    ensures
        r@ == lower_of(s@),
{
    s.to_lowercase()
}

/// The tokens of `s` split on the separator `c`, as owned strings.
pub fn split_str(s: &str, c: char) -> (toks: Vec<String>)
    ensures
        toks@.map_values(|t: String| t@) == split_on(s@, c),
{
    let n = s.unicode_len();
    let mut toks: Vec<String> = Vec::new();
    let mut start: usize = 0;
    let mut j: usize = 0;
    proof {
        assert(toks@.map_values(|t: String| t@) =~= Seq::<Seq<char>>::empty());
        assert(s@.skip(0) =~= s@);
        assert(toks@.map_values(|t: String| t@) + split_on(s@.skip(0), c) =~= split_on(s@, c));
    }
    while j < n
        invariant
            n == s@.len(),
            start <= j <= n,
            forall|k: int| start <= k < j ==> s@[k] != c,
            toks@.map_values(|t: String| t@) + split_on(s@.skip(start as int), c) == split_on(
                s@,
                c,
            ),
        decreases n - j,
    {
        if s.get_char(j) == c {
            let tok = String::from_str(s.substring_char(start, j));
            proof {
                let rest = s@.skip(start as int);
                assert forall|k: int| 0 <= k < j - start implies rest[k] != c by {
                    assert(rest[k] == s@[start + k]);
                }
                assert(rest[j - start] == s@[j as int]);
                lemma_char_pos_is(rest, c, j - start);
                assert(before_char(rest, c) =~= tok@);
                assert(rest.skip(j - start + 1) =~= s@.skip(j + 1));
                assert(split_on(rest, c) == seq![tok@] + split_on(s@.skip(j + 1), c));
                assert(toks@.push(tok).map_values(|t: String| t@) =~= toks@.map_values(
                    |t: String| t@,
                ).push(tok@));
                assert((toks@.map_values(|t: String| t@) + seq![tok@]) + split_on(
                    s@.skip(j + 1),
                    c,
                ) =~= toks@.map_values(|t: String| t@) + (seq![tok@] + split_on(
                    s@.skip(j + 1),
                    c,
                )));
            }
            toks.push(tok);
            start = j + 1;
        }
        j = j + 1;
    }
    let tok = String::from_str(s.substring_char(start, n));
    proof {
        let rest = s@.skip(start as int);
        assert forall|k: int| 0 <= k < rest.len() implies rest[k] != c by {
            assert(rest[k] == s@[start + k]);
        }
        lemma_char_pos_is(rest, c, rest.len() as int);
        assert(split_on(rest, c) == seq![rest]);
        assert(rest =~= tok@);
        assert(toks@.push(tok).map_values(|t: String| t@) =~= toks@.map_values(
            |t: String| t@,
        ).push(tok@));
        assert(toks@.map_values(|t: String| t@) + seq![tok@] =~= toks@.push(tok).map_values(
            |t: String| t@,
        ));
    }
    toks.push(tok);
    toks
}

/// The bare quoted value inside a token: drop `skip` framing characters,
/// then take everything up to the closing quote.
pub fn quoted_field(tok: &str, skip: usize) -> (r: String)
    ensures
        r@ == before_char(skip_front(tok@, skip as nat), '"'),
{
    let m = tok.unicode_len();
    let start: usize = if m < skip {
        m
    } else {
        skip
    };
    let mut j: usize = start;
    while j < m && tok.get_char(j) != '"'
        invariant
            m == tok@.len(),
            start <= j <= m,
            forall|k: int| start <= k < j ==> tok@[k] != '"',
        decreases m - j,
    {
        j = j + 1;
    }
    let r = String::from_str(tok.substring_char(start, j));
    proof {
        let rest = tok@.skip(start as int);
        assert forall|k: int| 0 <= k < j - start implies rest[k] != '"' by {
            assert(rest[k] == tok@[start + k]);
        }
        if j < m {
            assert(rest[j - start] == tok@[j as int]);
        }
        lemma_char_pos_is(rest, '"', j - start);
        if m < skip {
            assert(skip_front(tok@, skip as nat) =~= rest);
        }
        assert(before_char(rest, '"') =~= r@);
    }
    r
}

/// The final path segment: everything after the last `/`.
pub fn file_name_part<'a>(path: &'a str) -> (r: &'a str)
    ensures
        r@ == tail_after(path@, '/'),
{
    let n = path.unicode_len();
    let mut k: usize = n;
    while k > 0 && path.get_char(k - 1) != '/'
        invariant
            n == path@.len(),
            k <= n,
            forall|j: int| k <= j < n ==> path@[j] != '/',
        decreases k,
    {
        k = k - 1;
    }
    let r = path.substring_char(k, n);
    proof {
        lemma_tail_after_is(path@, '/', k as int);
    }
    r
}

/// Whether `s` ends with `suffix`.
pub fn str_has_suffix(s: &str, suffix: &str) -> (r: bool)
    ensures
        r == has_suffix(s@, suffix@),
{
    let n = s.unicode_len();
    let m = suffix.unicode_len();
    if m > n {
        return false;
    }
    let base = n - m;
    let mut i: usize = 0;
    while i < m
        invariant
            n == s@.len(),
            m == suffix@.len(),
            m <= n,
            base == n - m,
            i <= m,
            forall|k: int| 0 <= k < i ==> s@[base + k] == suffix@[k],
        decreases m - i,
    {
        if s.get_char(base + i) != suffix.get_char(i) {
            proof {
                assert(s@.skip(base as int)[i as int] == s@[base + i]);
            }
            return false;
        }
        i = i + 1;
    }
    proof {
        assert forall|k: int| 0 <= k < m implies s@.skip(base as int)[k] == suffix@[k] by {
            assert(s@.skip(base as int)[k] == s@[base + k]);
        }
        assert(s@.skip(base as int) =~= suffix@);
    }
    true
}

/// Lexicographic comparison of two strings by scalar value.
pub fn str_lex_le(x: &str, y: &str) -> (r: bool)
    ensures
        r == lex_le(x@, y@),
{
    let n = x.unicode_len();
    let m = y.unicode_len();
    let mut i: usize = 0;
    while i < n && i < m
        invariant
            n == x@.len(),
            m == y@.len(),
            i <= n,
            i <= m,
            forall|k: int| 0 <= k < i ==> x@[k] == y@[k],
        decreases n - i,
    {
        let cx = x.get_char(i);
        let cy = y.get_char(i);
        if cx != cy {
            proof {
                lemma_lex_le_common_prefix(x@, y@, i as int);
                assert(x@.skip(i as int)[0] == x@[i as int]);
                assert(y@.skip(i as int)[0] == y@[i as int]);
            }
            return (cx as u32) < (cy as u32);
        }
        i = i + 1;
    }
    proof {
        let i_ = i as int;
        lemma_lex_le_common_prefix(x@, y@, i_);
        if i < m {
            assert(x@.skip(i_).len() == 0);
        } else if i < n {
            assert(y@.skip(i_).len() == 0);
            assert(x@.skip(i_).len() > 0);
        } else {
            assert(x@.skip(i_).len() == 0);
        }
    }
    n <= m
}

} // verus!

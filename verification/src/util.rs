//! Keyword completion and word-chunking helpers.
//!
//! `full_keyword` picks the phrase that best completes a user's query from a
//! list of suggestion keywords.  [`ChunkedString`] supports walking a string
//! as chunks of one or more words, for depth-first tokenization.
//!
//! Both are specified over a small theory of words: `word_bounds_spec` gives
//! the start/end positions (in characters) of the maximal non-whitespace runs
//! of a string.

use vstd::prelude::*;
use vstd::string::{StrSliceExecFns, StringExecFns, StringSliceAdditionalSpecFns};
use vstd::utf8::encode_utf8;

verus! {

/// Whether `c` has the Unicode `White_Space` property, as
/// `char::is_whitespace` defines it.
pub open spec fn is_space_spec(c: char) -> bool {
    c == ' ' || c == '\t' || c == '\n' || c == '\u{B}' || c == '\u{C}' || c == '\r' || c
        == '\u{85}' || c == '\u{A0}' || c == '\u{1680}' || c == '\u{2000}' || c == '\u{2001}' || c
        == '\u{2002}' || c == '\u{2003}' || c == '\u{2004}' || c == '\u{2005}' || c == '\u{2006}'
        || c == '\u{2007}' || c == '\u{2008}' || c == '\u{2009}' || c == '\u{200A}' || c
        == '\u{2028}' || c == '\u{2029}' || c == '\u{202F}' || c == '\u{205F}' || c == '\u{3000}'
}

/// Whitespace test matching [`is_space_spec`].
pub fn is_space_char(c: char) -> (r: bool)
    ensures
        r == is_space_spec(c),
{
    c == ' ' || c == '\t' || c == '\n' || c == '\u{B}' || c == '\u{C}' || c == '\r' || c
        == '\u{85}' || c == '\u{A0}' || c == '\u{1680}' || c == '\u{2000}' || c == '\u{2001}' || c
        == '\u{2002}' || c == '\u{2003}' || c == '\u{2004}' || c == '\u{2005}' || c == '\u{2006}'
        || c == '\u{2007}' || c == '\u{2008}' || c == '\u{2009}' || c == '\u{200A}' || c
        == '\u{2028}' || c == '\u{2029}' || c == '\u{202F}' || c == '\u{205F}' || c == '\u{3000}'
}

/// Start position of the word still open after scanning the first `n`
/// characters of `s`, if any.
pub open spec fn open_start(s: Seq<char>, n: int) -> Option<int>
    decreases n,
{
    if n <= 0 {
        None
    } else if is_space_spec(s[n - 1]) {
        None
    } else {
        match open_start(s, n - 1) {
            Some(st) => Some(st),
            None => Some(n - 1),
        }
    }
}

/// Start/end positions of the words completed within the first `n`
/// characters of `s`, in order.
pub open spec fn bounds_upto(s: Seq<char>, n: int) -> Seq<(int, int)>
    decreases n,
{
    if n <= 0 {
        Seq::empty()
    } else {
        bounds_upto(s, n - 1) + (match open_start(s, n - 1) {
            Some(st) => if is_space_spec(s[n - 1]) {
                seq![(st, n - 1)]
            } else {
                Seq::<(int, int)>::empty()
            },
            None => Seq::<(int, int)>::empty(),
        })
    }
}

/// Start/end positions (in characters) of the maximal non-whitespace runs of
/// `s`: its words.
pub open spec fn word_bounds_spec(s: Seq<char>) -> Seq<(int, int)> {
    bounds_upto(s, s.len() as int) + (match open_start(s, s.len() as int) {
        Some(st) => seq![(st, s.len() as int)],
        None => Seq::<(int, int)>::empty(),
    })
}

/// Number of words in `s`.
pub open spec fn count_words(s: Seq<char>) -> int {
    word_bounds_spec(s).len() as int
}

/// Basic facts about `bounds_upto` and `open_start`: words are nonempty,
/// ordered, within range, and there are at most `(n + 1) / 2` of them.
pub proof fn lemma_bounds_upto_valid(s: Seq<char>, n: int)
    requires
        0 <= n <= s.len(),
    ensures
        forall|k: int|
            0 <= k < bounds_upto(s, n).len() ==> {
                let b = #[trigger] bounds_upto(s, n)[k];
                0 <= b.0 && b.0 < b.1 && b.1 < n
            },
        forall|k: int, l: int|
            0 <= k < l < bounds_upto(s, n).len() ==> #[trigger] bounds_upto(s, n)[k].1
                <= #[trigger] bounds_upto(s, n)[l].0,
        open_start(s, n) matches Some(st) ==> 0 <= st < n && (forall|k: int|
            0 <= k < bounds_upto(s, n).len() ==> #[trigger] bounds_upto(s, n)[k].1 <= st),
        2 * bounds_upto(s, n).len() + (if open_start(s, n) is Some {
            1int
        } else {
            0int
        }) <= n + 1,
    decreases n,
{
    if n > 0 {
        lemma_bounds_upto_valid(s, n - 1);
    }
}

/// The same facts, for the full word list of `s`.
pub proof fn lemma_word_bounds_valid(s: Seq<char>)
    ensures
        forall|k: int|
            0 <= k < word_bounds_spec(s).len() ==> {
                let b = #[trigger] word_bounds_spec(s)[k];
                0 <= b.0 && b.0 < b.1 && b.1 <= s.len()
            },
        forall|k: int, l: int|
            0 <= k < l < word_bounds_spec(s).len() ==> #[trigger] word_bounds_spec(s)[k].1
                <= #[trigger] word_bounds_spec(s)[l].0,
        2 * word_bounds_spec(s).len() <= s.len() + 2,
{
    lemma_bounds_upto_valid(s, s.len() as int);
}

proof fn lemma_bounds_upto_chars(s: Seq<char>, n: int)
    requires
        0 <= n <= s.len(),
    ensures
        forall|k: int, j: int|
            #![trigger bounds_upto(s, n)[k], s[j]]
            0 <= k < bounds_upto(s, n).len() && bounds_upto(s, n)[k].0 <= j < bounds_upto(s, n)[k].1
                ==> !is_space_spec(s[j]),
        forall|k: int|
            0 <= k < bounds_upto(s, n).len() ==> is_space_spec(
                s[#[trigger] bounds_upto(s, n)[k].1],
            ),
        forall|k: int|
            0 <= k < bounds_upto(s, n).len() && #[trigger] bounds_upto(s, n)[k].0 > 0
                ==> is_space_spec(s[bounds_upto(s, n)[k].0 - 1]),
        open_start(s, n) matches Some(st) ==> (forall|j: int|
            st <= j < n ==> !is_space_spec(#[trigger] s[j])) && (st == 0 || is_space_spec(
            s[st - 1],
        )) && 0 <= st < n,
        forall|p: int|
            0 <= p < n && !is_space_spec(#[trigger] s[p]) ==> (exists|k: int|
                0 <= k < bounds_upto(s, n).len() && #[trigger] bounds_upto(s, n)[k].0 <= p
                    < bounds_upto(s, n)[k].1) || (open_start(s, n) matches Some(st) && st <= p),
    decreases n,
{
    if n > 0 {
        lemma_bounds_upto_chars(s, n - 1);
        lemma_bounds_upto_valid(s, n - 1);
        let prev = bounds_upto(s, n - 1);
        if open_start(s, n - 1) is Some && is_space_spec(s[n - 1]) {
            let st = open_start(s, n - 1)->Some_0;
            assert(bounds_upto(s, n) == prev + seq![(st, n - 1)]);
            assert(bounds_upto(s, n)[prev.len() as int] == (st, n - 1));
            assert forall|p: int|
                0 <= p < n && !is_space_spec(#[trigger] s[p]) implies (exists|k: int|
                0 <= k < bounds_upto(s, n).len() && #[trigger] bounds_upto(s, n)[k].0 <= p
                    < bounds_upto(s, n)[k].1) || (open_start(s, n) matches Some(st2)
                && st2 <= p) by {
                if p < n - 1 && !is_space_spec(s[p]) {
                    if exists|k: int|
                        0 <= k < prev.len() && #[trigger] prev[k].0 <= p < prev[k].1 {
                        let k = choose|k: int|
                            0 <= k < prev.len() && #[trigger] prev[k].0 <= p < prev[k].1;
                        assert(bounds_upto(s, n)[k] == prev[k]);
                    } else {
                        assert(st <= p < n - 1);
                        assert(bounds_upto(s, n)[prev.len() as int].0 <= p < bounds_upto(
                            s,
                            n,
                        )[prev.len() as int].1);
                    }
                }
            }
        } else {
            assert(bounds_upto(s, n) =~= prev);
            if !is_space_spec(s[n - 1]) {
                assert(open_start(s, n) is Some);
            }
        }
    }
}

/// The word bounds of `s` are exactly its maximal non-whitespace runs: words
/// hold no whitespace, each word is flanked by whitespace or a string end,
/// and every non-whitespace character lies inside some word.
pub proof fn lemma_words_are_maximal_runs(s: Seq<char>)
    ensures
        forall|k: int, j: int|
            #![trigger word_bounds_spec(s)[k], s[j]]
            0 <= k < word_bounds_spec(s).len() && word_bounds_spec(s)[k].0 <= j
                < word_bounds_spec(s)[k].1 ==> !is_space_spec(s[j]),
        forall|k: int|
            0 <= k < word_bounds_spec(s).len() && #[trigger] word_bounds_spec(s)[k].1 < s.len()
                ==> is_space_spec(s[word_bounds_spec(s)[k].1]),
        forall|k: int|
            0 <= k < word_bounds_spec(s).len() && #[trigger] word_bounds_spec(s)[k].0 > 0
                ==> is_space_spec(s[word_bounds_spec(s)[k].0 - 1]),
        forall|p: int|
            0 <= p < s.len() && !is_space_spec(#[trigger] s[p]) ==> exists|k: int|
                0 <= k < word_bounds_spec(s).len() && #[trigger] word_bounds_spec(s)[k].0 <= p
                    < word_bounds_spec(s)[k].1,
{
    let n = s.len() as int;
    lemma_bounds_upto_chars(s, n);
    lemma_bounds_upto_valid(s, n);
    let base = bounds_upto(s, n);
    if open_start(s, n) is Some {
        let st = open_start(s, n)->Some_0;
        assert(word_bounds_spec(s) == base + seq![(st, n)]);
        assert(word_bounds_spec(s)[base.len() as int] == (st, n));
        assert(forall|k: int| 0 <= k < base.len() ==> #[trigger] word_bounds_spec(s)[k] == base[k]);
        assert forall|p: int|
            0 <= p < s.len() && !is_space_spec(#[trigger] s[p]) implies exists|k: int|
            0 <= k < word_bounds_spec(s).len() && #[trigger] word_bounds_spec(s)[k].0 <= p
                < word_bounds_spec(s)[k].1 by {
            if exists|k: int| 0 <= k < base.len() && #[trigger] base[k].0 <= p < base[k].1 {
                let k = choose|k: int|
                    0 <= k < base.len() && #[trigger] base[k].0 <= p < base[k].1;
                assert(word_bounds_spec(s)[k].0 <= p < word_bounds_spec(s)[k].1);
            } else {
                assert(st <= p < n);
                assert(word_bounds_spec(s)[base.len() as int].0 <= p < word_bounds_spec(
                    s,
                )[base.len() as int].1);
            }
        }
    } else {
        assert(word_bounds_spec(s) =~= base);
        assert(forall|k: int| 0 <= k < base.len() ==> #[trigger] word_bounds_spec(s)[k] == base[k]);
    }
}

/// Exec word bounds, as `int` pairs for comparison with the spec.
pub open spec fn view_bounds(wb: Seq<(usize, usize)>) -> Seq<(int, int)> {
    wb.map_values(|b: (usize, usize)| (b.0 as int, b.1 as int))
}

/// `open_start` analogue for the exec scanning state.
pub open spec fn view_opt(o: Option<usize>) -> Option<int> {
    match o {
        Some(v) => Some(v as int),
        None => None,
    }
}

/// Scan `source` and collect the start/end character positions of its words.
fn find_word_bounds(source: &str) -> (wb: Vec<(usize, usize)>)
    ensures
        view_bounds(wb@) == word_bounds_spec(source@),
{
    let n = source.unicode_len();
    let mut wb: Vec<(usize, usize)> = Vec::new();
    let mut word_start: Option<usize> = None;
    let mut i: usize = 0;
    while i < n
        invariant
            n == source@.len(),
            i <= n,
            view_bounds(wb@) == bounds_upto(source@, i as int),
            view_opt(word_start) == open_start(source@, i as int),
        decreases n - i,
    {
        let c = source.get_char(i);
        match (word_start, is_space_char(c)) {
            (None, false) => {
                word_start = Some(i);
            },
            (Some(start_pos), true) => {
                let ghost prev = wb@;
                wb.push((start_pos, i));
                proof {
                    assert(view_bounds(wb@) =~= view_bounds(prev) + seq![
                        (start_pos as int, i as int),
                    ]);
                }
                word_start = None;
            },
            _ => {},
        }
        i = i + 1;
    }
    if let Some(start_pos) = word_start {
        let ghost prev = wb@;
        wb.push((start_pos, n));
        proof {
            assert(view_bounds(wb@) =~= view_bounds(prev) + seq![(start_pos as int, n as int)]);
        }
    }
    proof {
        assert(view_bounds(wb@) =~= word_bounds_spec(source@));
    }
    wb
}

/// The decimal digit `d` as a character; `d` must be 0 through 9.
pub open spec fn digit_char(d: int) -> char {
    if d == 0 {
        '0'
    } else if d == 1 {
        '1'
    } else if d == 2 {
        '2'
    } else if d == 3 {
        '3'
    } else if d == 4 {
        '4'
    } else if d == 5 {
        '5'
    } else if d == 6 {
        '6'
    } else if d == 7 {
        '7'
    } else if d == 8 {
        '8'
    } else {
        '9'
    }
}

/// The decimal representation of `n`, without leading zeros.
pub open spec fn decimal_spec(n: nat) -> Seq<char>
    decreases n,
{
    if n < 10 {
        seq![digit_char(n as int)]
    } else {
        decimal_spec(n / 10).push(digit_char((n % 10) as int))
    }
}

/// The decimal digits in `ds`, least significant first, as characters in
/// most-significant-first order.
pub open spec fn rev_digit_chars(ds: Seq<u8>) -> Seq<char> {
    Seq::new(ds.len(), |i: int| digit_char(ds[ds.len() - 1 - i] as int))
}

fn digit_str(d: u8) -> (r: &'static str)
    requires
        d < 10,
    ensures
        r@ == seq![digit_char(d as int)],
{
    proof {
        reveal_strlit("0");
        reveal_strlit("1");
        reveal_strlit("2");
        reveal_strlit("3");
        reveal_strlit("4");
        reveal_strlit("5");
        reveal_strlit("6");
        reveal_strlit("7");
        reveal_strlit("8");
        reveal_strlit("9");
    }
    let r = match d {
        0 => "0",
        1 => "1",
        2 => "2",
        3 => "3",
        4 => "4",
        5 => "5",
        6 => "6",
        7 => "7",
        8 => "8",
        _ => "9",
    };
    proof {
        assert(r@ =~= seq![digit_char(d as int)]);
    }
    r
}

/// Format `v` in decimal.
pub fn u64_to_decimal(v: u64) -> (r: String)
    ensures
        r@ == decimal_spec(v as nat),
{
    if v == 0 {
        let r = String::from_str("0");
        proof {
            reveal_strlit("0");
            assert(r@ =~= decimal_spec(0));
        }
        return r;
    }
    let mut digits: Vec<u8> = Vec::new();
    let mut x = v;
    proof {
        assert(decimal_spec(v as nat) =~= decimal_spec(v as nat) + rev_digit_chars(digits@));
    }
    while x > 0
        invariant
            x > 0 ==> decimal_spec(v as nat) == decimal_spec(x as nat) + rev_digit_chars(digits@),
            x == 0 ==> decimal_spec(v as nat) == rev_digit_chars(digits@),
            forall|k: int| 0 <= k < digits@.len() ==> #[trigger] digits@[k] < 10,
        decreases x,
    {
        let ghost prev_digits = digits@;
        let ghost prev_x = x as nat;
        digits.push((x % 10) as u8);
        x = x / 10;
        proof {
            if x > 0 {
                assert(decimal_spec(prev_x) == decimal_spec(x as nat).push(
                    digit_char((prev_x % 10) as int),
                ));
                assert(decimal_spec(x as nat) + rev_digit_chars(digits@) =~= decimal_spec(
                    x as nat,
                ).push(digit_char((prev_x % 10) as int)) + rev_digit_chars(prev_digits));
            } else {
                assert(prev_x < 10);
                assert(decimal_spec(prev_x) =~= seq![digit_char((prev_x % 10) as int)]);
                assert(decimal_spec(v as nat) =~= rev_digit_chars(digits@));
            }
        }
    }
    let mut out = String::new();
    let mut i: usize = digits.len();
    while i > 0
        invariant
            forall|k: int| 0 <= k < digits@.len() ==> #[trigger] digits@[k] < 10,
            i <= digits@.len(),
            out@ == rev_digit_chars(digits@).take(digits@.len() - i),
        decreases i,
    {
        i = i - 1;
        out.append(digit_str(digits[i]));
        proof {
            assert(out@ =~= rev_digit_chars(digits@).take(digits@.len() - i));
        }
    }
    proof {
        assert(rev_digit_chars(digits@).take(digits@.len() as int) =~= rev_digit_chars(digits@));
    }
    out
}

/// Whether `q` is a prefix of `p`, character for character.
pub open spec fn is_prefix_of(q: Seq<char>, p: Seq<char>) -> bool {
    q.len() <= p.len() && p.subrange(0, q.len() as int) == q
}

/// Prefix test matching [`is_prefix_of`].
fn is_char_prefix(q: &str, p: &str) -> (r: bool)
    ensures
        r == is_prefix_of(q@, p@),
{
    let nq = q.unicode_len();
    let np = p.unicode_len();
    if np < nq {
        return false;
    }
    let mut i: usize = 0;
    while i < nq
        invariant
            nq == q@.len(),
            np == p@.len(),
            nq <= np,
            i <= nq,
            forall|j: int| 0 <= j < i ==> q@[j] == p@[j],
        decreases nq - i,
    {
        if q.get_char(i) != p.get_char(i) {
            proof {
                assert(p@.subrange(0, q@.len() as int)[i as int] != q@[i as int]);
            }
            return false;
        }
        i = i + 1;
    }
    proof {
        assert(p@.subrange(0, q@.len() as int) =~= q@);
    }
    true
}

/// The minimum number of words a completion must show: the words of the
/// query, plus one more when the query ends in whitespace (so the completed
/// phrase can show a word after the space).
pub open spec fn min_phrase_words_spec(q: Seq<char>) -> int {
    count_words(q) + if q.len() > 0 && is_space_spec(q[q.len() - 1]) {
        1int
    } else {
        0int
    }
}

/// A keyword that starts with the query and has more than `m` words, so it
/// can be trimmed to a completion of exactly `m` words.
pub open spec fn is_expander(q: Seq<char>, m: int, p: Seq<char>) -> bool {
    is_prefix_of(q, p) && count_words(p) > m
}

/// Index of the first expander keyword, if any.
pub open spec fn first_expander(q: Seq<char>, m: int, ks: Seq<Seq<char>>) -> Option<int>
    decreases ks.len(),
{
    if ks.len() == 0 {
        None
    } else if is_expander(q, m, ks[0]) {
        Some(0)
    } else {
        match first_expander(q, m, ks.drop_first()) {
            Some(i) => Some(i + 1),
            None => None,
        }
    }
}

proof fn lemma_first_expander_none(q: Seq<char>, m: int, ks: Seq<Seq<char>>)
    requires
        forall|j: int| 0 <= j < ks.len() ==> !is_expander(q, m, #[trigger] ks[j]),
    ensures
        first_expander(q, m, ks) is None,
    decreases ks.len(),
{
    if ks.len() > 0 {
        assert(!is_expander(q, m, ks[0]));
        lemma_first_expander_none(q, m, ks.drop_first());
    }
}

proof fn lemma_first_expander_at(q: Seq<char>, m: int, ks: Seq<Seq<char>>, i: int)
    requires
        0 <= i < ks.len(),
        is_expander(q, m, ks[i]),
        forall|j: int| 0 <= j < i ==> !is_expander(q, m, #[trigger] ks[j]),
    ensures
        first_expander(q, m, ks) == Some(i),
    decreases i,
{
    if i == 0 {
    } else {
        assert(!is_expander(q, m, ks[0]));
        assert(ks.drop_first()[i - 1] == ks[i]);
        assert(forall|j: int| 0 <= j < i - 1 ==> ks.drop_first()[j] == #[trigger] ks[j + 1]);
        lemma_first_expander_at(q, m, ks.drop_first(), i - 1);
    }
}

/// The first `m` words of `p`, joined with single spaces.
pub open spec fn join_first_words(p: Seq<char>, m: int) -> Seq<char>
    decreases m,
{
    let wb = word_bounds_spec(p);
    if m <= 0 {
        Seq::empty()
    } else if m == 1 {
        p.subrange(wb[0].0, wb[0].1)
    } else {
        join_first_words(p, m - 1) + seq![' '] + p.subrange(wb[m - 1].0, wb[m - 1].1)
    }
}

/// Length, in UTF-8 bytes, of `p` with leading and trailing whitespace
/// removed.
pub open spec fn trimmed_len(p: Seq<char>) -> int {
    let wb = word_bounds_spec(p);
    if wb.len() == 0 {
        0
    } else {
        encode_utf8(p.subrange(wb[0].0, wb[wb.len() - 1].1)).len() as int
    }
}

/// A keyword that starts with the query and extends it.
pub open spec fn is_completion(q: Seq<char>, p: Seq<char>) -> bool {
    is_prefix_of(q, p) && q.len() < p.len()
}

/// The completion keyword with the greatest trimmed byte length; on a tie,
/// the later keyword wins.
pub open spec fn best_completion(q: Seq<char>, ks: Seq<Seq<char>>) -> Option<Seq<char>>
    decreases ks.len(),
{
    if ks.len() == 0 {
        None
    } else {
        let prev = best_completion(q, ks.drop_last());
        let p = ks.last();
        if is_completion(q, p) && (match prev {
            None => true,
            Some(b) => trimmed_len(p) >= trimmed_len(b),
        }) {
            Some(p)
        } else {
            prev
        }
    }
}

/// What [`full_keyword`] returns: the first expander keyword trimmed to the
/// minimum word count; otherwise the best strict completion; otherwise the
/// query itself.
pub open spec fn full_keyword_spec(q: Seq<char>, ks: Seq<Seq<char>>) -> Seq<char> {
    let m = min_phrase_words_spec(q);
    match first_expander(q, m, ks) {
        Some(i) => join_first_words(ks[i], m),
        None => match best_completion(q, ks) {
            Some(p) => p,
            None => q,
        },
    }
}

/// The chunk spanning words `start` through `cur` of `source`, if `cur`
/// still names a word and the chunk stays within `max_size` words.
pub open spec fn chunk_of(source: Seq<char>, max_size: int, start: int, cur: int) -> Option<
    Seq<char>,
> {
    let wb = word_bounds_spec(source);
    if cur - start >= max_size {
        None
    } else if cur < wb.len() {
        Some(source.subrange(wb[start].0, wb[cur].1))
    } else {
        None
    }
}

/// Helper for traversing over chunk sequences in a string.
///
/// Use [`ChunkedString::iter`] to get a [`ChunkedStringIter`], which yields
/// (chunk, iter) pairs: `chunk` is 1 or more words from the beginning of the
/// string and `iter` is another [`ChunkedStringIter`] that continues over the
/// rest of the string.
///
/// The intended use-case is a depth-first search to tokenize a string, where
/// tokens can be multiple words.
pub struct ChunkedString {
    /// Source string being iterated over.
    source: String,
    /// Start/end positions for words in the string.
    word_boundaries: Vec<(usize, usize)>,
    max_size: usize,
}

impl ChunkedString {
    /// The source string's characters.
    pub closed spec fn source_spec(&self) -> Seq<char> {
        self.source@
    }

    /// The maximum number of words a chunk may span.
    pub closed spec fn max_size_spec(&self) -> int {
        self.max_size as int
    }

    /// The stored word boundaries are exactly the source's words.
    pub closed spec fn wf(&self) -> bool {
        view_bounds(self.word_boundaries@) == word_bounds_spec(self.source@)
    }

    /// Index the words of `source` and keep chunks to at most `max_size`
    /// words.
    pub fn new(source: String, max_size: usize) -> (r: ChunkedString)
        ensures
            r.wf(),
            r.source_spec() == source@,
            r.max_size_spec() == max_size as int,
    {
        let word_boundaries = find_word_bounds(source.as_str());
        ChunkedString { source, word_boundaries, max_size }
    }

    /// An iterator positioned at the start of the string.
    pub fn iter<'a>(&'a self) -> (r: ChunkedStringIter<'a>)
        ensures
            r.cs() == *self,
            r.start_spec() == 0,
            r.cur_spec() == 0,
    {
        ChunkedStringIter { chunked_string: self, start_pos: 0, current_pos: 0 }
    }
}

/// A cursor over the chunks of a [`ChunkedString`] that begin at a fixed
/// word; the next chunk spans the words `start_pos..=current_pos`.
#[derive(Clone)]
pub struct ChunkedStringIter<'a> {
    chunked_string: &'a ChunkedString,
    start_pos: usize,
    current_pos: usize,
}

impl<'a> ChunkedStringIter<'a> {
    /// The chunked string being walked.
    pub closed spec fn cs(&self) -> ChunkedString {
        *self.chunked_string
    }

    /// First word of every chunk this cursor yields.
    pub closed spec fn start_spec(&self) -> int {
        self.start_pos as int
    }

    /// Word just past the chunk most recently yielded.
    pub closed spec fn cur_spec(&self) -> int {
        self.current_pos as int
    }

    /// A cursor is valid when its string is well formed and its positions
    /// are ordered.
    pub open spec fn valid(&self) -> bool {
        self.cs().wf() && 0 <= self.start_spec() <= self.cur_spec()
    }

    /// The chunk this cursor currently points at, if any.
    pub open spec fn chunk_spec(&self) -> Option<Seq<char>> {
        chunk_of(self.cs().source_spec(), self.cs().max_size_spec(), self.start_spec(),
            self.cur_spec())
    }

    /// Whether the cursor has run out of chunks.
    pub fn at_end(&self) -> (r: bool)
        requires
            self.valid(),
        ensures
            r == (self.chunk_spec() is None),
    {
        self.current_chunk().is_none()
    }

    fn current_chunk(&self) -> (r: Option<&'a str>)
        requires
            self.valid(),
        ensures
            match r {
                Some(c) => self.chunk_spec() == Some(c@),
                None => self.chunk_spec() is None,
            },
    {
        proof {
            lemma_word_bounds_valid(self.chunked_string.source@);
        }
        if self.current_pos - self.start_pos >= self.chunked_string.max_size {
            // Past the max chunk size.
            None
        } else if self.current_pos < self.chunked_string.word_boundaries.len() {
            // Normal case: the chunk spans the words
            // `start_pos..=current_pos`.
            let start = self.chunked_string.word_boundaries[self.start_pos];
            let end = self.chunked_string.word_boundaries[self.current_pos];
            proof {
                assert(view_bounds(self.chunked_string.word_boundaries@)[self.start_pos as int]
                    == word_bounds_spec(self.chunked_string.source@)[self.start_pos as int]);
                assert(view_bounds(self.chunked_string.word_boundaries@)[self.current_pos as int]
                    == word_bounds_spec(self.chunked_string.source@)[self.current_pos as int]);
            }
            Some(self.chunked_string.source.as_str().substring_char(start.0, end.1))
        } else {
            // Past the last word.
            None
        }
    }

    /// Yield the current chunk together with a child cursor that continues
    /// after it, and advance this cursor to the next, longer chunk.
    pub fn next(&mut self) -> (r: Option<(&'a str, ChunkedStringIter<'a>)>)
        requires
            old(self).valid(),
        ensures
            final(self).cs() == old(self).cs(),
            final(self).start_spec() == old(self).start_spec(),
            match r {
                Some((chunk, child)) => {
                    &&& old(self).chunk_spec() == Some(chunk@)
                    &&& final(self).cur_spec() == old(self).cur_spec() + 1
                    &&& child.cs() == old(self).cs()
                    &&& child.start_spec() == old(self).cur_spec() + 1
                    &&& child.cur_spec() == old(self).cur_spec() + 1
                    &&& child.valid()
                    &&& final(self).valid()
                },
                None => old(self).chunk_spec() is None && *final(self) == *old(self),
            },
    {
        match self.current_chunk() {
            Some(chunk) => {
                proof {
                    assert(self.cur_spec() < word_bounds_spec(self.cs().source_spec()).len());
                    assert(word_bounds_spec(self.cs().source_spec()).len()
                        == self.chunked_string.word_boundaries@.len());
                    assert(self.chunked_string.word_boundaries.len()
                        == self.chunked_string.word_boundaries@.len());
                }
                self.current_pos = self.current_pos + 1;
                let child = ChunkedStringIter {
                    chunked_string: self.chunked_string,
                    start_pos: self.current_pos,
                    current_pos: self.current_pos,
                };
                Some((chunk, child))
            },
            None => None,
        }
    }
}

/// Given a list of keywords for a suggestion, returns a phrase that best
/// completes the user's query.  This function uses two heuristics to pick the
/// best match:
///
/// 1. Find the first keyword in the list that has at least one more word than
///    the query, then trim the keyword up to the end of that word.
/// 2. If there isn't a keyword with more words, pick the keyword that forms
///    the longest suffix of the query.  This might be the query itself.
#[verifier::rlimit(50)]
pub fn full_keyword(query: &str, keywords: &[String]) -> (r: String)
    ensures
        r@ == full_keyword_spec(query@, keywords.deep_view()),
{
    let ghost q = query@;
    let ghost ks = keywords.deep_view();
    proof {
        lemma_word_bounds_valid(q);
        assert(ks.len() == keywords@.len());
        assert(forall|j: int| 0 <= j < ks.len() ==> #[trigger] ks[j] == keywords@[j]@);
    }
    let q_bounds = find_word_bounds(query);
    let n_q = query.unicode_len();
    let ends_in_space = n_q > 0 && is_space_char(query.get_char(n_q - 1));
    let m: usize = if ends_in_space {
        q_bounds.len() + 1
    } else {
        q_bounds.len()
    };
    proof {
        assert(m as int == min_phrase_words_spec(q));
    }

    // First heuristic: the first keyword that starts with the query and has
    // more than `m` words, trimmed to its first `m` words.
    let mut i: usize = 0;
    while i < keywords.len()
        invariant
            ks == keywords.deep_view(),
            q == query@,
            m as int == min_phrase_words_spec(q),
            i <= keywords.len(),
            ks.len() == keywords@.len(),
            forall|j: int| 0 <= j < ks.len() ==> #[trigger] ks[j] == keywords@[j]@,
            forall|j: int| 0 <= j < i ==> !is_expander(q, m as int, #[trigger] ks[j]),
        decreases keywords.len() - i,
    {
        let p: &String = &keywords[i];
        if is_char_prefix(query, p.as_str()) {
            let p_bounds = find_word_bounds(p.as_str());
            if p_bounds.len() > m {
                proof {
                    lemma_first_expander_at(q, m as int, ks, i as int);
                    lemma_word_bounds_valid(p@);
                }
                // Join the first `m` words of `p` with single spaces.
                let mut out = String::new();
                let mut w: usize = 0;
                while w < m
                    invariant
                        m <= p_bounds.len(),
                        view_bounds(p_bounds@) == word_bounds_spec(p@),
                        w <= m,
                        out@ == join_first_words(p@, w as int),
                        forall|k: int|
                            0 <= k < word_bounds_spec(p@).len() ==> {
                                let b = #[trigger] word_bounds_spec(p@)[k];
                                0 <= b.0 && b.0 < b.1 && b.1 <= p@.len()
                            },
                    decreases m - w,
                {
                    proof {
                        reveal_strlit(" ");
                        assert(" "@ =~= seq![' ']);
                        assert(view_bounds(p_bounds@)[w as int] == word_bounds_spec(p@)[w as int]);
                        assert(view_bounds(p_bounds@)[w as int] == (
                            p_bounds@[w as int].0 as int,
                            p_bounds@[w as int].1 as int,
                        ));
                    }
                    if w > 0 {
                        out.append(" ");
                    }
                    let b = p_bounds[w];
                    let piece = p.as_str().substring_char(b.0, b.1);
                    out.append(piece);
                    proof {
                        assert(out@ =~= join_first_words(p@, w as int + 1));
                    }
                    w = w + 1;
                }
                return out;
            }
        } else {
            proof {
                assert(!is_expander(q, m as int, ks[i as int]));
            }
        }
        i = i + 1;
    }
    proof {
        lemma_first_expander_none(q, m as int, ks);
    }

    // Second heuristic: the keyword that strictly extends the query with the
    // greatest trimmed length; later keywords win ties.
    let mut best: Option<usize> = None;
    let mut best_len: usize = 0;
    let mut i: usize = 0;
    while i < keywords.len()
        invariant
            ks == keywords.deep_view(),
            q == query@,
            n_q == q.len(),
            i <= keywords.len(),
            ks.len() == keywords@.len(),
            forall|j: int| 0 <= j < ks.len() ==> #[trigger] ks[j] == keywords@[j]@,
            match best {
                None => best_completion(q, ks.take(i as int)) is None,
                Some(bi) => bi < i && best_completion(q, ks.take(i as int)) == Some(ks[bi as int])
                    && best_len as int == trimmed_len(ks[bi as int]),
            },
        decreases keywords.len() - i,
    {
        let p: &String = &keywords[i];
        proof {
            assert(ks.take(i as int + 1).drop_last() =~= ks.take(i as int));
            assert(ks.take(i as int + 1).last() == ks[i as int]);
            lemma_word_bounds_valid(p@);
        }
        let n_p = p.as_str().unicode_len();
        if is_char_prefix(query, p.as_str()) && n_q < n_p {
            let p_bounds = find_word_bounds(p.as_str());
            let t_len: usize = if p_bounds.len() == 0 {
                0
            } else {
                let first = p_bounds[0];
                let last = p_bounds[p_bounds.len() - 1];
                proof {
                    assert(view_bounds(p_bounds@)[0] == (
                        p_bounds@[0].0 as int,
                        p_bounds@[0].1 as int,
                    ));
                    assert(view_bounds(p_bounds@)[p_bounds@.len() - 1] == (
                        p_bounds@[p_bounds@.len() - 1].0 as int,
                        p_bounds@[p_bounds@.len() - 1].1 as int,
                    ));
                    assert(view_bounds(p_bounds@)[0] == word_bounds_spec(p@)[0]);
                    assert(view_bounds(p_bounds@)[p_bounds@.len() - 1] == word_bounds_spec(
                        p@,
                    )[p_bounds@.len() - 1]);
                }
                let sub = p.as_str().substring_char(first.0, last.1);
                let sub_bytes = sub.as_bytes();
                proof {
                    let wb = word_bounds_spec(p@);
                    assert(sub@ == p@.subrange(wb[0].0, wb[wb.len() - 1].1));
                    assert(sub.spec_bytes() == encode_utf8(sub@));
                    assert(sub_bytes@ == encode_utf8(p@.subrange(wb[0].0, wb[wb.len() - 1].1)));
                }
                sub_bytes.len()
            };
            proof {
                assert(t_len as int == trimmed_len(ks[i as int]));
            }
            match best {
                None => {
                    best = Some(i);
                    best_len = t_len;
                },
                Some(_) => {
                    if t_len >= best_len {
                        best = Some(i);
                        best_len = t_len;
                    }
                },
            }
        }
        i = i + 1;
    }
    proof {
        assert(ks.take(ks.len() as int) =~= ks);
    }
    match best {
        Some(bi) => keywords[bi].clone(),
        None => query.to_owned(),
    }
}

} // verus!

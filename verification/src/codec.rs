//! The cache file format.
//!
//! One JSON-shaped record holds the fetch moment, the refresh tick and the
//! post list. The encoder below is the only writer of that file, and the
//! parser accepts exactly what the encoder produces: anything else — an
//! absent file, truncation, foreign content — reads as `None`, which the
//! caller treats as a cache miss, never as a fatal error.
//!
//! `lemma_cache_round_trip` is the format's contract: a record written out
//! and read back is reproduced exactly.

use vstd::prelude::*;

use crate::cache::{CacheView, FeedCache};
use crate::numfmt::{all_digits, dec_rep, dec_val, digit_val, int_rep, is_digit};
use crate::post::{OriginalPost, OriginalPostView, Post, PostView};

verus! {

// ---------------------------------------------------------------------------
// Encoding
// ---------------------------------------------------------------------------

/// How one character is written inside a quoted string.
pub open spec fn esc_char(c: char) -> Seq<char> {
    if c == '\\' {
        seq!['\\', '\\']
    } else if c == '"' {
        seq!['\\', '"']
    } else if c == '\n' {
        seq!['\\', 'n']
    } else if c == '\r' {
        seq!['\\', 'r']
    } else if c == '\t' {
        seq!['\\', 't']
    } else {
        seq![c]
    }
}

/// A string's characters, escaped.
pub open spec fn esc(s: Seq<char>) -> Seq<char>
    decreases s.len(),
{
    if s.len() == 0 {
        Seq::<char>::empty()
    } else {
        esc_char(s[0]) + esc(s.skip(1))
    }
}

/// A quoted, escaped string.
pub open spec fn enc_str(s: Seq<char>) -> Seq<char> {
    seq!['"'] + esc(s) + seq!['"']
}

/// The text standing for an absent value.
pub open spec fn null_text() -> Seq<char> {
    seq!['n', 'u', 'l', 'l']
}

/// An optional timestamp: `null`, or a signed decimal numeral.
pub open spec fn enc_opt_ts(t: Option<i64>) -> Seq<char> {
    match t {
        Some(v) => int_rep(v as int),
        None => null_text(),
    }
}

/// The record written for an original post carried inside a reshare.
pub open spec fn enc_orig(o: OriginalPostView) -> Seq<char> {
    seq!['{', '"', 'i', 'd', '"', ':'] + enc_str(o.id) + seq![',', '"', 'a', 'u', 't', 'h', 'o', 'r', '"', ':']
        + enc_str(o.author) + seq![',', '"', 't', 'e', 'x', 't', '"', ':'] + enc_str(o.text)
        + seq![',', '"', 'l', 'i', 'k', 'e', '_', 'c', 'o', 'u', 'n', 't', '"', ':'] + dec_rep(
        o.like_count as nat,
    ) + seq![',', '"', 'r', 'e', 's', 'h', 'a', 'r', 'e', '_', 'c', 'o', 'u', 'n', 't', '"', ':']
        + dec_rep(o.reshare_count as nat) + seq!['}']
}

/// The record written for one feed item.
pub open spec fn enc_post(p: PostView) -> Seq<char> {
    seq!['{', '"', 'i', 'd', '"', ':'] + enc_str(p.id) + seq![',', '"', 'a', 'u', 't', 'h', 'o', 'r', '"', ':']
        + enc_str(p.author) + seq![',', '"', 't', 'e', 'x', 't', '"', ':'] + enc_str(p.text)
        + seq![',', '"', 'l', 'i', 'k', 'e', '_', 'c', 'o', 'u', 'n', 't', '"', ':'] + dec_rep(
        p.like_count as nat,
    ) + seq![',', '"', 'r', 'e', 's', 'h', 'a', 'r', 'e', '_', 'c', 'o', 'u', 'n', 't', '"', ':']
        + dec_rep(p.reshare_count as nat) + seq![
        ',',
        '"',
        'r',
        'e',
        's',
        'h',
        'a',
        'r',
        'e',
        'd',
        '_',
        'f',
        'r',
        'o',
        'm',
        '"',
        ':',
    ] + (match p.reshared_from {
        Some(o) => enc_orig(o),
        None => null_text(),
    }) + seq!['}']
}

/// The items after the first, each preceded by its separating comma.
pub open spec fn enc_rest(ps: Seq<PostView>) -> Seq<char>
    decreases ps.len(),
{
    if ps.len() == 0 {
        Seq::<char>::empty()
    } else {
        seq![','] + enc_post(ps[0]) + enc_rest(ps.skip(1))
    }
}

/// A comma-separated post list.
pub open spec fn enc_items(ps: Seq<PostView>) -> Seq<char> {
    if ps.len() == 0 {
        Seq::<char>::empty()
    } else {
        enc_post(ps[0]) + enc_rest(ps.skip(1))
    }
}

/// The bracketed post array.
pub open spec fn enc_posts(ps: Seq<PostView>) -> Seq<char> {
    seq!['['] + enc_items(ps) + seq![']']
}

/// The whole cache record as written to disk.
pub open spec fn enc_cache(cv: CacheView) -> Seq<char> {
    seq![
        '{',
        '"',
        'l',
        'a',
        's',
        't',
        '_',
        'f',
        'e',
        't',
        'c',
        'h',
        'e',
        'd',
        '_',
        'a',
        't',
        '"',
        ':',
    ] + enc_opt_ts(cv.last_fetched_at) + seq![
        ',',
        '"',
        'r',
        'e',
        'f',
        'r',
        'e',
        's',
        'h',
        '_',
        't',
        'i',
        'c',
        'k',
        '"',
        ':',
    ] + dec_rep(cv.refresh_tick as nat) + seq![',', '"', 'p', 'o', 's', 't', 's', '"', ':']
        + enc_posts(cv.posts) + seq!['}']
}

// ---------------------------------------------------------------------------
// Parsing
// ---------------------------------------------------------------------------

/// `x` stands written at position `i` of `s`.
pub open spec fn at(s: Seq<char>, i: int, x: Seq<char>) -> bool {
    &&& 0 <= i
    &&& i + x.len() <= s.len()
    &&& s.subrange(i, i + x.len()) == x
}

/// The escape codes the format knows.
pub open spec fn is_esc_code(c: char) -> bool {
    c == '\\' || c == '"' || c == 'n' || c == 'r' || c == 't'
}

/// The character an escape code stands for.
pub open spec fn unesc(c: char) -> char {
    if c == 'n' {
        '\n'
    } else if c == 'r' {
        '\r'
    } else if c == 't' {
        '\t'
    } else {
        c
    }
}

/// Reads a string body up to and including its closing quote.
pub open spec fn sp_str_body(s: Seq<char>, i: int) -> Option<(Seq<char>, int)>
    decreases s.len() - i,
{
    if i < 0 || i >= s.len() {
        None
    } else if s[i] == '"' {
        Some((Seq::<char>::empty(), i + 1))
    } else if s[i] == '\\' {
        if i + 1 < s.len() && is_esc_code(s[i + 1]) {
            match sp_str_body(s, i + 2) {
                Some((t, j)) => Some((seq![unesc(s[i + 1])] + t, j)),
                None => None,
            }
        } else {
            None
        }
    } else {
        match sp_str_body(s, i + 1) {
            Some((t, j)) => Some((seq![s[i]] + t, j)),
            None => None,
        }
    }
}

/// Reads a quoted string.
pub open spec fn sp_string(s: Seq<char>, i: int) -> Option<(Seq<char>, int)> {
    if 0 <= i < s.len() && s[i] == '"' {
        sp_str_body(s, i + 1)
    } else {
        None
    }
}

/// Where the run of digits starting at `i` ends.
pub open spec fn digits_end(s: Seq<char>, i: int) -> int
    decreases s.len() - i,
{
    if 0 <= i < s.len() && is_digit(s[i]) {
        digits_end(s, i + 1)
    } else {
        i
    }
}

/// Reads an unsigned number.
pub open spec fn sp_u64(s: Seq<char>, i: int) -> Option<(u64, int)> {
    let j = digits_end(s, i);
    if i < j && dec_val(s.subrange(i, j)) <= u64::MAX {
        Some((dec_val(s.subrange(i, j)) as u64, j))
    } else {
        None
    }
}

/// Reads a signed number that fits an `i64`.
pub open spec fn sp_i64(s: Seq<char>, i: int) -> Option<(i64, int)> {
    if 0 <= i < s.len() && s[i] == '-' {
        match sp_u64(s, i + 1) {
            Some((m, j)) => if m <= 0x8000000000000000u64 {
                Some(((-(m as int)) as i64, j))
            } else {
                None
            },
            None => None,
        }
    } else {
        match sp_u64(s, i) {
            Some((m, j)) => if m <= i64::MAX as u64 {
                Some((m as i64, j))
            } else {
                None
            },
            None => None,
        }
    }
}

/// Reads `null` or a signed number.
pub open spec fn sp_opt_ts(s: Seq<char>, i: int) -> Option<(Option<i64>, int)> {
    if at(s, i, null_text()) {
        Some((None, i + 4))
    } else {
        match sp_i64(s, i) {
            Some((v, j)) => Some((Some(v), j)),
            None => None,
        }
    }
}

/// Expects the fixed text `x` and steps over it.
pub open spec fn sp_lit(s: Seq<char>, i: int, x: Seq<char>) -> Option<int> {
    if at(s, i, x) {
        Some(i + x.len())
    } else {
        None
    }
}

/// Reads an original-post record.
pub open spec fn sp_orig(s: Seq<char>, i: int) -> Option<(OriginalPostView, int)> {
    match sp_lit(s, i, seq!['{', '"', 'i', 'd', '"', ':']) {
        None => None,
        Some(j0) => match sp_string(s, j0) {
            None => None,
            Some((id, j1)) => match sp_lit(
                s,
                j1,
                seq![',', '"', 'a', 'u', 't', 'h', 'o', 'r', '"', ':'],
            ) {
                None => None,
                Some(j2) => match sp_string(s, j2) {
                    None => None,
                    Some((author, j3)) => match sp_lit(
                        s,
                        j3,
                        seq![',', '"', 't', 'e', 'x', 't', '"', ':'],
                    ) {
                        None => None,
                        Some(j4) => match sp_string(s, j4) {
                            None => None,
                            Some((text, j5)) => match sp_lit(
                                s,
                                j5,
                                seq![',', '"', 'l', 'i', 'k', 'e', '_', 'c', 'o', 'u', 'n', 't', '"', ':'],
                            ) {
                                None => None,
                                Some(j6) => match sp_u64(s, j6) {
                                    None => None,
                                    Some((like_count, j7)) => match sp_lit(
                                        s,
                                        j7,
                                        seq![
                                            ',',
                                            '"',
                                            'r',
                                            'e',
                                            's',
                                            'h',
                                            'a',
                                            'r',
                                            'e',
                                            '_',
                                            'c',
                                            'o',
                                            'u',
                                            'n',
                                            't',
                                            '"',
                                            ':',
                                        ],
                                    ) {
                                        None => None,
                                        Some(j8) => match sp_u64(s, j8) {
                                            None => None,
                                            Some((reshare_count, j9)) => match sp_lit(
                                                s,
                                                j9,
                                                seq!['}'],
                                            ) {
                                                None => None,
                                                Some(j10) => Some(
                                                    (
                                                        OriginalPostView {
                                                            id,
                                                            author,
                                                            text,
                                                            like_count,
                                                            reshare_count,
                                                        },
                                                        j10,
                                                    ),
                                                ),
                                            },
                                        },
                                    },
                                },
                            },
                        },
                    },
                },
            },
        },
    }
}

/// Reads the trailing reshare field: `null` or an original-post record.
pub open spec fn sp_reshared(s: Seq<char>, i: int) -> Option<(Option<OriginalPostView>, int)> {
    if at(s, i, null_text()) {
        Some((None, i + 4))
    } else {
        match sp_orig(s, i) {
            Some((o, j)) => Some((Some(o), j)),
            None => None,
        }
    }
}

/// Reads one feed-item record.
pub open spec fn sp_post(s: Seq<char>, i: int) -> Option<(PostView, int)> {
    match sp_lit(s, i, seq!['{', '"', 'i', 'd', '"', ':']) {
        None => None,
        Some(j0) => match sp_string(s, j0) {
            None => None,
            Some((id, j1)) => match sp_lit(
                s,
                j1,
                seq![',', '"', 'a', 'u', 't', 'h', 'o', 'r', '"', ':'],
            ) {
                None => None,
                Some(j2) => match sp_string(s, j2) {
                    None => None,
                    Some((author, j3)) => match sp_lit(
                        s,
                        j3,
                        seq![',', '"', 't', 'e', 'x', 't', '"', ':'],
                    ) {
                        None => None,
                        Some(j4) => match sp_string(s, j4) {
                            None => None,
                            Some((text, j5)) => match sp_lit(
                                s,
                                j5,
                                seq![',', '"', 'l', 'i', 'k', 'e', '_', 'c', 'o', 'u', 'n', 't', '"', ':'],
                            ) {
                                None => None,
                                Some(j6) => match sp_u64(s, j6) {
                                    None => None,
                                    Some((like_count, j7)) => match sp_lit(
                                        s,
                                        j7,
                                        seq![
                                            ',',
                                            '"',
                                            'r',
                                            'e',
                                            's',
                                            'h',
                                            'a',
                                            'r',
                                            'e',
                                            '_',
                                            'c',
                                            'o',
                                            'u',
                                            'n',
                                            't',
                                            '"',
                                            ':',
                                        ],
                                    ) {
                                        None => None,
                                        Some(j8) => match sp_u64(s, j8) {
                                            None => None,
                                            Some((reshare_count, j9)) => match sp_lit(
                                                s,
                                                j9,
                                                seq![
                                                    ',',
                                                    '"',
                                                    'r',
                                                    'e',
                                                    's',
                                                    'h',
                                                    'a',
                                                    'r',
                                                    'e',
                                                    'd',
                                                    '_',
                                                    'f',
                                                    'r',
                                                    'o',
                                                    'm',
                                                    '"',
                                                    ':',
                                                ],
                                            ) {
                                                None => None,
                                                Some(j10) => match sp_reshared(s, j10) {
                                                    None => None,
                                                    Some((reshared_from, j11)) => match sp_lit(
                                                        s,
                                                        j11,
                                                        seq!['}'],
                                                    ) {
                                                        None => None,
                                                        Some(j12) => Some(
                                                            (
                                                                PostView {
                                                                    id,
                                                                    author,
                                                                    text,
                                                                    like_count,
                                                                    reshare_count,
                                                                    reshared_from,
                                                                },
                                                                j12,
                                                            ),
                                                        ),
                                                    },
                                                },
                                            },
                                        },
                                    },
                                },
                            },
                        },
                    },
                },
            },
        },
    }
}

/// Reads the items of a non-empty array, up to and including the `]`.
pub open spec fn sp_items(s: Seq<char>, i: int) -> Option<(Seq<PostView>, int)>
    decreases s.len() - i,
{
    match sp_post(s, i) {
        None => None,
        Some((p, j)) => if j < s.len() && s[j] == ']' {
            Some((seq![p], j + 1))
        } else if i < j && j < s.len() && s[j] == ',' {
            match sp_items(s, j + 1) {
                Some((ps, k)) => Some((seq![p] + ps, k)),
                None => None,
            }
        } else {
            None
        },
    }
}

/// Reads the bracketed post array.
pub open spec fn sp_posts(s: Seq<char>, i: int) -> Option<(Seq<PostView>, int)> {
    if 0 <= i < s.len() && s[i] == '[' {
        if i + 1 < s.len() && s[i + 1] == ']' {
            Some((Seq::<PostView>::empty(), i + 2))
        } else {
            sp_items(s, i + 1)
        }
    } else {
        None
    }
}

/// Reads the whole cache record.
pub open spec fn sp_cache(s: Seq<char>, i: int) -> Option<(CacheView, int)> {
    match sp_lit(
        s,
        i,
        seq![
            '{',
            '"',
            'l',
            'a',
            's',
            't',
            '_',
            'f',
            'e',
            't',
            'c',
            'h',
            'e',
            'd',
            '_',
            'a',
            't',
            '"',
            ':',
        ],
    ) {
        None => None,
        Some(j0) => match sp_opt_ts(s, j0) {
            None => None,
            Some((last_fetched_at, j1)) => match sp_lit(
                s,
                j1,
                seq![',', '"', 'r', 'e', 'f', 'r', 'e', 's', 'h', '_', 't', 'i', 'c', 'k', '"', ':'],
            ) {
                None => None,
                Some(j2) => match sp_u64(s, j2) {
                    None => None,
                    Some((refresh_tick, j3)) => match sp_lit(
                        s,
                        j3,
                        seq![',', '"', 'p', 'o', 's', 't', 's', '"', ':'],
                    ) {
                        None => None,
                        Some(j4) => match sp_posts(s, j4) {
                            None => None,
                            Some((posts, j5)) => match sp_lit(s, j5, seq!['}']) {
                                None => None,
                                Some(j6) => Some(
                                    (CacheView { last_fetched_at, posts, refresh_tick }, j6),
                                ),
                            },
                        },
                    },
                },
            },
        },
    }
}

/// What a cache file's text denotes: the record, if the text is exactly one
/// well-formed record; `None` otherwise.
pub open spec fn spec_decode(s: Seq<char>) -> Option<CacheView> {
    match sp_cache(s, 0) {
        Some((cv, j)) => if j == s.len() {
            Some(cv)
        } else {
            None
        },
        None => None,
    }
}

// ---------------------------------------------------------------------------
// Round trip: the parser inverts the encoder
// ---------------------------------------------------------------------------

/// Text written piecewise stands at its pieces' positions.
proof fn lemma_at_split(s: Seq<char>, i: int, x: Seq<char>, y: Seq<char>)
    requires
        at(s, i, x + y),
    ensures
        at(s, i, x),
        at(s, i + x.len(), y),
{
    assert forall|k: int| 0 <= k < x.len() implies s.subrange(i, i + x.len())[k] == x[k] by {
        assert(s.subrange(i, i + (x + y).len())[k] == (x + y)[k]);
    }
    assert(s.subrange(i, i + x.len()) =~= x);
    assert forall|k: int| 0 <= k < y.len() implies s.subrange(
        i + x.len(),
        i + x.len() + y.len(),
    )[k] == y[k] by {
        assert(s.subrange(i, i + (x + y).len())[x.len() + k] == (x + y)[x.len() + k]);
    }
    assert(s.subrange(i + x.len(), i + x.len() + y.len()) =~= y);
}

/// Adjacent texts stand written as their concatenation.
proof fn lemma_at_join(s: Seq<char>, i: int, x: Seq<char>, y: Seq<char>)
    requires
        at(s, i, x),
        at(s, i + x.len(), y),
    ensures
        at(s, i, x + y),
{
    assert forall|k: int| 0 <= k < (x + y).len() implies s.subrange(i, i + (x + y).len())[k] == (x
        + y)[k] by {
        if k < x.len() {
            assert(s.subrange(i, i + x.len())[k] == x[k]);
        } else {
            assert(s.subrange(i + x.len(), i + x.len() + y.len())[k - x.len()] == y[k - x.len()]);
        }
    }
    assert(s.subrange(i, i + (x + y).len()) =~= x + y);
}

/// Text standing at `i` fixes each character of `s` it covers.
proof fn lemma_at_index(s: Seq<char>, i: int, x: Seq<char>, k: int)
    requires
        at(s, i, x),
        0 <= k < x.len(),
    ensures
        s[i + k] == x[k],
{
    assert(s.subrange(i, i + x.len())[k] == s[i + k]);
}

proof fn lemma_rt_str_body(s: Seq<char>, i: int, v: Seq<char>)
    requires
        at(s, i, esc(v) + seq!['"']),
    ensures
        sp_str_body(s, i) == Some((v, i + esc(v).len() + 1)),
    decreases v.len(),
{
    if v.len() == 0 {
        assert(esc(v) + seq!['"'] =~= seq!['"']);
        lemma_at_index(s, i, esc(v) + seq!['"'], 0);
        assert(s[i] == '"');
        assert(v =~= Seq::<char>::empty());
    } else {
        let c = v[0];
        let tail = v.skip(1);
        assert(esc(v) == esc_char(c) + esc(tail));
        assert(esc(v) + seq!['"'] =~= esc_char(c) + (esc(tail) + seq!['"']));
        lemma_at_split(s, i, esc_char(c), esc(tail) + seq!['"']);
        if c == '\\' || c == '"' || c == '\n' || c == '\r' || c == '\t' {
            assert(esc_char(c).len() == 2);
            lemma_at_index(s, i, esc_char(c), 0);
            lemma_at_index(s, i, esc_char(c), 1);
            assert(s[i] == '\\');
            assert(is_esc_code(s[i + 1]));
            assert(unesc(s[i + 1]) == c);
            lemma_rt_str_body(s, i + 2, tail);
            assert(seq![c] + tail =~= v);
        } else {
            assert(esc_char(c) == seq![c]);
            lemma_at_index(s, i, esc_char(c), 0);
            assert(s[i] == c);
            lemma_rt_str_body(s, i + 1, tail);
            assert(seq![c] + tail =~= v);
        }
    }
}

proof fn lemma_rt_string(s: Seq<char>, i: int, v: Seq<char>)
    requires
        at(s, i, enc_str(v)),
    ensures
        sp_string(s, i) == Some((v, i + enc_str(v).len())),
{
    assert(enc_str(v) =~= seq!['"'] + (esc(v) + seq!['"']));
    lemma_at_split(s, i, seq!['"'], esc(v) + seq!['"']);
    lemma_at_index(s, i, seq!['"'], 0);
    assert(s[i] == '"');
    lemma_rt_str_body(s, i + 1, v);
}

proof fn lemma_digits_end_of(s: Seq<char>, i: int, j: int)
    requires
        0 <= i <= j <= s.len(),
        forall|k: int| i <= k < j ==> is_digit(#[trigger] s[k]),
        j == s.len() || !is_digit(s[j]),
    ensures
        digits_end(s, i) == j,
    decreases j - i,
{
    if i < j {
        lemma_digits_end_of(s, i + 1, j);
    }
}

proof fn lemma_rt_u64(s: Seq<char>, i: int, n: u64)
    requires
        at(s, i, dec_rep(n as nat)),
        i + dec_rep(n as nat).len() == s.len() || !is_digit(s[i + dec_rep(n as nat).len()]),
    ensures
        sp_u64(s, i) == Some((n, i + dec_rep(n as nat).len())),
{
    let rep = dec_rep(n as nat);
    let j = i + rep.len();
    crate::numfmt::lemma_dec_rep_digits(n as nat);
    assert forall|k: int| i <= k < j implies is_digit(#[trigger] s[k]) by {
        assert(s.subrange(i, j)[k - i] == rep[k - i]);
        assert(is_digit(rep[k - i]));
    }
    lemma_digits_end_of(s, i, j);
    crate::numfmt::lemma_dec_rep_val(n as nat);
    assert(s.subrange(i, j) == rep);
}

proof fn lemma_rt_i64(s: Seq<char>, i: int, v: i64)
    requires
        at(s, i, int_rep(v as int)),
        i + int_rep(v as int).len() == s.len() || !is_digit(s[i + int_rep(v as int).len()]),
    ensures
        sp_i64(s, i) == Some((v, i + int_rep(v as int).len())),
{
    if v >= 0 {
        assert(int_rep(v as int) == dec_rep(v as nat));
        crate::numfmt::lemma_dec_rep_digits(v as nat);
        lemma_at_index(s, i, dec_rep(v as nat), 0);
        assert(s[i] == dec_rep(v as nat)[0]);
        assert(is_digit(s[i]));
        assert(digit_val('-') == 10);
        assert(s[i] != '-');
        lemma_rt_u64(s, i, v as u64);
    } else {
        let m = (-(v as int)) as nat;
        assert(int_rep(v as int) == seq!['-'] + dec_rep(m));
        lemma_at_split(s, i, seq!['-'], dec_rep(m));
        lemma_at_index(s, i, seq!['-'], 0);
        assert(s[i] == '-');
        assert(m <= 0x8000000000000000);
        lemma_rt_u64(s, i + 1, m as u64);
    }
}

proof fn lemma_rt_opt_ts(s: Seq<char>, i: int, t: Option<i64>)
    requires
        at(s, i, enc_opt_ts(t)),
        i + enc_opt_ts(t).len() == s.len() || !is_digit(s[i + enc_opt_ts(t).len()]),
    ensures
        sp_opt_ts(s, i) == Some((t, i + enc_opt_ts(t).len())),
{
    match t {
        None => {
            assert(at(s, i, null_text()));
        },
        Some(v) => {
            crate::numfmt::lemma_dec_rep_digits(
                if v >= 0 {
                    v as nat
                } else {
                    (-(v as int)) as nat
                },
            );
            assert(int_rep(v as int).len() >= 1);
            lemma_at_index(s, i, int_rep(v as int), 0);
            assert(s[i] == int_rep(v as int)[0]);
            if at(s, i, null_text()) {
                lemma_at_index(s, i, null_text(), 0);
                assert(s[i] == 'n');
                if v >= 0 {
                    assert(is_digit(int_rep(v as int)[0]));
                    assert(digit_val('n') == 10);
                } else {
                    assert(int_rep(v as int)[0] == '-');
                }
                assert(false);
            }
            lemma_rt_i64(s, i, v);
        },
    }
}

#[verifier::rlimit(100)]
proof fn lemma_rt_orig(s: Seq<char>, i: int, o: OriginalPostView)
    requires
        at(s, i, enc_orig(o)),
    ensures
        sp_orig(s, i) == Some((o, i + enc_orig(o).len())),
{
    let l1 = seq!['{', '"', 'i', 'd', '"', ':'];
    let l2 = seq![',', '"', 'a', 'u', 't', 'h', 'o', 'r', '"', ':'];
    let l3 = seq![',', '"', 't', 'e', 'x', 't', '"', ':'];
    let l4 = seq![',', '"', 'l', 'i', 'k', 'e', '_', 'c', 'o', 'u', 'n', 't', '"', ':'];
    let l5 = seq![',', '"', 'r', 'e', 's', 'h', 'a', 'r', 'e', '_', 'c', 'o', 'u', 'n', 't', '"', ':'];
    let e1 = enc_str(o.id);
    let e2 = enc_str(o.author);
    let e3 = enc_str(o.text);
    let d1 = dec_rep(o.like_count as nat);
    let d2 = dec_rep(o.reshare_count as nat);
    lemma_at_split(s, i, l1 + e1 + l2 + e2 + l3 + e3 + l4 + d1 + l5 + d2, seq!['}']);
    lemma_at_split(s, i, l1 + e1 + l2 + e2 + l3 + e3 + l4 + d1 + l5, d2);
    lemma_at_split(s, i, l1 + e1 + l2 + e2 + l3 + e3 + l4 + d1, l5);
    lemma_at_split(s, i, l1 + e1 + l2 + e2 + l3 + e3 + l4, d1);
    lemma_at_split(s, i, l1 + e1 + l2 + e2 + l3 + e3, l4);
    lemma_at_split(s, i, l1 + e1 + l2 + e2 + l3, e3);
    lemma_at_split(s, i, l1 + e1 + l2 + e2, l3);
    lemma_at_split(s, i, l1 + e1 + l2, e2);
    lemma_at_split(s, i, l1 + e1, l2);
    lemma_at_split(s, i, l1, e1);
    let p1 = i + l1.len();
    let p2 = p1 + e1.len();
    let p3 = p2 + l2.len();
    let p4 = p3 + e2.len();
    let p5 = p4 + l3.len();
    let p6 = p5 + e3.len();
    let p7 = p6 + l4.len();
    let p8 = p7 + d1.len();
    let p9 = p8 + l5.len();
    let p10 = p9 + d2.len();
    lemma_rt_string(s, p1, o.id);
    lemma_rt_string(s, p3, o.author);
    lemma_rt_string(s, p5, o.text);
    lemma_at_index(s, p8, l5, 0);
    assert(!is_digit(s[p8]));
    lemma_rt_u64(s, p7, o.like_count);
    lemma_at_index(s, p10, seq!['}'], 0);
    assert(!is_digit(s[p10]));
    lemma_rt_u64(s, p9, o.reshare_count);
}

#[verifier::rlimit(100)]
proof fn lemma_rt_post(s: Seq<char>, i: int, p: PostView)
    requires
        at(s, i, enc_post(p)),
    ensures
        sp_post(s, i) == Some((p, i + enc_post(p).len())),
{
    let l1 = seq!['{', '"', 'i', 'd', '"', ':'];
    let l2 = seq![',', '"', 'a', 'u', 't', 'h', 'o', 'r', '"', ':'];
    let l3 = seq![',', '"', 't', 'e', 'x', 't', '"', ':'];
    let l4 = seq![',', '"', 'l', 'i', 'k', 'e', '_', 'c', 'o', 'u', 'n', 't', '"', ':'];
    let l5 = seq![',', '"', 'r', 'e', 's', 'h', 'a', 'r', 'e', '_', 'c', 'o', 'u', 'n', 't', '"', ':'];
    let l6 = seq![
        ',',
        '"',
        'r',
        'e',
        's',
        'h',
        'a',
        'r',
        'e',
        'd',
        '_',
        'f',
        'r',
        'o',
        'm',
        '"',
        ':',
    ];
    let e1 = enc_str(p.id);
    let e2 = enc_str(p.author);
    let e3 = enc_str(p.text);
    let d1 = dec_rep(p.like_count as nat);
    let d2 = dec_rep(p.reshare_count as nat);
    let r = match p.reshared_from {
        Some(o) => enc_orig(o),
        None => null_text(),
    };
    lemma_at_split(s, i, l1 + e1 + l2 + e2 + l3 + e3 + l4 + d1 + l5 + d2 + l6 + r, seq!['}']);
    lemma_at_split(s, i, l1 + e1 + l2 + e2 + l3 + e3 + l4 + d1 + l5 + d2 + l6, r);
    lemma_at_split(s, i, l1 + e1 + l2 + e2 + l3 + e3 + l4 + d1 + l5 + d2, l6);
    lemma_at_split(s, i, l1 + e1 + l2 + e2 + l3 + e3 + l4 + d1 + l5, d2);
    lemma_at_split(s, i, l1 + e1 + l2 + e2 + l3 + e3 + l4 + d1, l5);
    lemma_at_split(s, i, l1 + e1 + l2 + e2 + l3 + e3 + l4, d1);
    lemma_at_split(s, i, l1 + e1 + l2 + e2 + l3 + e3, l4);
    lemma_at_split(s, i, l1 + e1 + l2 + e2 + l3, e3);
    lemma_at_split(s, i, l1 + e1 + l2 + e2, l3);
    lemma_at_split(s, i, l1 + e1 + l2, e2);
    lemma_at_split(s, i, l1 + e1, l2);
    lemma_at_split(s, i, l1, e1);
    let p1 = i + l1.len();
    let p2 = p1 + e1.len();
    let p3 = p2 + l2.len();
    let p4 = p3 + e2.len();
    let p5 = p4 + l3.len();
    let p6 = p5 + e3.len();
    let p7 = p6 + l4.len();
    let p8 = p7 + d1.len();
    let p9 = p8 + l5.len();
    let p10 = p9 + d2.len();
    let p11 = p10 + l6.len();
    let p12 = p11 + r.len();
    lemma_rt_string(s, p1, p.id);
    lemma_rt_string(s, p3, p.author);
    lemma_rt_string(s, p5, p.text);
    lemma_at_index(s, p8, l5, 0);
    assert(!is_digit(s[p8]));
    lemma_rt_u64(s, p7, p.like_count);
    lemma_at_index(s, p10, l6, 0);
    assert(!is_digit(s[p10]));
    lemma_rt_u64(s, p9, p.reshare_count);
    match p.reshared_from {
        None => {
            assert(at(s, p11, null_text()));
            assert(sp_reshared(s, p11) == Some((Option::<OriginalPostView>::None, p11 + 4)));
        },
        Some(o) => {
            lemma_at_index(s, p11, enc_orig(o), 0);
            assert(enc_orig(o)[0] == '{');
            if at(s, p11, null_text()) {
                lemma_at_index(s, p11, null_text(), 0);
                assert(false);
            }
            lemma_rt_orig(s, p11, o);
        },
    }
    lemma_at_index(s, p12, seq!['}'], 0);
    assert(s[p12] == '}');
}

#[verifier::rlimit(100)]
proof fn lemma_rt_items(s: Seq<char>, i: int, ps: Seq<PostView>)
    requires
        ps.len() >= 1,
        at(s, i, enc_items(ps) + seq![']']),
    ensures
        sp_items(s, i) == Some((ps, i + enc_items(ps).len() + 1)),
    decreases ps.len(),
{
    let head = enc_post(ps[0]);
    let tail = ps.skip(1);
    lemma_at_split(s, i, enc_items(ps), seq![']']);
    lemma_at_split(s, i, head, enc_rest(tail));
    lemma_rt_post(s, i, ps[0]);
    let j = i + head.len();
    if ps.len() == 1 {
        assert(enc_rest(tail).len() == 0);
        lemma_at_index(s, i + enc_items(ps).len(), seq![']'], 0);
        assert(s[j] == ']');
        assert(seq![ps[0]] =~= ps);
    } else {
        assert(enc_rest(tail) == seq![','] + enc_post(tail[0]) + enc_rest(tail.skip(1)));
        lemma_at_split(s, j, seq![','] + enc_post(tail[0]), enc_rest(tail.skip(1)));
        lemma_at_split(s, j, seq![','], enc_post(tail[0]));
        lemma_at_index(s, j, seq![','], 0);
        assert(s[j] == ',');
        assert(enc_items(tail) == enc_post(tail[0]) + enc_rest(tail.skip(1)));
        lemma_at_join(s, j + 1, enc_post(tail[0]), enc_rest(tail.skip(1)));
        lemma_at_index(s, i + enc_items(ps).len(), seq![']'], 0);
        lemma_at_join(s, j + 1, enc_items(tail), seq![']']);
        assert(head.len() >= 1);
        lemma_rt_items(s, j + 1, tail);
        assert(seq![ps[0]] + tail =~= ps);
    }
}

#[verifier::rlimit(100)]
proof fn lemma_rt_posts(s: Seq<char>, i: int, ps: Seq<PostView>)
    requires
        at(s, i, enc_posts(ps)),
    ensures
        sp_posts(s, i) == Some((ps, i + enc_posts(ps).len())),
{
    if ps.len() == 0 {
        assert(enc_posts(ps) =~= seq!['[', ']']);
        lemma_at_index(s, i, enc_posts(ps), 0);
        lemma_at_index(s, i, enc_posts(ps), 1);
        assert(s[i] == '[');
        assert(s[i + 1] == ']');
        assert(ps =~= Seq::<PostView>::empty());
    } else {
        assert(enc_posts(ps) =~= seq!['['] + (enc_items(ps) + seq![']']));
        assert(at(s, i, seq!['['] + (enc_items(ps) + seq![']'])));
        lemma_at_split(s, i, seq!['['], enc_items(ps) + seq![']']);
        lemma_at_index(s, i, seq!['['], 0);
        assert(s[i] == '[');
        lemma_at_index(s, i + 1, enc_items(ps) + seq![']'], 0);
        assert(enc_items(ps)[0] == enc_post(ps[0])[0]);
        assert(enc_post(ps[0])[0] == '{');
        assert(s[i + 1] != ']');
        lemma_rt_items(s, i + 1, ps);
    }
}

#[verifier::rlimit(100)]
proof fn lemma_rt_cache_at(s: Seq<char>, i: int, cv: CacheView)
    requires
        at(s, i, enc_cache(cv)),
    ensures
        sp_cache(s, i) == Some((cv, i + enc_cache(cv).len())),
{
    let l1 = seq![
        '{',
        '"',
        'l',
        'a',
        's',
        't',
        '_',
        'f',
        'e',
        't',
        'c',
        'h',
        'e',
        'd',
        '_',
        'a',
        't',
        '"',
        ':',
    ];
    let l2 = seq![',', '"', 'r', 'e', 'f', 'r', 'e', 's', 'h', '_', 't', 'i', 'c', 'k', '"', ':'];
    let l3 = seq![',', '"', 'p', 'o', 's', 't', 's', '"', ':'];
    let e1 = enc_opt_ts(cv.last_fetched_at);
    let d1 = dec_rep(cv.refresh_tick as nat);
    let e2 = enc_posts(cv.posts);
    lemma_at_split(s, i, l1 + e1 + l2 + d1 + l3 + e2, seq!['}']);
    lemma_at_split(s, i, l1 + e1 + l2 + d1 + l3, e2);
    lemma_at_split(s, i, l1 + e1 + l2 + d1, l3);
    lemma_at_split(s, i, l1 + e1 + l2, d1);
    lemma_at_split(s, i, l1 + e1, l2);
    lemma_at_split(s, i, l1, e1);
    let p1 = i + l1.len();
    let p2 = p1 + e1.len();
    let p3 = p2 + l2.len();
    let p4 = p3 + d1.len();
    let p5 = p4 + l3.len();
    let p6 = p5 + e2.len();
    lemma_at_index(s, p2, l2, 0);
    assert(!is_digit(s[p2]));
    lemma_rt_opt_ts(s, p1, cv.last_fetched_at);
    lemma_at_index(s, p4, l3, 0);
    assert(!is_digit(s[p4]));
    lemma_rt_u64(s, p3, cv.refresh_tick);
    lemma_rt_posts(s, p5, cv.posts);
    lemma_at_index(s, p6, seq!['}'], 0);
    assert(s[p6] == '}');
}

/// The format's round trip: a cache record written by the encoder reads back
/// as exactly that record.
pub proof fn lemma_cache_round_trip(cv: CacheView)
    ensures
        spec_decode(enc_cache(cv)) == Some(cv),
{
    let s = enc_cache(cv);
    assert(s.subrange(0, s.len() as int) =~= s);
    assert(at(s, 0, s));
    lemma_rt_cache_at(s, 0, cv);
}

// ---------------------------------------------------------------------------
// The executable encoder
// ---------------------------------------------------------------------------

/// Escaping distributes over concatenation.
proof fn lemma_esc_concat(a: Seq<char>, b: Seq<char>)
    ensures
        esc(a + b) == esc(a) + esc(b),
    decreases a.len(),
{
    if a.len() == 0 {
        assert(a + b =~= b);
        assert(esc(a) + esc(b) =~= esc(b));
    } else {
        assert((a + b).skip(1) =~= a.skip(1) + b);
        lemma_esc_concat(a.skip(1), b);
        assert(esc(a + b) =~= esc_char(a[0]) + (esc(a.skip(1)) + esc(b)));
        assert(esc(a) + esc(b) =~= esc_char(a[0]) + (esc(a.skip(1)) + esc(b)));
    }
}

/// Writing one more character extends the escaped text by that character's
/// escape.
proof fn lemma_esc_snoc(s: Seq<char>, i: int)
    requires
        0 <= i < s.len(),
    ensures
        esc(s.take(i + 1)) == esc(s.take(i)) + esc_char(s[i]),
{
    assert(s.take(i + 1) =~= s.take(i) + seq![s[i]]);
    lemma_esc_concat(s.take(i), seq![s[i]]);
    assert(seq![s[i]].skip(1) =~= Seq::<char>::empty());
    assert(esc(Seq::<char>::empty()) == Seq::<char>::empty());
    assert(esc(seq![s[i]]) =~= esc_char(s[i]));
}

/// Writes one character, escaped, onto `out`.
fn push_escaped_char(out: &mut String, c: char)
    ensures
        final(out)@ == old(out)@ + esc_char(c),
{
    let ghost prev = out@;
    if c == '\\' {
        out.push('\\');
        out.push('\\');
    } else if c == '"' {
        out.push('\\');
        out.push('"');
    } else if c == '\n' {
        out.push('\\');
        out.push('n');
    } else if c == '\r' {
        out.push('\\');
        out.push('r');
    } else if c == '\t' {
        out.push('\\');
        out.push('t');
    } else {
        out.push(c);
    }
    proof {
        assert(out@ =~= prev + esc_char(c));
    }
}

/// Writes a quoted, escaped string onto `out`.
fn push_quoted(out: &mut String, s: &str)
    ensures
        final(out)@ == old(out)@ + enc_str(s@),
{
    let ghost base = out@;
    out.push('"');
    let n = s.unicode_len();
    let mut i: usize = 0;
    while i < n
        invariant
            i <= n,
            n == s@.len(),
            out@ == base + seq!['"'] + esc(s@.take(i as int)),
        decreases n - i,
    {
        let c = s.get_char(i);
        push_escaped_char(out, c);
        proof {
            lemma_esc_snoc(s@, i as int);
        }
        i = i + 1;
    }
    out.push('"');
    proof {
        assert(s@.take(n as int) =~= s@);
        assert(out@ =~= base + enc_str(s@));
    }
}

/// Writes a number onto `out` as its decimal numeral.
fn push_u64(out: &mut String, n: u64)
    ensures
        final(out)@ == old(out)@ + dec_rep(n as nat),
{
    let d = crate::numfmt::u64_to_dec(n);
    out.append(d.as_str());
}

/// Writes a timestamp, or `null`, onto `out`.
fn push_opt_ts(out: &mut String, t: &Option<i64>)
    ensures
        final(out)@ == old(out)@ + enc_opt_ts(*t),
{
    match t {
        Some(v) => {
            let d = crate::numfmt::i64_to_dec(*v);
            out.append(d.as_str());
        },
        None => {
            out.append("null");
            proof {
                reveal_strlit("null");
                assert("null"@ =~= null_text());
            }
        },
    }
}

/// Writes an original-post record onto `out`.
#[verifier::rlimit(100)]
fn push_orig(out: &mut String, o: &OriginalPost)
    ensures
        final(out)@ == old(out)@ + enc_orig(o@),
{
    out.append("{\"id\":");
    push_quoted(out, o.id.as_str());
    out.append(",\"author\":");
    push_quoted(out, o.author.as_str());
    out.append(",\"text\":");
    push_quoted(out, o.text.as_str());
    out.append(",\"like_count\":");
    push_u64(out, o.like_count);
    out.append(",\"reshare_count\":");
    push_u64(out, o.reshare_count);
    out.append("}");
    proof {
        reveal_strlit("{\"id\":");
        reveal_strlit(",\"author\":");
        reveal_strlit(",\"text\":");
        reveal_strlit(",\"like_count\":");
        reveal_strlit(",\"reshare_count\":");
        reveal_strlit("}");
        assert("{\"id\":"@ =~= seq!['{', '"', 'i', 'd', '"', ':']);
        assert(",\"author\":"@ =~= seq![',', '"', 'a', 'u', 't', 'h', 'o', 'r', '"', ':']);
        assert(",\"text\":"@ =~= seq![',', '"', 't', 'e', 'x', 't', '"', ':']);
        assert(",\"like_count\":"@ =~= seq![
            ',',
            '"',
            'l',
            'i',
            'k',
            'e',
            '_',
            'c',
            'o',
            'u',
            'n',
            't',
            '"',
            ':',
        ]);
        assert(",\"reshare_count\":"@ =~= seq![
            ',',
            '"',
            'r',
            'e',
            's',
            'h',
            'a',
            'r',
            'e',
            '_',
            'c',
            'o',
            'u',
            'n',
            't',
            '"',
            ':',
        ]);
        assert("}"@ =~= seq!['}']);
        assert(out@ =~= old(out)@ + enc_orig(o@));
    }
}

/// Writes one feed-item record onto `out`.
#[verifier::rlimit(100)]
fn push_post(out: &mut String, p: &Post)
    ensures
        final(out)@ == old(out)@ + enc_post(p@),
{
    out.append("{\"id\":");
    push_quoted(out, p.id.as_str());
    out.append(",\"author\":");
    push_quoted(out, p.author.as_str());
    out.append(",\"text\":");
    push_quoted(out, p.text.as_str());
    out.append(",\"like_count\":");
    push_u64(out, p.like_count);
    out.append(",\"reshare_count\":");
    push_u64(out, p.reshare_count);
    out.append(",\"reshared_from\":");
    match &p.reshared_from {
        Some(o) => push_orig(out, o),
        None => {
            out.append("null");
            proof {
                reveal_strlit("null");
                assert("null"@ =~= null_text());
            }
        },
    }
    out.append("}");
    proof {
        reveal_strlit("{\"id\":");
        reveal_strlit(",\"author\":");
        reveal_strlit(",\"text\":");
        reveal_strlit(",\"like_count\":");
        reveal_strlit(",\"reshare_count\":");
        reveal_strlit(",\"reshared_from\":");
        reveal_strlit("}");
        assert("{\"id\":"@ =~= seq!['{', '"', 'i', 'd', '"', ':']);
        assert(",\"author\":"@ =~= seq![',', '"', 'a', 'u', 't', 'h', 'o', 'r', '"', ':']);
        assert(",\"text\":"@ =~= seq![',', '"', 't', 'e', 'x', 't', '"', ':']);
        assert(",\"like_count\":"@ =~= seq![
            ',',
            '"',
            'l',
            'i',
            'k',
            'e',
            '_',
            'c',
            'o',
            'u',
            'n',
            't',
            '"',
            ':',
        ]);
        assert(",\"reshare_count\":"@ =~= seq![
            ',',
            '"',
            'r',
            'e',
            's',
            'h',
            'a',
            'r',
            'e',
            '_',
            'c',
            'o',
            'u',
            'n',
            't',
            '"',
            ':',
        ]);
        assert(",\"reshared_from\":"@ =~= seq![
            ',',
            '"',
            'r',
            'e',
            's',
            'h',
            'a',
            'r',
            'e',
            'd',
            '_',
            'f',
            'r',
            'o',
            'm',
            '"',
            ':',
        ]);
        assert("}"@ =~= seq!['}']);
        assert(out@ =~= old(out)@ + enc_post(p@));
    }
}

/// Separators distribute over concatenation of the item lists.
proof fn lemma_enc_rest_concat(a: Seq<PostView>, b: Seq<PostView>)
    ensures
        enc_rest(a + b) == enc_rest(a) + enc_rest(b),
    decreases a.len(),
{
    if a.len() == 0 {
        assert(a + b =~= b);
        assert(enc_rest(a) + enc_rest(b) =~= enc_rest(b));
    } else {
        assert((a + b).skip(1) =~= a.skip(1) + b);
        lemma_enc_rest_concat(a.skip(1), b);
        assert(enc_rest(a + b) =~= seq![','] + enc_post(a[0]) + (enc_rest(a.skip(1)) + enc_rest(
            b,
        )));
        assert(enc_rest(a) + enc_rest(b) =~= seq![','] + enc_post(a[0]) + (enc_rest(a.skip(1))
            + enc_rest(b)));
    }
}

/// Writes the bracketed post array; also the renderer's JSON projection of a
/// post list.
pub fn encode_posts(posts: &Vec<Post>) -> (r: String)
    ensures
        r@ == enc_posts(posts.deep_view()),
{
    let mut out = String::new();
    out.append("[");
    proof {
        reveal_strlit("[");
        assert("["@ =~= seq!['[']);
    }
    let ghost dv = posts.deep_view();
    let n = posts.len();
    let ghost base = out@;
    if n > 0 {
        push_post(&mut out, &posts[0]);
        let mut i: usize = 1;
        while i < n
            invariant
                1 <= i <= n,
                n == dv.len(),
                dv == posts.deep_view(),
                n == posts.len(),
                out@ == base + enc_post(dv[0]) + enc_rest(dv.subrange(1, i as int)),
            decreases n - i,
        {
            out.append(",");
            push_post(&mut out, &posts[i]);
            proof {
                reveal_strlit(",");
                assert(","@ =~= seq![',']);
                assert(dv.subrange(1, i + 1) =~= dv.subrange(1, i as int) + seq![dv[i as int]]);
                lemma_enc_rest_concat(dv.subrange(1, i as int), seq![dv[i as int]]);
                assert(seq![dv[i as int]].skip(1) =~= Seq::<PostView>::empty());
                assert(enc_rest(Seq::<PostView>::empty()) == Seq::<char>::empty());
                assert(enc_rest(seq![dv[i as int]]) =~= seq![','] + enc_post(dv[i as int]));
                assert(out@ =~= base + enc_post(dv[0]) + enc_rest(dv.subrange(1, i + 1)));
            }
            i = i + 1;
        }
        proof {
            assert(dv.subrange(1, n as int) =~= dv.skip(1));
        }
    }
    out.append("]");
    proof {
        reveal_strlit("]");
        assert("]"@ =~= seq![']']);
        assert(out@ =~= enc_posts(dv));
    }
    out
}

/// Writes the whole cache record; this is the only writer of the cache file's
/// content.
pub fn encode_cache(c: &FeedCache) -> (r: String)
    ensures
        r@ == enc_cache(c@),
{
    let mut out = String::new();
    out.append("{\"last_fetched_at\":");
    push_opt_ts(&mut out, &c.last_fetched_at);
    out.append(",\"refresh_tick\":");
    push_u64(&mut out, c.refresh_tick);
    out.append(",\"posts\":");
    let posts_text = encode_posts(&c.posts);
    out.append(posts_text.as_str());
    out.append("}");
    proof {
        reveal_strlit("{\"last_fetched_at\":");
        reveal_strlit(",\"refresh_tick\":");
        reveal_strlit(",\"posts\":");
        reveal_strlit("}");
        assert("{\"last_fetched_at\":"@ =~= seq![
            '{',
            '"',
            'l',
            'a',
            's',
            't',
            '_',
            'f',
            'e',
            't',
            'c',
            'h',
            'e',
            'd',
            '_',
            'a',
            't',
            '"',
            ':',
        ]);
        assert(",\"refresh_tick\":"@ =~= seq![
            ',',
            '"',
            'r',
            'e',
            'f',
            'r',
            'e',
            's',
            'h',
            '_',
            't',
            'i',
            'c',
            'k',
            '"',
            ':',
        ]);
        assert(",\"posts\":"@ =~= seq![',', '"', 'p', 'o', 's', 't', 's', '"', ':']);
        assert(out@ =~= enc_cache(c@));
    }
    out
}

// ---------------------------------------------------------------------------
// The executable parser
// ---------------------------------------------------------------------------

/// The characters of a text, as an indexable vector.
fn str_chars(s: &str) -> (r: Vec<char>)
    ensures
        r@ == s@,
{
    let n = s.unicode_len();
    let mut r: Vec<char> = Vec::new();
    let mut i: usize = 0;
    while i < n
        invariant
            i <= n,
            n == s@.len(),
            r@ =~= s@.take(i as int),
        decreases n - i,
    {
        r.push(s.get_char(i));
        proof {
            assert(r@ =~= s@.take(i + 1));
        }
        i = i + 1;
    }
    proof {
        assert(s@.take(n as int) =~= s@);
    }
    r
}

/// Expects the fixed text `lit` at position `i`.
fn p_lit(v: &Vec<char>, i: usize, lit: &str) -> (r: Option<usize>)
    ensures
        match r {
            Some(j) => at(v@, i as int, lit@) && j == i + lit@.len() && j <= v@.len(),
            None => !at(v@, i as int, lit@),
        },
{
    let m = lit.unicode_len();
    let n = v.len();
    if m > n || i > n - m {
        return None;
    }
    let mut k: usize = 0;
    while k < m
        invariant
            k <= m,
            m == lit@.len(),
            n == v@.len(),
            i + m <= n,
            forall|q: int| 0 <= q < k ==> v@[i + q] == lit@[q],
        decreases m - k,
    {
        if v[i + k] != lit.get_char(k) {
            proof {
                if at(v@, i as int, lit@) {
                    lemma_at_index(v@, i as int, lit@, k as int);
                }
            }
            return None;
        }
        k = k + 1;
    }
    proof {
        assert(v@.subrange(i as int, i + lit@.len()) =~= lit@);
    }
    Some(i + m)
}

/// Reads a quoted string starting at `i`, undoing the escapes.
fn p_string(v: &Vec<char>, i: usize) -> (r: Option<(String, usize)>)
    ensures
        match r {
            Some(t) => sp_string(v@, i as int) == Some((t.0@, t.1 as int)) && i < t.1 <= v@.len(),
            None => sp_string(v@, i as int) is None,
        },
{
    let n = v.len();
    if i >= n || v[i] != '"' {
        return None;
    }
    let mut out = String::new();
    let mut cur: usize = i + 1;
    loop
        invariant
            i + 1 <= cur <= n,
            n == v@.len(),
            v@[i as int] == '"',
            match sp_str_body(v@, cur as int) {
                Some((t, j)) => sp_str_body(v@, (i + 1) as int) == Some((out@ + t, j)),
                None => sp_str_body(v@, (i + 1) as int) is None,
            },
        decreases n - cur,
    {
        if cur >= n {
            return None;
        }
        let c = v[cur];
        if c == '"' {
            proof {
                assert(sp_str_body(v@, cur as int) == Some((Seq::<char>::empty(), cur + 1)));
                assert(out@ + Seq::<char>::empty() =~= out@);
            }
            return Some((out, cur + 1));
        } else if c == '\\' {
            if cur + 1 >= n {
                return None;
            }
            let c2 = v[cur + 1];
            let ghost prev = out@;
            if c2 == '\\' {
                out.push('\\');
            } else if c2 == '"' {
                out.push('"');
            } else if c2 == 'n' {
                out.push('\n');
            } else if c2 == 'r' {
                out.push('\r');
            } else if c2 == 't' {
                out.push('\t');
            } else {
                return None;
            }
            proof {
                assert(is_esc_code(c2));
                assert(out@ =~= prev + seq![unesc(c2)]);
                match sp_str_body(v@, cur + 2) {
                    Some((t, j)) => {
                        assert(sp_str_body(v@, cur as int) == Some((seq![unesc(c2)] + t, j)));
                        assert(prev + (seq![unesc(c2)] + t) =~= out@ + t);
                    },
                    None => {},
                }
            }
            cur = cur + 2;
        } else {
            let ghost prev = out@;
            out.push(c);
            proof {
                assert(out@ =~= prev + seq![c]);
                match sp_str_body(v@, cur + 1) {
                    Some((t, j)) => {
                        assert(sp_str_body(v@, cur as int) == Some((seq![c] + t, j)));
                        assert(prev + (seq![c] + t) =~= out@ + t);
                    },
                    None => {},
                }
            }
            cur = cur + 1;
        }
    }
}

/// Reads a run of digits as a number.
fn p_u64(v: &Vec<char>, i: usize) -> (r: Option<(u64, usize)>)
    ensures
        match r {
            Some(t) => sp_u64(v@, i as int) == Some((t.0, t.1 as int)) && i < t.1 <= v@.len(),
            None => sp_u64(v@, i as int) is None,
        },
{
    let n = v.len();
    if i >= n {
        return None;
    }
    let mut cur: usize = i;
    let mut acc: u64 = 0;
    proof {
        assert(v@.subrange(i as int, i as int) =~= Seq::<char>::empty());
    }
    loop
        invariant
            i <= cur <= n,
            n == v@.len(),
            digits_end(v@, i as int) == digits_end(v@, cur as int),
            forall|q: int| i <= q < cur ==> is_digit(#[trigger] v@[q]),
            acc as nat == dec_val(v@.subrange(i as int, cur as int)),
        ensures
            i <= cur <= n,
            n == v@.len(),
            digits_end(v@, i as int) == cur,
            acc as nat == dec_val(v@.subrange(i as int, cur as int)),
        decreases n - cur,
    {
        if cur >= n {
            break;
        }
        let c = v[cur];
        let dopt = crate::numfmt::char_to_digit(c);
        if dopt.is_none() {
            break;
        }
        let d = dopt.unwrap();
        if acc > (u64::MAX - d) / 10 {
            proof {
                let de = digits_end(v@, i as int);
                lemma_digits_end_lo(v@, cur as int);
                assert(de >= cur + 1);
                lemma_digits_end_hi(v@, cur as int);
                assert(de <= n);
                assert(v@.subrange(i as int, cur + 1).drop_last() =~= v@.subrange(
                    i as int,
                    cur as int,
                ));
                assert(dec_val(v@.subrange(i as int, cur + 1)) == acc * 10 + d);
                assert(acc * 10 + d > u64::MAX);
                crate::numfmt::lemma_dec_val_take_le(v@.subrange(i as int, de), cur + 1 - i);
                assert(v@.subrange(i as int, de).take(cur + 1 - i) =~= v@.subrange(
                    i as int,
                    cur + 1,
                ));
            }
            return None;
        }
        acc = acc * 10 + d;
        proof {
            assert(v@.subrange(i as int, cur + 1).drop_last() =~= v@.subrange(i as int, cur as int));
        }
        cur = cur + 1;
    }
    if cur == i {
        return None;
    }
    Some((acc, cur))
}

/// Positions only grow along a digit run.
proof fn lemma_digits_end_lo(s: Seq<char>, i: int)
    requires
        0 <= i < s.len(),
        is_digit(s[i]),
    ensures
        digits_end(s, i) >= i + 1,
    decreases s.len() - i,
{
    if i + 1 < s.len() && is_digit(s[i + 1]) {
        lemma_digits_end_lo(s, i + 1);
    } else {
        assert(digits_end(s, i + 1) == i + 1);
    }
}

/// A digit run ends within the text.
proof fn lemma_digits_end_hi(s: Seq<char>, i: int)
    requires
        0 <= i <= s.len(),
    ensures
        digits_end(s, i) <= s.len(),
    decreases s.len() - i,
{
    if i < s.len() && is_digit(s[i]) {
        lemma_digits_end_hi(s, i + 1);
    }
}

/// Reads a signed number that fits an `i64`.
fn p_i64(v: &Vec<char>, i: usize) -> (r: Option<(i64, usize)>)
    ensures
        match r {
            Some(t) => sp_i64(v@, i as int) == Some((t.0, t.1 as int)) && i < t.1 <= v@.len(),
            None => sp_i64(v@, i as int) is None,
        },
{
    let n = v.len();
    if i < n && v[i] == '-' {
        match p_u64(v, i + 1) {
            Some((m, j)) => {
                if m <= 0x8000000000000000u64 {
                    let v128: i128 = -(m as i128);
                    Some((v128 as i64, j))
                } else {
                    None
                }
            },
            None => None,
        }
    } else {
        match p_u64(v, i) {
            Some((m, j)) => {
                if m <= i64::MAX as u64 {
                    Some((m as i64, j))
                } else {
                    None
                }
            },
            None => None,
        }
    }
}

/// Reads `null` or a timestamp.
fn p_opt_ts(v: &Vec<char>, i: usize) -> (r: Option<(Option<i64>, usize)>)
    ensures
        match r {
            Some(t) => sp_opt_ts(v@, i as int) == Some((t.0, t.1 as int)) && i < t.1 <= v@.len(),
            None => sp_opt_ts(v@, i as int) is None,
        },
{
    proof {
        reveal_strlit("null");
        assert("null"@ =~= null_text());
    }
    match p_lit(v, i, "null") {
        Some(j) => Some((None, j)),
        None => match p_i64(v, i) {
            Some((ts, j)) => Some((Some(ts), j)),
            None => None,
        },
    }
}


/// Reads an original-post record.
#[verifier::rlimit(100)]
fn p_orig(v: &Vec<char>, i: usize) -> (r: Option<(OriginalPost, usize)>)
    ensures
        match r {
            Some(t) => sp_orig(v@, i as int) == Some((t.0@, t.1 as int)) && i < t.1 <= v@.len(),
            None => sp_orig(v@, i as int) is None,
        },
{
    proof {
        reveal_strlit("{\"id\":");
        reveal_strlit(",\"author\":");
        reveal_strlit(",\"text\":");
        reveal_strlit(",\"like_count\":");
        reveal_strlit(",\"reshare_count\":");
        reveal_strlit("}");
        assert("{\"id\":"@ =~= seq!['{', '"', 'i', 'd', '"', ':']);
        assert(",\"author\":"@ =~= seq![',', '"', 'a', 'u', 't', 'h', 'o', 'r', '"', ':']);
        assert(",\"text\":"@ =~= seq![',', '"', 't', 'e', 'x', 't', '"', ':']);
        assert(",\"like_count\":"@ =~= seq![
            ',',
            '"',
            'l',
            'i',
            'k',
            'e',
            '_',
            'c',
            'o',
            'u',
            'n',
            't',
            '"',
            ':',
        ]);
        assert(",\"reshare_count\":"@ =~= seq![
            ',',
            '"',
            'r',
            'e',
            's',
            'h',
            'a',
            'r',
            'e',
            '_',
            'c',
            'o',
            'u',
            'n',
            't',
            '"',
            ':',
        ]);
        assert("}"@ =~= seq!['}']);
    }
    let r0 = p_lit(v, i, "{\"id\":");
    if r0.is_none() {
        return None;
    }
    let r1 = p_string(v, r0.unwrap());
    if r1.is_none() {
        return None;
    }
    let (id, j1) = r1.unwrap();
    let r2 = p_lit(v, j1, ",\"author\":");
    if r2.is_none() {
        return None;
    }
    let r3 = p_string(v, r2.unwrap());
    if r3.is_none() {
        return None;
    }
    let (author, j3) = r3.unwrap();
    let r4 = p_lit(v, j3, ",\"text\":");
    if r4.is_none() {
        return None;
    }
    let r5 = p_string(v, r4.unwrap());
    if r5.is_none() {
        return None;
    }
    let (text, j5) = r5.unwrap();
    let r6 = p_lit(v, j5, ",\"like_count\":");
    if r6.is_none() {
        return None;
    }
    let r7 = p_u64(v, r6.unwrap());
    if r7.is_none() {
        return None;
    }
    let (like_count, j7) = r7.unwrap();
    let r8 = p_lit(v, j7, ",\"reshare_count\":");
    if r8.is_none() {
        return None;
    }
    let r9 = p_u64(v, r8.unwrap());
    if r9.is_none() {
        return None;
    }
    let (reshare_count, j9) = r9.unwrap();
    let r10 = p_lit(v, j9, "}");
    if r10.is_none() {
        return None;
    }
    let j10 = r10.unwrap();
    Some((OriginalPost { id, author, text, like_count, reshare_count }, j10))
}

/// Reads the trailing reshare field.
fn p_reshared(v: &Vec<char>, i: usize) -> (r: Option<(Option<OriginalPost>, usize)>)
    ensures
        match r {
            Some(t) => sp_reshared(v@, i as int) == Some(
                (
                    match t.0 {
                        Some(o) => Some(o@),
                        None => None,
                    },
                    t.1 as int,
                ),
            ) && i < t.1 <= v@.len(),
            None => sp_reshared(v@, i as int) is None,
        },
{
    proof {
        reveal_strlit("null");
        assert("null"@ =~= null_text());
    }
    match p_lit(v, i, "null") {
        Some(j) => Some((None, j)),
        None => match p_orig(v, i) {
            Some((o, j)) => Some((Some(o), j)),
            None => None,
        },
    }
}

/// Reads one feed-item record.
#[verifier::rlimit(100)]
fn p_post(v: &Vec<char>, i: usize) -> (r: Option<(Post, usize)>)
    ensures
        match r {
            Some(t) => sp_post(v@, i as int) == Some((t.0@, t.1 as int)) && i < t.1 <= v@.len(),
            None => sp_post(v@, i as int) is None,
        },
{
    proof {
        reveal_strlit("{\"id\":");
        reveal_strlit(",\"author\":");
        reveal_strlit(",\"text\":");
        reveal_strlit(",\"like_count\":");
        reveal_strlit(",\"reshare_count\":");
        reveal_strlit(",\"reshared_from\":");
        reveal_strlit("}");
        assert("{\"id\":"@ =~= seq!['{', '"', 'i', 'd', '"', ':']);
        assert(",\"author\":"@ =~= seq![',', '"', 'a', 'u', 't', 'h', 'o', 'r', '"', ':']);
        assert(",\"text\":"@ =~= seq![',', '"', 't', 'e', 'x', 't', '"', ':']);
        assert(",\"like_count\":"@ =~= seq![
            ',',
            '"',
            'l',
            'i',
            'k',
            'e',
            '_',
            'c',
            'o',
            'u',
            'n',
            't',
            '"',
            ':',
        ]);
        assert(",\"reshare_count\":"@ =~= seq![
            ',',
            '"',
            'r',
            'e',
            's',
            'h',
            'a',
            'r',
            'e',
            '_',
            'c',
            'o',
            'u',
            'n',
            't',
            '"',
            ':',
        ]);
        assert(",\"reshared_from\":"@ =~= seq![
            ',',
            '"',
            'r',
            'e',
            's',
            'h',
            'a',
            'r',
            'e',
            'd',
            '_',
            'f',
            'r',
            'o',
            'm',
            '"',
            ':',
        ]);
        assert("}"@ =~= seq!['}']);
    }
    let r0 = p_lit(v, i, "{\"id\":");
    if r0.is_none() {
        return None;
    }
    let r1 = p_string(v, r0.unwrap());
    if r1.is_none() {
        return None;
    }
    let (id, j1) = r1.unwrap();
    let r2 = p_lit(v, j1, ",\"author\":");
    if r2.is_none() {
        return None;
    }
    let r3 = p_string(v, r2.unwrap());
    if r3.is_none() {
        return None;
    }
    let (author, j3) = r3.unwrap();
    let r4 = p_lit(v, j3, ",\"text\":");
    if r4.is_none() {
        return None;
    }
    let r5 = p_string(v, r4.unwrap());
    if r5.is_none() {
        return None;
    }
    let (text, j5) = r5.unwrap();
    let r6 = p_lit(v, j5, ",\"like_count\":");
    if r6.is_none() {
        return None;
    }
    let r7 = p_u64(v, r6.unwrap());
    if r7.is_none() {
        return None;
    }
    let (like_count, j7) = r7.unwrap();
    let r8 = p_lit(v, j7, ",\"reshare_count\":");
    if r8.is_none() {
        return None;
    }
    let r9 = p_u64(v, r8.unwrap());
    if r9.is_none() {
        return None;
    }
    let (reshare_count, j9) = r9.unwrap();
    let r10 = p_lit(v, j9, ",\"reshared_from\":");
    if r10.is_none() {
        return None;
    }
    let r11 = p_reshared(v, r10.unwrap());
    if r11.is_none() {
        return None;
    }
    let (reshared_from, j11) = r11.unwrap();
    let r12 = p_lit(v, j11, "}");
    if r12.is_none() {
        return None;
    }
    let j12 = r12.unwrap();
    Some((Post { id, author, text, like_count, reshare_count, reshared_from }, j12))
}

/// Reads the bracketed post array.
fn p_posts(v: &Vec<char>, i: usize) -> (r: Option<(Vec<Post>, usize)>)
    ensures
        match r {
            Some(t) => sp_posts(v@, i as int) == Some((t.0.deep_view(), t.1 as int)) && i < t.1
                <= v@.len(),
            None => sp_posts(v@, i as int) is None,
        },
{
    let n = v.len();
    if i >= n || v[i] != '[' {
        return None;
    }
    if i + 1 < n && v[i + 1] == ']' {
        let posts: Vec<Post> = Vec::new();
        proof {
            assert(posts.deep_view() =~= Seq::<PostView>::empty());
        }
        return Some((posts, i + 2));
    }
    let mut posts: Vec<Post> = Vec::new();
    let mut cur: usize = i + 1;
    loop
        invariant
            i + 1 <= cur <= n,
            n == v@.len(),
            sp_posts(v@, i as int) == sp_items(v@, (i + 1) as int),
            match sp_items(v@, cur as int) {
                Some((ps, k)) => sp_items(v@, (i + 1) as int) == Some((posts.deep_view() + ps, k)),
                None => sp_items(v@, (i + 1) as int) is None,
            },
        decreases n - cur,
    {
        let rp = p_post(v, cur);
        if rp.is_none() {
            return None;
        }
        let (p, j) = rp.unwrap();
        let ghost dvb = posts.deep_view();
        posts.push(p);
        proof {
            assert(posts.deep_view() =~= dvb.push(p@));
        }
        if j < n && v[j] == ']' {
            proof {
                assert(sp_items(v@, cur as int) == Some((seq![p@], j + 1)));
                assert(dvb + seq![p@] =~= posts.deep_view());
            }
            return Some((posts, j + 1));
        }
        if j < n && v[j] == ',' {
            proof {
                match sp_items(v@, j + 1) {
                    Some((ps2, k)) => {
                        assert(sp_items(v@, cur as int) == Some((seq![p@] + ps2, k)));
                        assert(dvb + (seq![p@] + ps2) =~= posts.deep_view() + ps2);
                    },
                    None => {
                        assert(sp_items(v@, cur as int) is None);
                    },
                }
            }
            cur = j + 1;
        } else {
            proof {
                assert(sp_items(v@, cur as int) is None);
            }
            return None;
        }
    }
}

/// Reads the whole cache record.
#[verifier::rlimit(100)]
fn p_cache(v: &Vec<char>, i: usize) -> (r: Option<(FeedCache, usize)>)
    ensures
        match r {
            Some(t) => sp_cache(v@, i as int) == Some((t.0@, t.1 as int)) && i < t.1 <= v@.len(),
            None => sp_cache(v@, i as int) is None,
        },
{
    proof {
        reveal_strlit("{\"last_fetched_at\":");
        reveal_strlit(",\"refresh_tick\":");
        reveal_strlit(",\"posts\":");
        reveal_strlit("}");
        assert("{\"last_fetched_at\":"@ =~= seq![
            '{',
            '"',
            'l',
            'a',
            's',
            't',
            '_',
            'f',
            'e',
            't',
            'c',
            'h',
            'e',
            'd',
            '_',
            'a',
            't',
            '"',
            ':',
        ]);
        assert(",\"refresh_tick\":"@ =~= seq![
            ',',
            '"',
            'r',
            'e',
            'f',
            'r',
            'e',
            's',
            'h',
            '_',
            't',
            'i',
            'c',
            'k',
            '"',
            ':',
        ]);
        assert(",\"posts\":"@ =~= seq![',', '"', 'p', 'o', 's', 't', 's', '"', ':']);
        assert("}"@ =~= seq!['}']);
    }
    let r0 = p_lit(v, i, "{\"last_fetched_at\":");
    if r0.is_none() {
        return None;
    }
    let r1 = p_opt_ts(v, r0.unwrap());
    if r1.is_none() {
        return None;
    }
    let (last_fetched_at, j1) = r1.unwrap();
    let r2 = p_lit(v, j1, ",\"refresh_tick\":");
    if r2.is_none() {
        return None;
    }
    let r3 = p_u64(v, r2.unwrap());
    if r3.is_none() {
        return None;
    }
    let (refresh_tick, j3) = r3.unwrap();
    let r4 = p_lit(v, j3, ",\"posts\":");
    if r4.is_none() {
        return None;
    }
    let r5 = p_posts(v, r4.unwrap());
    if r5.is_none() {
        return None;
    }
    let (posts, j5) = r5.unwrap();
    let r6 = p_lit(v, j5, "}");
    if r6.is_none() {
        return None;
    }
    let j6 = r6.unwrap();
    Some((FeedCache { last_fetched_at, posts, refresh_tick }, j6))
}

/// Reads a cache file's text back into the record it holds. Anything that is
/// not exactly one record written by `encode_cache`'s format reads as `None`:
/// a missing, truncated or foreign file degrades to a cache miss.
pub fn decode_cache(s: &str) -> (r: Option<FeedCache>)
    ensures
        match r {
            Some(c) => spec_decode(s@) == Some(c@),
            None => spec_decode(s@) is None,
        },
{
    let v = str_chars(s);
    match p_cache(&v, 0) {
        Some((c, j)) => {
            if j == v.len() {
                Some(c)
            } else {
                None
            }
        },
        None => None,
    }
}

} // verus!

//! The renderer's pure half: posts projected to displayable text.
//!
//! Every function here is a function of its arguments alone — the same state
//! renders the same rows. Three display variants exist: the standard line,
//! a tab-separated line, and the wire-schema projection of the whole list;
//! the multi-row transform behind `timeline_rows` serves the interactive
//! view, with compact or expanded rows chosen by a flag.

use vstd::prelude::*;

use crate::codec::{enc_posts, encode_posts};
use crate::numfmt::{dec_rep, u64_to_dec};
use crate::post::{project, Post, PostView, TweetView, TweetViewModel};

verus! {

/// An upper-case ASCII letter folded to lower case; any other character is
/// left as it stands.
pub open spec fn lower_char(c: char) -> char {
    if false {
        c
    } else if c == 'A' {
        'a'
    } else if c == 'B' {
        'b'
    } else if c == 'C' {
        'c'
    } else if c == 'D' {
        'd'
    } else if c == 'E' {
        'e'
    } else if c == 'F' {
        'f'
    } else if c == 'G' {
        'g'
    } else if c == 'H' {
        'h'
    } else if c == 'I' {
        'i'
    } else if c == 'J' {
        'j'
    } else if c == 'K' {
        'k'
    } else if c == 'L' {
        'l'
    } else if c == 'M' {
        'm'
    } else if c == 'N' {
        'n'
    } else if c == 'O' {
        'o'
    } else if c == 'P' {
        'p'
    } else if c == 'Q' {
        'q'
    } else if c == 'R' {
        'r'
    } else if c == 'S' {
        's'
    } else if c == 'T' {
        't'
    } else if c == 'U' {
        'u'
    } else if c == 'V' {
        'v'
    } else if c == 'W' {
        'w'
    } else if c == 'X' {
        'x'
    } else if c == 'Y' {
        'y'
    } else if c == 'Z' {
        'z'
    } else {
        c
    }
}

/// A string folded to lower case, character by character.
pub open spec fn lower_seq(s: Seq<char>) -> Seq<char> {
    Seq::new(s.len(), |i: int| lower_char(s[i]))
}

fn lower_char_exec(c: char) -> (r: char)
    ensures
        r == lower_char(c),
{
    if false {
        c
    } else if c == 'A' {
        'a'
    } else if c == 'B' {
        'b'
    } else if c == 'C' {
        'c'
    } else if c == 'D' {
        'd'
    } else if c == 'E' {
        'e'
    } else if c == 'F' {
        'f'
    } else if c == 'G' {
        'g'
    } else if c == 'H' {
        'h'
    } else if c == 'I' {
        'i'
    } else if c == 'J' {
        'j'
    } else if c == 'K' {
        'k'
    } else if c == 'L' {
        'l'
    } else if c == 'M' {
        'm'
    } else if c == 'N' {
        'n'
    } else if c == 'O' {
        'o'
    } else if c == 'P' {
        'p'
    } else if c == 'Q' {
        'q'
    } else if c == 'R' {
        'r'
    } else if c == 'S' {
        's'
    } else if c == 'T' {
        't'
    } else if c == 'U' {
        'u'
    } else if c == 'V' {
        'v'
    } else if c == 'W' {
        'w'
    } else if c == 'X' {
        'x'
    } else if c == 'Y' {
        'y'
    } else if c == 'Z' {
        'z'
    } else {
        c
    }
}

/// Folds a string to lower case (ASCII letters only).
pub fn to_ascii_lower(s: &str) -> (r: String)
    ensures
        r@ == lower_seq(s@),
{
    let n = s.unicode_len();
    let mut out = String::new();
    let mut i: usize = 0;
    while i < n
        invariant
            i <= n,
            n == s@.len(),
            out@ =~= lower_seq(s@).take(i as int),
        decreases n - i,
    {
        out.push(lower_char_exec(s.get_char(i)));
        proof {
            assert(out@ =~= lower_seq(s@).take(i + 1));
        }
        i = i + 1;
    }
    proof {
        assert(lower_seq(s@).take(n as int) =~= lower_seq(s@));
    }
    out
}

/// How the timeline is printed: plain lines, the wire schema, or
/// tab-separated values.
#[derive(Clone, Copy, Debug, PartialEq, Eq)]
pub enum DisplayType {
    Standard,
    Json,
    Csv,
}

/// The display variant a command-line word names, compared without regard to
/// ASCII case.
pub open spec fn spec_parse_display(s: Seq<char>) -> Option<DisplayType> {
    if lower_seq(s) == seq!['s', 't', 'a', 'n', 'd', 'a', 'r', 'd'] {
        Some(DisplayType::Standard)
    } else if lower_seq(s) == seq!['j', 's', 'o', 'n'] {
        Some(DisplayType::Json)
    } else if lower_seq(s) == seq!['c', 's', 'v'] {
        Some(DisplayType::Csv)
    } else {
        None
    }
}

/// Reads a display variant from its command-line word; any other word is
/// reported back as an error.
pub fn parse_display_type(s: &str) -> (r: Result<DisplayType, String>)
    ensures
        match r {
            Ok(d) => spec_parse_display(s@) == Some(d),
            Err(e) => spec_parse_display(s@) is None && e@ == "no match string"@,
        },
{
    proof {
        reveal_strlit("standard");
        reveal_strlit("json");
        reveal_strlit("csv");
        assert("standard"@ =~= seq!['s', 't', 'a', 'n', 'd', 'a', 'r', 'd']);
        assert("json"@ =~= seq!['j', 's', 'o', 'n']);
        assert("csv"@ =~= seq!['c', 's', 'v']);
    }
    let lowered = to_ascii_lower(s);
    if lowered == String::from_str("standard") {
        Ok(DisplayType::Standard)
    } else if lowered == String::from_str("json") {
        Ok(DisplayType::Json)
    } else if lowered == String::from_str("csv") {
        Ok(DisplayType::Csv)
    } else {
        Err(String::from_str("no match string"))
    }
}

/// Newlines flattened to spaces, so a post stays on one tab-separated line.
pub open spec fn flatten_newlines(s: Seq<char>) -> Seq<char> {
    Seq::new(
        s.len(),
        |i: int|
            if s[i] == '\n' {
                ' '
            } else {
                s[i]
            },
    )
}

/// The standard display line of one post: the author, who reshared it if
/// anyone, and the text, indented, with a blank line after.
pub open spec fn standard_line_of(m: TweetViewModel) -> Seq<char> {
    m.user_name + (match m.retweet_user_name {
        Some(u) => seq![' ', 'R', 'T', ':', '@'] + u,
        None => Seq::<char>::empty(),
    }) + seq!['\n', ' '] + m.tweet + seq!['\n', '\n']
}

/// The tab-separated line of one post.
pub open spec fn csv_line_of(m: TweetViewModel) -> Seq<char> {
    m.id + seq!['\t'] + m.user_name + seq!['\t'] + flatten_newlines(m.tweet) + (match m
        .retweet_user_name {
        Some(u) => seq!['\t'] + u,
        None => Seq::<char>::empty(),
    }) + seq!['\n']
}

impl TweetView {
    /// Writes this record as its standard display line.
    pub fn render_standard_line(&self) -> (r: String)
        ensures
            r@ == standard_line_of(self@),
    {
        let mut out = String::new();
        out.append(self.user_name.as_str());
        match &self.retweet_user_name {
            Some(u) => {
                out.append(" RT:@");
                out.append(u.as_str());
            },
            None => {},
        }
        out.append("\n ");
        out.append(self.tweet.as_str());
        out.append("\n\n");
        proof {
            reveal_strlit(" RT:@");
            reveal_strlit("\n ");
            reveal_strlit("\n\n");
            assert(" RT:@"@ =~= seq![' ', 'R', 'T', ':', '@']);
            assert("\n "@ =~= seq!['\n', ' ']);
            assert("\n\n"@ =~= seq!['\n', '\n']);
            assert(out@ =~= standard_line_of(self@));
        }
        out
    }

    /// Writes this record as one tab-separated line, its text flattened onto
    /// the line.
    pub fn render_csv_line(&self) -> (r: String)
        ensures
            r@ == csv_line_of(self@),
    {
        let mut out = String::new();
        out.append(self.id.as_str());
        out.push('\t');
        out.append(self.user_name.as_str());
        out.push('\t');
        let flat = flatten_exec(self.tweet.as_str());
        out.append(flat.as_str());
        match &self.retweet_user_name {
            Some(u) => {
                out.push('\t');
                out.append(u.as_str());
            },
            None => {},
        }
        out.push('\n');
        proof {
            assert(out@ =~= csv_line_of(self@));
        }
        out
    }
}

fn flatten_exec(s: &str) -> (r: String)
    ensures
        r@ == flatten_newlines(s@),
{
    let n = s.unicode_len();
    let mut out = String::new();
    let mut i: usize = 0;
    while i < n
        invariant
            i <= n,
            n == s@.len(),
            out@ =~= flatten_newlines(s@).take(i as int),
        decreases n - i,
    {
        let c = s.get_char(i);
        if c == '\n' {
            out.push(' ');
        } else {
            out.push(c);
        }
        proof {
            assert(out@ =~= flatten_newlines(s@).take(i + 1));
        }
        i = i + 1;
    }
    proof {
        assert(flatten_newlines(s@).take(n as int) =~= flatten_newlines(s@));
    }
    out
}

/// The wire-schema projection of a whole post list.
pub fn render_json(posts: &Vec<Post>) -> (r: String)
    ensures
        r@ == enc_posts(posts.deep_view()),
{
    encode_posts(posts)
}


// ---------------------------------------------------------------------------
// Multi-row display of a post list
// ---------------------------------------------------------------------------

/// What `textwrap::fill` makes of a text at a display width; a function of
/// the two alone.
pub uninterp spec fn wrapped_of(s: Seq<char>, width: int) -> Seq<char>;

/// Relies on `textwrap::fill`: wraps the text to the width with the default
/// options, a function of text and width alone.
#[verifier::external_body]
fn fill_text(s: &str, width: usize) -> (r: String)
    ensures
        r@ == wrapped_of(s@, width as int),
{
    textwrap::fill(s, width)
}

/// Where the line starting at `i` ends: the next newline, or the text's end.
pub open spec fn line_end(s: Seq<char>, i: int) -> int
    decreases s.len() - i,
{
    if 0 <= i < s.len() && s[i] != '\n' {
        line_end(s, i + 1)
    } else {
        i
    }
}

/// The text from `i` on, cut at each newline.
pub open spec fn split_from(s: Seq<char>, i: int) -> Seq<Seq<char>>
    decreases s.len() - i,
{
    let e = line_end(s, i);
    if i <= e && e < s.len() {
        seq![s.subrange(i, e)] + split_from(s, e + 1)
    } else {
        seq![s.subrange(i, e)]
    }
}

/// A text cut into lines at each newline; the empty text is one empty line.
pub open spec fn split_lines(s: Seq<char>) -> Seq<Seq<char>> {
    split_from(s, 0)
}

proof fn lemma_line_end_of(s: Seq<char>, i: int, j: int)
    requires
        0 <= i <= j <= s.len(),
        forall|k: int| i <= k < j ==> #[trigger] s[k] != '\n',
        j == s.len() || s[j] == '\n',
    ensures
        line_end(s, i) == j,
    decreases j - i,
{
    if i < j {
        lemma_line_end_of(s, i + 1, j);
    }
}

/// Cuts a text into its lines.
fn split_lines_exec(s: &str) -> (r: Vec<String>)
    ensures
        r.deep_view() == split_lines(s@),
{
    let n = s.unicode_len();
    let mut out: Vec<String> = Vec::new();
    let mut cur: usize = 0;
    proof {
        assert(out.deep_view() + split_from(s@, 0) =~= split_from(s@, 0));
    }
    loop
        invariant
            cur <= n,
            n == s@.len(),
            split_lines(s@) == out.deep_view() + split_from(s@, cur as int),
        decreases n - cur,
    {
        let mut e: usize = cur;
        let mut line = String::new();
        proof {
            assert(line@ =~= s@.subrange(cur as int, cur as int));
        }
        loop
            invariant
                cur <= e <= n,
                n == s@.len(),
                line@ == s@.subrange(cur as int, e as int),
                forall|k: int| cur <= k < e ==> #[trigger] s@[k] != '\n',
            ensures
                cur <= e <= n,
                line@ == s@.subrange(cur as int, e as int),
                forall|k: int| cur <= k < e ==> #[trigger] s@[k] != '\n',
                e == n || s@[e as int] == '\n',
            decreases n - e,
        {
            if e >= n {
                break;
            }
            let c = s.get_char(e);
            if c == '\n' {
                break;
            }
            line.push(c);
            proof {
                assert(line@ =~= s@.subrange(cur as int, e + 1));
            }
            e = e + 1;
        }
        proof {
            lemma_line_end_of(s@, cur as int, e as int);
        }
        let ghost prev = out.deep_view();
        let ghost lv = line@;
        out.push(line);
        proof {
            assert(out.deep_view() =~= prev.push(lv));
        }
        if e >= n {
            proof {
                assert(split_from(s@, cur as int) == seq![s@.subrange(cur as int, e as int)]);
                assert(prev + seq![lv] =~= out.deep_view());
            }
            return out;
        }
        proof {
            assert(split_from(s@, cur as int) == seq![s@.subrange(cur as int, e as int)]
                + split_from(s@, e + 1));
            match split_from(s@, e + 1) {
                rest => {
                    assert(prev + (seq![lv] + rest) =~= out.deep_view() + rest);
                },
            }
        }
        cur = e + 1;
    }
}

/// The heading row of one post: its author, and who reshared it if anyone.
pub open spec fn header_of(m: TweetViewModel) -> Seq<char> {
    m.user_name + (match m.retweet_user_name {
        Some(u) => seq![' ', '🔁', ' '] + u + seq![' ', 'R', 'e', 't', 'w', 'e', 'e', 't', 'e', 'd'],
        None => Seq::<char>::empty(),
    })
}

/// The counters row of one post.
pub open spec fn info_of(m: TweetViewModel) -> Seq<char> {
    seq!['🔁', ' '] + dec_rep(m.retweet_count as nat) + seq![' ', '❤', '\u{fe0f}', ' '] + dec_rep(
        m.favorite_count as nat,
    )
}

/// The rows one post contributes to the display: expanded, a heading, the
/// text wrapped to the width, the counters and a blank row; compact, the one
/// standard line.
pub open spec fn rows_of(m: TweetViewModel, width: int, expanded: bool) -> Seq<Seq<char>> {
    if expanded {
        seq![header_of(m)] + split_lines(wrapped_of(m.tweet, width)) + seq![
            info_of(m),
            Seq::<char>::empty(),
        ]
    } else {
        seq![standard_line_of(m)]
    }
}

impl TweetView {
    /// The rows this record contributes to the display.
    pub fn to_rows(&self, width: usize, expanded: bool) -> (rows: Vec<String>)
        ensures
            rows.deep_view() == rows_of(self@, width as int, expanded),
    {
        let mut rows: Vec<String> = Vec::new();
        if !expanded {
            let line = self.render_standard_line();
            let ghost lv = line@;
            rows.push(line);
            proof {
                assert(rows.deep_view() =~= seq![lv]);
            }
            return rows;
        }
        let mut header = String::new();
        header.append(self.user_name.as_str());
        match &self.retweet_user_name {
            Some(u) => {
                header.append(" 🔁 ");
                header.append(u.as_str());
                header.append(" Retweeted");
            },
            None => {},
        }
        proof {
            reveal_strlit(" 🔁 ");
            reveal_strlit(" Retweeted");
            assert(" 🔁 "@ =~= seq![' ', '🔁', ' ']);
            assert(" Retweeted"@ =~= seq![' ', 'R', 'e', 't', 'w', 'e', 'e', 't', 'e', 'd']);
            assert(header@ =~= header_of(self@));
        }
        let ghost hv = header@;
        rows.push(header);
        let wrapped = fill_text(self.tweet.as_str(), width);
        let lines = split_lines_exec(wrapped.as_str());
        let mut i: usize = 0;
        while i < lines.len()
            invariant
                i <= lines.len(),
                hv == header_of(self@),
                lines.deep_view() == split_lines(wrapped_of(self@.tweet, width as int)),
                rows.deep_view() =~= seq![hv] + lines.deep_view().take(i as int),
            decreases lines.len() - i,
        {
            let line = lines[i].clone();
            let ghost lv = line@;
            let ghost prev = rows.deep_view();
            rows.push(line);
            proof {
                assert(rows.deep_view() =~= prev.push(lv));
                assert(seq![hv] + lines.deep_view().take(i + 1) =~= prev.push(lv));
            }
            i = i + 1;
        }
        proof {
            assert(lines.deep_view().take(lines.len() as int) =~= lines.deep_view());
        }
        let mut info = String::new();
        info.append("🔁 ");
        let rc = u64_to_dec(self.retweet_count);
        info.append(rc.as_str());
        info.append(" ❤️ ");
        let fc = u64_to_dec(self.favorite_count);
        info.append(fc.as_str());
        proof {
            reveal_strlit("🔁 ");
            reveal_strlit(" ❤️ ");
            assert("🔁 "@ =~= seq!['🔁', ' ']);
            assert(" ❤️ "@ =~= seq![' ', '❤', '\u{fe0f}', ' ']);
            assert(info@ =~= info_of(self@));
        }
        let ghost iv = info@;
        let ghost prev2 = rows.deep_view();
        rows.push(info);
        rows.push(String::new());
        proof {
            assert(rows.deep_view() =~= prev2 + seq![iv, Seq::<char>::empty()]);
            assert(rows.deep_view() =~= rows_of(self@, width as int, true));
        }
        rows
    }
}

/// The rows a whole post list contributes, newest first.
pub open spec fn posts_rows(ps: Seq<PostView>, width: int, expanded: bool) -> Seq<Seq<char>>
    decreases ps.len(),
{
    if ps.len() == 0 {
        Seq::<Seq<char>>::empty()
    } else {
        rows_of(project(ps[0]), width, expanded) + posts_rows(ps.skip(1), width, expanded)
    }
}

proof fn lemma_posts_rows_concat(a: Seq<PostView>, b: Seq<PostView>, width: int, expanded: bool)
    ensures
        posts_rows(a + b, width, expanded) == posts_rows(a, width, expanded) + posts_rows(
            b,
            width,
            expanded,
        ),
    decreases a.len(),
{
    if a.len() == 0 {
        assert(a + b =~= b);
        assert(posts_rows(a, width, expanded) + posts_rows(b, width, expanded) =~= posts_rows(
            b,
            width,
            expanded,
        ));
    } else {
        assert((a + b).skip(1) =~= a.skip(1) + b);
        lemma_posts_rows_concat(a.skip(1), b, width, expanded);
        assert(posts_rows(a + b, width, expanded) =~= rows_of(project(a[0]), width, expanded) + (
        posts_rows(a.skip(1), width, expanded) + posts_rows(b, width, expanded)));
        assert(posts_rows(a, width, expanded) + posts_rows(b, width, expanded) =~= rows_of(
            project(a[0]),
            width,
            expanded,
        ) + (posts_rows(a.skip(1), width, expanded) + posts_rows(b, width, expanded)));
    }
}

/// The single displayable-rows transform of the post list: a pure projection,
/// with the compact or expanded variant chosen by a flag.
pub fn timeline_rows(posts: &Vec<Post>, width: usize, expanded: bool) -> (rows: Vec<String>)
    ensures
        rows.deep_view() == posts_rows(posts.deep_view(), width as int, expanded),
{
    let ghost dv = posts.deep_view();
    let mut rows: Vec<String> = Vec::new();
    let mut i: usize = 0;
    proof {
        assert(posts_rows(dv.take(0), width as int, expanded) =~= Seq::<Seq<char>>::empty());
        assert(rows.deep_view() =~= posts_rows(dv.take(0), width as int, expanded));
    }
    while i < posts.len()
        invariant
            i <= posts.len(),
            dv == posts.deep_view(),
            rows.deep_view() == posts_rows(dv.take(i as int), width as int, expanded),
        decreases posts.len() - i,
    {
        let tv = TweetView::from_post(&posts[i]);
        let mut part = tv.to_rows(width, expanded);
        let ghost prev = rows.deep_view();
        let ghost pv = part.deep_view();
        rows.append(&mut part);
        proof {
            assert(rows.deep_view() =~= prev + pv);
            assert(dv.take(i + 1) =~= dv.take(i as int) + seq![dv[i as int]]);
            lemma_posts_rows_concat(dv.take(i as int), seq![dv[i as int]], width as int, expanded);
            assert(seq![dv[i as int]].skip(1) =~= Seq::<PostView>::empty());
            assert(posts_rows(Seq::<PostView>::empty(), width as int, expanded)
                == Seq::<Seq<char>>::empty());
            assert(posts_rows(seq![dv[i as int]], width as int, expanded) =~= rows_of(
                project(dv[i as int]),
                width as int,
                expanded,
            ));
            assert(rows.deep_view() =~= posts_rows(dv.take(i + 1), width as int, expanded));
        }
        i = i + 1;
    }
    proof {
        assert(dv.take(posts.len() as int) =~= dv);
    }
    rows
}

} // verus!

//! The request parser: turns the received bytes into a structured
//! request. The text is split into lines; the first line gives the
//! method and the target, the lines up to the first blank line give
//! the headers, and the remaining lines, joined with a newline, give
//! the body. Bytes that are not UTF-8 parse as the empty text rather
//! than failing.

use vstd::prelude::*;
use vstd::utf8::decode_utf8;
use vstd::utf8::valid_utf8;

verus! {

/// A whitespace character, as the request-line splitting sees it
/// (the Unicode white-space set).
pub open spec fn sp_is_ws(c: char) -> bool {
    c == ' ' || c == '\u{0009}' || c == '\u{000A}' || c == '\u{000B}' || c == '\u{000C}' || c
        == '\u{000D}' || c == '\u{0085}' || c == '\u{00A0}' || c == '\u{1680}' || c == '\u{2000}'
        || c == '\u{2001}' || c == '\u{2002}' || c == '\u{2003}' || c == '\u{2004}' || c
        == '\u{2005}' || c == '\u{2006}' || c == '\u{2007}' || c == '\u{2008}' || c == '\u{2009}'
        || c == '\u{200A}' || c == '\u{2028}' || c == '\u{2029}' || c == '\u{202F}' || c
        == '\u{205F}' || c == '\u{3000}'
}

/// The first position of a character, if it occurs.
pub open spec fn sp_find_char(t: Seq<char>, c: char) -> Option<int>
    decreases t.len(),
{
    if t.len() == 0 {
        None
    } else if t[0] == c {
        Some(0)
    } else {
        match sp_find_char(t.drop_first(), c) {
            Some(i) => Some(i + 1),
            None => None,
        }
    }
}

pub proof fn lemma_sp_find_char_facts(t: Seq<char>, c: char)
    ensures
        match sp_find_char(t, c) {
            Some(i) => 0 <= i < t.len() && t[i] == c && forall|j: int| 0 <= j < i ==> t[j] != c,
            None => forall|j: int| 0 <= j < t.len() ==> t[j] != c,
        },
    decreases t.len(),
{
    if t.len() > 0 && t[0] != c {
        lemma_sp_find_char_facts(t.drop_first(), c);
        assert forall|j: int| 1 <= j < t.len() implies t[j] == t.drop_first()[j - 1] by {}
    }
}

/// The lines of a text: split at each newline, with a carriage
/// return dropped when it stands right before the newline; the last
/// line needs no newline, and a trailing newline adds no empty line.
pub open spec fn sp_lines(t: Seq<char>) -> Seq<Seq<char>>
    decreases t.len(),
    via sp_lines_decreases
{
    if t.len() == 0 {
        Seq::empty()
    } else {
        match sp_find_char(t, '\n') {
            None => seq![t],
            Some(i) => {
                let line = if i > 0 && t[i - 1] == '\r' {
                    t.take(i - 1)
                } else {
                    t.take(i)
                };
                seq![line] + sp_lines(t.skip(i + 1))
            },
        }
    }
}

#[via_fn]
proof fn sp_lines_decreases(t: Seq<char>) {
    lemma_sp_find_char_facts(t, '\n');
}

/// How many whitespace characters the text starts with.
pub open spec fn sp_ws_run(t: Seq<char>) -> nat
    decreases t.len(),
{
    if t.len() == 0 || !sp_is_ws(t[0]) {
        0
    } else {
        1 + sp_ws_run(t.drop_first())
    }
}

/// How many non-whitespace characters the text starts with.
pub open spec fn sp_tok_run(t: Seq<char>) -> nat
    decreases t.len(),
{
    if t.len() == 0 || sp_is_ws(t[0]) {
        0
    } else {
        1 + sp_tok_run(t.drop_first())
    }
}

/// The first whitespace-separated token of the request line; empty
/// when there is none.
pub open spec fn sp_method_of(rl: Seq<char>) -> Seq<char> {
    let a = rl.skip(sp_ws_run(rl) as int);
    a.take(sp_tok_run(a) as int)
}

/// The second whitespace-separated token of the request line; `/`
/// when there is none.
pub open spec fn sp_url_of(rl: Seq<char>) -> Seq<char> {
    let a = rl.skip(sp_ws_run(rl) as int);
    let b0 = a.skip(sp_tok_run(a) as int);
    let b = b0.skip(sp_ws_run(b0) as int);
    if b.len() == 0 {
        "/"@
    } else {
        b.take(sp_tok_run(b) as int)
    }
}

/// The first position of the header separator `": "`, if it occurs.
pub open spec fn sp_find_sep(t: Seq<char>) -> Option<int>
    decreases t.len(),
{
    if t.len() < 2 {
        None
    } else if t[0] == ':' && t[1] == ' ' {
        Some(0)
    } else {
        match sp_find_sep(t.drop_first()) {
            Some(i) => Some(i + 1),
            None => None,
        }
    }
}

/// A header line split at the first `": "`; nothing when the line
/// has no such separator.
pub open spec fn sp_split_header(line: Seq<char>) -> Option<(Seq<char>, Seq<char>)> {
    match sp_find_sep(line) {
        Some(i) => Some((line.take(i), line.skip(i + 2))),
        None => None,
    }
}

/// The header pairs from the lines up to the first blank line (a
/// line without the separator is dropped), and the lines after it.
pub open spec fn sp_headers(ls: Seq<Seq<char>>) -> (Seq<(Seq<char>, Seq<char>)>, Seq<Seq<char>>)
    decreases ls.len(),
{
    if ls.len() == 0 {
        (Seq::empty(), Seq::empty())
    } else if ls[0].len() == 0 {
        (Seq::empty(), ls.drop_first())
    } else {
        let rec = sp_headers(ls.drop_first());
        match sp_split_header(ls[0]) {
            Some(kv) => (seq![kv] + rec.0, rec.1),
            None => rec,
        }
    }
}

/// The value under a header name; later lines win over earlier ones.
pub open spec fn sp_lookup(headers: Seq<(Seq<char>, Seq<char>)>, key: Seq<char>) -> Option<
    Seq<char>,
>
    decreases headers.len(),
{
    if headers.len() == 0 {
        None
    } else if headers.last().0 == key {
        Some(headers.last().1)
    } else {
        sp_lookup(headers.drop_last(), key)
    }
}

/// Lines joined back with a newline.
pub open spec fn sp_join_lines(ls: Seq<Seq<char>>) -> Seq<char>
    decreases ls.len(),
{
    if ls.len() == 0 {
        Seq::empty()
    } else if ls.len() == 1 {
        ls[0]
    } else {
        ls[0] + seq!['\n'] + sp_join_lines(ls.drop_first())
    }
}

/// The mathematical content of a parsed request.
pub struct RequestView {
    pub method: Seq<char>,
    pub path: Seq<char>,
    pub query: Option<Seq<char>>,
    pub headers: Seq<(Seq<char>, Seq<char>)>,
    pub body: Seq<char>,
}

/// What parsing a request text yields.
pub open spec fn sp_parse_request(t: Seq<char>) -> RequestView {
    let ls = sp_lines(t);
    let rl = if ls.len() > 0 {
        ls[0]
    } else {
        Seq::empty()
    };
    let url = sp_url_of(rl);
    let rest = if ls.len() > 0 {
        ls.drop_first()
    } else {
        Seq::empty()
    };
    let hb = sp_headers(rest);
    RequestView {
        method: sp_method_of(rl),
        path: match sp_find_char(url, '?') {
            Some(i) => url.take(i),
            None => url,
        },
        query: match sp_find_char(url, '?') {
            Some(i) => Some(url.skip(i + 1)),
            None => None,
        },
        headers: hb.0,
        body: sp_join_lines(hb.1),
    }
}

/// The content type of a request: its `Content-Type` header, or
/// `text/plain` when that header is absent.
pub open spec fn sp_content_type(r: RequestView) -> Seq<char> {
    match sp_lookup(r.headers, "Content-Type"@) {
        Some(v) => v,
        None => "text/plain"@,
    }
}

proof fn lemma_ws_run_all(s: Seq<char>)
    requires
        forall|j: int| 0 <= j < s.len() ==> sp_is_ws(#[trigger] s[j]),
    ensures
        sp_ws_run(s) == s.len(),
    decreases s.len(),
{
    if s.len() > 0 {
        lemma_ws_run_all(s.drop_first());
    }
}

/// A request line without a recognizable method or target — one with
/// no whitespace-separated tokens at all — parses to the empty
/// method, the path `/`, and no query.
pub proof fn lemma_unrecognizable_request_line(t: Seq<char>)
    requires
        ({
            let ls = sp_lines(t);
            ls.len() == 0 || (forall|j: int| 0 <= j < ls[0].len() ==> sp_is_ws(#[trigger] ls[0][j]))
        }),
    ensures
        sp_parse_request(t).method == Seq::<char>::empty(),
        sp_parse_request(t).path == "/"@,
        sp_parse_request(t).query is None,
{
    reveal_strlit("/");
    let ls = sp_lines(t);
    let rl = if ls.len() > 0 {
        ls[0]
    } else {
        Seq::<char>::empty()
    };
    lemma_ws_run_all(rl);
    let a = rl.skip(sp_ws_run(rl) as int);
    assert(a =~= Seq::<char>::empty());
    assert(sp_tok_run(a) == 0);
    assert(sp_method_of(rl) =~= Seq::<char>::empty());
    let b0 = a.skip(sp_tok_run(a) as int);
    assert(b0 =~= Seq::<char>::empty());
    let b = b0.skip(sp_ws_run(b0) as int);
    assert(b =~= Seq::<char>::empty());
    assert(sp_url_of(rl) == "/"@);
    assert("/"@.len() == 1);
    assert("/"@.drop_first() =~= Seq::<char>::empty());
    assert("/"@[0] == '/');
    assert(sp_find_char(Seq::<char>::empty(), '?') is None);
    assert(sp_find_char("/"@, '?') is None);
}

/// A header line without the exact `": "` separator is dropped: with
/// such a line put anywhere into the header block, the lines parse
/// to the same headers and the same body as without it.
pub proof fn lemma_junk_header_line_dropped(ls: Seq<Seq<char>>, junk: Seq<char>, i: int)
    requires
        0 <= i <= ls.len(),
        forall|j: int| 0 <= j < i ==> (#[trigger] ls[j]).len() > 0,
        junk.len() > 0,
        sp_find_sep(junk) is None,
    ensures
        sp_headers(ls.insert(i, junk)) == sp_headers(ls),
    decreases i,
{
    let lsi = ls.insert(i, junk);
    if i == 0 {
        assert(lsi[0] == junk);
        assert(lsi.drop_first() =~= ls);
    } else {
        assert(lsi[0] == ls[0]);
        assert(lsi.drop_first() =~= ls.drop_first().insert(i - 1, junk));
        assert forall|j: int| 0 <= j < i - 1 implies (#[trigger] ls.drop_first()[j]).len() > 0 by {
            assert(ls.drop_first()[j] == ls[j + 1]);
        }
        lemma_junk_header_line_dropped(ls.drop_first(), junk, i - 1);
    }
}

/// The received bytes as text: their UTF-8 decoding, or the empty
/// text when they are not UTF-8.
pub open spec fn sp_request_text(bytes: Seq<u8>) -> Seq<char> {
    if valid_utf8(bytes) {
        decode_utf8(bytes)
    } else {
        Seq::empty()
    }
}

/// A request as parsed from the received bytes: the method and path
/// of the request line, the query text when the target had one, the
/// header pairs in line order, and the body.
pub struct ParsedRequest {
    pub method: String,
    pub path: String,
    pub query: Option<String>,
    pub headers: Vec<(String, String)>,
    pub body: String,
}

/// The view of a header vector as a sequence of text pairs.
pub open spec fn sp_header_pairs(v: Seq<(String, String)>) -> Seq<(Seq<char>, Seq<char>)> {
    Seq::new(v.len(), |i: int| (v[i].0@, v[i].1@))
}

impl View for ParsedRequest {
    type V = RequestView;

    open spec fn view(&self) -> RequestView {
        RequestView {
            method: self.method@,
            path: self.path@,
            query: match self.query {
                Some(q) => Some(q@),
                None => None,
            },
            headers: sp_header_pairs(self.headers@),
            body: self.body@,
        }
    }
}

/// Whether a character is whitespace for request-line splitting.
fn is_ws(c: char) -> (r: bool)
    ensures
        r == sp_is_ws(c),
{
    c == ' ' || c == '\u{0009}' || c == '\u{000A}' || c == '\u{000B}' || c == '\u{000C}' || c
        == '\u{000D}' || c == '\u{0085}' || c == '\u{00A0}' || c == '\u{1680}' || c == '\u{2000}'
        || c == '\u{2001}' || c == '\u{2002}' || c == '\u{2003}' || c == '\u{2004}' || c
        == '\u{2005}' || c == '\u{2006}' || c == '\u{2007}' || c == '\u{2008}' || c == '\u{2009}'
        || c == '\u{200A}' || c == '\u{2028}' || c == '\u{2029}' || c == '\u{202F}' || c
        == '\u{205F}' || c == '\u{3000}'
}

/// The first position of a character in a text.
pub(crate) fn find_char(t: &str, c: char) -> (r: Option<usize>)
    ensures
        match r {
            Some(i) => i < t@.len() && sp_find_char(t@, c) == Some(i as int),
            None => sp_find_char(t@, c) is None,
        },
    decreases t@.len(),
{
    let n = t.unicode_len();
    if n == 0 {
        None
    } else if t.get_char(0) == c {
        Some(0)
    } else {
        let tail = t.substring_char(1, n);
        proof {
            assert(tail@ =~= t@.drop_first());
        }
        match find_char(tail, c) {
            Some(i) => Some(i + 1),
            None => None,
        }
    }
}

/// The lines of a text.
fn split_lines(t: &str) -> (r: Vec<String>)
    ensures
        r.deep_view() == sp_lines(t@),
    decreases t@.len(),
{
    let n = t.unicode_len();
    let mut out: Vec<String> = Vec::new();
    if n == 0 {
        proof {
            assert(out.deep_view() =~= sp_lines(t@));
        }
        return out;
    }
    match find_char(t, '\n') {
        None => {
            out.push(String::from_str(t));
            proof {
                assert(out.deep_view() =~= seq![t@]);
            }
            out
        },
        Some(i) => {
            let line = if i > 0 && t.get_char(i - 1) == '\r' {
                t.substring_char(0, i - 1)
            } else {
                t.substring_char(0, i)
            };
            let rest = t.substring_char(i + 1, n);
            proof {
                assert(rest@ =~= t@.skip(i + 1));
            }
            let mut tail_lines = split_lines(rest);
            out.push(String::from_str(line));
            let ghost head_view: Seq<char> = line@;
            let ghost tail_views: Seq<Seq<char>> = tail_lines.deep_view();
            out.append(&mut tail_lines);
            proof {
                assert forall|k: int|
                    0 <= k < out.deep_view().len() implies #[trigger] out.deep_view()[k] == (seq![
                    head_view,
                ] + tail_views)[k] by {
                    assert(out.deep_view()[k] == out@[k].deep_view());
                }
                assert(out.deep_view() =~= seq![head_view] + tail_views);
            }
            out
        },
    }
}

/// How many whitespace characters the text starts with.
fn ws_run(t: &str) -> (k: usize)
    ensures
        k as nat == sp_ws_run(t@),
        k <= t@.len(),
    decreases t@.len(),
{
    let n = t.unicode_len();
    if n == 0 || !is_ws(t.get_char(0)) {
        0
    } else {
        let tail = t.substring_char(1, n);
        proof {
            assert(tail@ =~= t@.drop_first());
        }
        1 + ws_run(tail)
    }
}

/// How many non-whitespace characters the text starts with.
fn tok_run(t: &str) -> (k: usize)
    ensures
        k as nat == sp_tok_run(t@),
        k <= t@.len(),
    decreases t@.len(),
{
    let n = t.unicode_len();
    if n == 0 || is_ws(t.get_char(0)) {
        0
    } else {
        let tail = t.substring_char(1, n);
        proof {
            assert(tail@ =~= t@.drop_first());
        }
        1 + tok_run(tail)
    }
}

/// The first two whitespace-separated tokens of the request line:
/// the method, or empty, and the target, or `/`.
fn request_line_tokens(rl: &str) -> (r: (String, String))
    ensures
        r.0@ == sp_method_of(rl@),
        r.1@ == sp_url_of(rl@),
{
    let n = rl.unicode_len();
    let w1 = ws_run(rl);
    let a = rl.substring_char(w1, n);
    proof {
        assert(a@ =~= rl@.skip(sp_ws_run(rl@) as int));
    }
    let an = a.unicode_len();
    let k1 = tok_run(a);
    let method = String::from_str(a.substring_char(0, k1));
    proof {
        assert(method@ =~= sp_method_of(rl@));
    }
    let b0 = a.substring_char(k1, an);
    proof {
        assert(b0@ =~= a@.skip(sp_tok_run(a@) as int));
    }
    let b0n = b0.unicode_len();
    let w2 = ws_run(b0);
    let b = b0.substring_char(w2, b0n);
    proof {
        assert(b@ =~= b0@.skip(sp_ws_run(b0@) as int));
    }
    let bn = b.unicode_len();
    let url = if bn == 0 {
        String::from_str("/")
    } else {
        let k2 = tok_run(b);
        String::from_str(b.substring_char(0, k2))
    };
    proof {
        assert(url@ =~= sp_url_of(rl@));
    }
    (method, url)
}

/// The first position of the header separator `": "` in a line.
fn find_sep(t: &str) -> (r: Option<usize>)
    ensures
        match r {
            Some(i) => i + 2 <= t@.len() && sp_find_sep(t@) == Some(i as int),
            None => sp_find_sep(t@) is None,
        },
    decreases t@.len(),
{
    let n = t.unicode_len();
    if n < 2 {
        None
    } else if t.get_char(0) == ':' && t.get_char(1) == ' ' {
        Some(0)
    } else {
        let tail = t.substring_char(1, n);
        proof {
            assert(tail@ =~= t@.drop_first());
        }
        match find_sep(tail) {
            Some(i) => Some(i + 1),
            None => None,
        }
    }
}

/// A header line split at the first `": "`.
fn split_header(line: &str) -> (r: Option<(String, String)>)
    ensures
        match r {
            Some(kv) => sp_split_header(line@) == Some((kv.0@, kv.1@)),
            None => sp_split_header(line@) is None,
        },
{
    let n = line.unicode_len();
    match find_sep(line) {
        None => None,
        Some(i) => {
            let key = String::from_str(line.substring_char(0, i));
            let value = String::from_str(line.substring_char(i + 2, n));
            proof {
                assert(key@ =~= line@.take(i as int));
                assert(value@ =~= line@.skip(i + 2));
            }
            Some((key, value))
        },
    }
}

/// The remaining lines joined with a newline.
fn join_lines(lines: &Vec<String>, from: usize) -> (r: String)
    requires
        from <= lines@.len(),
    ensures
        r@ == sp_join_lines(lines.deep_view().skip(from as int)),
    decreases lines@.len() - from,
{
    if from == lines.len() {
        proof {
            assert(lines.deep_view().skip(from as int) =~= Seq::<Seq<char>>::empty());
        }
        String::new()
    } else if from + 1 == lines.len() {
        proof {
            assert(lines.deep_view().skip(from as int).len() == 1);
            assert(lines.deep_view().skip(from as int)[0] == lines@[from as int]@);
        }
        lines[from].clone()
    } else {
        let mut out = lines[from].clone();
        out.append("\n");
        let tail = join_lines(lines, from + 1);
        out.append(tail.as_str());
        proof {
            reveal_strlit("\n");
            assert(lines.deep_view().skip(from as int)[0] == lines@[from as int]@);
            assert(lines.deep_view().skip(from as int).drop_first() =~= lines.deep_view().skip(
                from as int + 1,
            ));
            assert(out@ =~= sp_join_lines(lines.deep_view().skip(from as int)));
        }
        out
    }
}

/// The header pairs from the lines from the given position up to the
/// first blank line, and the body joined from the lines after it.
fn parse_headers(lines: &Vec<String>, from: usize) -> (r: (Vec<(String, String)>, String))
    requires
        from <= lines@.len(),
    ensures
        ({
            let hb = sp_headers(lines.deep_view().skip(from as int));
            sp_header_pairs(r.0@) == hb.0 && r.1@ == sp_join_lines(hb.1)
        }),
    decreases lines@.len() - from,
{
    if from == lines.len() {
        let empty_headers: Vec<(String, String)> = Vec::new();
        proof {
            assert(lines.deep_view().skip(from as int) =~= Seq::<Seq<char>>::empty());
            assert(sp_header_pairs(empty_headers@) =~= Seq::<(Seq<char>, Seq<char>)>::empty());
        }
        (empty_headers, String::new())
    } else if lines[from].as_str().unicode_len() == 0 {
        let empty_headers: Vec<(String, String)> = Vec::new();
        let body = join_lines(lines, from + 1);
        proof {
            assert(lines.deep_view().skip(from as int)[0] == lines@[from as int]@);
            assert(lines.deep_view().skip(from as int).drop_first() =~= lines.deep_view().skip(
                from as int + 1,
            ));
            assert(sp_header_pairs(empty_headers@) =~= Seq::<(Seq<char>, Seq<char>)>::empty());
        }
        (empty_headers, body)
    } else {
        let (mut hs, body) = parse_headers(lines, from + 1);
        proof {
            assert(lines.deep_view().skip(from as int)[0] == lines@[from as int]@);
            assert(lines.deep_view().skip(from as int).drop_first() =~= lines.deep_view().skip(
                from as int + 1,
            ));
        }
        match split_header(lines[from].as_str()) {
            Some((key, value)) => {
                let ghost tail_pairs: Seq<(String, String)> = hs@;
                hs.insert(0, (key, value));
                proof {
                    let hb = sp_headers(lines.deep_view().skip(from as int));
                    assert forall|k: int|
                        0 <= k < sp_header_pairs(hs@).len() implies #[trigger] sp_header_pairs(hs@)[k]
                        == hb.0[k] by {
                        if k > 0 {
                            assert(hs@[k] == tail_pairs[k - 1]);
                            assert(sp_header_pairs(tail_pairs)[k - 1] == (tail_pairs[k - 1].0@,
                            tail_pairs[k - 1].1@));
                        }
                    }
                    assert(sp_header_pairs(hs@) =~= hb.0);
                }
                (hs, body)
            },
            None => (hs, body),
        }
    }
}

/// Parses a request text into its parts.
pub fn parse_request_text(t: &str) -> (r: ParsedRequest)
    ensures
        r@ == sp_parse_request(t@),
{
    proof {
        reveal_strlit("");
    }
    let lines = split_lines(t);
    let (method, url) = if lines.len() > 0 {
        request_line_tokens(lines[0].as_str())
    } else {
        let pair = request_line_tokens("");
        proof {
            assert(""@ =~= Seq::<char>::empty());
        }
        pair
    };
    let un = url.as_str().unicode_len();
    let (path, query) = match find_char(url.as_str(), '?') {
        Some(i) => {
            let p = String::from_str(url.as_str().substring_char(0, i));
            let q = String::from_str(url.as_str().substring_char(i + 1, un));
            proof {
                assert(q@ =~= url@.skip(i + 1));
            }
            (p, Some(q))
        },
        None => (url, None),
    };
    let start: usize = if lines.len() > 0 {
        1
    } else {
        0
    };
    let (headers, body) = parse_headers(&lines, start);
    proof {
        if lines.deep_view().len() > 0 {
            assert(lines.deep_view().skip(1) =~= lines.deep_view().drop_first());
        } else {
            assert(lines.deep_view().skip(0) =~= Seq::<Seq<char>>::empty());
        }
    }
    ParsedRequest { method, path, query, headers, body }
}

/// Relies on core::str::from_utf8: it succeeds exactly on UTF-8
/// input and gives its decoding.
#[verifier::external_body]
fn bytes_to_text(bytes: &[u8]) -> (r: Option<String>)
    ensures
        match r {
            Some(s) => valid_utf8(bytes@) && s@ == decode_utf8(bytes@),
            None => !valid_utf8(bytes@),
        },
{
    match core::str::from_utf8(bytes) {
        Ok(s) => Some(s.to_owned()),
        Err(_) => None,
    }
}

/// Parses the first `length` received bytes as a request; bytes that
/// are not UTF-8 parse as the empty text.
pub fn parse_request(buffer: &[u8], length: usize) -> (r: ParsedRequest)
    requires
        length <= buffer@.len(),
    ensures
        r@ == sp_parse_request(sp_request_text(buffer@.take(length as int))),
{
    proof {
        reveal_strlit("");
    }
    let received = vstd::slice::slice_subrange(buffer, 0, length);
    proof {
        assert(received@ =~= buffer@.take(length as int));
    }
    match bytes_to_text(received) {
        Some(s) => parse_request_text(s.as_str()),
        None => {
            let r = parse_request_text("");
            proof {
                assert(""@ =~= Seq::<char>::empty());
            }
            r
        },
    }
}

} // verus!

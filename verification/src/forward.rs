//! The host side of the forward protocol that serves a filesystem to the
//! in-guest FUSE forwarder over a tiny HTTP/1.1 API: locating the end of the
//! request head, parsing the request line, headers and query string,
//! choosing the operation, and rendering the response head.

use vstd::prelude::*;
use vstd::utf8::{decode_utf8, valid_utf8};

use crate::strmap::StrMap;
use crate::text::{
    chars_eq, chars_of, has_char, parse_int_spec, push_str, split_chars, split_on,
    str_eq, string_of, sub_chars, trim, trim_ws, views,
};

verus! {

/// Whether `needle` occurs in `hay` at index `i`.
pub open spec fn occurs_at(hay: Seq<u8>, needle: Seq<u8>, i: int) -> bool {
    0 <= i && i + needle.len() <= hay.len() && hay.subrange(i, i + needle.len()) == needle
}

/// Index of the first occurrence of a non-empty `needle` in `hay`.
pub fn find_subslice(hay: &[u8], needle: &[u8]) -> (r: Option<usize>)
    requires
        needle@.len() > 0,
    ensures
        match r {
            Some(i) => occurs_at(hay@, needle@, i as int) && forall|j: int|
                0 <= j < i ==> !#[trigger] occurs_at(hay@, needle@, j),
            None => forall|j: int| !#[trigger] occurs_at(hay@, needle@, j),
        },
{
    if needle.len() > hay.len() {
        assert forall|j: int| !#[trigger] occurs_at(hay@, needle@, j) by {}
        return None;
    }
    let hl = hay.len();
    let last = hl - needle.len();
    let mut i: usize = 0;
    while i <= last
        invariant
            last == hay@.len() - needle@.len(),
            needle@.len() > 0,
            needle@.len() <= hay@.len(),
            hl == hay@.len(),
            i <= last + 1,
            forall|j: int| 0 <= j < i ==> !#[trigger] occurs_at(hay@, needle@, j),
        decreases last + 1 - i,
    {
        let mut k: usize = 0;
        let mut same = true;
        while k < needle.len()
            invariant
                i <= last,
                last == hay@.len() - needle@.len(),
                needle@.len() <= hay@.len(),
                needle@.len() > 0,
                hl == hay@.len(),
                k <= needle@.len(),
                same == forall|m: int| 0 <= m < k ==> hay@[i + m] == needle@[m],
            decreases needle@.len() - k,
        {
            if hay[i + k] != needle[k] {
                same = false;
            }
            k = k + 1;
        }
        if same {
            assert(hay@.subrange(i as int, i + needle@.len()) =~= needle@);
            return Some(i);
        }
        assert(!occurs_at(hay@, needle@, i as int)) by {
            if occurs_at(hay@, needle@, i as int) {
                assert forall|m: int| 0 <= m < needle@.len() implies hay@[i + m] == needle@[m] by {
                    assert(hay@.subrange(i as int, i + needle@.len())[m] == needle@[m]);
                }
            }
        }
        i = i + 1;
    }
    None
}

/// The value of an ASCII hex digit byte, if it is one (`char::to_digit(16)`).
pub open spec fn hex_value(b: u8) -> Option<u8> {
    if 48 <= b <= 57 {
        Some((b - 48) as u8)
    } else if 97 <= b <= 102 {
        Some((b - 87) as u8)
    } else if 65 <= b <= 70 {
        Some((b - 55) as u8)
    } else {
        None
    }
}

fn hex_value_exec(b: u8) -> (r: Option<u8>)
    ensures
        r == hex_value(b),
{
    if 48 <= b && b <= 57 {
        Some(b - 48)
    } else if 97 <= b && b <= 102 {
        Some(b - 87)
    } else if 65 <= b && b <= 70 {
        Some(b - 55)
    } else {
        None
    }
}

/// Percent-decoding of the bytes of a query component: `%XY` with two hex
/// digits (and at least one byte after it) becomes that byte, `+` a space,
/// every other byte itself.
pub open spec fn pct_decode_bytes(b: Seq<u8>) -> Seq<u8>
    decreases b.len(),
{
    if b.len() == 0 {
        b
    } else if b[0] == 37 && 2 < b.len() && hex_value(b[1]) is Some && hex_value(b[2]) is Some {
        seq![(hex_value(b[1])->0 * 16 + hex_value(b[2])->0) as u8] + pct_decode_bytes(b.skip(3))
    } else if b[0] == 43 {
        seq![32u8] + pct_decode_bytes(b.skip(1))
    } else {
        seq![b[0]] + pct_decode_bytes(b.skip(1))
    }
}

/// What `String::from_utf8_lossy` makes of `bytes`.
pub uninterp spec fn utf8_lossy_result(bytes: Seq<u8>) -> Seq<char>;

/// Calls `String::from_utf8_lossy`. Invalid sequences become U+FFFD; the
/// replacement rule is named, not restated. Its documented fact for valid
/// input is claimed: valid UTF-8 decodes unchanged.
#[verifier::external_body]
pub(crate) fn utf8_lossy(bytes: &[u8]) -> (r: String)
    ensures
        r@ == utf8_lossy_result(bytes@),
        valid_utf8(bytes@) ==> r@ == decode_utf8(bytes@),
{
    String::from_utf8_lossy(bytes).into_owned()
}

/// The decoded bytes of a query component.
pub fn percent_decode_bytes(bytes: &[u8]) -> (r: Vec<u8>)
    ensures
        r@ == pct_decode_bytes(bytes@),
{
    let mut out: Vec<u8> = Vec::new();
    let mut i: usize = 0;
    assert(bytes@.skip(0) =~= bytes@);
    while i < bytes.len()
        invariant
            i <= bytes@.len(),
            out@ + pct_decode_bytes(bytes@.skip(i as int)) == pct_decode_bytes(bytes@),
        decreases bytes@.len() - i,
    {
        let ghost rest = bytes@.skip(i as int);
        let b = bytes[i];
        assert(rest[0] == b);
        if b == 37 && bytes.len() - i > 2 {
            let hi = hex_value_exec(bytes[i + 1]);
            let lo = hex_value_exec(bytes[i + 2]);
            assert(rest[1] == bytes@[i + 1] && rest[2] == bytes@[i + 2]);
            if let (Some(h), Some(l)) = (hi, lo) {
                out.push(h * 16 + l);
                assert(rest.skip(3) =~= bytes@.skip(i + 3));
                i = i + 3;
                continue;
            }
            out.push(b);
            assert(rest.skip(1) =~= bytes@.skip(i + 1));
            i = i + 1;
        } else if b == 43 {
            out.push(32);
            assert(rest.skip(1) =~= bytes@.skip(i + 1));
            i = i + 1;
        } else {
            out.push(b);
            assert(rest.skip(1) =~= bytes@.skip(i + 1));
            i = i + 1;
        }
    }
    assert(bytes@.skip(i as int) =~= Seq::<u8>::empty());
    assert(out@ + Seq::<u8>::empty() =~= out@);
    out
}

/// The decoded text of a query component (lossily re-read as UTF-8).
pub open spec fn pct_decode_spec(s: Seq<char>) -> Seq<char> {
    utf8_lossy_result(pct_decode_bytes(vstd::utf8::encode_utf8(s)))
}

/// Percent-decode a query component. When the decoded bytes are valid
/// UTF-8 (always so for ASCII input), the result is exactly their decoding.
pub fn percent_decode(s: &str) -> (r: String)
    ensures
        r@ == pct_decode_spec(s@),
        valid_utf8(pct_decode_bytes(vstd::utf8::encode_utf8(s@))) ==> r@ == decode_utf8(
            pct_decode_bytes(vstd::utf8::encode_utf8(s@)),
        ),
{
    let out = percent_decode_bytes(s.as_bytes());
    utf8_lossy(&out)
}

/// Index of the first occurrence of `c` in `s`, when there is one.
pub open spec fn first_index(s: Seq<char>, c: char, i: int) -> bool {
    0 <= i < s.len() && s[i] == c && forall|j: int| 0 <= j < i ==> s[j] != c
}

/// `str::split_once(c)`.
pub open spec fn split_once_spec(s: Seq<char>, c: char) -> Option<(Seq<char>, Seq<char>)> {
    if has_char(s, c) {
        let i = choose|i: int| first_index(s, c, i);
        Some((s.subrange(0, i), s.subrange(i + 1, s.len() as int)))
    } else {
        None
    }
}

proof fn lemma_first_index_unique(s: Seq<char>, c: char, i: int, j: int)
    requires
        first_index(s, c, i),
        first_index(s, c, j),
    ensures
        i == j,
{
}

/// `str::split_once(c)` over characters.
pub fn split_once_chars(s: &[char], c: char) -> (r: Option<(Vec<char>, Vec<char>)>)
    ensures
        match r {
            Some((a, b)) => split_once_spec(s@, c) == Some((a@, b@)),
            None => split_once_spec(s@, c) is None,
        },
{
    let mut i: usize = 0;
    while i < s.len()
        invariant
            i <= s@.len(),
            forall|j: int| 0 <= j < i ==> s@[j] != c,
        decreases s@.len() - i,
    {
        if s[i] == c {
            assert(first_index(s@, c, i as int));
            assert(has_char(s@, c));
            proof {
                let k = choose|k: int| first_index(s@, c, k);
                lemma_first_index_unique(s@, c, i as int, k);
            }
            let a = sub_chars(s, 0, i);
            let b = sub_chars(s, i + 1, s.len());
            return Some((a, b));
        }
        i = i + 1;
    }
    None
}

/// The key and value a non-empty `k=v` pair denotes, before decoding: a pair
/// without `=` is a key with an empty value.
pub open spec fn pair_parts(pair: Seq<char>) -> (Seq<char>, Seq<char>) {
    match split_once_spec(pair, '=') {
        Some((k, v)) => (k, v),
        None => (pair, Seq::<char>::empty()),
    }
}

/// The map a query string denotes: its `&`-separated non-empty pairs, each
/// key and value percent-decoded, later keys overriding earlier ones.
pub open spec fn query_map_spec(pairs: Seq<Seq<char>>) -> Map<Seq<char>, Seq<char>>
    decreases pairs.len(),
{
    if pairs.len() == 0 {
        Map::empty()
    } else {
        let m = query_map_spec(pairs.drop_last());
        let p = pairs.last();
        if p.len() == 0 {
            m
        } else {
            m.insert(pct_decode_spec(pair_parts(p).0), pct_decode_spec(pair_parts(p).1))
        }
    }
}

/// Parse a query string into its decoded key/value map.
pub fn parse_query(query: &str) -> (r: StrMap)
    ensures
        r.wf(),
        r.view() == query_map_spec(split_on(query@, '&')),
{
    let q = chars_of(query);
    let pairs = split_chars(&q, '&');
    let ghost all = views(pairs@);
    let mut map = StrMap::new();
    let mut i: usize = 0;
    while i < pairs.len()
        invariant
            all == views(pairs@),
            all == split_on(query@, '&'),
            i <= pairs@.len(),
            map.wf(),
            map.view() == query_map_spec(all.subrange(0, i as int)),
        decreases pairs@.len() - i,
    {
        let pair = &pairs[i];
        let ghost pre = all.subrange(0, i as int);
        let ghost post = all.subrange(0, i + 1);
        assert(post.drop_last() =~= pre);
        assert(post.last() == pair@);
        if pair.len() > 0 {
            let (k, v) = match split_once_chars(pair, '=') {
                Some((a, b)) => (a, b),
                None => (sub_chars(pair, 0, pair.len()), Vec::new()),
            };
            assert(pair@.subrange(0, pair@.len() as int) =~= pair@);
            assert(k@ == pair_parts(pair@).0 && v@ == pair_parts(pair@).1);
            let ks = string_of(&k);
            let vs = string_of(&v);
            let kd = percent_decode(ks.as_str());
            let vd = percent_decode(vs.as_str());
            map.insert(kd, vd);
        }
        i = i + 1;
    }
    assert(all.subrange(0, pairs@.len() as int) =~= all);
    map
}

/// `s.split("\r\n")`: the lines of a request head. The separator cannot
/// overlap itself, so splitting at the last occurrence first gives the same
/// pieces as the left-to-right scan.
pub open spec fn split_crlf(s: Seq<char>) -> Seq<Seq<char>>
    decreases s.len(),
{
    if s.len() == 0 {
        seq![Seq::<char>::empty()]
    } else if s.len() >= 2 && s[s.len() - 2] == '\r' && s[s.len() - 1] == '\n' {
        split_crlf(s.subrange(0, s.len() - 2)).push(Seq::<char>::empty())
    } else {
        let p = split_crlf(s.drop_last());
        p.update(p.len() - 1, p.last().push(s.last()))
    }
}

proof fn lemma_split_crlf_nonempty(s: Seq<char>)
    ensures
        split_crlf(s).len() >= 1,
    decreases s.len(),
{
    if s.len() >= 2 && s[s.len() - 2] == '\r' && s[s.len() - 1] == '\n' {
        lemma_split_crlf_nonempty(s.subrange(0, s.len() - 2));
    } else if s.len() > 0 {
        lemma_split_crlf_nonempty(s.drop_last());
    }
}

/// The lines of `s`, split on `\r\n`.
pub fn split_lines(s: &[char]) -> (r: Vec<Vec<char>>)
    ensures
        views(r@) == split_crlf(s@),
{
    let mut done: Vec<Vec<char>> = Vec::new();
    let mut cur: Vec<char> = Vec::new();
    let mut i: usize = 0;
    while i < s.len()
        invariant
            i <= s@.len(),
            views(done@).push(cur@) == split_crlf(s@.subrange(0, i as int)),
            i > 0 && s@[i - 1] == '\r' ==> cur@.len() > 0 && cur@.last() == '\r',
            cur@.len() > 0 ==> i > 0 && cur@.last() == s@[i - 1],
        decreases s@.len() - i,
    {
        let c = s[i];
        let ghost pre = s@.subrange(0, i as int);
        let ghost post = s@.subrange(0, i + 1);
        assert(post.drop_last() =~= pre);
        let ghost old_done = views(done@);
        let ghost old_cur = cur@;
        if c == '\n' && cur.len() > 0 && cur[cur.len() - 1] == '\r' {
            proof {
                assert(i > 0);
                assert(s@[i - 1] == '\r');
                assert(post.subrange(0, post.len() - 2) =~= s@.subrange(0, i - 1));
                let q = s@.subrange(0, i - 1);
                assert(pre =~= q.push('\r'));
                assert(pre.drop_last() =~= q);
                assert(!(pre.len() >= 2 && pre[pre.len() - 2] == '\r' && pre[pre.len() - 1] == '\n'));
                lemma_split_crlf_nonempty(q);
            }
            cur.pop();
            let finished = cur;
            done.push(finished);
            cur = Vec::new();
            proof {
                let q = s@.subrange(0, i - 1);
                let pq = split_crlf(q);
                assert(split_crlf(pre) == pq.update(pq.len() - 1, pq.last().push('\r')));
                assert(old_done.push(old_cur) == pq.update(pq.len() - 1, pq.last().push('\r')));
                let x = old_done.push(old_cur);
                assert(x.len() == pq.len());
                assert forall|j: int| 0 <= j < old_done.len() implies old_done[j] == pq.drop_last()[j] by {
                    assert(x[j] == old_done[j]);
                    assert(x[j] == pq.update(pq.len() - 1, pq.last().push('\r'))[j]);
                }
                assert(old_done =~= pq.drop_last());
                assert(x[x.len() - 1] == old_cur);
                assert(old_cur =~= pq.last().push('\r'));
                assert(old_cur.drop_last() =~= pq.last());
                assert(views(done@) =~= old_done.push(old_cur.drop_last()));
                assert(views(done@) =~= pq);
                assert(views(done@).push(cur@) =~= split_crlf(post));
            }
        } else {
            proof {
                if post.len() >= 2 && post[post.len() - 2] == '\r' && post[post.len() - 1] == '\n' {
                    assert(s@[i - 1] == '\r');
                    assert(false);
                }
                lemma_split_crlf_nonempty(pre);
            }
            cur.push(c);
            proof {
                let p = split_crlf(pre);
                assert(old_done.push(old_cur) == p);
                assert(views(done@).push(cur@) =~= p.update(p.len() - 1, p.last().push(c)));
            }
        }
        i = i + 1;
    }
    assert(s@.subrange(0, s@.len() as int) =~= s@);
    done.push(cur);
    done
}

/// `c.to_ascii_lowercase()`.
pub open spec fn ascii_lower_char(c: char) -> char {
    if 'A' <= c && c <= 'Z' {
        (((c as u32) + 32) as u8) as char
    } else {
        c
    }
}

/// `s.to_ascii_lowercase()`.
pub open spec fn ascii_lower(s: Seq<char>) -> Seq<char> {
    Seq::new(s.len(), |i: int| ascii_lower_char(s[i]))
}

/// `s.to_ascii_lowercase()` over characters.
pub fn to_ascii_lower(s: &[char]) -> (r: Vec<char>)
    ensures
        r@ == ascii_lower(s@),
{
    let mut r: Vec<char> = Vec::new();
    let mut i: usize = 0;
    while i < s.len()
        invariant
            i <= s@.len(),
            r@ == ascii_lower(s@.subrange(0, i as int)),
        decreases s@.len() - i,
    {
        let c = s[i];
        let l = if 'A' <= c && c <= 'Z' {
            (((c as u32) + 32) as u8) as char
        } else {
            c
        };
        r.push(l);
        i = i + 1;
        assert(r@ =~= ascii_lower(s@.subrange(0, i as int)));
    }
    assert(s@.subrange(0, s@.len() as int) =~= s@);
    r
}

/// The lowercased, trimmed name and the trimmed value of a header line, when
/// it has a `:`.
pub open spec fn header_kv(line: Seq<char>) -> Option<(Seq<char>, Seq<char>)> {
    match split_once_spec(line, ':') {
        Some((k, v)) => Some((ascii_lower(trim(k)), trim(v))),
        None => None,
    }
}

/// Value of the last header line named `name`.
pub open spec fn last_header(lines: Seq<Seq<char>>, name: Seq<char>) -> Option<Seq<char>>
    decreases lines.len(),
{
    if lines.len() == 0 {
        None
    } else {
        match header_kv(lines.last()) {
            Some((k, v)) => if k == name {
                Some(v)
            } else {
                last_header(lines.drop_last(), name)
            },
            None => last_header(lines.drop_last(), name),
        }
    }
}

/// Name of the header carrying the session token.
pub const TOKEN_HEADER: &'static str = "x-vfs-token";

/// Name of the header carrying the body length.
pub const LENGTH_HEADER: &'static str = "content-length";

/// `val.parse::<usize>().unwrap_or(0)`.
pub open spec fn length_value(v: Seq<char>) -> usize {
    match parse_int_spec(v, false, 0, usize::MAX as int) {
        Some(n) => n as usize,
        None => 0,
    }
}

/// The parts of a request head that the server reads.
pub struct RequestHead {
    pub method: String,
    pub path: String,
    pub query: String,
    pub token: Option<String>,
    pub content_length: usize,
}

/// The request line's pieces: method, then target (`/` when missing).
pub open spec fn request_target(lines: Seq<Seq<char>>) -> Seq<char> {
    let parts = split_on(lines[0], ' ');
    if parts.len() > 1 {
        parts[1]
    } else {
        "/"@
    }
}

/// What a request head says: the method, the target split at its first `?`
/// into path and query, the last `x-vfs-token` header, and the body length
/// from the last `content-length` header (zero when it does not parse).
pub open spec fn request_head_spec(head: Seq<char>, r: RequestHead) -> bool {
    let lines = split_crlf(head);
    let target = request_target(lines);
    let headers = lines.drop_first();
    &&& r.method@ == split_on(lines[0], ' ')[0]
    &&& match split_once_spec(target, '?') {
        Some((p, q)) => r.path@ == p && r.query@ == q,
        None => r.path@ == target && r.query@ == Seq::<char>::empty(),
    }
    &&& match last_header(headers, TOKEN_HEADER@) {
        Some(t) => r.token matches Some(rt) && rt@ == t,
        None => r.token is None,
    }
    &&& r.content_length == match last_header(headers, LENGTH_HEADER@) {
        Some(v) => length_value(v),
        None => 0,
    }
}

/// `s.parse::<usize>().unwrap_or(0)`.
fn parse_length(s: &str) -> (r: usize)
    ensures
        r == length_value(s@),
{
    match crate::text::parse_u64(s) {
        Some(v) => {
            if v as u128 <= usize::MAX as u128 {
                v as usize
            } else {
                0
            }
        },
        None => 0,
    }
}

/// Parse a request head (the text before the blank line).
pub fn parse_request_head(head: &str) -> (r: RequestHead)
    ensures
        request_head_spec(head@, r),
{
    let cs = chars_of(head);
    let lines = split_lines(&cs);
    proof {
        lemma_split_crlf_nonempty(head@);
        crate::text::lemma_split_len(lines@[0]@, ' ');
    }
    let parts = split_chars(&lines[0], ' ');
    let method = string_of(&parts[0]);
    let target: Vec<char> = if parts.len() > 1 {
        assert(parts@[1]@.subrange(0, parts@[1]@.len() as int) =~= parts@[1]@);
        sub_chars(&parts[1], 0, parts[1].len())
    } else {
        chars_of("/")
    };
    let (path, query) = match split_once_chars(&target, '?') {
        Some((p, q)) => (string_of(&p), string_of(&q)),
        None => (string_of(&target), String::new()),
    };
    let ghost all = views(lines@);
    let mut token: Option<String> = None;
    let mut length: usize = 0;
    let mut k: usize = 1;
    proof {
        reveal_strlit("x-vfs-token");
        reveal_strlit("content-length");
        assert(TOKEN_HEADER@[0] != LENGTH_HEADER@[0]);
    }
    while k < lines.len()
        invariant
            all == views(lines@),
            all == split_crlf(head@),
            1 <= k <= lines@.len(),
            match last_header(all.subrange(1, k as int), TOKEN_HEADER@) {
                Some(t) => token matches Some(rt) && rt@ == t,
                None => token is None,
            },
            TOKEN_HEADER@ != LENGTH_HEADER@,
            length == match last_header(all.subrange(1, k as int), LENGTH_HEADER@) {
                Some(v) => length_value(v),
                None => 0,
            },
        decreases lines@.len() - k,
    {
        let ghost pre = all.subrange(1, k as int);
        let ghost post = all.subrange(1, k + 1);
        assert(post.drop_last() =~= pre);
        assert(post.last() == lines@[k as int]@);
        match split_once_chars(&lines[k], ':') {
            Some((kk, vv)) => {
                let key = to_ascii_lower(&trim_ws(&kk));
                let val = trim_ws(&vv);
                if chars_eq(&key, &chars_of(TOKEN_HEADER)) {
                    token = Some(string_of(&val));
                } else if chars_eq(&key, &chars_of(LENGTH_HEADER)) {
                    let vs = string_of(&val);
                    length = parse_length(vs.as_str());
                }
            },
            None => {},
        }
        k = k + 1;
    }
    assert(all.subrange(1, lines@.len() as int) =~= all.drop_first());
    RequestHead { method, path, query, token, content_length: length }
}

/// The operation a request asks for.
pub enum ForwardAction {
    /// The token is missing or wrong: answer 403.
    Forbidden,
    /// No such route: answer 404.
    NotFound,
    ReadDir { path: String },
    Stat { path: String },
    /// Read `path`, the range `offset..offset + size` when both are given.
    Read { path: String, offset: Option<u64>, size: Option<u64> },
    /// Replace `path` with the request body.
    Write { path: String },
    Unlink { path: String },
    Mkdir { path: String },
    Rmdir { path: String },
    Rename { path: String, to: String },
}

/// The value of `key` in `m`, or `default`.
pub open spec fn param_or(m: Map<Seq<char>, Seq<char>>, key: Seq<char>, default: Seq<char>) -> Seq<char> {
    if m.dom().contains(key) {
        m[key]
    } else {
        default
    }
}

/// The `u64` value of `key` in `m`, when present and numeric.
pub open spec fn param_u64(m: Map<Seq<char>, Seq<char>>, key: Seq<char>) -> Option<u64> {
    if m.dom().contains(key) {
        crate::text::parse_u64_spec(m[key])
    } else {
        None
    }
}

/// The operation a request head asks for, given the session token: a
/// missing or different token is refused before anything else; the target
/// path is the `path` parameter, `/` by default.
pub open spec fn plan_spec(head: RequestHead, token: Seq<char>, a: ForwardAction) -> bool {
    let m = query_map_spec(split_on(head.query@, '&'));
    let path = param_or(m, "path"@, "/"@);
    let method = head.method@;
    let route = head.path@;
    if !(head.token matches Some(t) && t@ == token) {
        a is Forbidden
    } else if method == "GET"@ && route == "/readdir"@ {
        a matches ForwardAction::ReadDir { path: p } && p@ == path
    } else if method == "GET"@ && route == "/stat"@ {
        a matches ForwardAction::Stat { path: p } && p@ == path
    } else if method == "GET"@ && route == "/read"@ {
        a matches ForwardAction::Read { path: p, offset, size } && p@ == path && offset
            == param_u64(m, "offset"@) && size == param_u64(m, "size"@)
    } else if method == "PUT"@ && route == "/write"@ {
        a matches ForwardAction::Write { path: p } && p@ == path
    } else if method == "DELETE"@ && route == "/unlink"@ {
        a matches ForwardAction::Unlink { path: p } && p@ == path
    } else if method == "POST"@ && route == "/mkdir"@ {
        a matches ForwardAction::Mkdir { path: p } && p@ == path
    } else if method == "DELETE"@ && route == "/rmdir"@ {
        a matches ForwardAction::Rmdir { path: p } && p@ == path
    } else if method == "POST"@ && route == "/rename"@ {
        a matches ForwardAction::Rename { path: p, to } && p@ == path && to@ == param_or(
            m,
            "to"@,
            Seq::<char>::empty(),
        )
    } else {
        a is NotFound
    }
}

/// The method and route each operation is served under; `None` for the
/// refusals.
pub open spec fn route_of(a: ForwardAction) -> Option<(Seq<char>, Seq<char>)> {
    match a {
        ForwardAction::ReadDir { .. } => Some(("GET"@, "/readdir"@)),
        ForwardAction::Stat { .. } => Some(("GET"@, "/stat"@)),
        ForwardAction::Read { .. } => Some(("GET"@, "/read"@)),
        ForwardAction::Write { .. } => Some(("PUT"@, "/write"@)),
        ForwardAction::Unlink { .. } => Some(("DELETE"@, "/unlink"@)),
        ForwardAction::Mkdir { .. } => Some(("POST"@, "/mkdir"@)),
        ForwardAction::Rmdir { .. } => Some(("DELETE"@, "/rmdir"@)),
        ForwardAction::Rename { .. } => Some(("POST"@, "/rename"@)),
        _ => None,
    }
}

/// The target path an operation acts on.
pub open spec fn action_path(a: ForwardAction) -> Option<Seq<char>> {
    match a {
        ForwardAction::ReadDir { path } => Some(path@),
        ForwardAction::Stat { path } => Some(path@),
        ForwardAction::Read { path, .. } => Some(path@),
        ForwardAction::Write { path } => Some(path@),
        ForwardAction::Unlink { path } => Some(path@),
        ForwardAction::Mkdir { path } => Some(path@),
        ForwardAction::Rmdir { path } => Some(path@),
        ForwardAction::Rename { path, .. } => Some(path@),
        _ => None,
    }
}

/// Routing: a request without the session's token is refused; an
/// authorised request is answered by the one operation served under its
/// method and route (so `DELETE /rmdir` removes a directory, never a file),
/// acting on its `path` parameter (`/` by default), and by "not found" when
/// no operation is served there.
pub proof fn lemma_each_route_its_own_operation(head: RequestHead, token: Seq<char>, a: ForwardAction)
    requires
        plan_spec(head, token, a),
    ensures
        (a is Forbidden) <==> !(head.token matches Some(t) && t@ == token),
        !(a is Forbidden) && !(a is NotFound) ==> route_of(a) == Some((head.method@, head.path@))
            && action_path(a) == Some(
            param_or(query_map_spec(split_on(head.query@, '&')), "path"@, "/"@),
        ),
        a is NotFound ==> forall|b: ForwardAction| route_of(b) != Some((head.method@, head.path@)),
{
}

fn param_u64_of(m: &StrMap, key: &str) -> (r: Option<u64>)
    requires
        m.wf(),
    ensures
        r == param_u64(m.view(), key@),
{
    match m.get(key) {
        Some(v) => crate::text::parse_u64(v.as_str()),
        None => None,
    }
}

/// Choose the operation for a request.
pub fn plan_request(head: &RequestHead, token: &str) -> (a: ForwardAction)
    ensures
        plan_spec(*head, token@, a),
        (a is Forbidden) <==> !(head.token matches Some(t) && t@ == token@),
        !(a is Forbidden) && !(a is NotFound) ==> route_of(a) == Some((head.method@, head.path@)),
        a is NotFound ==> forall|b: ForwardAction| route_of(b) != Some((head.method@, head.path@)),
{
    let authorized = match &head.token {
        Some(t) => str_eq(t.as_str(), token),
        None => false,
    };
    if !authorized {
        return ForwardAction::Forbidden;
    }
    let params = parse_query(head.query.as_str());
    let path = match params.get("path") {
        Some(p) => p,
        None => "/".to_string(),
    };
    let method = head.method.as_str();
    let route = head.path.as_str();
    if str_eq(method, "GET") && str_eq(route, "/readdir") {
        ForwardAction::ReadDir { path }
    } else if str_eq(method, "GET") && str_eq(route, "/stat") {
        ForwardAction::Stat { path }
    } else if str_eq(method, "GET") && str_eq(route, "/read") {
        let offset = param_u64_of(&params, "offset");
        let size = param_u64_of(&params, "size");
        ForwardAction::Read { path, offset, size }
    } else if str_eq(method, "PUT") && str_eq(route, "/write") {
        ForwardAction::Write { path }
    } else if str_eq(method, "DELETE") && str_eq(route, "/unlink") {
        ForwardAction::Unlink { path }
    } else if str_eq(method, "POST") && str_eq(route, "/mkdir") {
        ForwardAction::Mkdir { path }
    } else if str_eq(method, "DELETE") && str_eq(route, "/rmdir") {
        ForwardAction::Rmdir { path }
    } else if str_eq(method, "POST") && str_eq(route, "/rename") {
        let to = match params.get("to") {
            Some(t) => t,
            None => String::new(),
        };
        ForwardAction::Rename { path, to }
    } else {
        ForwardAction::NotFound
    }
}

/// The byte range a read asks for: `offset..offset + size` when both are
/// given, else the whole object.
pub fn read_range(offset: Option<u64>, size: Option<u64>) -> (r: Option<(u64, u64)>)
    requires
        offset matches Some(o) && size matches Some(s) ==> o + s <= u64::MAX,
    ensures
        r == match (offset, size) {
            (Some(o), Some(s)) => Some((o, (o + s) as u64)),
            _ => None,
        },
{
    match (offset, size) {
        (Some(o), Some(s)) => Some((o, o + s)),
        _ => None,
    }
}

/// Prefix of a mount path that turns a write into a provider command.
pub const COMMAND_PREFIX: &'static str = "/.cmd/";

/// The command a write to `vpath` runs: the rest of the path after
/// `/.cmd/`, when it starts so.
pub fn command_op(vpath: &str) -> (r: Option<String>)
    ensures
        match r {
            Some(op) => COMMAND_PREFIX@.is_prefix_of(vpath@) && op@ == vpath@.skip(
                COMMAND_PREFIX@.len() as int,
            ),
            None => !COMMAND_PREFIX@.is_prefix_of(vpath@),
        },
{
    let v = chars_of(vpath);
    let p = chars_of(COMMAND_PREFIX);
    if crate::text::starts_with(&v, &p) {
        let rest = sub_chars(&v, p.len(), v.len());
        assert(rest@ =~= vpath@.skip(COMMAND_PREFIX@.len() as int));
        Some(string_of(&rest))
    } else {
        None
    }
}

/// Reason phrase of a response status.
pub open spec fn reason_spec(status: u16) -> Seq<char> {
    if status == 200 {
        "OK"@
    } else if status == 403 {
        "Forbidden"@
    } else if status == 404 {
        "Not Found"@
    } else {
        "Internal Server Error"@
    }
}

/// The decimal digits of `n`.
pub open spec fn decimal(n: nat) -> Seq<char>
    decreases n,
{
    if n < 10 {
        seq![(('0' as int) + n) as char]
    } else {
        decimal(n / 10) + seq![(('0' as int) + n % 10) as char]
    }
}

/// Appends the decimal digits of `n` to `out`.
pub fn push_decimal(out: &mut Vec<char>, n: u64)
    ensures
        final(out)@ == old(out)@ + decimal(n as nat),
    decreases n,
{
    if n >= 10 {
        push_decimal(out, n / 10);
    }
    let d: u8 = (n % 10) as u8;
    let c = (d + 48) as char;
    out.push(c);
    proof {
        assert(c == (('0' as int) + (n as nat) % 10) as char);
    }
}

/// The response head: status line, content type and length, and
/// `Connection: close`.
pub open spec fn response_head_spec(status: u16, content_type: Seq<char>, len: nat) -> Seq<char> {
    "HTTP/1.1 "@ + decimal(status as nat) + " "@ + reason_spec(status) + "\r\nContent-Type: "@
        + content_type + "\r\nContent-Length: "@ + decimal(len) + "\r\nConnection: close\r\n\r\n"@
}

/// Render the response head.
pub fn response_head(status: u16, content_type: &str, body_len: usize) -> (r: String)
    ensures
        r@ == response_head_spec(status, content_type@, body_len as nat),
{
    let mut out: Vec<char> = Vec::new();
    push_str(&mut out, "HTTP/1.1 ");
    push_decimal(&mut out, status as u64);
    push_str(&mut out, " ");
    let reason = if status == 200 {
        "OK"
    } else if status == 403 {
        "Forbidden"
    } else if status == 404 {
        "Not Found"
    } else {
        "Internal Server Error"
    };
    push_str(&mut out, reason);
    push_str(&mut out, "\r\nContent-Type: ");
    push_str(&mut out, content_type);
    push_str(&mut out, "\r\nContent-Length: ");
    push_decimal(&mut out, body_len as u64);
    push_str(&mut out, "\r\nConnection: close\r\n\r\n");
    string_of(&out)
}

proof fn lemma_decimal_digits(n: nat)
    ensures
        crate::text::all_digits(decimal(n)),
        crate::text::dec_value(decimal(n)) == n,
        decimal(n).len() > 0,
    decreases n,
{
    let c = (('0' as int) + n % 10) as char;
    assert((c as int) == ('0' as int) + n % 10);
    if n >= 10 {
        lemma_decimal_digits(n / 10);
        let d = decimal(n);
        let p = decimal(n / 10);
        assert(d.drop_last() =~= p);
        assert(d.last() == c);
        assert(10 * (n / 10) + n % 10 == n);
        assert(crate::text::dec_value(d) == 10 * crate::text::dec_value(d.drop_last()) + ((d.last() as int) - ('0' as int)));
        assert forall|i: int| 0 <= i < d.len() implies crate::text::is_digit(#[trigger] d[i]) by {
            if i < p.len() {
                assert(d[i] == p[i]);
            }
        }
    } else {
        let d = decimal(n);
        assert(d == seq![c]);
        assert(d.drop_last() =~= Seq::<char>::empty());
        assert(crate::text::dec_value(Seq::<char>::empty()) == 0);
        assert(crate::text::dec_value(d) == 10 * crate::text::dec_value(d.drop_last()) + ((d.last() as int) - ('0' as int)));
        assert(crate::text::is_digit(d[0]));
    }
}

/// A rendered length reads back: the decimal digits of any `u64` parse as
/// that number (so a `Content-Length` the server writes is the one a parser
/// of this module reads).
pub proof fn lemma_decimal_reads_back(n: u64)
    ensures
        crate::text::parse_u64_spec(decimal(n as nat)) == Some(n),
{
    lemma_decimal_digits(n as nat);
    let d = decimal(n as nat);
    assert(crate::text::is_digit(d[0]));
}

} // verus!

//! Knowledge-index membership: the `*.ref` files under `/files/knowledge`,
//! the rules a reference target must obey, and the bookkeeping of a
//! reconcile pass (which documents survive a purge, how reads are batched,
//! and how a burst of triggers collapses into one pass).

use vstd::prelude::*;

use crate::api::{api_error, ApiError};
use crate::text::{
    chars_eq, chars_of, has_char, join_with, nonempty, push_chars, push_str, split_chars, split_on,
    starts_with, string_of, sub_chars, trim, trim_char, trim_start_char, trim_start_matches, trim_ws,
    views,
};

verus! {

/// Unified-tree directory holding the index references.
pub const KNOWLEDGE_ROOT: &'static str = "/files/knowledge";

/// Suffix marking a reference file under [`KNOWLEDGE_ROOT`].
pub const REF_SUFFIX: &'static str = ".ref";

/// A workspace path as a mount-relative request path: leading `/` removed.
pub fn cx(path: &str) -> (r: String)
    ensures
        r@ == trim_start_char(path@, '/'),
{
    let p = chars_of(path);
    string_of(&trim_start_matches(&p, '/'))
}

/// Whether a segment is `.` or `..`.
pub open spec fn is_dot_segment(s: Seq<char>) -> bool {
    s == seq!['.'] || s == seq!['.', '.']
}

/// The non-empty `/`-separated segments of `s`.
pub open spec fn segments(s: Seq<char>) -> Seq<Seq<char>> {
    nonempty(split_on(s, '/'))
}

/// What [`clean_target`] answers for a raw reference target.
pub open spec fn clean_target_spec(raw: Seq<char>) -> Result<Seq<char>, Seq<char>> {
    let t = trim(raw);
    if !(t.len() > 0 && t[0] == '/') {
        Err("target_path must be an absolute unified-tree path"@)
    } else if segments(t).len() == 0 {
        Err("target_path must not be the root"@)
    } else if exists|k: int| 0 <= k < segments(t).len() && is_dot_segment(#[trigger] segments(t)[k]) {
        Err("target_path must not contain '.' or '..'"@)
    } else {
        Ok(seq!['/'] + join_with(segments(t), seq!['/']))
    }
}

/// The non-empty pieces of a split, as owned vectors.
fn nonempty_pieces(pieces: &Vec<Vec<char>>) -> (r: Vec<Vec<char>>)
    ensures
        views(r@) == nonempty(views(pieces@)),
{
    let mut r: Vec<Vec<char>> = Vec::new();
    let mut k: usize = 0;
    while k < pieces.len()
        invariant
            k <= pieces@.len(),
            views(r@) == nonempty(views(pieces@).subrange(0, k as int)),
        decreases pieces@.len() - k,
    {
        let ghost pre = views(pieces@).subrange(0, k as int);
        let ghost post = views(pieces@).subrange(0, k + 1);
        assert(post.drop_last() =~= pre);
        let piece = &pieces[k];
        assert(post.last() == piece@);
        if piece.len() > 0 {
            let ghost old_r = views(r@);
            r.push(crate::text::sub_chars(piece, 0, piece.len()));
            assert(piece@.subrange(0, piece@.len() as int) =~= piece@);
            assert(views(r@) =~= old_r.push(piece@));
        }
        k = k + 1;
    }
    assert(views(pieces@).subrange(0, pieces@.len() as int) =~= views(pieces@));
    r
}

fn dot_segment(s: &[char]) -> (r: bool)
    ensures
        r == is_dot_segment(s@),
{
    let r = (s.len() == 1 && s[0] == '.') || (s.len() == 2 && s[0] == '.' && s[1] == '.');
    proof {
        if s@ == seq!['.'] {
            assert(s@.len() == 1);
        }
        if s@ == seq!['.', '.'] {
            assert(s@.len() == 2);
        }
        if s.len() == 1 && s[0] == '.' {
            assert(s@ =~= seq!['.']);
        }
        if s.len() == 2 && s[0] == '.' && s[1] == '.' {
            assert(s@ =~= seq!['.', '.']);
        }
    }
    r
}

/// Validate and normalise a reference target: an absolute unified-tree path
/// of normal segments, rendered as `/` + the segments joined by `/`.
pub fn clean_target(raw: &str) -> (r: Result<String, &'static str>)
    ensures
        match r {
            Ok(s) => clean_target_spec(raw@) == Ok::<Seq<char>, Seq<char>>(s@),
            Err(m) => clean_target_spec(raw@) == Err::<Seq<char>, Seq<char>>(m@),
        },
{
    let rc = chars_of(raw);
    let t = trim_ws(&rc);
    if !(t.len() > 0 && t[0] == '/') {
        return Err("target_path must be an absolute unified-tree path");
    }
    let pieces = split_chars(&t, '/');
    let segs = nonempty_pieces(&pieces);
    if segs.len() == 0 {
        return Err("target_path must not be the root");
    }
    let mut k: usize = 0;
    while k < segs.len()
        invariant
            k <= segs@.len(),
            rc@ == raw@,
            t@ == trim(rc@),
            t@.len() > 0 && t@[0] == '/',
            segs@.len() > 0,
            views(segs@) == segments(t@),
            forall|m: int| 0 <= m < k ==> !is_dot_segment(#[trigger] segments(t@)[m]),
        decreases segs@.len() - k,
    {
        if dot_segment(&segs[k]) {
            assert(is_dot_segment(segments(t@)[k as int]));
            return Err("target_path must not contain '.' or '..'");
        }
        k = k + 1;
    }
    let sep = vec!['/'];
    assert(sep@ =~= seq!['/']);
    let body = crate::storage::join_chars(&segs, &sep);
    let mut out = vec!['/'];
    let ghost head = out@;
    let mut i: usize = 0;
    while i < body.len()
        invariant
            i <= body@.len(),
            head == seq!['/'],
            out@ == head + body@.subrange(0, i as int),
        decreases body@.len() - i,
    {
        out.push(body[i]);
        i = i + 1;
        assert(out@ =~= head + body@.subrange(0, i as int));
    }
    assert(body@.subrange(0, body@.len() as int) =~= body@);
    Ok(string_of(&out))
}

/// Whether `path` is `/files/knowledge` or lives under it.
pub open spec fn is_under_knowledge_spec(path: Seq<char>) -> bool {
    let p = trim_start_char(path, '/');
    p == "files/knowledge"@ || "files/knowledge/"@.is_prefix_of(p)
}

/// True when `path` is `/files/knowledge` or lives under it.
pub fn is_under_knowledge(path: &str) -> (r: bool)
    ensures
        r == is_under_knowledge_spec(path@),
{
    let pc = chars_of(path);
    let p = trim_start_matches(&pc, '/');
    let root = chars_of("files/knowledge");
    let dir = chars_of("files/knowledge/");
    chars_eq(&p, &root) || starts_with(&p, &dir)
}

/// A reference target must be an absolute path with at least one segment and
/// no `.` or `..` segment.
pub open spec fn is_safe_target_spec(path: Seq<char>) -> bool {
    &&& path.len() > 0 && path[0] == '/'
    &&& segments(path).len() > 0
    &&& forall|k: int| 0 <= k < segments(path).len() ==> !is_dot_segment(#[trigger] segments(path)[k])
}

/// Whether `path` is a safe reference target (see [`is_safe_target_spec`]).
pub fn is_safe_target(path: &str) -> (r: bool)
    ensures
        r == is_safe_target_spec(path@),
{
    let p = chars_of(path);
    if !(p.len() > 0 && p[0] == '/') {
        return false;
    }
    let pieces = split_chars(&p, '/');
    let segs = nonempty_pieces(&pieces);
    let mut k: usize = 0;
    while k < segs.len()
        invariant
            k <= segs@.len(),
            p@ == path@,
            p@.len() > 0 && p@[0] == '/',
            views(segs@) == segments(p@),
            forall|m: int| 0 <= m < k ==> !is_dot_segment(#[trigger] segments(p@)[m]),
        decreases segs@.len() - k,
    {
        if dot_segment(&segs[k]) {
            assert(is_dot_segment(segments(p@)[k as int]));
            return false;
        }
        k = k + 1;
    }
    segs.len() > 0
}

/// Whether a directory entry under the knowledge root names a reference file.
pub fn is_ref_file(name: &str) -> (r: bool)
    ensures
        r == ".ref"@.is_suffix_of(name@),
{
    let n = chars_of(name);
    let suf = chars_of(REF_SUFFIX);
    if suf.len() > n.len() {
        return false;
    }
    let start = n.len() - suf.len();
    let tail = crate::text::sub_chars(&n, start, n.len());
    let r = chars_eq(&tail, &suf);
    assert(r == ".ref"@.is_suffix_of(n@)) by {
        if ".ref"@.is_suffix_of(n@) {
            assert(tail@ =~= ".ref"@);
        }
    }
    r
}

/// Whether `name` holds `..` starting at index `i`.
pub open spec fn dotdot_at(name: Seq<char>, i: int) -> bool {
    0 <= i && i + 1 < name.len() && name[i] == '.' && name[i + 1] == '.'
}

/// Whether `name` is acceptable in a delete request: a single `*.ref` file
/// name that holds no `/` and no `..`.
pub open spec fn is_valid_ref_name_spec(name: Seq<char>) -> bool {
    &&& !has_char(name, '/')
    &&& !(exists|i: int| #[trigger] dotdot_at(name, i))
    &&& ".ref"@.is_suffix_of(name)
}

/// Whether `name` may be deleted as a reference (see [`is_valid_ref_name_spec`]).
pub fn is_valid_ref_name(name: &str) -> (r: bool)
    ensures
        r == is_valid_ref_name_spec(name@),
{
    let n = chars_of(name);
    if crate::text::contains_char(&n, '/') {
        return false;
    }
    let mut i: usize = 0;
    while i < n.len()
        invariant
            i <= n@.len(),
            n@ == name@,
            !has_char(n@, '/'),
            forall|k: int| 0 <= k < i ==> !#[trigger] dotdot_at(n@, k),
        decreases n@.len() - i,
    {
        if i + 1 < n.len() && n[i] == '.' && n[i + 1] == '.' {
            assert(dotdot_at(n@, i as int));
            return false;
        }
        i = i + 1;
    }
    assert forall|k: int| !#[trigger] dotdot_at(n@, k) by {
        if dotdot_at(n@, k) {
            assert(k < i);
        }
    }
    is_ref_file(name)
}

/// Whether a reference's target is indexed at all: it must be a safe target
/// and must not point into the knowledge directory itself.
pub fn keep_reference_target(target: &str) -> (r: bool)
    ensures
        r == (is_safe_target_spec(target@) && !is_under_knowledge_spec(target@)),
{
    is_safe_target(target) && !is_under_knowledge(target)
}

/// `{KNOWLEDGE_ROOT}/{name}`.
pub fn ref_path(name: &str) -> (r: String)
    ensures
        r@ == "/files/knowledge/"@ + name@,
{
    let mut out = chars_of("/files/knowledge/");
    let n = chars_of(name);
    let ghost head = out@;
    let mut i: usize = 0;
    while i < n.len()
        invariant
            i <= n@.len(),
            out@ == head + n@.subrange(0, i as int),
        decreases n@.len() - i,
    {
        out.push(n[i]);
        i = i + 1;
        assert(out@ =~= head + n@.subrange(0, i as int));
    }
    assert(n@.subrange(0, n@.len() as int) =~= n@);
    string_of(&out)
}

/// A cleaned target is a safe target with the same segments: it starts at
/// the root, names at least one segment, and none of its segments is `.` or
/// `..` (so the reconcile pass accepts every target the API stored).
pub proof fn lemma_cleaned_target_is_safe(raw: Seq<char>)
    requires
        clean_target_spec(raw) is Ok,
    ensures
        clean_target_spec(raw) matches Ok(t) && is_safe_target_spec(t) && segments(t) == segments(
            trim(raw),
        ),
{
    let t0 = trim(raw);
    let segs = segments(t0);
    crate::text::lemma_nonempty_members(split_on(t0, '/'));
    crate::text::lemma_split_pieces_lack_sep(t0, '/');
    assert forall|k: int| 0 <= k < segs.len() implies !has_char(#[trigger] segs[k], '/') by {
        let j = choose|j: int| 0 <= j < split_on(t0, '/').len() && split_on(t0, '/')[j] == segs[k];
        assert(!has_char(split_on(t0, '/')[j], '/'));
    }
    crate::text::lemma_split_sep_join(segs, '/');
    let t = seq!['/'] + join_with(segs, seq!['/']);
    crate::text::lemma_nonempty_skips_leading_empty(segs);
    crate::text::lemma_nonempty_keeps(segs);
    assert(segments(t) == segs);
    assert(t[0] == '/');
}

/// The last character of a join is that of the last part, when it has one.
proof fn lemma_join_last(parts: Seq<Seq<char>>, sep: Seq<char>)
    requires
        parts.len() >= 1,
        parts.last().len() > 0,
    ensures
        join_with(parts, sep).len() > 0,
        join_with(parts, sep).last() == parts.last().last(),
{
    if parts.len() == 1 {
        assert(parts[0] == parts.last());
    } else {
        let j = join_with(parts.drop_last(), sep) + sep + parts.last();
        assert(j[j.len() - 1] == parts.last()[parts.last().len() - 1]);
    }
}

/// The shape of a cleaned target: it starts with `/`, does not end with
/// `/`, its `/`-separated pieces after the leading `/` are exactly the
/// non-empty segments of the trimmed input, in order, none of them `.` or
/// `..`; and cleaning it again (when it carries no surrounding spaces)
/// gives it back unchanged.
pub proof fn lemma_clean_target_shape(raw: Seq<char>)
    requires
        clean_target_spec(raw) is Ok,
    ensures
        clean_target_spec(raw) matches Ok(t) && {
            &&& t.len() > 0 && t[0] == '/' && t.last() != '/'
            &&& split_on(t, '/') == seq![Seq::<char>::empty()] + segments(trim(raw))
            &&& segments(t) == segments(trim(raw))
            &&& forall|k: int|
                0 <= k < segments(t).len() ==> (#[trigger] segments(t)[k]).len() > 0
                    && !is_dot_segment(segments(t)[k])
            &&& trim(t) == t ==> clean_target_spec(t) == Ok::<Seq<char>, Seq<char>>(t)
        },
{
    lemma_cleaned_target_is_safe(raw);
    let t0 = trim(raw);
    let segs = segments(t0);
    crate::text::lemma_nonempty_members(split_on(t0, '/'));
    crate::text::lemma_split_pieces_lack_sep(t0, '/');
    assert forall|k: int| 0 <= k < segs.len() implies !has_char(#[trigger] segs[k], '/')
        && segs[k].len() > 0 by {
        let j = choose|j: int| 0 <= j < split_on(t0, '/').len() && split_on(t0, '/')[j] == segs[k];
        assert(!has_char(split_on(t0, '/')[j], '/'));
    }
    crate::text::lemma_split_sep_join(segs, '/');
    let t = seq!['/'] + join_with(segs, seq!['/']);
    assert(segs.len() > 0);
    assert(segs.last() == segs[segs.len() - 1]);
    lemma_join_last(segs, seq!['/']);
    let last = segs.last();
    assert(!has_char(last, '/'));
    assert(last.last() == last[last.len() - 1]);
    assert(t.last() == join_with(segs, seq!['/']).last());
    assert(t.last() != '/');
    assert(segments(t) == segs);
    if trim(t) == t {
        assert(segments(trim(t)) == segs);
        assert(!(exists|k: int| 0 <= k < segments(trim(t)).len() && is_dot_segment(
            #[trigger] segments(trim(t))[k],
        )));
    }
}

/// A reference file's content: the target it puts into the index.
pub struct KnowledgeRef {
    pub path: String,
}

/// Request to reference a target into knowledge.
pub struct CreateRefRequest {
    /// Absolute unified-tree path of the target (a file or a directory).
    pub target_path: String,
}

/// A reference: its file name and its target.
pub struct RefResponse {
    pub name: String,
    pub target_path: String,
}

/// The references of a workspace.
pub struct RefListResponse {
    pub items: Vec<RefResponse>,
}

/// The target of a create request, cleaned; a malformed target or one inside
/// the knowledge directory is a 400.
pub fn check_ref_target(raw: &str) -> (r: Result<String, ApiError>)
    ensures
        match clean_target_spec(raw@) {
            Err(m) => r matches Err(e) && e.status == 400 && e.message@ == m,
            Ok(t) => if is_under_knowledge_spec(t) {
                r matches Err(e) && e.status == 400 && e.message@
                    == "cannot reference the knowledge directory itself"@
            } else {
                r matches Ok(c) && c@ == t
            },
        },
{
    match clean_target(raw) {
        Err(m) => Err(api_error(400, m)),
        Ok(t) => {
            if is_under_knowledge(t.as_str()) {
                Err(api_error(400, "cannot reference the knowledge directory itself"))
            } else {
                Ok(t)
            }
        },
    }
}

/// Whether `c` is an ASCII letter or digit.
pub open spec fn ascii_alnum(c: char) -> bool {
    ('a' <= c && c <= 'z') || ('A' <= c && c <= 'Z') || ('0' <= c && c <= '9')
}

/// The readable part of a reference name: the stem (up to the first `.`)
/// of the target's last segment, with every character other than an ASCII
/// letter or digit turned into `-`, dashes trimmed, `item` when nothing is
/// left.
pub open spec fn ref_stem(target: Seq<char>) -> Seq<char> {
    let base = split_on(target, '/').last();
    let stem = split_on(base, '.')[0];
    let mapped = Seq::new(stem.len(), |i: int| if ascii_alnum(stem[i]) { stem[i] } else { '-' });
    let slug = trim_char(mapped, '-');
    if slug.len() == 0 {
        "item"@
    } else {
        slug
    }
}

/// The reference name for a target and a random id: stem, a dash, the
/// first eight hex digits of the id, `.ref`.
pub open spec fn ref_name_spec(target: Seq<char>, id: u128) -> Seq<char> {
    ref_stem(target) + "-"@ + crate::ids::uuid_simple(id).subrange(0, 8) + REF_SUFFIX@
}

/// A readable, unique reference file name derived from the target's
/// basename; uniqueness comes from a fresh random id.
pub fn ref_name_for(target: &str) -> (r: String)
    ensures
        exists|id: u128| r@ == ref_name_spec(target@, id),
{
    let t = chars_of(target);
    let parts = split_chars(&t, '/');
    proof {
        crate::text::lemma_split_len(target@, '/');
    }
    let base = &parts[parts.len() - 1];
    let pieces = split_chars(base, '.');
    proof {
        crate::text::lemma_split_len(base@, '.');
    }
    let stem = &pieces[0];
    let mut mapped: Vec<char> = Vec::new();
    let mut i: usize = 0;
    while i < stem.len()
        invariant
            i <= stem@.len(),
            mapped@ == Seq::new(i as nat, |k: int| if ascii_alnum(stem@[k]) { stem@[k] } else { '-' }),
        decreases stem@.len() - i,
    {
        let c = stem[i];
        let ok = ('a' <= c && c <= 'z') || ('A' <= c && c <= 'Z') || ('0' <= c && c <= '9');
        mapped.push(if ok { c } else { '-' });
        i = i + 1;
        assert(mapped@ =~= Seq::new(i as nat, |k: int| if ascii_alnum(stem@[k]) { stem@[k] } else { '-' }));
    }
    let slug = crate::text::trim_matches(&mapped, '-');
    let mut out: Vec<char> = Vec::new();
    if slug.len() == 0 {
        push_str(&mut out, "item");
    } else {
        push_chars(&mut out, &slug);
    }
    let id = crate::ids::random_uuid();
    let hex = chars_of(crate::ids::uuid_simple_string(id).as_str());
    proof {
        reveal_strlit("item");
        assert(crate::ids::uuid_simple(id).len() == 32) by {
            crate::ids::lemma_uuid_simple_len(id);
        }
    }
    push_str(&mut out, "-");
    push_chars(&mut out, &sub_chars(&hex, 0, 8));
    push_str(&mut out, REF_SUFFIX);
    assert(out@ =~= ref_name_spec(target@, id));
    string_of(&out)
}

} // verus!

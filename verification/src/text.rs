//! Character-sequence helpers shared by the path and protocol modules.
//!
//! Paths, query strings and names are handled as sequences of `char`; the
//! spec functions here say what `str::trim`, `str::split`, `trim_matches` and
//! friends compute, and the executable helpers are proved against them.

use vstd::prelude::*;

verus! {

/// `char::is_whitespace`: the Unicode `White_Space` property.
pub open spec fn is_ws(c: char) -> bool {
    ||| ('\u{9}' <= c && c <= '\u{d}')
    ||| c == ' '
    ||| c == '\u{85}'
    ||| c == '\u{a0}'
    ||| c == '\u{1680}'
    ||| ('\u{2000}' <= c && c <= '\u{200a}')
    ||| c == '\u{2028}'
    ||| c == '\u{2029}'
    ||| c == '\u{202f}'
    ||| c == '\u{205f}'
    ||| c == '\u{3000}'
}

/// `s` with leading characters removed while `p` holds of them.
pub open spec fn trim_start_by(s: Seq<char>, ws: bool, c: char) -> Seq<char>
    decreases s.len(),
{
    if s.len() > 0 && (if ws { is_ws(s[0]) } else { s[0] == c }) {
        trim_start_by(s.drop_first(), ws, c)
    } else {
        s
    }
}

/// `s` with trailing characters removed while `p` holds of them.
pub open spec fn trim_end_by(s: Seq<char>, ws: bool, c: char) -> Seq<char>
    decreases s.len(),
{
    if s.len() > 0 && (if ws { is_ws(s.last()) } else { s.last() == c }) {
        trim_end_by(s.drop_last(), ws, c)
    } else {
        s
    }
}

/// `str::trim`: leading and trailing whitespace removed.
pub open spec fn trim(s: Seq<char>) -> Seq<char> {
    trim_end_by(trim_start_by(s, true, ' '), true, ' ')
}

/// `str::trim_start_matches(c)`.
pub open spec fn trim_start_char(s: Seq<char>, c: char) -> Seq<char> {
    trim_start_by(s, false, c)
}

/// `str::trim_end_matches(c)`.
pub open spec fn trim_end_char(s: Seq<char>, c: char) -> Seq<char> {
    trim_end_by(s, false, c)
}

/// `str::trim_matches(c)`: `c` removed from both ends.
pub open spec fn trim_char(s: Seq<char>, c: char) -> Seq<char> {
    trim_end_by(trim_start_by(s, false, c), false, c)
}

/// `str::split(d)`: the pieces between occurrences of `d`; never empty.
pub open spec fn split_on(s: Seq<char>, d: char) -> Seq<Seq<char>>
    decreases s.len(),
{
    if s.len() == 0 {
        seq![Seq::<char>::empty()]
    } else {
        let p = split_on(s.drop_last(), d);
        if s.last() == d {
            p.push(Seq::<char>::empty())
        } else {
            p.update(p.len() - 1, p.last().push(s.last()))
        }
    }
}

/// The non-empty pieces of `segs`, in order (`.filter(|s| !s.is_empty())`).
pub open spec fn nonempty(segs: Seq<Seq<char>>) -> Seq<Seq<char>>
    decreases segs.len(),
{
    if segs.len() == 0 {
        segs
    } else if segs.last().len() == 0 {
        nonempty(segs.drop_last())
    } else {
        nonempty(segs.drop_last()).push(segs.last())
    }
}

/// `segs.join(sep)`.
pub open spec fn join_with(segs: Seq<Seq<char>>, sep: Seq<char>) -> Seq<char>
    decreases segs.len(),
{
    if segs.len() == 0 {
        Seq::<char>::empty()
    } else if segs.len() == 1 {
        segs[0]
    } else {
        join_with(segs.drop_last(), sep) + sep + segs.last()
    }
}

/// The views of a vector of character vectors.
pub open spec fn views(v: Seq<Vec<char>>) -> Seq<Seq<char>> {
    Seq::new(v.len(), |i: int| v[i]@)
}

/// Whether `s` contains the character `c`.
pub open spec fn has_char(s: Seq<char>, c: char) -> bool {
    exists|i: int| 0 <= i < s.len() && s[i] == c
}

/// Splitting yields at least one piece.
pub proof fn lemma_split_len(s: Seq<char>, d: char)
    ensures
        split_on(s, d).len() >= 1,
    decreases s.len(),
{
    if s.len() > 0 {
        lemma_split_len(s.drop_last(), d);
    }
}

/// The characters of `s`, in order.
pub fn chars_of(s: &str) -> (v: Vec<char>)
    ensures
        v@ == s@,
{
    let n = s.unicode_len();
    let mut v: Vec<char> = Vec::new();
    let mut i: usize = 0;
    while i < n
        invariant
            n == s@.len(),
            i <= n,
            v@ == s@.subrange(0, i as int),
        decreases n - i,
    {
        let c = s.get_char(i);
        v.push(c);
        i = i + 1;
        assert(v@ =~= s@.subrange(0, i as int));
    }
    assert(v@ =~= s@);
    v
}

/// A `String` holding exactly the characters of `v` (`String::from_iter`).
#[verifier::external_body]
pub(crate) fn string_of(v: &[char]) -> (s: String)
    ensures
        s@ == v@,
{
    v.iter().collect()
}

/// The characters `v[from..to]` as a new vector.
pub fn sub_chars(v: &[char], from: usize, to: usize) -> (r: Vec<char>)
    requires
        from <= to <= v@.len(),
    ensures
        r@ == v@.subrange(from as int, to as int),
{
    let mut r: Vec<char> = Vec::new();
    let mut i = from;
    while i < to
        invariant
            from <= i <= to <= v@.len(),
            r@ == v@.subrange(from as int, i as int),
        decreases to - i,
    {
        r.push(v[i]);
        i = i + 1;
        assert(r@ =~= v@.subrange(from as int, i as int));
    }
    r
}

/// Whether `a` and `b` hold the same characters.
pub fn chars_eq(a: &[char], b: &[char]) -> (r: bool)
    ensures
        r == (a@ == b@),
{
    if a.len() != b.len() {
        return false;
    }
    let mut i: usize = 0;
    while i < a.len()
        invariant
            a@.len() == b@.len(),
            i <= a@.len(),
            forall|k: int| 0 <= k < i ==> a@[k] == b@[k],
        decreases a@.len() - i,
    {
        if a[i] != b[i] {
            return false;
        }
        i = i + 1;
    }
    assert(a@ =~= b@);
    true
}

/// Whether `p` is a prefix of `s`.
pub fn starts_with(s: &[char], p: &[char]) -> (r: bool)
    ensures
        r == p@.is_prefix_of(s@),
{
    if p.len() > s.len() {
        return false;
    }
    let mut i: usize = 0;
    while i < p.len()
        invariant
            p@.len() <= s@.len(),
            i <= p@.len(),
            forall|k: int| 0 <= k < i ==> p@[k] == s@[k],
        decreases p@.len() - i,
    {
        if p[i] != s[i] {
            return false;
        }
        i = i + 1;
    }
    true
}

/// Whether `c` occurs in `s`.
pub fn contains_char(s: &[char], c: char) -> (r: bool)
    ensures
        r == has_char(s@, c),
{
    let mut i: usize = 0;
    while i < s.len()
        invariant
            i <= s@.len(),
            forall|k: int| 0 <= k < i ==> s@[k] != c,
        decreases s@.len() - i,
    {
        if s[i] == c {
            return true;
        }
        i = i + 1;
    }
    false
}

/// `char::is_whitespace`.
pub fn char_is_ws(c: char) -> (r: bool)
    ensures
        r == is_ws(c),
{
    ('\u{9}' <= c && c <= '\u{d}') || c == ' ' || c == '\u{85}' || c == '\u{a0}' || c
        == '\u{1680}' || ('\u{2000}' <= c && c <= '\u{200a}') || c == '\u{2028}' || c
        == '\u{2029}' || c == '\u{202f}' || c == '\u{205f}' || c == '\u{3000}'
}

fn matches_trim(c: char, ws: bool, t: char) -> (r: bool)
    ensures
        r == (if ws { is_ws(c) } else { c == t }),
{
    if ws {
        char_is_ws(c)
    } else {
        c == t
    }
}

/// Index of the first character of `s[from..]` that the trim predicate keeps.
fn trim_front_index(s: &[char], ws: bool, t: char) -> (i: usize)
    ensures
        i <= s@.len(),
        trim_start_by(s@, ws, t) == s@.subrange(i as int, s@.len() as int),
{
    let n = s.len();
    let mut i: usize = 0;
    assert(s@.subrange(0, n as int) =~= s@);
    while i < n && matches_trim(s[i], ws, t)
        invariant
            n == s@.len(),
            i <= n,
            trim_start_by(s@, ws, t) == trim_start_by(s@.subrange(i as int, n as int), ws, t),
        decreases n - i,
    {
        assert(s@.subrange(i as int, n as int).drop_first() =~= s@.subrange(
            i + 1,
            n as int,
        ));
        i = i + 1;
    }
    i
}

/// Index one past the last character of `s[from..]` that the trim predicate keeps.
fn trim_back_index(s: &[char], from: usize, ws: bool, t: char) -> (j: usize)
    requires
        from <= s@.len(),
    ensures
        from <= j <= s@.len(),
        trim_end_by(s@.subrange(from as int, s@.len() as int), ws, t) == s@.subrange(
            from as int,
            j as int,
        ),
{
    let n = s.len();
    let mut j: usize = n;
    while j > from && matches_trim(s[j - 1], ws, t)
        invariant
            n == s@.len(),
            from <= j <= n,
            trim_end_by(s@.subrange(from as int, n as int), ws, t) == trim_end_by(
                s@.subrange(from as int, j as int),
                ws,
                t,
            ),
        decreases j - from,
    {
        assert(s@.subrange(from as int, j as int).drop_last() =~= s@.subrange(
            from as int,
            j - 1,
        ));
        j = j - 1;
    }
    j
}

/// `str::trim`.
pub fn trim_ws(s: &[char]) -> (r: Vec<char>)
    ensures
        r@ == trim(s@),
{
    let i = trim_front_index(s, true, ' ');
    let j = trim_back_index(s, i, true, ' ');
    sub_chars(s, i, j)
}

/// `str::trim_start_matches(c)`.
pub fn trim_start_matches(s: &[char], c: char) -> (r: Vec<char>)
    ensures
        r@ == trim_start_char(s@, c),
{
    let i = trim_front_index(s, false, c);
    sub_chars(s, i, s.len())
}

/// `str::trim_end_matches(c)`.
pub fn trim_end_matches(s: &[char], c: char) -> (r: Vec<char>)
    ensures
        r@ == trim_end_char(s@, c),
{
    let j = trim_back_index(s, 0, false, c);
    assert(s@.subrange(0, s@.len() as int) =~= s@);
    sub_chars(s, 0, j)
}

/// `str::trim_matches(c)`.
pub fn trim_matches(s: &[char], c: char) -> (r: Vec<char>)
    ensures
        r@ == trim_char(s@, c),
{
    let i = trim_front_index(s, false, c);
    let j = trim_back_index(s, i, false, c);
    sub_chars(s, i, j)
}

/// `str::split(d)`, as owned pieces.
pub fn split_chars(s: &[char], d: char) -> (r: Vec<Vec<char>>)
    ensures
        views(r@) == split_on(s@, d),
{
    let mut done: Vec<Vec<char>> = Vec::new();
    let mut cur: Vec<char> = Vec::new();
    let mut i: usize = 0;
    assert(s@.subrange(0, 0) =~= Seq::<char>::empty());
    assert(views(done@).push(cur@) =~= split_on(Seq::<char>::empty(), d));
    while i < s.len()
        invariant
            i <= s@.len(),
            views(done@).push(cur@) == split_on(s@.subrange(0, i as int), d),
        decreases s@.len() - i,
    {
        let ghost prev = s@.subrange(0, i as int);
        let ghost old_done = views(done@);
        let ghost old_cur = cur@;
        let c = s[i];
        assert(s@.subrange(0, i + 1).drop_last() =~= prev);
        assert(s@.subrange(0, i + 1).last() == c);
        if c == d {
            let finished = cur;
            done.push(finished);
            cur = Vec::new();
            assert(views(done@) =~= old_done.push(old_cur));
        } else {
            cur.push(c);
            assert(views(done@) =~= old_done);
        }
        i = i + 1;
        assert(views(done@).push(cur@) =~= split_on(s@.subrange(0, i as int), d));
    }
    assert(s@.subrange(0, s@.len() as int) =~= s@);
    done.push(cur);
    assert(views(done@) =~= split_on(s@, d));
    done
}

/// Appends the characters of `s` to `r`.
pub fn push_chars(r: &mut Vec<char>, s: &[char])
    ensures
        final(r)@ == old(r)@ + s@,
{
    let ghost start = r@;
    let mut i: usize = 0;
    while i < s.len()
        invariant
            i <= s@.len(),
            r@ == start + s@.subrange(0, i as int),
        decreases s@.len() - i,
    {
        r.push(s[i]);
        i = i + 1;
        assert(r@ =~= start + s@.subrange(0, i as int));
    }
    assert(s@.subrange(0, s@.len() as int) =~= s@);
}

/// Appends the characters of `s` to `r`.
pub fn push_str(r: &mut Vec<char>, s: &str)
    ensures
        final(r)@ == old(r)@ + s@,
{
    let c = chars_of(s);
    push_chars(r, &c);
}

/// Whether `a` and `b` hold the same text.
pub fn str_eq(a: &str, b: &str) -> (r: bool)
    ensures
        r == (a@ == b@),
{
    chars_eq(&chars_of(a), &chars_of(b))
}

/// The character views of a sequence of strings.
pub open spec fn string_views(v: Seq<String>) -> Seq<Seq<char>> {
    Seq::new(v.len(), |i: int| v[i]@)
}

/// An ASCII decimal digit.
pub open spec fn is_digit(c: char) -> bool {
    '0' <= c && c <= '9'
}

/// Whether every character of `s` is a decimal digit.
pub open spec fn all_digits(s: Seq<char>) -> bool {
    forall|i: int| 0 <= i < s.len() ==> is_digit(#[trigger] s[i])
}

/// The value of a string of decimal digits.
pub open spec fn dec_value(s: Seq<char>) -> int
    decreases s.len(),
{
    if s.len() == 0 {
        0
    } else {
        10 * dec_value(s.drop_last()) + ((s.last() as int) - ('0' as int))
    }
}

/// What `str::parse` makes of `s` for an integer type with range
/// `lo..=hi`: an optional sign (`-` only when the type is signed), then one
/// or more decimal digits, whose value must fit. A lone sign is refused.
pub open spec fn parse_int_spec(s: Seq<char>, signed: bool, lo: int, hi: int) -> Option<int> {
    if s.len() == 0 {
        None
    } else if (s[0] == '+' || s[0] == '-') && s.len() == 1 {
        None
    } else {
        let neg = s[0] == '-' && signed;
        let digits = if s[0] == '+' || neg { s.drop_first() } else { s };
        let v = if neg { -dec_value(digits) } else { dec_value(digits) };
        if all_digits(digits) && lo <= v && v <= hi {
            Some(v)
        } else {
            None
        }
    }
}

/// `s.parse::<i64>().ok()`.
pub open spec fn parse_i64_spec(s: Seq<char>) -> Option<i64> {
    match parse_int_spec(s, true, i64::MIN as int, i64::MAX as int) {
        Some(v) => Some(v as i64),
        None => None,
    }
}

/// `s.parse::<u64>().ok()`.
pub open spec fn parse_u64_spec(s: Seq<char>) -> Option<u64> {
    match parse_int_spec(s, false, 0, u64::MAX as int) {
        Some(v) => Some(v as u64),
        None => None,
    }
}

proof fn lemma_dec_value_nonneg(s: Seq<char>)
    requires
        all_digits(s),
    ensures
        dec_value(s) >= 0,
    decreases s.len(),
{
    if s.len() > 0 {
        assert(all_digits(s.drop_last())) by {
            assert forall|i: int| 0 <= i < s.drop_last().len() implies is_digit(
                #[trigger] s.drop_last()[i],
            ) by {
                assert(s.drop_last()[i] == s[i]);
            }
        }
        lemma_dec_value_nonneg(s.drop_last());
        assert(is_digit(s[s.len() - 1]));
    }
}

proof fn lemma_dec_value_prefix(s: Seq<char>, i: int)
    requires
        all_digits(s),
        0 <= i <= s.len(),
    ensures
        dec_value(s.subrange(0, i)) <= dec_value(s),
    decreases s.len(),
{
    if i < s.len() {
        assert(all_digits(s.drop_last())) by {
            assert forall|k: int| 0 <= k < s.drop_last().len() implies is_digit(
                #[trigger] s.drop_last()[k],
            ) by {
                assert(s.drop_last()[k] == s[k]);
            }
        }
        lemma_dec_value_prefix(s.drop_last(), i);
        assert(s.drop_last().subrange(0, i) =~= s.subrange(0, i));
        lemma_dec_value_nonneg(s.drop_last());
        assert(is_digit(s[s.len() - 1]));
    } else {
        assert(s.subrange(0, i) =~= s);
    }
}

/// The value of the digits `s[from..]` when they are all digits and the
/// value is at most `limit`.
fn digits_value(s: &[char], from: usize, limit: u128) -> (r: Option<u128>)
    requires
        from <= s@.len(),
        limit <= 0x1_0000_0000_0000_0000u128,
    ensures
        r matches Some(v) ==> v == dec_value(s@.subrange(from as int, s@.len() as int)),
        (r is Some) == (all_digits(s@.subrange(from as int, s@.len() as int)) && dec_value(
            s@.subrange(from as int, s@.len() as int),
        ) <= limit),
{
    let ghost all = s@.subrange(from as int, s@.len() as int);
    let mut acc: u128 = 0;
    let mut i: usize = from;
    while i < s.len()
        invariant
            from <= i <= s@.len(),
            all == s@.subrange(from as int, s@.len() as int),
            limit <= 0x1_0000_0000_0000_0000u128,
            all_digits(s@.subrange(from as int, i as int)),
            acc == dec_value(s@.subrange(from as int, i as int)),
            acc <= limit,
        decreases s@.len() - i,
    {
        let ghost pre = s@.subrange(from as int, i as int);
        let ghost post = s@.subrange(from as int, i + 1);
        assert(post.drop_last() =~= pre);
        assert(post.last() == s@[i as int]);
        let c = s[i];
        if !('0' <= c && c <= '9') {
            assert(!all_digits(all)) by {
                assert(all[i - from] == c);
            }
            return None;
        }
        let d: u128 = ((c as u32) - ('0' as u32)) as u128;
        let next: u128 = acc * 10 + d;
        assert(all_digits(post)) by {
            assert forall|k: int| 0 <= k < post.len() implies is_digit(#[trigger] post[k]) by {
                if k < pre.len() {
                    assert(post[k] == pre[k]);
                }
            }
        }
        if next > limit {
            proof {
                if all_digits(all) {
                    lemma_dec_value_prefix(all, i + 1 - from);
                    assert(all.subrange(0, i + 1 - from) =~= post);
                }
            }
            return None;
        }
        acc = next;
        i = i + 1;
    }
    Some(acc)
}

/// `s.parse::<i64>().ok()`.
pub fn parse_i64(s: &str) -> (r: Option<i64>)
    ensures
        r == parse_i64_spec(s@),
{
    let cs = chars_of(s);
    if cs.len() == 0 {
        return None;
    }
    if (cs[0] == '+' || cs[0] == '-') && cs.len() == 1 {
        return None;
    }
    let neg = cs[0] == '-';
    let from: usize = if cs[0] == '+' || neg { 1 } else { 0 };
    let ghost digits = if cs@[0] == '+' || neg { s@.drop_first() } else { s@ };
    assert(cs@.subrange(from as int, cs@.len() as int) =~= digits);
    let limit: u128 = if neg { 0x8000_0000_0000_0000u128 } else { 0x7fff_ffff_ffff_ffffu128 };
    match digits_value(&cs, from, limit) {
        None => None,
        Some(v) => {
            proof {
                lemma_dec_value_nonneg(digits);
            }
            if neg {
                if v == 0x8000_0000_0000_0000u128 {
                    Some(i64::MIN)
                } else {
                    let m: i64 = v as i64;
                    Some(-m)
                }
            } else {
                Some(v as i64)
            }
        },
    }
}

/// `s.parse::<u64>().ok()`.
pub fn parse_u64(s: &str) -> (r: Option<u64>)
    ensures
        r == parse_u64_spec(s@),
{
    let cs = chars_of(s);
    if cs.len() == 0 {
        return None;
    }
    if (cs[0] == '+' || cs[0] == '-') && cs.len() == 1 {
        return None;
    }
    let from: usize = if cs[0] == '+' { 1 } else { 0 };
    let ghost digits = if cs@[0] == '+' { s@.drop_first() } else { s@ };
    assert(cs@.subrange(from as int, cs@.len() as int) =~= digits);
    match digits_value(&cs, from, 0xffff_ffff_ffff_ffffu128) {
        None => None,
        Some(v) => {
            proof {
                lemma_dec_value_nonneg(digits);
            }
            Some(v as u64)
        },
    }
}

/// No piece of a split holds the separator.
pub proof fn lemma_split_pieces_lack_sep(s: Seq<char>, d: char)
    ensures
        forall|k: int| 0 <= k < split_on(s, d).len() ==> !has_char(#[trigger] split_on(s, d)[k], d),
    decreases s.len(),
{
    if s.len() > 0 {
        lemma_split_pieces_lack_sep(s.drop_last(), d);
        lemma_split_len(s.drop_last(), d);
        let p = split_on(s.drop_last(), d);
        if s.last() != d {
            assert forall|k: int| 0 <= k < split_on(s, d).len() implies !has_char(#[trigger] split_on(s, d)[k], d) by {
                if k == p.len() - 1 {
                    let q = p.last().push(s.last());
                    assert(split_on(s, d)[k] == q);
                    assert(!has_char(p[k], d));
                    if has_char(q, d) {
                        let j = choose|j: int| 0 <= j < q.len() && q[j] == d;
                        if j < p.last().len() {
                            assert(p.last()[j] == d);
                        }
                    }
                } else {
                    assert(split_on(s, d)[k] == p[k]);
                }
            }
        } else {
            assert forall|k: int| 0 <= k < split_on(s, d).len() implies !has_char(#[trigger] split_on(s, d)[k], d) by {
                if k < p.len() {
                    assert(split_on(s, d)[k] == p[k]);
                } else {
                    assert(split_on(s, d)[k] == Seq::<char>::empty());
                }
            }
        }
    }
}

/// Splitting `a + b`, where `b` holds no separator, extends the last piece
/// of `a`'s split by `b`.
pub proof fn lemma_split_append_plain(a: Seq<char>, b: Seq<char>, d: char)
    requires
        !has_char(b, d),
    ensures
        split_on(a + b, d) == split_on(a, d).update(
            split_on(a, d).len() - 1,
            split_on(a, d).last() + b,
        ),
    decreases b.len(),
{
    lemma_split_len(a, d);
    if b.len() == 0 {
        assert(a + b =~= a);
        assert(split_on(a, d).last() + b =~= split_on(a, d).last());
        assert(split_on(a, d).update(split_on(a, d).len() - 1, split_on(a, d).last()) =~= split_on(a, d));
    } else {
        let b0 = b.drop_last();
        assert(!has_char(b0, d)) by {
            if has_char(b0, d) {
                let j = choose|j: int| 0 <= j < b0.len() && b0[j] == d;
                assert(b[j] == d);
            }
        }
        lemma_split_append_plain(a, b0, d);
        assert((a + b).drop_last() =~= a + b0);
        assert((a + b).last() == b.last());
        assert(b.last() != d) by {
            assert(b[b.len() - 1] == b.last());
        }
        lemma_split_len(a + b0, d);
        let p = split_on(a, d);
        let q = split_on(a + b0, d);
        assert(q.len() == p.len());
        assert(q.last() == p.last() + b0);
        assert((p.last() + b0).push(b.last()) =~= p.last() + b);
        assert(split_on(a + b, d) == q.update(q.len() - 1, q.last().push((a + b).last())));
        assert(split_on(a + b, d) =~= p.update(p.len() - 1, p.last() + b));
    }
}

/// Splitting the `d`-join of pieces that hold no `d` gives the pieces back.
pub proof fn lemma_split_join(parts: Seq<Seq<char>>, d: char)
    requires
        parts.len() >= 1,
        forall|k: int| 0 <= k < parts.len() ==> !has_char(#[trigger] parts[k], d),
    ensures
        split_on(join_with(parts, seq![d]), d) == parts,
    decreases parts.len(),
{
    if parts.len() == 1 {
        lemma_split_append_plain(Seq::<char>::empty(), parts[0], d);
        assert(Seq::<char>::empty() + parts[0] =~= parts[0]);
        assert(split_on(Seq::<char>::empty(), d) == seq![Seq::<char>::empty()]);
        assert(Seq::<char>::empty() + parts[0] =~= parts[0]);
        assert(split_on(parts[0], d) =~= parts);
    } else {
        let pre = parts.drop_last();
        lemma_split_join(pre, d);
        let j = join_with(pre, seq![d]);
        assert(!has_char(parts.last(), d)) by {
            assert(parts[parts.len() - 1] == parts.last());
        }
        lemma_split_append_plain(j.push(d), parts.last(), d);
        assert(j + seq![d] + parts.last() =~= j.push(d) + parts.last());
        assert(j.push(d).drop_last() =~= j);
        lemma_split_len(j, d);
        assert(split_on(j.push(d), d) =~= pre.push(Seq::<char>::empty()));
        assert(Seq::<char>::empty() + parts.last() =~= parts.last());
        assert(split_on(join_with(parts, seq![d]), d) =~= parts);
    }
}

/// Splitting `d` followed by the `d`-join of pieces that hold no `d` gives
/// an empty piece, then the pieces.
pub proof fn lemma_split_sep_join(parts: Seq<Seq<char>>, d: char)
    requires
        parts.len() >= 1,
        forall|k: int| 0 <= k < parts.len() ==> !has_char(#[trigger] parts[k], d),
    ensures
        split_on(seq![d] + join_with(parts, seq![d]), d) == seq![Seq::<char>::empty()] + parts,
    decreases parts.len(),
{
    if parts.len() == 1 {
        lemma_split_append_plain(seq![d], parts[0], d);
        assert(seq![d].drop_last() =~= Seq::<char>::empty());
        assert(seq![d].last() == d);
        assert(split_on(Seq::<char>::empty(), d) == seq![Seq::<char>::empty()]);
        assert(split_on(seq![d], d) == split_on(seq![d].drop_last(), d).push(Seq::<char>::empty()));
        assert(split_on(seq![d], d) =~= seq![Seq::<char>::empty(), Seq::<char>::empty()]);
        assert(Seq::<char>::empty() + parts[0] =~= parts[0]);
        assert(split_on(seq![d] + parts[0], d) =~= seq![Seq::<char>::empty()] + parts);
    } else {
        let pre = parts.drop_last();
        lemma_split_sep_join(pre, d);
        let j = seq![d] + join_with(pre, seq![d]);
        assert(!has_char(parts.last(), d)) by {
            assert(parts[parts.len() - 1] == parts.last());
        }
        lemma_split_append_plain(j.push(d), parts.last(), d);
        assert(seq![d] + join_with(parts, seq![d]) =~= j.push(d) + parts.last());
        assert(j.push(d).drop_last() =~= j);
        lemma_split_len(j, d);
        assert(Seq::<char>::empty() + parts.last() =~= parts.last());
        assert(split_on(seq![d] + join_with(parts, seq![d]), d) =~= seq![Seq::<char>::empty()] + parts);
    }
}

/// Dropping empty pieces keeps a list of non-empty pieces as it is.
pub proof fn lemma_nonempty_keeps(x: Seq<Seq<char>>)
    requires
        forall|k: int| 0 <= k < x.len() ==> (#[trigger] x[k]).len() > 0,
    ensures
        nonempty(x) == x,
    decreases x.len(),
{
    if x.len() > 0 {
        lemma_nonempty_keeps(x.drop_last());
        assert(x[x.len() - 1] == x.last());
        assert(nonempty(x) =~= x);
    }
}

/// A leading empty piece is dropped.
pub proof fn lemma_nonempty_skips_leading_empty(x: Seq<Seq<char>>)
    ensures
        nonempty(seq![Seq::<char>::empty()] + x) == nonempty(x),
    decreases x.len(),
{
    let e = Seq::<char>::empty();
    let y = seq![e] + x;
    if x.len() == 0 {
        assert(y =~= seq![e]);
        assert(y.drop_last() =~= Seq::<Seq<char>>::empty());
        assert(y.last() == e);
        assert(nonempty(y) == nonempty(y.drop_last()));
        assert(nonempty(Seq::<Seq<char>>::empty()) == Seq::<Seq<char>>::empty());
        assert(x =~= Seq::<Seq<char>>::empty());
    } else {
        lemma_nonempty_skips_leading_empty(x.drop_last());
        assert(y.drop_last() =~= seq![e] + x.drop_last());
        assert(y.last() == x.last());
        if x.last().len() == 0 {
            assert(nonempty(y) == nonempty(y.drop_last()));
        } else {
            assert(nonempty(y) == nonempty(y.drop_last()).push(y.last()));
        }
    }
}

/// Every piece kept by `nonempty` is a non-empty piece of the input.
pub proof fn lemma_nonempty_members(x: Seq<Seq<char>>)
    ensures
        forall|k: int| 0 <= k < nonempty(x).len() ==> (#[trigger] nonempty(x)[k]).len() > 0 && exists|j: int|
            0 <= j < x.len() && x[j] == nonempty(x)[k],
    decreases x.len(),
{
    if x.len() > 0 {
        lemma_nonempty_members(x.drop_last());
        let r = nonempty(x.drop_last());
        assert forall|k: int| 0 <= k < nonempty(x).len() implies (#[trigger] nonempty(x)[k]).len() > 0 && exists|j: int|
            0 <= j < x.len() && x[j] == nonempty(x)[k] by {
            if k < r.len() {
                assert(nonempty(x)[k] == r[k]);
                let j = choose|j: int| 0 <= j < x.drop_last().len() && x.drop_last()[j] == r[k];
                assert(x[j] == x.drop_last()[j]);
            } else {
                assert(nonempty(x)[k] == x.last());
                assert(x[x.len() - 1] == x.last());
            }
        }
    }
}

} // verus!

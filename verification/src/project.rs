//! Project slugs: the URL name a project gets when its creator gives none.

use vstd::prelude::*;

use crate::text::{chars_of, push_chars, push_str, string_of};

verus! {

/// Whether `c` may appear in a slug: `a-z`, `0-9` or `-`.
pub open spec fn slug_char(c: char) -> bool {
    ('a' <= c && c <= 'z') || ('0' <= c && c <= '9') || c == '-'
}

/// The shape `slug::slugify` documents for its output: only `a-z`, `0-9`
/// and `-`, never two dashes in a row, never a dash first or last.
pub open spec fn well_formed_slug(s: Seq<char>) -> bool {
    &&& forall|i: int| 0 <= i < s.len() ==> slug_char(#[trigger] s[i])
    &&& forall|i: int| 0 <= i < s.len() - 1 ==> !(#[trigger] s[i] == '-' && s[i + 1] == '-')
    &&& s.len() > 0 ==> s[0] != '-' && s[s.len() - 1] != '-'
}

/// What `slug::slugify` makes of a name.
pub uninterp spec fn slugify_result(name: Seq<char>) -> Seq<char>;

/// Calls `slug::slugify`, which transliterates the name to ASCII and keeps
/// its letters (lowercased) and digits, joining the runs between them with
/// single dashes. Its result is named; the shape its documentation promises
/// is stated.
#[verifier::external_body]
fn slugify(name: &str) -> (r: String)
    ensures
        r@ == slugify_result(name@),
        well_formed_slug(r@),
{
    slug::slugify(name)
}

/// The characters of nanoid's URL-safe alphabet: `_`, `-`, digits and ASCII
/// letters.
pub open spec fn nanoid_char(c: char) -> bool {
    c == '_' || c == '-' || ('0' <= c && c <= '9') || ('a' <= c && c <= 'z') || ('A' <= c
        && c <= 'Z')
}

/// Calls `nanoid::format` with the OS-seeded generator and the URL-safe
/// alphabet: `size` random characters of that alphabet. Which characters is
/// chance; their number and alphabet are what the crate guarantees.
#[verifier::external_body]
fn random_nanoid(size: usize) -> (r: String)
    requires
        size > 0,
    ensures
        r@.len() == size,
        forall|i: int| 0 <= i < r@.len() ==> nanoid_char(#[trigger] r@[i]),
{
    nanoid::format(nanoid::rngs::default, &nanoid::alphabet::SAFE, size)
}

/// Prefix of a slug made up when the name yields none.
pub const FALLBACK_PREFIX: &'static str = "project-";

/// Length of the random part of a made-up slug.
pub const FALLBACK_ID_LEN: usize = 6;

/// The slug made of what slugifying a name gave: `derived` itself, or, when
/// it is empty, `project-` and six random URL-safe characters.
pub fn slug_or_fallback(derived: String) -> (r: String)
    ensures
        derived@.len() > 0 ==> r == derived,
        derived@.len() == 0 ==> {
            &&& r@.len() == FALLBACK_PREFIX@.len() + FALLBACK_ID_LEN
            &&& FALLBACK_PREFIX@.is_prefix_of(r@)
            &&& forall|i: int|
                FALLBACK_PREFIX@.len() <= i < r@.len() ==> nanoid_char(#[trigger] r@[i])
        },
{
    if derived.unicode_len() > 0 {
        derived
    } else {
        let id = random_nanoid(FALLBACK_ID_LEN);
        let mut out: Vec<char> = Vec::new();
        push_str(&mut out, FALLBACK_PREFIX);
        let ghost head = out@;
        push_chars(&mut out, &chars_of(id.as_str()));
        assert forall|i: int| FALLBACK_PREFIX@.len() <= i < out@.len() implies nanoid_char(
            #[trigger] out@[i],
        ) by {
            assert(out@[i] == id@[i - head.len()]);
        }
        assert(out@.subrange(0, FALLBACK_PREFIX@.len() as int) =~= FALLBACK_PREFIX@);
        string_of(&out)
    }
}

/// The slug a new project is stored under: the one given, else the name
/// slugified, else `project-` and six random URL-safe characters when the
/// name slugifies to nothing.
pub fn derive_slug(slug: Option<String>, name: &str) -> (r: String)
    ensures
        slug matches Some(s) ==> r@ == s@,
        slug is None && slugify_result(name@).len() > 0 ==> r@ == slugify_result(name@)
            && well_formed_slug(r@),
        slug is None && slugify_result(name@).len() == 0 ==> {
            &&& r@.len() == FALLBACK_PREFIX@.len() + FALLBACK_ID_LEN
            &&& FALLBACK_PREFIX@.is_prefix_of(r@)
            &&& forall|i: int|
                FALLBACK_PREFIX@.len() <= i < r@.len() ==> nanoid_char(#[trigger] r@[i])
        },
{
    match slug {
        Some(s) => s,
        None => slug_or_fallback(slugify(name)),
    }
}

/// The editable fields of a project.
pub struct ProjectFields {
    pub slug: String,
    pub name: String,
    pub description: Option<String>,
}

/// Apply an update of a project (an absent field keeps its value;
/// `Some(None)` clears the description). Returns the new fields and the
/// slug retired by the update, which is the old one when the slug changed.
pub fn apply_project_update(
    current: ProjectFields,
    name: Option<String>,
    description: Option<Option<String>>,
    slug: Option<String>,
) -> (r: (ProjectFields, Option<String>))
    ensures
        r.0.name == (match name {
            Some(n) => n,
            None => current.name,
        }),
        r.0.description == (match description {
            Some(d) => d,
            None => current.description,
        }),
        r.0.slug == (match slug {
            Some(s) => s,
            None => current.slug,
        }),
        match r.1 {
            Some(old) => old == current.slug && r.0.slug@ != current.slug@,
            None => r.0.slug@ == current.slug@,
        },
{
    let new_name = match name {
        Some(n) => n,
        None => current.name,
    };
    let new_desc = match description {
        Some(d) => d,
        None => current.description,
    };
    let new_slug = match slug {
        Some(s) => s,
        None => current.slug.clone(),
    };
    let retired = if new_slug == current.slug {
        None
    } else {
        Some(current.slug)
    };
    (ProjectFields { slug: new_slug, name: new_name, description: new_desc }, retired)
}

/// Retired slugs and the project each one still leads to.
pub struct SlugHistory {
    entries: Vec<(String, u128)>,
}

/// The project the first retirement of `slug` in `es` names.
pub open spec fn first_owner(es: Seq<(String, u128)>, slug: Seq<char>) -> Option<u128>
    decreases es.len(),
{
    if es.len() == 0 {
        None
    } else {
        match first_owner(es.drop_last(), slug) {
            Some(p) => Some(p),
            None => if es.last().0@ == slug {
                Some(es.last().1)
            } else {
                None
            },
        }
    }
}

impl SlugHistory {
    /// The project a retired slug leads to: the first that retired it.
    pub closed spec fn owner(&self, slug: Seq<char>) -> Option<u128> {
        first_owner(self.entries@, slug)
    }

    /// No slug retired.
    pub fn new() -> (h: Self)
        ensures
            forall|s: Seq<char>| h.owner(s) is None,
    {
        SlugHistory { entries: Vec::new() }
    }

    /// Record that `project` gave up `slug`. A slug already retired keeps
    /// leading to the project that retired it first: it is never reassigned.
    pub fn retire(&mut self, slug: String, project: u128)
        ensures
            final(self).owner(slug@) == (match old(self).owner(slug@) {
                Some(p) => Some(p),
                None => Some(project),
            }),
            forall|s: Seq<char>| s != slug@ ==> final(self).owner(s) == old(self).owner(s),
    {
        let ghost before = self.entries@;
        self.entries.push((slug, project));
        assert(self.entries@.drop_last() =~= before);
    }

    /// The project a retired slug leads to.
    pub fn retired_owner(&self, slug: &str) -> (r: Option<u128>)
        ensures
            r == self.owner(slug@),
    {
        let mut i: usize = 0;
        while i < self.entries.len()
            invariant
                i <= self.entries@.len(),
                first_owner(self.entries@.subrange(0, i as int), slug@) is None,
            decreases self.entries@.len() - i,
        {
            let ghost pre = self.entries@.subrange(0, i as int);
            let ghost post = self.entries@.subrange(0, i + 1);
            assert(post.drop_last() =~= pre);
            if crate::text::str_eq(self.entries[i].0.as_str(), slug) {
                proof {
                    lemma_first_owner_prefix(self.entries@, i + 1, slug@);
                }
                return Some(self.entries[i].1);
            }
            i = i + 1;
        }
        assert(self.entries@.subrange(0, self.entries@.len() as int) =~= self.entries@);
        None
    }
}

proof fn lemma_first_owner_prefix(es: Seq<(String, u128)>, n: int, s: Seq<char>)
    requires
        0 <= n <= es.len(),
        first_owner(es.subrange(0, n), s) is Some,
    ensures
        first_owner(es, s) == first_owner(es.subrange(0, n), s),
    decreases es.len(),
{
    if n < es.len() {
        assert(es.drop_last().subrange(0, n) =~= es.subrange(0, n));
        lemma_first_owner_prefix(es.drop_last(), n, s);
    } else {
        assert(es.subrange(0, n) =~= es);
    }
}

} // verus!

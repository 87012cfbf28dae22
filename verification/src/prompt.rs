//! The system-prompt section that tells an agent where the workspace tree is
//! mounted inside its sandbox and which external sources are connected.

use vstd::prelude::*;

use crate::text::{join_with, push_chars, push_str, string_views};

verus! {

/// Where the unified workspace tree is mounted inside the guest.
pub const GUEST_MOUNT_ROOT: &'static str = "/mnt/workspace";

/// What the prompt says in place of a source list when there is none.
pub const NO_SOURCES: &'static str = "none are connected yet";

/// The section heading and the start of the mount sentence.
pub const PROMPT_HEAD: &'static str = "\n\n## Workspace\n- The user's workspace is mounted at `";

/// What follows the mount root, up to the source list.
pub const PROMPT_AFTER_ROOT: &'static str = "`.\n- `files/` holds the user's own files. Connected sources: ";

/// What follows the source list, up to the root named again.
pub const PROMPT_AFTER_SOURCES: &'static str = ".\n- When the query refers to the user's own files, mail or notes and they are not in the attachment or shared-data directories, look here first.\n- Run `ls` to learn a source's layout instead of guessing paths; entry names are not predictable.\n- Every listing and read is a live API call, so walk the tree one level at a time. Do not run recursive `find` or `grep -r` over `";

/// The end of the section.
pub const PROMPT_TAIL: &'static str = "`.\n- Treat it as input only. Task outputs still belong in the artifacts directory.";

/// The sources phrase: the names joined by `, `, or [`NO_SOURCES`].
pub open spec fn connected_spec(sources: Seq<Seq<char>>) -> Seq<char> {
    if sources.len() == 0 {
        NO_SOURCES@
    } else {
        join_with(sources, ", "@)
    }
}

/// The whole prompt section for the given provider mount names.
pub open spec fn workspace_prompt_spec(sources: Seq<Seq<char>>) -> Seq<char> {
    PROMPT_HEAD@ + GUEST_MOUNT_ROOT@ + PROMPT_AFTER_ROOT@ + connected_spec(sources) + PROMPT_AFTER_SOURCES@
        + GUEST_MOUNT_ROOT@ + PROMPT_TAIL@
}

/// The prompt section naming the mount root and the connected `sources`
/// (provider mount names without a leading slash). It opens with a blank
/// line and its own heading so it can be appended to an existing prompt.
pub fn workspace_prompt(sources: &[String]) -> (r: String)
    ensures
        r@ == workspace_prompt_spec(string_views(sources@)),
{
    let mut connected: Vec<char> = Vec::new();
    if sources.len() == 0 {
        push_str(&mut connected, NO_SOURCES);
    } else {
        let mut k: usize = 0;
        while k < sources.len()
            invariant
                k <= sources@.len(),
                connected@ == join_with(string_views(sources@).subrange(0, k as int), ", "@),
            decreases sources@.len() - k,
        {
            let ghost pre = string_views(sources@).subrange(0, k as int);
            let ghost post = string_views(sources@).subrange(0, k + 1);
            assert(post.drop_last() =~= pre);
            if k > 0 {
                push_str(&mut connected, ", ");
            }
            push_str(&mut connected, sources[k].as_str());
            assert(post.last() == sources@[k as int]@);
            assert(connected@ =~= join_with(post, ", "@));
            k = k + 1;
        }
        assert(string_views(sources@).subrange(0, sources@.len() as int) =~= string_views(sources@));
    }
    let mut r: Vec<char> = Vec::new();
    push_str(&mut r, PROMPT_HEAD);
    push_str(&mut r, GUEST_MOUNT_ROOT);
    push_str(&mut r, PROMPT_AFTER_ROOT);
    push_chars(&mut r, &connected);
    push_str(&mut r, PROMPT_AFTER_SOURCES);
    push_str(&mut r, GUEST_MOUNT_ROOT);
    push_str(&mut r, PROMPT_TAIL);
    crate::text::string_of(&r)
}

/// Whether a tunnel pump binary was built in: the embedded image is not
/// empty.
pub fn tunnel_available(pump_image: &[u8]) -> (r: bool)
    ensures
        r == (pump_image@.len() > 0),
{
    pump_image.len() > 0
}

} // verus!

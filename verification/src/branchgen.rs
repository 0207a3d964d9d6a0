//! Deterministic derivation of branch names and worktree paths, and
//! collision-free branch-name generation.

use vstd::prelude::*;
use crate::text;
use crate::errors::TwinError;

verus! {

/// The branch derived for an environment name: the prefix, a separating
/// slash unless the prefix already ends with one or is empty, then the name.
pub open spec fn spec_branch_name(prefix: Seq<char>, name: Seq<char>) -> Seq<char> {
    if prefix.len() == 0 {
        name
    } else if prefix.last() == '/' {
        prefix + name
    } else {
        prefix + seq!['/'] + name
    }
}

/// Derive the branch name for an environment from the configured prefix.
pub fn generate_branch_name(prefix: &str, name: &str) -> (r: String)
    ensures
        r@ == spec_branch_name(prefix@, name@),
{
    proof {
        reveal_strlit("/");
        assert("/"@ =~= seq!['/']);
    }
    let plen = prefix.unicode_len();
    if plen == 0 {
        text::str_to_string(name)
    } else if prefix.get_char(plen - 1) == '/' {
        text::concat2(prefix, name)
    } else {
        text::concat3(prefix, "/", name)
    }
}

/// The worktree directory derived for an environment name: the base
/// directory, a slash, then the name.
pub open spec fn spec_worktree_path(base: Seq<char>, name: Seq<char>) -> Seq<char> {
    base + seq!['/'] + name
}

/// Derive the worktree path for an environment under the base directory.
pub fn generate_worktree_path(base: &str, name: &str) -> (r: String)
    ensures
        r@ == spec_worktree_path(base@, name@),
{
    proof {
        reveal_strlit("/");
        assert("/"@ =~= seq!['/']);
    }
    text::concat3(base, "/", name)
}

/// The candidate branch names tried in order: the base itself, then
/// `base-1` up to `base-max_attempts`, then the base with the fallback
/// suffix appended after a dash.
pub open spec fn spec_candidate(
    base: Seq<char>,
    k: int,
    max_attempts: int,
    suffix: Seq<char>,
) -> Seq<char> {
    if k == 0 {
        base
    } else if k <= max_attempts {
        base + seq!['-'] + text::spec_dec(k)
    } else {
        base + seq!['-'] + suffix
    }
}

/// What `generate_unique_branch_name` promises: the result is the first
/// candidate that does not collide with an existing branch, and an error
/// comes exactly when every candidate collides.
pub open spec fn unique_branch_post(
    base: Seq<char>,
    max_attempts: int,
    existing: Seq<Seq<char>>,
    suffix: Seq<char>,
    r: Result<String, TwinError>,
) -> bool {
    match r {
        Ok(s) => exists|k: int|
            0 <= k <= max_attempts + 1 && s@ == spec_candidate(base, k, max_attempts, suffix)
                && !existing.contains(s@) && forall|j: int|
                0 <= j < k ==> existing.contains(
                    #[trigger] spec_candidate(base, j, max_attempts, suffix),
                ),
        Err(e) => e is Git && forall|k: int|
            0 <= k <= max_attempts + 1 ==> existing.contains(
                #[trigger] spec_candidate(base, k, max_attempts, suffix),
            ),
    }
}

/// Generate a branch name that does not collide with any existing branch:
/// first the base name, then numbered variants, then the fallback suffix
/// (in practice a timestamp); fail only if even that collides.
pub fn generate_unique_branch_name(
    base: &str,
    max_attempts: u64,
    existing: &Vec<String>,
    fallback_suffix: &str,
) -> (r: Result<String, TwinError>)
    requires
        max_attempts < u64::MAX,
    ensures
        unique_branch_post(
            base@,
            max_attempts as int,
            existing@.map_values(|s: String| s@),
            fallback_suffix@,
            r,
        ),
{
    proof {
        reveal_strlit("-");
        assert("-"@ =~= seq!['-']);
    }
    let ghost ex = existing@.map_values(|s: String| s@);
    let ghost ma = max_attempts as int;
    let ghost sfx = fallback_suffix@;
    if !text::contains_string(existing, base) {
        let s = text::str_to_string(base);
        proof {
            assert(s@ == spec_candidate(base@, 0, ma, sfx));
        }
        return Ok(s);
    }
    let mut i: u64 = 1;
    while i <= max_attempts
        invariant
            1 <= i <= max_attempts + 1,
            max_attempts < u64::MAX,
            ma == max_attempts as int,
            sfx == fallback_suffix@,
            ex == existing@.map_values(|s: String| s@),
            forall|j: int| 0 <= j < i ==> ex.contains(#[trigger] spec_candidate(base@, j, ma, sfx)),
        decreases max_attempts + 1 - i,
    {
        let num = text::u64_to_string(i);
        let cand = text::concat3(base, "-", num.as_str());
        proof {
            reveal_strlit("-");
            assert("-"@ =~= seq!['-']);
            assert(cand@ == spec_candidate(base@, i as int, ma, sfx));
        }
        if !text::contains_string(existing, cand.as_str()) {
            return Ok(cand);
        }
        i += 1;
    }
    let cand = text::concat3(base, "-", fallback_suffix);
    proof {
        assert(cand@ == spec_candidate(base@, ma + 1, ma, sfx));
    }
    if !text::contains_string(existing, cand.as_str()) {
        Ok(cand)
    } else {
        proof {
            assert forall|k: int| 0 <= k <= ma + 1 implies ex.contains(
                #[trigger] spec_candidate(base@, k, ma, sfx),
            ) by {}
        }
        Err(TwinError::git(text::concat2("Failed to generate unique branch name for: ", base)))
    }
}

/// If the base and every numbered variant up to `max_attempts` collide with
/// existing branches but the fallback-suffixed name does not, generation
/// returns exactly the fallback-suffixed name.
pub proof fn lemma_branch_name_fallback(
    base: Seq<char>,
    max_attempts: int,
    existing: Seq<Seq<char>>,
    suffix: Seq<char>,
    r: Result<String, TwinError>,
)
    requires
        max_attempts >= 0,
        unique_branch_post(base, max_attempts, existing, suffix, r),
        forall|k: int|
            0 <= k <= max_attempts ==> existing.contains(
                #[trigger] spec_candidate(base, k, max_attempts, suffix),
            ),
        !existing.contains(spec_candidate(base, max_attempts + 1, max_attempts, suffix)),
    ensures
        r matches Ok(s) && s@ == spec_candidate(base, max_attempts + 1, max_attempts, suffix),
{
    match r {
        Ok(s) => {
            let k = choose|k: int|
                0 <= k <= max_attempts + 1 && s@ == spec_candidate(base, k, max_attempts, suffix)
                    && !existing.contains(s@) && forall|j: int|
                    0 <= j < k ==> existing.contains(
                        #[trigger] spec_candidate(base, j, max_attempts, suffix),
                    );
            assert(k == max_attempts + 1);
        },
        Err(_) => {
            assert(existing.contains(spec_candidate(base, max_attempts + 1, max_attempts, suffix)));
        },
    }
}

} // verus!

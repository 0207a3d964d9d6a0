//! Lifecycle hooks: the four phases, the execution context, placeholder
//! expansion, and the continue-or-abort policy.

use vstd::prelude::*;
use crate::types::HookCommand;
use crate::errors::TwinError;
use crate::text;

verus! {

/// The lifecycle phase a hook runs in.
#[derive(Debug, Clone, Copy, PartialEq, Eq, Structural)]
pub enum HookType {
    /// Before an environment is created.
    PreCreate,
    /// After an environment is created.
    PostCreate,
    /// Before an environment is removed.
    PreRemove,
    /// After an environment is removed.
    PostRemove,
}

impl HookType {
    /// The phase's configuration key.
    pub fn as_str(&self) -> (r: &'static str)
        ensures
            self is PreCreate ==> r@ == "pre_create"@,
            self is PostCreate ==> r@ == "post_create"@,
            self is PreRemove ==> r@ == "pre_remove"@,
            self is PostRemove ==> r@ == "post_remove"@,
    {
        match self {
            HookType::PreCreate => "pre_create",
            HookType::PostCreate => "post_create",
            HookType::PreRemove => "pre_remove",
            HookType::PostRemove => "post_remove",
        }
    }
}

/// What one hook execution produced.
#[derive(Debug)]
pub struct HookResult {
    /// The phase the hook ran in.
    pub hook_type: HookType,
    /// The expanded command that ran.
    pub command: String,
    /// Whether it spawned and exited with status zero.
    pub success: bool,
    /// The exit status, if the process ran to an exit.
    pub exit_code: Option<i32>,
    /// Captured standard output.
    pub stdout: String,
    /// Captured standard error.
    pub stderr: String,
    /// How long the hook ran, in milliseconds.
    pub duration_ms: u64,
}

/// The values a hook's placeholders expand to.
#[derive(Debug, Clone)]
pub struct HookContext {
    /// The environment's name.
    pub agent_name: String,
    /// The environment's worktree directory.
    pub worktree_path: String,
    /// The environment's branch.
    pub branch: String,
    /// The main repository's root directory.
    pub project_root: String,
    /// Caller-supplied extra variables, as key-value pairs.
    pub env_vars: Vec<(String, String)>,
}

impl HookContext {
    /// A context for the four standard values, with no extra variables.
    pub fn new(agent_name: String, worktree_path: String, branch: String, project_root: String)
        -> (r: HookContext)
        ensures
            r.agent_name@ == agent_name@,
            r.worktree_path@ == worktree_path@,
            r.branch@ == branch@,
            r.project_root@ == project_root@,
            r.env_vars@.len() == 0,
    {
        HookContext { agent_name, worktree_path, branch, project_root, env_vars: Vec::new() }
    }

    /// Add one extra variable.
    pub fn add_env_var(&mut self, key: String, value: String)
        ensures
            final(self).env_vars@ == old(self).env_vars@.push((key, value)),
            final(self).agent_name == old(self).agent_name,
            final(self).worktree_path == old(self).worktree_path,
            final(self).branch == old(self).branch,
            final(self).project_root == old(self).project_root,
    {
        self.env_vars.push((key, value));
    }

    /// The variables handed to the hook process: the caller's extras first,
    /// then the four standard values under their `TWIN_`-prefixed names.
    pub fn as_env_vars(&self) -> (r: Vec<(String, String)>)
        ensures
            r@.len() == self.env_vars@.len() + 4,
            forall|i: int| 0 <= i < self.env_vars@.len() ==> r@[i] == self.env_vars@[i],
            r@[self.env_vars@.len() as int].0@ == "TWIN_AGENT_NAME"@,
            r@[self.env_vars@.len() as int].1@ == self.agent_name@,
            r@[self.env_vars@.len() as int + 1].0@ == "TWIN_WORKTREE_PATH"@,
            r@[self.env_vars@.len() as int + 1].1@ == self.worktree_path@,
            r@[self.env_vars@.len() as int + 2].0@ == "TWIN_BRANCH"@,
            r@[self.env_vars@.len() as int + 2].1@ == self.branch@,
            r@[self.env_vars@.len() as int + 3].0@ == "TWIN_PROJECT_ROOT"@,
            r@[self.env_vars@.len() as int + 3].1@ == self.project_root@,
    {
        let mut vars: Vec<(String, String)> = Vec::new();
        let n = self.env_vars.len();
        let mut i: usize = 0;
        while i < n
            invariant
                0 <= i <= n == self.env_vars@.len(),
                vars@.len() == i,
                forall|j: int| 0 <= j < i ==> vars@[j] == self.env_vars@[j],
            decreases n - i,
        {
            let k = self.env_vars[i].0.clone();
            let v = self.env_vars[i].1.clone();
            proof {
                let pair = self.env_vars@[i as int];
                assert(k == pair.0 && v == pair.1);
            }
            vars.push((k, v));
            i += 1;
        }
        vars.push(
            (
                text::str_to_string("TWIN_AGENT_NAME"),
                self.agent_name.clone(),
            ),
        );
        vars.push(
            (
                text::str_to_string("TWIN_WORKTREE_PATH"),
                self.worktree_path.clone(),
            ),
        );
        vars.push(
            (text::str_to_string("TWIN_BRANCH"), self.branch.clone()),
        );
        vars.push(
            (
                text::str_to_string("TWIN_PROJECT_ROOT"),
                self.project_root.clone(),
            ),
        );
        vars
    }
}

/// What the caller observed of a spawned hook process.
#[derive(Debug, Clone)]
pub struct SpawnOutcome {
    /// Whether the process could be spawned at all.
    pub spawned: bool,
    /// The exit status, if the process ran to an exit.
    pub exit_code: Option<i32>,
    /// Captured standard output.
    pub stdout: String,
    /// Captured standard error.
    pub stderr: String,
    /// How long the process ran, in milliseconds.
    pub duration_ms: u64,
}

impl SpawnOutcome {
    /// Whether the observation counts as a successful hook run.
    pub open spec fn ok(self) -> bool {
        self.spawned && self.exit_code == Some(0i32)
    }
}

} // verus!

verus! {

/// No character of `v` occurs in `t`.
pub open spec fn avoids(v: Seq<char>, t: Seq<char>) -> bool {
    forall|a: int, b: int| 0 <= a < v.len() && 0 <= b < t.len() ==> v[a] != t[b]
}

/// The pattern a custom variable is written as: a dollar, an opening brace,
/// the key, a closing brace.
pub open spec fn env_pat(k: Seq<char>) -> Seq<char> {
    "${"@ + k + "}"@
}

/// The command after the custom variables are substituted, in declaration
/// order.
pub open spec fn spec_fold_envs(s: Seq<char>, envs: Seq<(Seq<char>, Seq<char>)>) -> Seq<char>
    decreases envs.len(),
{
    if envs.len() == 0 {
        s
    } else {
        spec_fold_envs(text::spec_replace(s, env_pat(envs[0].0), envs[0].1), envs.skip(1))
    }
}

/// The fully expanded command: the four standard variables in their
/// uppercase spelling, then the custom variables, then the four standard
/// placeholders in their braced lowercase spelling.
pub open spec fn spec_expand(
    cmd: Seq<char>,
    an: Seq<char>,
    wp: Seq<char>,
    br: Seq<char>,
    pr: Seq<char>,
    envs: Seq<(Seq<char>, Seq<char>)>,
) -> Seq<char> {
    let s1 = text::spec_replace(cmd, "${AGENT_NAME}"@, an);
    let s2 = text::spec_replace(s1, "${WORKTREE_PATH}"@, wp);
    let s3 = text::spec_replace(s2, "${BRANCH}"@, br);
    let s4 = text::spec_replace(s3, "${PROJECT_ROOT}"@, pr);
    let s5 = spec_fold_envs(s4, envs);
    let s6 = text::spec_replace(s5, "{agent_name}"@, an);
    let s7 = text::spec_replace(s6, "{worktree_path}"@, wp);
    let s8 = text::spec_replace(s7, "{branch}"@, br);
    text::spec_replace(s8, "{project_root}"@, pr)
}

/// The custom-variable pairs of a context, as character sequences.
pub open spec fn env_views(envs: Seq<(String, String)>) -> Seq<(Seq<char>, Seq<char>)> {
    envs.map_values(|p: (String, String)| (p.0@, p.1@))
}

impl HookContext {
    /// Expand every placeholder in a command or argument: the four standard
    /// variables in both their `${UPPER}` and `{lower}` spellings, and each
    /// extra variable in its `${KEY}` spelling, by exact literal
    /// substitution.
    pub fn expand_command(&self, command: &str) -> (r: String)
        ensures
            r@ == spec_expand(
                command@,
                self.agent_name@,
                self.worktree_path@,
                self.branch@,
                self.project_root@,
                env_views(self.env_vars@),
            ),
    {
        proof {
            reveal_strlit("${AGENT_NAME}");
            reveal_strlit("${WORKTREE_PATH}");
            reveal_strlit("${BRANCH}");
            reveal_strlit("${PROJECT_ROOT}");
            reveal_strlit("{agent_name}");
            reveal_strlit("{worktree_path}");
            reveal_strlit("{branch}");
            reveal_strlit("{project_root}");
            reveal_strlit("${");
            reveal_strlit("}");
        }
        let s1 = text::replace_all(command, "${AGENT_NAME}", self.agent_name.as_str());
        let s2 = text::replace_all(s1.as_str(), "${WORKTREE_PATH}", self.worktree_path.as_str());
        let s3 = text::replace_all(s2.as_str(), "${BRANCH}", self.branch.as_str());
        let s4 = text::replace_all(s3.as_str(), "${PROJECT_ROOT}", self.project_root.as_str());
        let ghost evs = env_views(self.env_vars@);
        let mut cur = s4;
        let n = self.env_vars.len();
        let mut i: usize = 0;
        proof {
            assert(evs.skip(0) =~= evs);
        }
        while i < n
            invariant
                0 <= i <= n == self.env_vars@.len(),
                evs == env_views(self.env_vars@),
                spec_fold_envs(s4@, evs) == spec_fold_envs(cur@, evs.skip(i as int)),
            decreases n - i,
        {
            proof {
                reveal_strlit("${");
                reveal_strlit("}");
                assert(evs.skip(i as int)[0] == evs[i as int]);
                assert(evs.skip(i as int).skip(1) =~= evs.skip(i + 1 as int));
            }
            let pat = text::concat3("${", self.env_vars[i].0.as_str(), "}");
            proof {
                assert(pat@ == env_pat(evs[i as int].0));
                assert(pat@.len() > 0);
            }
            cur = text::replace_all(cur.as_str(), pat.as_str(), self.env_vars[i].1.as_str());
            i += 1;
        }
        proof {
            assert(evs.skip(n as int) =~= Seq::<(Seq<char>, Seq<char>)>::empty());
        }
        let s6 = text::replace_all(cur.as_str(), "{agent_name}", self.agent_name.as_str());
        let s7 = text::replace_all(s6.as_str(), "{worktree_path}", self.worktree_path.as_str());
        let s8 = text::replace_all(s7.as_str(), "{branch}", self.branch.as_str());
        text::replace_all(s8.as_str(), "{project_root}", self.project_root.as_str())
    }
}

/// A replacement whose value is nonempty and shares no character with a
/// token neither creates nor keeps an occurrence of that token it would
/// otherwise have removed.
proof fn lemma_no_occ_preserved(x: Seq<char>, t: Seq<char>, pat: Seq<char>, rep: Seq<char>)
    requires
        t.len() > 0,
        pat.len() > 0,
        rep.len() > 0,
        avoids(rep, t),
        !text::occurs(x, t),
    ensures
        !text::occurs(text::spec_replace(x, pat, rep), t),
    decreases x.len(),
{
    let r = text::spec_replace(x, pat, rep);
    if x.len() < pat.len() {
    } else if pat.is_prefix_of(x) {
        lemma_occurs_skip(x, t, pat.len() as int);
        lemma_no_occ_preserved(x.skip(pat.len() as int), t, pat, rep);
        let r1 = text::spec_replace(x.skip(pat.len() as int), pat, rep);
        if text::occurs(r, t) {
            let q = choose|q: int|
                0 <= q && q + t.len() <= r.len() && #[trigger] r.subrange(q, q + t.len() as int)
                    == t;
            if q < rep.len() {
                assert(r.subrange(q, q + t.len() as int)[0] == t[0]);
                assert(r[q] == rep[q]);
                assert(false);
            } else {
                assert forall|k: int|
                    0 <= k < t.len() implies #[trigger] r1.subrange(
                    q - rep.len(),
                    q - rep.len() + t.len(),
                )[k] == t[k] by {
                    assert(r1[q - rep.len() + k] == r[q + k]);
                    assert(r.subrange(q, q + t.len() as int)[k] == t[k]);
                }
                assert(r1.subrange(q - rep.len(), q - rep.len() + t.len()) =~= t);
                assert(false);
            }
        }
    } else {
        lemma_occurs_skip(x, t, 1);
        lemma_no_occ_preserved(x.skip(1), t, pat, rep);
        let r1 = text::spec_replace(x.skip(1), pat, rep);
        if text::occurs(r, t) {
            let q = choose|q: int|
                0 <= q && q + t.len() <= r.len() && #[trigger] r.subrange(q, q + t.len() as int)
                    == t;
            if q == 0 {
                assert(t =~= r.subrange(0, t.len() as int));
                assert(t.is_prefix_of(r));
                assert forall|a: int, b: int|
                    0 <= a < t.len() && 0 <= b < rep.len() implies #[trigger] t[a]
                    != #[trigger] rep[b] by {}
                text::lemma_prefix_pullback(x, t, pat, rep);
                assert(t =~= x.subrange(0, t.len() as int));
                assert(text::occurs(x, t));
                assert(false);
            } else {
                assert forall|k: int|
                    0 <= k < t.len() implies #[trigger] r1.subrange(q - 1, q - 1 + t.len())[k]
                    == t[k] by {
                    assert(r1[q - 1 + k] == r[q + k]);
                    assert(r.subrange(q, q + t.len() as int)[k] == t[k]);
                }
                assert(r1.subrange(q - 1, q - 1 + t.len()) =~= t);
                assert(false);
            }
        }
    }
}

/// An occurrence within a suffix is an occurrence in the whole.
proof fn lemma_occurs_skip(x: Seq<char>, t: Seq<char>, k: int)
    requires
        0 <= k <= x.len(),
    ensures
        text::occurs(x.skip(k), t) ==> text::occurs(x, t),
{
    if text::occurs(x.skip(k), t) {
        let q = choose|q: int|
            0 <= q && q + t.len() <= x.skip(k).len() && #[trigger] x.skip(k).subrange(
                q,
                q + t.len() as int,
            ) == t;
        assert forall|j: int|
            0 <= j < t.len() implies #[trigger] x.subrange(k + q, k + q + t.len() as int)[j]
            == t[j] by {
            assert(x.skip(k).subrange(q, q + t.len() as int)[j] == x.skip(k)[q + j]);
            assert(x.skip(k)[q + j] == x[k + q + j]);
        }
        assert(x.subrange(k + q, k + q + t.len() as int) =~= t);
    }
}

/// Substituting the custom variables keeps a token absent, provided every
/// custom value is nonempty and shares no character with the token.
proof fn lemma_fold_preserves(s: Seq<char>, envs: Seq<(Seq<char>, Seq<char>)>, t: Seq<char>)
    requires
        t.len() > 0,
        !text::occurs(s, t),
        forall|i: int|
            0 <= i < envs.len() ==> (#[trigger] envs[i]).1.len() > 0 && avoids(envs[i].1, t),
    ensures
        !text::occurs(spec_fold_envs(s, envs), t),
    decreases envs.len(),
{
    if envs.len() == 0 {
    } else {
        assert(env_pat(envs[0].0).len() > 0) by {
            reveal_strlit("${");
            reveal_strlit("}");
        }
        lemma_no_occ_preserved(s, t, env_pat(envs[0].0), envs[0].1);
        assert forall|i: int|
            0 <= i < envs.skip(1).len() implies (#[trigger] envs.skip(1)[i]).1.len() > 0 && avoids(
            envs.skip(1)[i].1,
            t,
        ) by {
            assert(envs.skip(1)[i] == envs[i + 1]);
        }
        lemma_fold_preserves(
            text::spec_replace(s, env_pat(envs[0].0), envs[0].1),
            envs.skip(1),
            t,
        );
    }
}

/// Hook expansion is complete: a command template containing the braced
/// placeholders `{agent_name}`, `{branch}` or `{worktree_path}` expands
/// with no such placeholder remaining and exact literal substitution,
/// provided every substituted value is nonempty and shares no character
/// with those placeholders.
pub proof fn lemma_expansion_complete(
    cmd: Seq<char>,
    an: Seq<char>,
    wp: Seq<char>,
    br: Seq<char>,
    pr: Seq<char>,
    envs: Seq<(Seq<char>, Seq<char>)>,
)
    requires
        an.len() > 0 && wp.len() > 0 && br.len() > 0 && pr.len() > 0,
        avoids(an, "{agent_name}"@) && avoids(an, "{worktree_path}"@) && avoids(an, "{branch}"@),
        avoids(wp, "{agent_name}"@) && avoids(wp, "{worktree_path}"@) && avoids(wp, "{branch}"@),
        avoids(br, "{agent_name}"@) && avoids(br, "{worktree_path}"@) && avoids(br, "{branch}"@),
        avoids(pr, "{agent_name}"@) && avoids(pr, "{worktree_path}"@) && avoids(pr, "{branch}"@),
        forall|i: int|
            0 <= i < envs.len() ==> (#[trigger] envs[i]).1.len() > 0 && avoids(
                envs[i].1,
                "{agent_name}"@,
            ) && avoids(envs[i].1, "{worktree_path}"@) && avoids(envs[i].1, "{branch}"@),
    ensures
        !text::occurs(spec_expand(cmd, an, wp, br, pr, envs), "{agent_name}"@),
        !text::occurs(spec_expand(cmd, an, wp, br, pr, envs), "{worktree_path}"@),
        !text::occurs(spec_expand(cmd, an, wp, br, pr, envs), "{branch}"@),
{
    reveal_strlit("{agent_name}");
    reveal_strlit("{worktree_path}");
    reveal_strlit("{branch}");
    reveal_strlit("{project_root}");
    reveal_strlit("${AGENT_NAME}");
    reveal_strlit("${WORKTREE_PATH}");
    reveal_strlit("${BRANCH}");
    reveal_strlit("${PROJECT_ROOT}");
    let s1 = text::spec_replace(cmd, "${AGENT_NAME}"@, an);
    let s2 = text::spec_replace(s1, "${WORKTREE_PATH}"@, wp);
    let s3 = text::spec_replace(s2, "${BRANCH}"@, br);
    let s4 = text::spec_replace(s3, "${PROJECT_ROOT}"@, pr);
    let s5 = spec_fold_envs(s4, envs);
    let s6 = text::spec_replace(s5, "{agent_name}"@, an);
    let s7 = text::spec_replace(s6, "{worktree_path}"@, wp);
    let s8 = text::spec_replace(s7, "{branch}"@, br);
    let s9 = text::spec_replace(s8, "{project_root}"@, pr);
    text::lemma_replace_removes_all(s5, "{agent_name}"@, an);
    lemma_no_occ_preserved(s6, "{agent_name}"@, "{worktree_path}"@, wp);
    text::lemma_replace_removes_all(s6, "{worktree_path}"@, wp);
    lemma_no_occ_preserved(s7, "{agent_name}"@, "{branch}"@, br);
    lemma_no_occ_preserved(s7, "{worktree_path}"@, "{branch}"@, br);
    text::lemma_replace_removes_all(s7, "{branch}"@, br);
    lemma_no_occ_preserved(s8, "{agent_name}"@, "{project_root}"@, pr);
    lemma_no_occ_preserved(s8, "{worktree_path}"@, "{project_root}"@, pr);
    lemma_no_occ_preserved(s8, "{branch}"@, "{project_root}"@, pr);
}

} // verus!

verus! {

/// Runs hooks: expansion, dry-run short-circuiting, and the
/// continue-or-abort policy. The actual process spawn is the caller's; its
/// observation comes back as a `SpawnOutcome`.
#[derive(Debug)]
pub struct HookExecutor {
    /// Report what would run without running it.
    pub dry_run: bool,
    /// Execution bound handed to the spawner, in seconds.
    pub timeout_seconds: u64,
    /// Tolerate failures of every hook, whatever each hook declares.
    pub continue_on_error: bool,
}

/// Whether this executor lets the sequence proceed past this hook with this
/// observation.
pub open spec fn hook_tolerated(ex: HookExecutor, hook: HookCommand, oc: SpawnOutcome) -> bool {
    ex.dry_run || oc.ok() || hook.continue_on_error || ex.continue_on_error
}

impl HookExecutor {
    /// An executor that runs hooks for real, with a half-minute bound, and
    /// aborts on the first failing hook that does not allow continuation.
    pub fn new() -> (r: HookExecutor)
        ensures
            !r.dry_run,
            r.timeout_seconds == 30,
            !r.continue_on_error,
    {
        HookExecutor { dry_run: false, timeout_seconds: 30, continue_on_error: false }
    }

    /// Switch dry-run mode.
    pub fn set_dry_run(&mut self, dry_run: bool)
        ensures
            final(self).dry_run == dry_run,
            final(self).timeout_seconds == old(self).timeout_seconds,
            final(self).continue_on_error == old(self).continue_on_error,
    {
        self.dry_run = dry_run;
    }

    /// Change the execution bound.
    pub fn set_timeout(&mut self, seconds: u64)
        ensures
            final(self).timeout_seconds == seconds,
            final(self).dry_run == old(self).dry_run,
            final(self).continue_on_error == old(self).continue_on_error,
    {
        self.timeout_seconds = seconds;
    }

    /// Change the executor-wide tolerance.
    pub fn set_continue_on_error(&mut self, continue_on_error: bool)
        ensures
            final(self).continue_on_error == continue_on_error,
            final(self).dry_run == old(self).dry_run,
            final(self).timeout_seconds == old(self).timeout_seconds,
    {
        self.continue_on_error = continue_on_error;
    }

    /// Judge one hook execution: expand the command, short-circuit under
    /// dry-run, and otherwise classify the spawner's observation, aborting
    /// with a hook error exactly when the failure is tolerated neither by
    /// the hook nor by the executor.
    pub fn execute(
        &self,
        hook_type: HookType,
        hook: &HookCommand,
        context: &HookContext,
        spawn: &SpawnOutcome,
    ) -> (r: Result<HookResult, TwinError>)
        ensures
            (r is Ok) == hook_tolerated(*self, *hook, *spawn),
            r matches Ok(h) ==> h.hook_type == hook_type && h.command@ == spec_expand(
                hook.command@,
                context.agent_name@,
                context.worktree_path@,
                context.branch@,
                context.project_root@,
                env_views(context.env_vars@),
            ) && h.success == (self.dry_run || spawn.ok()) && (self.dry_run ==> h.exit_code
                == Some(0i32) && h.stdout@ == "[DRY RUN]"@) && (!self.dry_run ==> h.exit_code
                == spawn.exit_code && h.stdout@ == spawn.stdout@ && h.stderr@ == spawn.stderr@
                && h.duration_ms == spawn.duration_ms),
            r matches Err(e) ==> e matches TwinError::Hook { exit_code, .. } && exit_code
                == spawn.exit_code,
    {
        let expanded = context.expand_command(hook.command.as_str());
        if self.dry_run {
            proof {
                reveal_strlit("[DRY RUN]");
            }
            return Ok(
                HookResult {
                    hook_type,
                    command: expanded,
                    success: true,
                    exit_code: Some(0),
                    stdout: text::str_to_string("[DRY RUN]"),
                    stderr: String::new(),
                    duration_ms: 0,
                },
            );
        }
        let ok = spawn.spawned && match spawn.exit_code {
            Some(c) => c == 0,
            None => false,
        };
        if !ok && !hook.continue_on_error && !self.continue_on_error {
            return Err(
                TwinError::hook(
                    text::concat2("Hook failed: ", expanded.as_str()),
                    text::str_to_string(hook_type.as_str()),
                    spawn.exit_code,
                ),
            );
        }
        Ok(
            HookResult {
                hook_type,
                command: expanded,
                success: ok,
                exit_code: spawn.exit_code,
                stdout: spawn.stdout.clone(),
                stderr: spawn.stderr.clone(),
                duration_ms: spawn.duration_ms,
            },
        )
    }

    /// Judge a hook sequence, strictly in declared order: the first failing
    /// hook that allows no continuation stops the sequence with its error;
    /// tolerated failures are recorded and the sequence proceeds.
    pub fn execute_hooks(
        &self,
        hook_type: HookType,
        hooks: &Vec<HookCommand>,
        context: &HookContext,
        outcomes: &Vec<SpawnOutcome>,
    ) -> (r: Result<Vec<HookResult>, TwinError>)
        requires
            outcomes@.len() == hooks@.len(),
        ensures
            (r is Ok) == (forall|i: int|
                0 <= i < hooks@.len() ==> hook_tolerated(*self, #[trigger] hooks@[i], outcomes@[i])),
            r matches Ok(v) ==> v@.len() == hooks@.len() && forall|i: int|
                0 <= i < hooks@.len() ==> (#[trigger] v@[i]).success == (self.dry_run
                    || outcomes@[i].ok()),
            r matches Err(e) ==> e is Hook,
    {
        let mut results: Vec<HookResult> = Vec::new();
        let n = hooks.len();
        let mut i: usize = 0;
        while i < n
            invariant
                0 <= i <= n == hooks@.len() == outcomes@.len(),
                results@.len() == i,
                forall|j: int|
                    0 <= j < i ==> hook_tolerated(*self, #[trigger] hooks@[j], outcomes@[j]),
                forall|j: int|
                    0 <= j < i ==> (#[trigger] results@[j]).success == (self.dry_run
                        || outcomes@[j].ok()),
            decreases n - i,
        {
            match self.execute(hook_type, &hooks[i], context, &outcomes[i]) {
                Ok(res) => {
                    results.push(res);
                },
                Err(e) => {
                    return Err(e);
                },
            }
            i += 1;
        }
        Ok(results)
    }
}

} // verus!

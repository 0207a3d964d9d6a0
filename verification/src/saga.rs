//! The environment lifecycle orchestrator, written as a saga: an ordered
//! pipeline of side-effecting steps, each of which, once committed, has a
//! known inverse. The decisions live here, as a machine that turns the
//! outcome of one step into the next action; the caller performs each action
//! (against the real repository, filesystem and hook processes) and hands
//! back what happened. A simulated world and a fault plan drive the same
//! machine entirely in memory, and the atomicity guarantees are proved over
//! that executor: whatever single step is made to fail, a failed creation
//! leaves no worktree, no fresh links, and no registry entry behind.
//!
//! Compensation is modeled as reliable: the inverse operations (removing a
//! link, removing a worktree directory) are taken to succeed, as the
//! original's best-effort rollback assumes.

use vstd::prelude::*;
use crate::types::{
    AgentEnvironment, EnvironmentStatus, FileMapping, HookCommand, MappingType, SymlinkInfo,
};
use crate::registry::EnvironmentRegistry;
use crate::errors::TwinError;
use crate::hooks::HookType;
use crate::branchgen;
use crate::text;
use crate::clock;

verus! {

/// Whether the vector of strings holds one equal to `x`.
pub open spec fn spec_has(v: Seq<String>, x: Seq<char>) -> bool {
    v.map_values(|s: String| s@).contains(x)
}

/// The target path a file mapping provisions inside the worktree.
pub open spec fn spec_link_target(worktree_path: Seq<char>, rel: Seq<char>) -> Seq<char> {
    worktree_path + seq!['/'] + rel
}

/// The source path a file mapping points at under the project root.
pub open spec fn spec_link_source(project_root: Seq<char>, rel: Seq<char>) -> Seq<char> {
    project_root + seq!['/'] + rel
}

/// What the caller observed of one performed action.
pub struct StepOutcome {
    /// Whether the action succeeded.
    pub success: bool,
    /// An exit status, for actions that ran a process.
    pub exit_code: Option<i32>,
    /// A description of the failure, empty on success.
    pub message: String,
}

/// The next side-effecting operation the caller must perform.
pub enum SagaAction {
    /// Run the hook at this index of the phase's hook list.
    RunHook { phase: HookType, index: usize },
    /// Create the worktree directory at `path` on a new branch `branch`.
    AddWorktree { path: String, branch: String },
    /// Provision the link numbered `index`: `target` points at `source`.
    CreateLink { index: usize, source: String, target: String, kind: MappingType },
    /// Write the registry document to disk.
    PersistRegistry,
    /// Remove the link at `target`; absence is success.
    RemoveLink { target: String },
    /// Remove the worktree directory at `path`.
    RemoveWorktree { path: String, force: bool },
    /// The operation is over; ask the saga for its result.
    Finished,
}

/// Which step the creation saga is waiting on.
#[derive(Clone, Copy, Debug, PartialEq, Eq, Structural)]
pub enum CreateState {
    /// Awaiting the pre-create hook at this index.
    PreHook(usize),
    /// Awaiting the worktree creation.
    Worktree,
    /// Awaiting the link at this index.
    Link(usize),
    /// Awaiting the registry write.
    Persist,
    /// Awaiting the post-create hook at this index.
    PostHook(usize),
    /// Rolling back: awaiting removal of the link at this index.
    RbLink(usize),
    /// Rolling back: awaiting removal of the worktree.
    RbWorktree,
    /// Rolling back: awaiting the registry rewrite.
    RbPersist,
    /// Finished, success or failure.
    Done,
}

/// One planned link provisioning.
pub struct LinkPlan {
    /// Absolute source path, under the project root.
    pub source: String,
    /// Absolute target path, under the worktree.
    pub target: String,
    /// Link or copy.
    pub kind: MappingType,
}

/// The creation saga: the resolved identifiers, the plan, and the progress.
pub struct CreateSaga {
    /// The environment name being created.
    pub name: String,
    /// The resolved, collision-free branch.
    pub branch: String,
    /// The resolved worktree directory.
    pub worktree_path: String,
    /// The configuration document the environment is created from.
    pub config_path: Option<String>,
    /// The links to provision, in order.
    pub links_plan: Vec<LinkPlan>,
    /// `continue_on_error` of each pre-create hook.
    pub pre_flags: Vec<bool>,
    /// `continue_on_error` of each post-create hook.
    pub post_flags: Vec<bool>,
    /// Which step is awaited.
    pub state: CreateState,
    /// The link records created so far.
    pub links_made: Vec<SymlinkInfo>,
    /// Whether rollback must rewrite the registry document at the end.
    pub repersist: bool,
    /// The created environment, once the registry insertion is reached.
    pub env: Option<AgentEnvironment>,
    /// The failure being rolled back or reported.
    pub failure: Option<TwinError>,
}

impl CreateSaga {
    /// The environment name being created.
    pub open spec fn spec_name(self) -> Seq<char> {
        self.name@
    }

    /// The resolved branch.
    pub open spec fn spec_branch(self) -> Seq<char> {
        self.branch@
    }

    /// The resolved worktree path.
    pub open spec fn spec_path(self) -> Seq<char> {
        self.worktree_path@
    }

    /// The planned link targets, in order.
    pub open spec fn targets(self) -> Seq<Seq<char>> {
        self.links_plan@.map_values(|l: LinkPlan| l.target@)
    }

    /// Whether `t` is one of the planned link targets.
    pub open spec fn is_target(self, t: Seq<char>) -> bool {
        self.targets().contains(t)
    }

    /// The state the machine is in.
    pub open spec fn spec_state(self) -> CreateState {
        self.state
    }

    /// Structural bookkeeping that every reachable saga satisfies.
    pub open spec fn wf(self) -> bool {
        &&& match self.state {
            CreateState::PreHook(i) => i < self.pre_flags@.len() && self.links_made@.len() == 0
                && self.failure is None && self.env is None,
            CreateState::Worktree => self.links_made@.len() == 0 && self.failure is None
                && self.env is None,
            CreateState::Link(i) => i < self.links_plan@.len() && self.links_made@.len() == i
                && self.failure is None && self.env is None,
            CreateState::Persist => self.links_made@.len() == self.links_plan@.len()
                && self.failure is None && self.env is Some,
            CreateState::PostHook(i) => i < self.post_flags@.len() && self.links_made@.len()
                == self.links_plan@.len() && self.failure is None && self.env is Some,
            CreateState::RbLink(j) => j < self.links_made@.len() && self.failure is Some
                && self.env is None,
            CreateState::RbWorktree => self.failure is Some && self.env is None,
            CreateState::RbPersist => self.failure is Some && self.env is None,
            CreateState::Done => (self.failure is Some) != (self.env is Some),
        }
        &&& self.links_made@.len() <= self.links_plan@.len()
        &&& forall|j: int|
            0 <= j < self.links_made@.len() ==> (#[trigger] self.links_made@[j]).target@
                == self.targets()[j]
        &&& self.env matches Some(e) ==> e.name@ == self.name@ && e.branch@ == self.branch@
            && e.worktree_path@ == self.worktree_path@ && e.status is Active
    }

    /// How many steps the saga can still take.
    pub open spec fn measure(self) -> int {
        let links = self.links_plan@.len() as int;
        let post = self.post_flags@.len() as int;
        let rb = links + 3;
        match self.state {
            CreateState::PreHook(i) => (self.pre_flags@.len() as int - i) + links + post + rb + 3,
            CreateState::Worktree => links + post + rb + 3,
            CreateState::Link(i) => (links - i) + post + rb + 2,
            CreateState::Persist => post + rb + 2,
            CreateState::PostHook(i) => (post - i) + rb + 1,
            CreateState::RbLink(j) => j + 3,
            CreateState::RbWorktree => 2,
            CreateState::RbPersist => 1,
            CreateState::Done => 0,
        }
    }
}

} // verus!

verus! {

/// Remove every occurrence of `x` from the vector.
fn remove_str(v: &mut Vec<String>, x: &str)
    ensures
        !spec_has(final(v)@, x@),
        forall|y: Seq<char>| y != x@ ==> spec_has(final(v)@, y) == spec_has(old(v)@, y),
{
    let mut out: Vec<String> = Vec::new();
    let n = v.len();
    let mut i: usize = 0;
    while i < n
        invariant
            0 <= i <= n == v@.len(),
            forall|j: int| 0 <= j < out@.len() ==> (#[trigger] out@[j])@ != x@,
            forall|y: Seq<char>|
                y != x@ ==> spec_has(out@, y) == spec_has(v@.take(i as int), y),
        decreases n - i,
    {
        let ghost pre = out@;
        let keep = !text::str_eq(v[i].as_str(), x);
        if keep {
            out.push(v[i].clone());
        }
        proof {
            assert(v@.take(i + 1 as int) =~= v@.take(i as int).push(v@[i as int]));
            let tk = v@.take(i as int);
            let tk1 = v@.take(i + 1 as int);
            assert forall|y: Seq<char>| y != x@ implies spec_has(out@, y) == spec_has(tk1, y) by {
                let m0 = tk.map_values(|s: String| s@);
                let m1 = tk1.map_values(|s: String| s@);
                assert(m1 =~= m0.push(v@[i as int]@));
                if spec_has(tk1, y) {
                    let k = choose|k: int| 0 <= k < m1.len() && m1[k] == y;
                    if k < m0.len() {
                        assert(m0[k] == y);
                    } else {
                        assert(v@[i as int]@ == y);
                    }
                }
                if spec_has(tk, y) {
                    let k = choose|k: int| 0 <= k < m0.len() && m0[k] == y;
                    assert(m1[k] == y);
                }
                if v@[i as int]@ == y {
                    assert(m1[m1.len() - 1] == y);
                }
                if keep {
                    let m2 = pre.map_values(|s: String| s@);
                    let m3 = out@.map_values(|s: String| s@);
                    assert(m3 =~= m2.push(v@[i as int]@));
                    if spec_has(out@, y) {
                        let k = choose|k: int| 0 <= k < m3.len() && m3[k] == y;
                        if k < m2.len() {
                            assert(m2[k] == y);
                        } else {
                            assert(v@[i as int]@ == y);
                        }
                    }
                    if spec_has(pre, y) {
                        let k = choose|k: int| 0 <= k < m2.len() && m2[k] == y;
                        assert(m3[k] == y);
                    }
                    if v@[i as int]@ == y {
                        assert(m3[m3.len() - 1] == y);
                    }
                }
            }
        }
        i += 1;
    }
    proof {
        assert(v@.take(n as int) =~= v@);
        let m = out@.map_values(|s: String| s@);
        if spec_has(out@, x@) {
            let k = choose|k: int| 0 <= k < m.len() && m[k] == x@;
            assert(out@[k]@ != x@);
            assert(m[k] == out@[k]@);
        }
    }
    *v = out;
}

/// Append `x` to the vector.
fn add_str(v: &mut Vec<String>, x: String)
    ensures
        spec_has(final(v)@, x@),
        forall|y: Seq<char>| y != x@ ==> spec_has(final(v)@, y) == spec_has(old(v)@, y),
{
    let ghost pre = v@;
    v.push(x);
    proof {
        let m0 = pre.map_values(|s: String| s@);
        let m1 = v@.map_values(|s: String| s@);
        assert(m1 =~= m0.push(x@));
        assert(m1[m1.len() - 1] == x@);
        assert forall|y: Seq<char>| y != x@ implies spec_has(v@, y) == spec_has(pre, y) by {
            if spec_has(v@, y) {
                let k = choose|k: int| 0 <= k < m1.len() && m1[k] == y;
                if k < m0.len() {
                    assert(m0[k] == y);
                } else {
                    assert(x@ == y);
                }
            }
            if spec_has(pre, y) {
                let k = choose|k: int| 0 <= k < m0.len() && m0[k] == y;
                assert(m1[k] == y);
            }
        }
    }
}

/// An in-memory model of everything the orchestrator touches: the branches
/// and worktrees of the repository, the link targets on disk, and the last
/// registry document written.
pub struct SimWorld {
    /// Names of existing branches.
    pub branches: Vec<String>,
    /// Paths of existing worktree directories.
    pub worktrees: Vec<String>,
    /// Paths at which a link (or copied file) exists.
    pub links: Vec<String>,
    /// The registry as last persisted, if it ever was.
    pub saved: Option<EnvironmentRegistry>,
}

impl SimWorld {
    /// An empty world: no branches, worktrees, links, or saved registry.
    pub fn new() -> (r: SimWorld)
        ensures
            r.branches@.len() == 0,
            r.worktrees@.len() == 0,
            r.links@.len() == 0,
            r.saved is None,
    {
        SimWorld { branches: Vec::new(), worktrees: Vec::new(), links: Vec::new(), saved: None }
    }

    /// Create a worktree on a new branch: fails on an injected fault or if
    /// the path already exists; on success both the path and the branch
    /// exist afterwards.
    fn wt_add(&mut self, path: &str, branch: &str, fault: bool) -> (ok: bool)
        ensures
            ok == (!fault && !spec_has(old(self).worktrees@, path@)),
            ok ==> spec_has(final(self).worktrees@, path@) && spec_has(
                final(self).branches@,
                branch@,
            ),
            ok ==> forall|y: Seq<char>|
                y != path@ ==> spec_has(final(self).worktrees@, y) == spec_has(
                    old(self).worktrees@,
                    y,
                ),
            ok ==> forall|y: Seq<char>|
                y != branch@ ==> spec_has(final(self).branches@, y) == spec_has(
                    old(self).branches@,
                    y,
                ),
            !ok ==> *final(self) == *old(self),
            final(self).links == old(self).links,
            final(self).saved == old(self).saved,
    {
        if fault || text::contains_string(&self.worktrees, path) {
            return false;
        }
        add_str(&mut self.worktrees, text::str_to_string(path));
        add_str(&mut self.branches, text::str_to_string(branch));
        true
    }

    /// Remove a worktree directory; absence is success, and the branch is
    /// left alone.
    fn wt_remove(&mut self, path: &str)
        ensures
            !spec_has(final(self).worktrees@, path@),
            forall|y: Seq<char>|
                y != path@ ==> spec_has(final(self).worktrees@, y) == spec_has(
                    old(self).worktrees@,
                    y,
                ),
            final(self).branches == old(self).branches,
            final(self).links == old(self).links,
            final(self).saved == old(self).saved,
    {
        remove_str(&mut self.worktrees, path);
    }

    /// Provision a link: fails only on an injected fault; on success the
    /// target exists afterwards.
    fn link_create(&mut self, target: &str, fault: bool) -> (ok: bool)
        ensures
            ok == !fault,
            ok ==> spec_has(final(self).links@, target@),
            ok ==> forall|y: Seq<char>|
                y != target@ ==> spec_has(final(self).links@, y) == spec_has(old(self).links@, y),
            !ok ==> *final(self) == *old(self),
            final(self).branches == old(self).branches,
            final(self).worktrees == old(self).worktrees,
            final(self).saved == old(self).saved,
    {
        if fault {
            return false;
        }
        add_str(&mut self.links, text::str_to_string(target));
        true
    }

    /// Remove a link. A target at which nothing exists is removed
    /// successfully: removal is idempotent, and absence is not an error.
    fn link_remove(&mut self, target: &str)
        ensures
            !spec_has(final(self).links@, target@),
            forall|y: Seq<char>|
                y != target@ ==> spec_has(final(self).links@, y) == spec_has(old(self).links@, y),
            final(self).branches == old(self).branches,
            final(self).worktrees == old(self).worktrees,
            final(self).saved == old(self).saved,
    {
        remove_str(&mut self.links, target);
    }

    /// Write the registry document: fails only on an injected fault; on
    /// success the saved copy agrees with the registry entry by entry.
    fn persist(&mut self, reg: &EnvironmentRegistry, fault: bool) -> (ok: bool)
        ensures
            ok == !fault,
            ok ==> (final(self).saved matches Some(s) && s.names() == reg.names() && (forall|
                n: Seq<char>,
            | s.contains_name(n) == reg.contains_name(n)) && s.active == reg.active),
            !ok ==> *final(self) == *old(self),
            final(self).branches == old(self).branches,
            final(self).worktrees == old(self).worktrees,
            final(self).links == old(self).links,
    {
        if fault {
            return false;
        }
        self.saved = Some(reg.duplicate());
        true
    }
}

/// Which single step of a simulated creation is made to fail.
pub struct FaultPlan {
    /// Fail the pre-create hook at this index.
    pub pre_hook_fail: Option<usize>,
    /// Fail the worktree creation.
    pub worktree_fail: bool,
    /// Fail the link at this index.
    pub link_fail: Option<usize>,
    /// Fail the registry write.
    pub persist_fail: bool,
    /// Fail the post-create hook at this index.
    pub post_hook_fail: Option<usize>,
}

impl FaultPlan {
    /// A plan with no injected failures.
    pub fn none() -> (r: FaultPlan)
        ensures
            r.pre_hook_fail is None,
            !r.worktree_fail,
            r.link_fail is None,
            !r.persist_fail,
            r.post_hook_fail is None,
    {
        FaultPlan {
            pre_hook_fail: None,
            worktree_fail: false,
            link_fail: None,
            persist_fail: false,
            post_hook_fail: None,
        }
    }
}

} // verus!

verus! {

/// The base directory worktrees are placed under.
pub open spec fn spec_wt_base(settings: crate::types::ConfigSettings) -> Seq<char> {
    match settings.worktree_base {
        Some(b) => b@,
        None => "worktrees"@,
    }
}

/// The branch prefix used when the caller does not name a branch.
pub open spec fn spec_prefix(settings: crate::types::ConfigSettings) -> Seq<char> {
    match settings.branch_prefix {
        Some(p) => p@,
        None => "agent"@,
    }
}

/// Whether `t` is the target of some configured file mapping, under the
/// given worktree path.
pub open spec fn spec_is_target(
    settings: crate::types::ConfigSettings,
    wt: Seq<char>,
    t: Seq<char>,
) -> bool {
    exists|j: int|
        0 <= j < settings.files@.len() && t == spec_link_target(
            wt,
            (#[trigger] settings.files@[j]).path@,
        )
}

/// The registry after the new environment was inserted and made the sole
/// active entry.
pub open spec fn reg_inserted(
    rpre: EnvironmentRegistry,
    rpost: EnvironmentRegistry,
    saga: CreateSaga,
) -> bool {
    &&& rpost.wf()
    &&& rpost.sole_active()
    &&& rpost.contains_name(saga.spec_name())
    &&& forall|n: Seq<char>|
        rpost.contains_name(n) == (rpre.contains_name(n) || n == saga.spec_name())
    &&& rpost.active matches Some(a) && a@ == saga.spec_name()
    &&& rpost.spec_get(saga.spec_name()).status is Active
    &&& rpost.spec_get(saga.spec_name()).branch@ == saga.spec_branch()
    &&& rpost.spec_get(saga.spec_name()).worktree_path@ == saga.spec_path()
}

/// The registry after the new environment's entry was removed again.
pub open spec fn reg_removed(
    rpre: EnvironmentRegistry,
    rpost: EnvironmentRegistry,
    nm: Seq<char>,
) -> bool {
    &&& rpost.wf()
    &&& !rpost.contains_name(nm)
    &&& forall|n: Seq<char>| n != nm ==> rpost.contains_name(n) == rpre.contains_name(n)
}

/// The saga's fixed plan is unchanged.
pub open spec fn same_core(pre: CreateSaga, post: CreateSaga) -> bool {
    &&& post.name == pre.name
    &&& post.branch == pre.branch
    &&& post.worktree_path == pre.worktree_path
    &&& post.config_path == pre.config_path
    &&& post.links_plan@ == pre.links_plan@
    &&& post.pre_flags@ == pre.pre_flags@
    &&& post.post_flags@ == pre.post_flags@
}

/// The action that starts rolling back: the most recently created link is
/// removed first; with no links yet, the worktree itself is removed.
pub open spec fn rollback_entry(pre: CreateSaga, post: CreateSaga, action: SagaAction) -> bool {
    if pre.links_made@.len() > 0 {
        &&& post.state matches CreateState::RbLink(j) && j == pre.links_made@.len() - 1
        &&& action matches SagaAction::RemoveLink { target } && target@ == pre.links_made@[
            pre.links_made@.len() - 1
        ].target@
    } else {
        &&& post.state is RbWorktree
        &&& action matches SagaAction::RemoveWorktree { path, .. } && path@ == pre.spec_path()
    }
}

/// The full transition relation of one `step` call of the creation saga.
pub open spec fn create_step_rel(
    pre: CreateSaga,
    rpre: EnvironmentRegistry,
    oc: StepOutcome,
    post: CreateSaga,
    rpost: EnvironmentRegistry,
    action: SagaAction,
) -> bool {
    &&& same_core(pre, post)
    &&& match pre.state {
        CreateState::PreHook(i) => {
            &&& rpost == rpre
            &&& post.links_made@ == pre.links_made@
            &&& post.env == pre.env
            &&& if !oc.success && !pre.pre_flags@[i as int] {
                &&& post.state is Done
                &&& post.failure matches Some(e) && e is Hook
                &&& action is Finished
            } else if i + 1 < pre.pre_flags@.len() {
                &&& post.state matches CreateState::PreHook(k) && k == i + 1
                &&& post.failure is None
                &&& action matches SagaAction::RunHook { phase, index } && phase is PreCreate
                    && index == i + 1
            } else {
                &&& post.state is Worktree
                &&& post.failure is None
                &&& action matches SagaAction::AddWorktree { path, branch } && path@
                    == pre.spec_path() && branch@ == pre.spec_branch()
            }
        },
        CreateState::Worktree => {
            &&& post.links_made@ == pre.links_made@
            &&& if !oc.success {
                &&& rpost == rpre
                &&& post.state is Done
                &&& post.failure matches Some(e) && e is Git
                &&& post.env == pre.env
                &&& action is Finished
            } else if pre.links_plan@.len() > 0 {
                &&& rpost == rpre
                &&& post.state matches CreateState::Link(k) && k == 0
                &&& post.failure is None
                &&& post.env == pre.env
                &&& action matches SagaAction::CreateLink { index, source, target, .. } && index
                    == 0 && source@ == pre.links_plan@[0].source@ && target@ == pre.links_plan@[
                    0
                ].target@
            } else {
                &&& reg_inserted(rpre, rpost, post)
                &&& post.state is Persist
                &&& post.failure is None
                &&& post.env matches Some(e) && e.symlinks@ == post.links_made@
                &&& rpost.spec_get(pre.spec_name()).symlinks@ == post.links_made@
                &&& action is PersistRegistry
            }
        },
        CreateState::Link(i) => {
            if oc.success {
                &&& post.links_made@.len() == i + 1
                &&& post.links_made@ == pre.links_made@.push(post.links_made@[i as int])
                &&& post.links_made@[i as int].target@ == pre.links_plan@[i as int].target@
                &&& post.links_made@[i as int].is_valid
                &&& if i + 1 < pre.links_plan@.len() {
                    &&& rpost == rpre
                    &&& post.state matches CreateState::Link(k) && k == i + 1
                    &&& post.failure is None
                    &&& post.env == pre.env
                    &&& action matches SagaAction::CreateLink { index, source, target, .. }
                        && index == i + 1 && source@ == pre.links_plan@[i + 1].source@ && target@
                        == pre.links_plan@[i + 1].target@
                } else {
                    &&& reg_inserted(rpre, rpost, post)
                    &&& post.state is Persist
                    &&& post.failure is None
                    &&& post.env matches Some(e) && e.symlinks@ == post.links_made@
                    &&& rpost.spec_get(pre.spec_name()).symlinks@ == post.links_made@
                    &&& action is PersistRegistry
                }
            } else {
                &&& rpost == rpre
                &&& post.links_made@ == pre.links_made@
                &&& post.failure matches Some(e) && e is Symlink
                &&& post.env == pre.env
                &&& !post.repersist
                &&& rollback_entry(pre, post, action)
            }
        },
        CreateState::Persist => {
            if oc.success {
                &&& rpost == rpre
                &&& post.links_made@ == pre.links_made@
                &&& post.env == pre.env
                &&& if pre.post_flags@.len() > 0 {
                    &&& post.state matches CreateState::PostHook(k) && k == 0
                    &&& post.failure is None
                    &&& action matches SagaAction::RunHook { phase, index } && phase
                        is PostCreate && index == 0
                } else {
                    &&& post.state is Done
                    &&& post.failure is None
                    &&& action is Finished
                }
            } else {
                &&& reg_removed(rpre, rpost, pre.spec_name())
                &&& post.links_made@ == pre.links_made@
                &&& post.failure matches Some(e) && e is Config
                &&& post.env is None
                &&& !post.repersist
                &&& rollback_entry(pre, post, action)
            }
        },
        CreateState::PostHook(i) => {
            if oc.success || pre.post_flags@[i as int] {
                &&& rpost == rpre
                &&& post.links_made@ == pre.links_made@
                &&& post.env == pre.env
                &&& if i + 1 < pre.post_flags@.len() {
                    &&& post.state matches CreateState::PostHook(k) && k == i + 1
                    &&& post.failure is None
                    &&& action matches SagaAction::RunHook { phase, index } && phase
                        is PostCreate && index == i + 1
                } else {
                    &&& post.state is Done
                    &&& post.failure is None
                    &&& action is Finished
                }
            } else {
                &&& reg_removed(rpre, rpost, pre.spec_name())
                &&& post.links_made@ == pre.links_made@
                &&& post.failure matches Some(e) && e is Hook
                &&& post.env is None
                &&& post.repersist
                &&& rollback_entry(pre, post, action)
            }
        },
        CreateState::RbLink(j) => {
            &&& rpost == rpre
            &&& post.links_made@ == pre.links_made@
            &&& post.env == pre.env
            &&& post.failure == pre.failure
            &&& post.repersist == pre.repersist
            &&& if j > 0 {
                &&& post.state matches CreateState::RbLink(k) && k == j - 1
                &&& action matches SagaAction::RemoveLink { target } && target@
                    == pre.links_made@[j - 1].target@
            } else if pre.repersist {
                &&& post.state is RbWorktree
                &&& action matches SagaAction::RemoveWorktree { path, .. } && path@
                    == pre.spec_path()
            } else {
                &&& post.state is RbWorktree
                &&& action matches SagaAction::RemoveWorktree { path, .. } && path@
                    == pre.spec_path()
            }
        },
        CreateState::RbWorktree => {
            &&& rpost == rpre
            &&& post.links_made@ == pre.links_made@
            &&& post.env == pre.env
            &&& post.failure == pre.failure
            &&& post.repersist == pre.repersist
            &&& if pre.repersist {
                &&& post.state is RbPersist
                &&& action is PersistRegistry
            } else {
                &&& post.state is Done
                &&& action is Finished
            }
        },
        CreateState::RbPersist => {
            &&& rpost == rpre
            &&& post.links_made@ == pre.links_made@
            &&& post.env == pre.env
            &&& post.failure == pre.failure
            &&& post.state is Done
            &&& action is Finished
        },
        CreateState::Done => false,
    }
}

} // verus!

verus! {

impl CreateSaga {
    /// Resolve identifiers and start the creation saga.
    ///
    /// Checks uniqueness first: a name already in the registry fails with
    /// `AlreadyExists` before any side effect. Then the branch is derived
    /// (from the configured prefix, unless the caller named one) and made
    /// collision-free against the existing branches, the worktree path is
    /// derived under the configured base directory, and the link plan is
    /// laid out. The returned action is the first step to perform.
    pub fn begin(
        registry: &EnvironmentRegistry,
        settings: &crate::types::ConfigSettings,
        config_path: Option<String>,
        name: &str,
        branch_req: Option<String>,
        existing_branches: &Vec<String>,
        fallback_suffix: &str,
        project_root: &str,
    ) -> (r: Result<(CreateSaga, SagaAction), TwinError>)
        requires
            registry.wf(),
        ensures
            match r {
                Err(e) => (e is AlreadyExists && registry.contains_name(name@)) || (e is Git
                    && !registry.contains_name(name@) && forall|k: int|
                    0 <= k <= 11 ==> spec_has(
                        existing_branches@,
                        #[trigger] branchgen::spec_candidate(
                            spec_base_branch(*settings, branch_req, name@),
                            k,
                            10,
                            fallback_suffix@,
                        ),
                    )),
                Ok(p) => {
                    let (saga, action) = p;
                    &&& !registry.contains_name(name@)
                    &&& saga.wf()
                    &&& saga.spec_name() == name@
                    &&& saga.spec_path() == branchgen::spec_worktree_path(
                        spec_wt_base(*settings),
                        name@,
                    )
                    &&& !spec_has(existing_branches@, saga.spec_branch())
                    &&& saga.links_plan@.len() == settings.files@.len()
                    &&& forall|j: int|
                        0 <= j < settings.files@.len() ==> (#[trigger] saga.links_plan@[j]).target@
                            == spec_link_target(saga.spec_path(), settings.files@[j].path@)
                            && saga.links_plan@[j].source@ == spec_link_source(
                            project_root@,
                            settings.files@[j].path@,
                        ) && saga.links_plan@[j].kind == settings.files@[j].mapping_type
                    &&& saga.pre_flags@.len() == settings.hooks.pre_create@.len()
                    &&& forall|j: int|
                        0 <= j < saga.pre_flags@.len() ==> (#[trigger] saga.pre_flags@[j])
                            == settings.hooks.pre_create@[j].continue_on_error
                    &&& saga.post_flags@.len() == settings.hooks.post_create@.len()
                    &&& forall|j: int|
                        0 <= j < saga.post_flags@.len() ==> (#[trigger] saga.post_flags@[j])
                            == settings.hooks.post_create@[j].continue_on_error
                    &&& saga.links_made@.len() == 0
                    &&& saga.env is None
                    &&& saga.failure is None
                    &&& !saga.repersist
                    &&& if settings.hooks.pre_create@.len() > 0 {
                        &&& saga.state matches CreateState::PreHook(i) && i == 0
                        &&& action matches SagaAction::RunHook { phase, index } && phase
                            is PreCreate && index == 0
                    } else {
                        &&& saga.state is Worktree
                        &&& action matches SagaAction::AddWorktree { path, branch } && path@
                            == saga.spec_path() && branch@ == saga.spec_branch()
                    }
                },
            },
    {
        if registry.get(name).is_some() {
            return Err(
                TwinError::already_exists(
                    text::str_to_string("environment"),
                    text::str_to_string(name),
                ),
            );
        }
        let base_branch = match branch_req {
            Some(b) => b,
            None => {
                let prefix = match &settings.branch_prefix {
                    Some(p) => p.clone(),
                    None => text::str_to_string("agent"),
                };
                branchgen::generate_branch_name(prefix.as_str(), name)
            },
        };
        proof {
            assert(base_branch@ == spec_base_branch(*settings, branch_req, name@));
        }
        let unique = match branchgen::generate_unique_branch_name(
            base_branch.as_str(),
            10,
            existing_branches,
            fallback_suffix,
        ) {
            Ok(u) => u,
            Err(e) => {
                proof {
                    let ex = existing_branches@.map_values(|x: String| x@);
                    assert forall|k: int|
                        0 <= k <= 11 implies spec_has(
                        existing_branches@,
                        #[trigger] branchgen::spec_candidate(
                            spec_base_branch(*settings, branch_req, name@),
                            k,
                            10,
                            fallback_suffix@,
                        ),
                    ) by {
                        assert(ex.contains(
                            branchgen::spec_candidate(base_branch@, k, 10, fallback_suffix@),
                        ));
                    }
                }
                return Err(e);
            },
        };
        let base_dir = match &settings.worktree_base {
            Some(b) => b.clone(),
            None => text::str_to_string("worktrees"),
        };
        let wt_path = branchgen::generate_worktree_path(base_dir.as_str(), name);
        let mut links_plan: Vec<LinkPlan> = Vec::new();
        let nfiles = settings.files.len();
        let mut j: usize = 0;
        while j < nfiles
            invariant
                0 <= j <= nfiles == settings.files@.len(),
                links_plan@.len() == j,
                forall|k: int|
                    0 <= k < j ==> (#[trigger] links_plan@[k]).target@ == spec_link_target(
                        wt_path@,
                        settings.files@[k].path@,
                    ) && links_plan@[k].source@ == spec_link_source(
                        project_root@,
                        settings.files@[k].path@,
                    ) && links_plan@[k].kind == settings.files@[k].mapping_type,
            decreases nfiles - j,
        {
            let rel = settings.files[j].path.as_str();
            let source = text::concat3(project_root, "/", rel);
            let target = text::concat3(wt_path.as_str(), "/", rel);
            proof {
                reveal_strlit("/");
                assert("/"@ =~= seq!['/']);
            }
            links_plan.push(
                LinkPlan { source, target, kind: settings.files[j].mapping_type },
            );
            j += 1;
        }
        let mut pre_flags: Vec<bool> = Vec::new();
        let npre = settings.hooks.pre_create.len();
        let mut j: usize = 0;
        while j < npre
            invariant
                0 <= j <= npre == settings.hooks.pre_create@.len(),
                pre_flags@.len() == j,
                forall|k: int|
                    0 <= k < j ==> (#[trigger] pre_flags@[k]) == settings.hooks.pre_create@[
                        k
                    ].continue_on_error,
            decreases npre - j,
        {
            pre_flags.push(settings.hooks.pre_create[j].continue_on_error);
            j += 1;
        }
        let mut post_flags: Vec<bool> = Vec::new();
        let npost = settings.hooks.post_create.len();
        let mut j: usize = 0;
        while j < npost
            invariant
                0 <= j <= npost == settings.hooks.post_create@.len(),
                post_flags@.len() == j,
                forall|k: int|
                    0 <= k < j ==> (#[trigger] post_flags@[k]) == settings.hooks.post_create@[
                        k
                    ].continue_on_error,
            decreases npost - j,
        {
            post_flags.push(settings.hooks.post_create[j].continue_on_error);
            j += 1;
        }
        let has_pre = pre_flags.len() > 0;
        let state = if has_pre {
            CreateState::PreHook(0)
        } else {
            CreateState::Worktree
        };
        let action = if has_pre {
            SagaAction::RunHook { phase: HookType::PreCreate, index: 0 }
        } else {
            SagaAction::AddWorktree { path: wt_path.clone(), branch: unique.clone() }
        };
        let saga = CreateSaga {
            name: text::str_to_string(name),
            branch: unique,
            worktree_path: wt_path,
            config_path,
            links_plan,
            pre_flags,
            post_flags,
            state,
            links_made: Vec::new(),
            repersist: false,
            env: None,
            failure: None,
        };
        Ok((saga, action))
    }

    /// Insert the finished environment into the registry, make it the sole
    /// active entry, and await the registry write.
    fn enter_persist(&mut self, registry: &mut EnvironmentRegistry) -> (action: SagaAction)
        requires
            old(registry).wf(),
            old(self).failure is None,
        ensures
            same_core(*old(self), *final(self)),
            final(self).links_made@ == old(self).links_made@,
            final(self).state is Persist,
            final(self).failure is None,
            final(self).repersist == old(self).repersist,
            final(self).env matches Some(e) && e.name@ == old(self).spec_name() && e.branch@
                == old(self).spec_branch() && e.worktree_path@ == old(self).spec_path() && e.status
                is Active && e.symlinks@ == old(self).links_made@,
            reg_inserted(*old(registry), *final(registry), *final(self)),
            final(registry).spec_get(old(self).spec_name()).symlinks@ == old(self).links_made@,
            action is PersistRegistry,
    {
        let now = clock::now_millis();
        let env = AgentEnvironment {
            name: self.name.clone(),
            branch: self.branch.clone(),
            worktree_path: self.worktree_path.clone(),
            symlinks: crate::types::clone_symlinks(&self.links_made),
            status: EnvironmentStatus::Active,
            created_at: now,
            updated_at: now,
            config_path: text::clone_opt_string(&self.config_path),
        };
        let stored = env.duplicate();
        let ghost reg_a = *registry;
        registry.add(stored);
        let ghost reg_b = *registry;
        registry.set_active(Some(self.name.clone()));
        proof {
            let nm = self.name@;
            let b_envs = reg_b.environments@;
            let c_envs = registry.environments@;
            let ib = reg_b.index_of(nm);
            assert(0 <= ib < b_envs.len() && b_envs[ib].name@ == nm);
            assert forall|k: int|
                0 <= k < c_envs.len() implies (#[trigger] c_envs[k].name@) == b_envs[k].name@ by {
                assert(crate::registry::same_env_except_status(b_envs[k], c_envs[k]));
            }
            assert(registry.names() =~= reg_b.names()) by {
                assert forall|k: int|
                    0 <= k < c_envs.len() implies registry.names()[k] == reg_b.names()[k] by {
                    assert(c_envs[k].name@ == b_envs[k].name@);
                }
            }
            assert forall|n: Seq<char>|
                registry.contains_name(n) == reg_b.contains_name(n) by {
                assert(registry.names() == reg_b.names());
            }
            assert(registry.contains_name(nm));
            let ic = registry.index_of(nm);
            assert(0 <= ic < c_envs.len() && c_envs[ic].name@ == nm);
            assert(b_envs[ic].name@ == nm);
            assert(ic == ib);
            assert(crate::registry::same_env_except_status(b_envs[ib], c_envs[ib]));
            assert(b_envs[ib] == reg_b.spec_get(nm));
            assert(registry.spec_get(nm) == c_envs[ib]);
            assert(registry.active matches Some(a) && a@ == nm);
            assert(c_envs[ib].status is Active);
        }
        self.env = Some(env);
        self.state = CreateState::Persist;
        SagaAction::PersistRegistry
    }

    /// Consume the outcome of the awaited step and produce the next action.
    pub fn step(&mut self, registry: &mut EnvironmentRegistry, outcome: &StepOutcome) -> (action:
        SagaAction)
        requires
            old(self).wf(),
            !(old(self).spec_state() is Done),
            old(registry).wf(),
        ensures
            final(self).wf(),
            final(registry).wf(),
            create_step_rel(
                *old(self),
                *old(registry),
                *outcome,
                *final(self),
                *final(registry),
                action,
            ),
            final(self).measure() < old(self).measure(),
    {
        let st = self.state;
        match st {
            CreateState::PreHook(i) => {
                let n = self.pre_flags.len();
                proof {
                    assert(i < n);
                }
                if !outcome.success && !self.pre_flags[i] {
                    self.failure = Some(
                        TwinError::hook(
                            outcome.message.clone(),
                            text::str_to_string("pre_create"),
                            outcome.exit_code,
                        ),
                    );
                    self.state = CreateState::Done;
                    SagaAction::Finished
                } else if i + 1 < n {
                    self.state = CreateState::PreHook(i + 1);
                    SagaAction::RunHook { phase: HookType::PreCreate, index: i + 1 }
                } else {
                    self.state = CreateState::Worktree;
                    SagaAction::AddWorktree {
                        path: self.worktree_path.clone(),
                        branch: self.branch.clone(),
                    }
                }
            },
            CreateState::Worktree => {
                if !outcome.success {
                    self.failure = Some(TwinError::git(outcome.message.clone()));
                    self.state = CreateState::Done;
                    SagaAction::Finished
                } else if self.links_plan.len() > 0 {
                    self.state = CreateState::Link(0);
                    SagaAction::CreateLink {
                        index: 0,
                        source: self.links_plan[0].source.clone(),
                        target: self.links_plan[0].target.clone(),
                        kind: self.links_plan[0].kind,
                    }
                } else {
                    self.enter_persist(registry)
                }
            },
            CreateState::Link(i) => {
                let n = self.links_plan.len();
                proof {
                    assert(i < n);
                }
                if outcome.success {
                    let rec = SymlinkInfo {
                        source: self.links_plan[i].source.clone(),
                        target: self.links_plan[i].target.clone(),
                        is_valid: true,
                        error_message: None,
                    };
                    self.links_made.push(rec);
                    if i + 1 < n {
                        self.state = CreateState::Link(i + 1);
                        SagaAction::CreateLink {
                            index: i + 1,
                            source: self.links_plan[i + 1].source.clone(),
                            target: self.links_plan[i + 1].target.clone(),
                            kind: self.links_plan[i + 1].kind,
                        }
                    } else {
                        self.enter_persist(registry)
                    }
                } else {
                    self.failure = Some(
                        TwinError::symlink(
                            outcome.message.clone(),
                            Some(self.links_plan[i].target.clone()),
                        ),
                    );
                    self.repersist = false;
                    self.rollback_entry_action()
                }
            },
            CreateState::Persist => {
                if outcome.success {
                    if self.post_flags.len() > 0 {
                        self.state = CreateState::PostHook(0);
                        SagaAction::RunHook { phase: HookType::PostCreate, index: 0 }
                    } else {
                        self.state = CreateState::Done;
                        SagaAction::Finished
                    }
                } else {
                    self.failure = Some(
                        TwinError::config(
                            text::str_to_string("Failed to write registry"),
                            None,
                        ),
                    );
                    self.env = None;
                    self.repersist = false;
                    registry.remove(self.name.as_str());
                    self.rollback_entry_action()
                }
            },
            CreateState::PostHook(i) => {
                let n = self.post_flags.len();
                proof {
                    assert(i < n);
                }
                if outcome.success || self.post_flags[i] {
                    if i + 1 < n {
                        self.state = CreateState::PostHook(i + 1);
                        SagaAction::RunHook { phase: HookType::PostCreate, index: i + 1 }
                    } else {
                        self.state = CreateState::Done;
                        SagaAction::Finished
                    }
                } else {
                    self.failure = Some(
                        TwinError::hook(
                            outcome.message.clone(),
                            text::str_to_string("post_create"),
                            outcome.exit_code,
                        ),
                    );
                    self.env = None;
                    self.repersist = true;
                    registry.remove(self.name.as_str());
                    self.rollback_entry_action()
                }
            },
            CreateState::RbLink(j) => {
                if j > 0 {
                    self.state = CreateState::RbLink(j - 1);
                    SagaAction::RemoveLink { target: self.links_made[j - 1].target.clone() }
                } else {
                    self.state = CreateState::RbWorktree;
                    SagaAction::RemoveWorktree { path: self.worktree_path.clone(), force: true }
                }
            },
            CreateState::RbWorktree => {
                if self.repersist {
                    self.state = CreateState::RbPersist;
                    SagaAction::PersistRegistry
                } else {
                    self.state = CreateState::Done;
                    SagaAction::Finished
                }
            },
            CreateState::RbPersist => {
                self.state = CreateState::Done;
                SagaAction::Finished
            },
            CreateState::Done => {
                proof {
                    assert(false);
                }
                SagaAction::Finished
            },
        }
    }

    /// Start rolling back: remove the most recent link first, or the
    /// worktree if no link was created.
    fn rollback_entry_action(&mut self) -> (action: SagaAction)
        ensures
            rollback_entry(*old(self), *final(self), action),
            final(self).name == old(self).name,
            final(self).branch == old(self).branch,
            final(self).worktree_path == old(self).worktree_path,
            final(self).config_path == old(self).config_path,
            final(self).links_plan@ == old(self).links_plan@,
            final(self).pre_flags@ == old(self).pre_flags@,
            final(self).post_flags@ == old(self).post_flags@,
            final(self).links_made@ == old(self).links_made@,
            final(self).repersist == old(self).repersist,
            final(self).env == old(self).env,
            final(self).failure == old(self).failure,
    {
        if self.links_made.len() > 0 {
            let j = self.links_made.len() - 1;
            self.state = CreateState::RbLink(j);
            SagaAction::RemoveLink { target: self.links_made[j].target.clone() }
        } else {
            self.state = CreateState::RbWorktree;
            SagaAction::RemoveWorktree { path: self.worktree_path.clone(), force: true }
        }
    }

    /// The saga's result, once it has finished.
    pub fn finish(self) -> (r: Result<AgentEnvironment, TwinError>)
        requires
            self.wf(),
            self.spec_state() is Done,
        ensures
            self.env matches Some(e) ==> r matches Ok(e2) && e2 == e,
            self.failure matches Some(x) ==> r matches Err(x2) && x2 == x,
            (r is Ok) == (self.env is Some),
    {
        match self.env {
            Some(e) => Ok(e),
            None => {
                match self.failure {
                    Some(x) => Err(x),
                    None => {
                        proof {
                            assert(false);
                        }
                        Err(TwinError::other(text::str_to_string("unreachable")))
                    },
                }
            },
        }
    }
}

} // verus!

verus! {

/// The branch the creation starts from: the caller's requested branch, or
/// the one derived from the configured prefix.
pub open spec fn spec_base_branch(
    settings: crate::types::ConfigSettings,
    branch_req: Option<String>,
    nm: Seq<char>,
) -> Seq<char> {
    match branch_req {
        Some(b) => b@,
        None => branchgen::spec_branch_name(spec_prefix(settings), nm),
    }
}

/// Whether some candidate branch name is free, so branch generation cannot
/// fail.
pub open spec fn branch_available(base: Seq<char>, w0: SimWorld, suffix: Seq<char>) -> bool {
    exists|k: int|
        0 <= k <= 11 && !spec_has(
            w0.branches@,
            #[trigger] branchgen::spec_candidate(base, k, 10, suffix),
        )
}

/// Whether every injected fault is one the creation tolerates: a faulted
/// hook allows continuation, no worktree/link/persist step is made to fail,
/// and the worktree path is free.
pub open spec fn faults_passable(
    settings: crate::types::ConfigSettings,
    faults: FaultPlan,
    w0: SimWorld,
    wt: Seq<char>,
) -> bool {
    &&& match faults.pre_hook_fail {
        Some(i) => i < settings.hooks.pre_create@.len() ==> settings.hooks.pre_create@[
            i as int
        ].continue_on_error,
        None => true,
    }
    &&& !faults.worktree_fail
    &&& !spec_has(w0.worktrees@, wt)
    &&& match faults.link_fail {
        Some(i) => i >= settings.files@.len(),
        None => true,
    }
    &&& !faults.persist_fail
    &&& match faults.post_hook_fail {
        Some(i) => i < settings.hooks.post_create@.len() ==> settings.hooks.post_create@[
            i as int
        ].continue_on_error,
        None => true,
    }
}

/// The executor's loop invariant: what holds of the saga, the pending
/// action, the simulated world and the registry between steps.
pub open spec fn run_inv(
    saga: CreateSaga,
    action: SagaAction,
    world: SimWorld,
    registry: EnvironmentRegistry,
    w0: SimWorld,
    r0: EnvironmentRegistry,
    settings: crate::types::ConfigSettings,
    faults: FaultPlan,
    nm: Seq<char>,
    wt: Seq<char>,
) -> bool {
    &&& saga.wf()
    &&& registry.wf()
    &&& saga.spec_name() == nm
    &&& saga.spec_path() == wt
    &&& !r0.contains_name(nm)
    &&& !spec_has(w0.branches@, saga.spec_branch())
    &&& saga.links_plan@.len() == settings.files@.len()
    &&& forall|j: int|
        0 <= j < settings.files@.len() ==> (#[trigger] saga.links_plan@[j]).target@
            == spec_link_target(wt, settings.files@[j].path@)
    &&& saga.pre_flags@.len() == settings.hooks.pre_create@.len()
    &&& forall|j: int|
        0 <= j < saga.pre_flags@.len() ==> (#[trigger] saga.pre_flags@[j])
            == settings.hooks.pre_create@[j].continue_on_error
    &&& saga.post_flags@.len() == settings.hooks.post_create@.len()
    &&& forall|j: int|
        0 <= j < saga.post_flags@.len() ==> (#[trigger] saga.post_flags@[j])
            == settings.hooks.post_create@[j].continue_on_error
    &&& forall|n: Seq<char>| n != nm ==> registry.contains_name(n) == r0.contains_name(n)
    &&& registry.contains_name(nm) == (saga.state is Persist || saga.state is PostHook || (
    saga.state is Done && saga.env is Some))
    &&& forall|p: Seq<char>|
        p != wt ==> spec_has(world.worktrees@, p) == spec_has(w0.worktrees@, p)
    &&& forall|t: Seq<char>|
        !spec_is_target(settings, wt, t) ==> spec_has(world.links@, t) == spec_has(w0.links@, t)
    &&& (saga.failure is Some ==> !faults_passable(settings, faults, w0, wt))
    &&& ((action is Finished) == (saga.state is Done))
    &&& match saga.state {
        CreateState::PreHook(i) => {
            &&& action matches SagaAction::RunHook { phase, index } && phase is PreCreate
                && index == i
            &&& spec_has(world.worktrees@, wt) == spec_has(w0.worktrees@, wt)
            &&& forall|t: Seq<char>| spec_has(world.links@, t) == spec_has(w0.links@, t)
            &&& world.saved == w0.saved
        },
        CreateState::Worktree => {
            &&& action matches SagaAction::AddWorktree { path, branch } && path@ == wt && branch@
                == saga.spec_branch()
            &&& spec_has(world.worktrees@, wt) == spec_has(w0.worktrees@, wt)
            &&& forall|t: Seq<char>| spec_has(world.links@, t) == spec_has(w0.links@, t)
            &&& world.saved == w0.saved
        },
        CreateState::Link(i) => {
            &&& action matches SagaAction::CreateLink { index, target, .. } && index == i
                && target@ == saga.targets()[i as int]
            &&& spec_has(world.worktrees@, wt)
            &&& spec_has(world.branches@, saga.spec_branch())
            &&& forall|j: int| 0 <= j < i ==> spec_has(world.links@, #[trigger] saga.targets()[j])
            &&& forall|t: Seq<char>|
                #[trigger] spec_has(world.links@, t) ==> spec_has(w0.links@, t) || exists|k: int|
                    0 <= k < i && (#[trigger] saga.targets()[k]) == t
            &&& world.saved == w0.saved
        },
        CreateState::Persist => {
            &&& action is PersistRegistry
            &&& spec_has(world.worktrees@, wt)
            &&& spec_has(world.branches@, saga.spec_branch())
            &&& forall|j: int|
                0 <= j < settings.files@.len() ==> spec_has(
                    world.links@,
                    #[trigger] saga.targets()[j],
                )
            &&& forall|t: Seq<char>|
                #[trigger] spec_has(world.links@, t) ==> spec_has(w0.links@, t) || exists|k: int|
                    0 <= k < saga.links_plan@.len() && (#[trigger] saga.targets()[k]) == t
            &&& world.saved == w0.saved
            &&& registry.sole_active()
            &&& registry.active matches Some(a) && a@ == nm
            &&& registry.spec_get(nm).status is Active
            &&& registry.spec_get(nm).branch@ == saga.spec_branch()
            &&& registry.spec_get(nm).worktree_path@ == wt
        },
        CreateState::PostHook(i) => {
            &&& action matches SagaAction::RunHook { phase, index } && phase is PostCreate
                && index == i
            &&& spec_has(world.worktrees@, wt)
            &&& spec_has(world.branches@, saga.spec_branch())
            &&& forall|j: int|
                0 <= j < settings.files@.len() ==> spec_has(
                    world.links@,
                    #[trigger] saga.targets()[j],
                )
            &&& forall|t: Seq<char>|
                #[trigger] spec_has(world.links@, t) ==> spec_has(w0.links@, t) || exists|k: int|
                    0 <= k < saga.links_plan@.len() && (#[trigger] saga.targets()[k]) == t
            &&& world.saved matches Some(s) && s.contains_name(nm) && s.active == registry.active
            &&& registry.sole_active()
            &&& registry.active matches Some(a) && a@ == nm
            &&& registry.spec_get(nm).status is Active
            &&& registry.spec_get(nm).branch@ == saga.spec_branch()
            &&& registry.spec_get(nm).worktree_path@ == wt
        },
        CreateState::RbLink(j) => {
            &&& action matches SagaAction::RemoveLink { target } && target@ == saga.links_made@[
                j as int
            ].target@
            &&& forall|t: Seq<char>|
                #[trigger] spec_has(world.links@, t) ==> spec_has(w0.links@, t) || exists|k: int|
                    0 <= k <= j && (#[trigger] saga.links_made@[k]).target@ == t
            &&& (saga.repersist || world.saved == w0.saved)
        },
        CreateState::RbWorktree => {
            &&& action matches SagaAction::RemoveWorktree { path, .. } && path@ == wt
            &&& forall|t: Seq<char>|
                #[trigger] spec_has(world.links@, t) ==> spec_has(w0.links@, t)
            &&& (saga.repersist || world.saved == w0.saved)
        },
        CreateState::RbPersist => {
            &&& action is PersistRegistry
            &&& forall|t: Seq<char>|
                #[trigger] spec_has(world.links@, t) ==> spec_has(w0.links@, t)
            &&& !spec_has(world.worktrees@, wt)
        },
        CreateState::Done => {
            if saga.env is Some {
                &&& spec_has(world.worktrees@, wt)
                &&& spec_has(world.branches@, saga.spec_branch())
                &&& forall|j: int|
                    0 <= j < settings.files@.len() ==> spec_has(
                        world.links@,
                        #[trigger] saga.targets()[j],
                    )
                &&& world.saved matches Some(s) && s.contains_name(nm) && s.active
                    == registry.active
                &&& registry.sole_active()
                &&& registry.active matches Some(a) && a@ == nm
                &&& registry.spec_get(nm).status is Active
                &&& registry.spec_get(nm).branch@ == saga.spec_branch()
                &&& registry.spec_get(nm).worktree_path@ == wt
            } else {
                &&& (!spec_has(w0.worktrees@, wt) ==> !spec_has(world.worktrees@, wt))
                &&& forall|t: Seq<char>|
                    #[trigger] spec_has(world.links@, t) ==> spec_has(w0.links@, t)
                &&& (world.saved == w0.saved || (world.saved matches Some(s) && !s.contains_name(
                    nm,
                )))
            }
        },
    }
}

/// Whether the saga has asked for no further action.
fn action_is_finished(a: &SagaAction) -> (r: bool)
    ensures
        r == (a is Finished),
{
    match a {
        SagaAction::Finished => true,
        _ => false,
    }
}

/// Run the creation saga to completion against the simulated world, with
/// the given faults injected.
///
/// This is the orchestrator's contract in executable form. If the name is
/// taken, creation fails with `AlreadyExists` and changes nothing. However
/// the creation fails afterwards, the registry holds no entry for the name,
/// the worktree directory does not exist (unless it pre-existed and was
/// never touched), no fresh link remains, and the persisted document, if
/// rewritten, lacks the name. If every injected fault is tolerated, the
/// creation succeeds: the environment is catalogued, active, and its
/// worktree, branch and links all exist.
pub fn run_create_sim(
    world: &mut SimWorld,
    registry: &mut EnvironmentRegistry,
    settings: &crate::types::ConfigSettings,
    config_path: Option<String>,
    name: &str,
    branch_req: Option<String>,
    fallback_suffix: &str,
    project_root: &str,
    faults: &FaultPlan,
) -> (r: Result<AgentEnvironment, TwinError>)
    requires
        old(registry).wf(),
    ensures
        old(registry).contains_name(name@) ==> (r matches Err(e) && e is AlreadyExists
            && *final(world) == *old(world) && *final(registry) == *old(registry)),
        final(registry).wf(),
        !old(registry).contains_name(name@) ==> ({
            let wt = branchgen::spec_worktree_path(spec_wt_base(*settings), name@);
            &&& forall|n: Seq<char>|
                n != name@ ==> final(registry).contains_name(n) == old(registry).contains_name(n)
            &&& (r is Err ==> {
                &&& !final(registry).contains_name(name@)
                &&& (!spec_has(old(world).worktrees@, wt) ==> !spec_has(
                    final(world).worktrees@,
                    wt,
                ))
                &&& forall|p: Seq<char>|
                    p != wt ==> spec_has(final(world).worktrees@, p) == spec_has(
                        old(world).worktrees@,
                        p,
                    )
                &&& forall|t: Seq<char>|
                    #[trigger] spec_has(final(world).links@, t) ==> spec_has(old(world).links@, t)
                &&& forall|t: Seq<char>|
                    !spec_is_target(*settings, wt, t) ==> spec_has(final(world).links@, t)
                        == spec_has(old(world).links@, t)
                &&& (final(world).saved == old(world).saved || (final(world).saved matches Some(s)
                    && !s.contains_name(name@)))
            })
            &&& (r matches Ok(env) ==> {
                &&& env.name@ == name@
                &&& env.status is Active
                &&& env.worktree_path@ == wt
                &&& !spec_has(old(world).branches@, env.branch@)
                &&& final(registry).sole_active()
                &&& final(registry).contains_name(name@)
                &&& final(registry).active matches Some(a) && a@ == name@
                &&& final(registry).spec_get(name@).status is Active
                &&& final(registry).spec_get(name@).branch@ == env.branch@
                &&& final(registry).spec_get(name@).worktree_path@ == wt
                &&& spec_has(final(world).worktrees@, wt)
                &&& spec_has(final(world).branches@, env.branch@)
                &&& forall|j: int|
                    0 <= j < settings.files@.len() ==> spec_has(
                        final(world).links@,
                        spec_link_target(wt, (#[trigger] settings.files@[j]).path@),
                    )
                &&& final(world).saved matches Some(s) && s.contains_name(name@) && s.active
                    == final(registry).active
            })
            &&& ((faults_passable(*settings, *faults, *old(world), wt) && branch_available(
                spec_base_branch(*settings, branch_req, name@),
                *old(world),
                fallback_suffix@,
            )) ==> r is Ok)
        }),
{
    let ghost w0 = *world;
    let ghost r0 = *registry;
    let ghost nm = name@;
    let ghost wt = branchgen::spec_worktree_path(spec_wt_base(*settings), name@);
    let existing = text::clone_string_vec(&world.branches);
    let begun = CreateSaga::begin(
        registry,
        settings,
        config_path,
        name,
        branch_req,
        &existing,
        fallback_suffix,
        project_root,
    );
    let (mut saga, mut action) = match begun {
        Ok(p) => p,
        Err(e) => {
            proof {
                if !r0.contains_name(nm) {
                    let base = spec_base_branch(*settings, branch_req, nm);
                    if branch_available(base, w0, fallback_suffix@) {
                        let k = choose|k: int|
                            0 <= k <= 11 && !spec_has(
                                w0.branches@,
                                #[trigger] branchgen::spec_candidate(
                                    base,
                                    k,
                                    10,
                                    fallback_suffix@,
                                ),
                            );
                        assert(spec_has(
                            existing@,
                            branchgen::spec_candidate(base, k, 10, fallback_suffix@),
                        ));
                        assert(existing@ == w0.branches@);
                    }
                }
            }
            return Err(e);
        },
    };
    while !action_is_finished(&action)
        invariant
            run_inv(saga, action, *world, *registry, w0, r0, *settings, *faults, nm, wt),
        decreases saga.measure(),
    {
        let ghost pre_saga = saga;
        let ghost pre_action = action;
        let ghost pre_world = *world;
        let outcome: StepOutcome = match &action {
            SagaAction::RunHook { phase, index } => {
                let failed = match phase {
                    HookType::PreCreate => match faults.pre_hook_fail {
                        Some(f) => f == *index,
                        None => false,
                    },
                    HookType::PostCreate => match faults.post_hook_fail {
                        Some(f) => f == *index,
                        None => false,
                    },
                    _ => false,
                };
                StepOutcome {
                    success: !failed,
                    exit_code: Some(if failed { 1i32 } else { 0i32 }),
                    message: if failed {
                        text::str_to_string("hook failed")
                    } else {
                        String::new()
                    },
                }
            },
            SagaAction::AddWorktree { path, branch } => {
                let ok = world.wt_add(path.as_str(), branch.as_str(), faults.worktree_fail);
                StepOutcome {
                    success: ok,
                    exit_code: None,
                    message: if ok {
                        String::new()
                    } else {
                        text::str_to_string("worktree add failed")
                    },
                }
            },
            SagaAction::CreateLink { index, target, .. } => {
                proof {
                    match saga.state {
                        CreateState::Link(i) => {
                            assert(saga.targets()[i as int] == saga.links_plan@[i as int].target@);
                            assert(saga.links_plan@[i as int].target@ == spec_link_target(
                                wt,
                                settings.files@[i as int].path@,
                            ));
                            assert(spec_is_target(*settings, wt, target@));
                        },
                        _ => {},
                    }
                }
                let fault = match faults.link_fail {
                    Some(f) => f == *index,
                    None => false,
                };
                let ok = world.link_create(target.as_str(), fault);
                StepOutcome {
                    success: ok,
                    exit_code: None,
                    message: if ok {
                        String::new()
                    } else {
                        text::str_to_string("link creation failed")
                    },
                }
            },
            SagaAction::PersistRegistry => {
                let compensating = match saga.state {
                    CreateState::RbPersist => true,
                    _ => false,
                };
                let fault = faults.persist_fail && !compensating;
                let ok = world.persist(registry, fault);
                StepOutcome {
                    success: ok,
                    exit_code: None,
                    message: if ok {
                        String::new()
                    } else {
                        text::str_to_string("registry write failed")
                    },
                }
            },
            SagaAction::RemoveLink { target } => {
                proof {
                    match saga.state {
                        CreateState::RbLink(j) => {
                            assert(saga.links_made@[j as int].target@ == saga.targets()[j as int]);
                            assert(saga.targets()[j as int] == saga.links_plan@[j as int].target@);
                            assert(saga.links_plan@[j as int].target@ == spec_link_target(
                                wt,
                                settings.files@[j as int].path@,
                            ));
                            assert(spec_is_target(*settings, wt, target@));
                        },
                        _ => {},
                    }
                }
                world.link_remove(target.as_str());
                StepOutcome { success: true, exit_code: None, message: String::new() }
            },
            SagaAction::RemoveWorktree { path, .. } => {
                world.wt_remove(path.as_str());
                StepOutcome { success: true, exit_code: None, message: String::new() }
            },
            SagaAction::Finished => {
                StepOutcome { success: true, exit_code: None, message: String::new() }
            },
        };
        action = saga.step(registry, &outcome);
        proof {
            assert(saga.targets() =~= pre_saga.targets());
            match pre_saga.state {
                CreateState::Link(pi) => {
                    if outcome.success {
                        match pre_action {
                            SagaAction::CreateLink { target: tgt, .. } => {
                                assert forall|t: Seq<char>|
                                    #[trigger] spec_has(world.links@, t) implies spec_has(
                                    w0.links@,
                                    t,
                                ) || exists|k: int|
                                    0 <= k <= pi && (#[trigger] saga.targets()[k]) == t by {
                                    if t == tgt@ {
                                        assert(saga.targets()[pi as int] == t);
                                    } else {
                                        assert(spec_has(pre_world.links@, t));
                                        if !spec_has(w0.links@, t) {
                                            let k = choose|k: int|
                                                0 <= k < pi && (#[trigger] pre_saga.targets()[k])
                                                    == t;
                                            assert(saga.targets()[k] == t);
                                        }
                                    }
                                }
                            },
                            _ => {},
                        }
                    } else {
                        assert forall|t: Seq<char>|
                            #[trigger] spec_has(world.links@, t) implies spec_has(w0.links@, t)
                            || exists|k: int|
                                0 <= k < pre_saga.links_made@.len() && (
                                #[trigger] saga.links_made@[k]).target@ == t by {
                            if !spec_has(w0.links@, t) {
                                assert(spec_has(pre_world.links@, t));
                                let k = choose|k: int|
                                    0 <= k < pi && (#[trigger] pre_saga.targets()[k]) == t;
                                assert(pre_saga.links_made@[k].target@ == t);
                                assert(saga.links_made@[k].target@ == t);
                            }
                        }
                    }
                },
                CreateState::Persist => {
                    if !outcome.success {
                        assert forall|t: Seq<char>|
                            #[trigger] spec_has(world.links@, t) implies spec_has(w0.links@, t)
                            || exists|k: int|
                                0 <= k < pre_saga.links_made@.len() && (
                                #[trigger] saga.links_made@[k]).target@ == t by {
                            if !spec_has(w0.links@, t) {
                                assert(spec_has(pre_world.links@, t));
                                let k = choose|k: int|
                                    0 <= k < pre_saga.links_plan@.len() && (
                                    #[trigger] pre_saga.targets()[k]) == t;
                                assert(pre_saga.links_made@[k].target@ == t);
                                assert(saga.links_made@[k].target@ == t);
                            }
                        }
                    }
                },
                CreateState::PostHook(pih) => {
                    if !outcome.success && !pre_saga.post_flags@[pih as int] {
                        assert forall|t: Seq<char>|
                            #[trigger] spec_has(world.links@, t) implies spec_has(w0.links@, t)
                            || exists|k: int|
                                0 <= k < pre_saga.links_made@.len() && (
                                #[trigger] saga.links_made@[k]).target@ == t by {
                            if !spec_has(w0.links@, t) {
                                assert(spec_has(pre_world.links@, t));
                                let k = choose|k: int|
                                    0 <= k < pre_saga.links_plan@.len() && (
                                    #[trigger] pre_saga.targets()[k]) == t;
                                assert(pre_saga.links_made@[k].target@ == t);
                                assert(saga.links_made@[k].target@ == t);
                            }
                        }
                    }
                },
                CreateState::RbLink(pj) => {
                    match pre_action {
                        SagaAction::RemoveLink { target: tgt, .. } => {
                            assert(tgt@ == pre_saga.links_made@[pj as int].target@);
                            assert forall|t: Seq<char>|
                                #[trigger] spec_has(world.links@, t) implies spec_has(
                                w0.links@,
                                t,
                            ) || (pj > 0 && exists|k: int|
                                0 <= k <= pj - 1 && (#[trigger] saga.links_made@[k]).target@
                                    == t) by {
                                assert(t != tgt@);
                                assert(spec_has(pre_world.links@, t));
                                if !spec_has(w0.links@, t) {
                                    let k = choose|k: int|
                                        0 <= k <= pj && (#[trigger] pre_saga.links_made@[
                                            k
                                        ]).target@ == t;
                                    assert(k < pj);
                                    assert(saga.links_made@[k].target@ == t);
                                }
                            }
                        },
                        _ => {},
                    }
                },
                _ => {},
            }
        }
    }
    proof {
        assert(saga.state is Done);
        if saga.env is Some {
            assert forall|j: int|
                0 <= j < settings.files@.len() implies spec_has(
                world.links@,
                spec_link_target(wt, (#[trigger] settings.files@[j]).path@),
            ) by {
                assert(saga.links_plan@[j].target@ == spec_link_target(
                    wt,
                    settings.files@[j].path@,
                ));
                assert(saga.targets()[j] == saga.links_plan@[j].target@);
                assert(spec_has(world.links@, saga.targets()[j]));
            }
        }
    }
    saga.finish()
}

} // verus!

verus! {

/// Which step the removal saga is waiting on.
#[derive(Clone, Copy, Debug, PartialEq, Eq, Structural)]
pub enum RemoveState {
    /// Awaiting the pre-remove hook at this index.
    PreHook(usize),
    /// Awaiting removal of the link at this index.
    RmLink(usize),
    /// Awaiting removal of the worktree.
    Worktree,
    /// Awaiting the registry rewrite.
    Persist,
    /// Awaiting the post-remove hook at this index.
    PostHook(usize),
    /// Finished, success or failure.
    Done,
}

/// The removal saga: the environment's recorded paths and the progress.
///
/// Failures of individual link or worktree removals are tolerated under
/// `force`; hook policy is the hook's own `continue_on_error`, which
/// `force` does not override. Once the registry entry is removed, removal
/// is never undone: post-remove hook failures are reported as results, not
/// as errors.
pub struct RemoveSaga {
    /// The environment name being removed.
    pub name: String,
    /// The environment's recorded worktree directory.
    pub worktree_path: String,
    /// The recorded link targets, in order.
    pub targets: Vec<String>,
    /// Whether link and worktree removal failures are tolerated.
    pub force: bool,
    /// `continue_on_error` of each pre-remove hook.
    pub pre_flags: Vec<bool>,
    /// `continue_on_error` of each post-remove hook.
    pub post_flags: Vec<bool>,
    /// Which step is awaited.
    pub state: RemoveState,
    /// The failure being reported.
    pub failure: Option<TwinError>,
}

impl RemoveSaga {
    /// The environment name being removed.
    pub open spec fn spec_name(self) -> Seq<char> {
        self.name@
    }

    /// The recorded worktree path.
    pub open spec fn spec_path(self) -> Seq<char> {
        self.worktree_path@
    }

    /// The recorded link targets.
    pub open spec fn spec_targets(self) -> Seq<Seq<char>> {
        self.targets@.map_values(|s: String| s@)
    }

    /// Structural bookkeeping that every reachable saga satisfies.
    pub open spec fn wf(self) -> bool {
        &&& match self.state {
            RemoveState::PreHook(i) => i < self.pre_flags@.len() && self.failure is None,
            RemoveState::RmLink(i) => i < self.targets@.len() && self.failure is None,
            RemoveState::Worktree => self.failure is None,
            RemoveState::Persist => self.failure is None,
            RemoveState::PostHook(i) => i < self.post_flags@.len() && self.failure is None,
            RemoveState::Done => true,
        }
    }

    /// How many steps the saga can still take.
    pub open spec fn measure(self) -> int {
        let t = self.targets@.len() as int;
        let post = self.post_flags@.len() as int;
        match self.state {
            RemoveState::PreHook(i) => (self.pre_flags@.len() as int - i) + t + post + 4,
            RemoveState::RmLink(i) => (t - i) + post + 3,
            RemoveState::Worktree => post + 3,
            RemoveState::Persist => post + 2,
            RemoveState::PostHook(i) => (post - i) + 1,
            RemoveState::Done => 0,
        }
    }

    /// Check the name, collect the environment's recorded links and
    /// worktree, and start the removal saga. An absent name fails with
    /// `NotFound` before any side effect.
    pub fn begin(
        registry: &EnvironmentRegistry,
        settings: &crate::types::ConfigSettings,
        name: &str,
        force: bool,
    ) -> (r: Result<(RemoveSaga, SagaAction), TwinError>)
        requires
            registry.wf(),
        ensures
            match r {
                Err(e) => e is NotFound && !registry.contains_name(name@),
                Ok(p) => {
                    let (saga, action) = p;
                    &&& registry.contains_name(name@)
                    &&& saga.wf()
                    &&& saga.spec_name() == name@
                    &&& saga.spec_path() == registry.spec_get(name@).worktree_path@
                    &&& saga.force == force
                    &&& saga.spec_targets() == registry.spec_get(name@).symlinks@.map_values(
                        |l: SymlinkInfo| l.target@,
                    )
                    &&& saga.pre_flags@.len() == settings.hooks.pre_remove@.len()
                    &&& forall|j: int|
                        0 <= j < saga.pre_flags@.len() ==> (#[trigger] saga.pre_flags@[j])
                            == settings.hooks.pre_remove@[j].continue_on_error
                    &&& saga.post_flags@.len() == settings.hooks.post_remove@.len()
                    &&& forall|j: int|
                        0 <= j < saga.post_flags@.len() ==> (#[trigger] saga.post_flags@[j])
                            == settings.hooks.post_remove@[j].continue_on_error
                    &&& saga.failure is None
                    &&& if settings.hooks.pre_remove@.len() > 0 {
                        &&& saga.state matches RemoveState::PreHook(i) && i == 0
                        &&& action matches SagaAction::RunHook { phase, index } && phase
                            is PreRemove && index == 0
                    } else if saga.targets@.len() > 0 {
                        &&& saga.state matches RemoveState::RmLink(i) && i == 0
                        &&& action matches SagaAction::RemoveLink { target } && target@
                            == saga.spec_targets()[0]
                    } else {
                        &&& saga.state is Worktree
                        &&& action matches SagaAction::RemoveWorktree { path, force: f } && path@
                            == saga.spec_path() && f == force
                    }
                },
            },
    {
        let env = match registry.get(name) {
            Some(e) => e,
            None => {
                return Err(
                    TwinError::not_found(
                        text::str_to_string("environment"),
                        text::str_to_string(name),
                    ),
                );
            },
        };
        let worktree_path = env.worktree_path.clone();
        let mut targets: Vec<String> = Vec::new();
        let nlinks = env.symlinks.len();
        let mut j: usize = 0;
        while j < nlinks
            invariant
                0 <= j <= nlinks == env.symlinks@.len(),
                targets@.len() == j,
                forall|k: int| 0 <= k < j ==> (#[trigger] targets@[k])@ == env.symlinks@[k].target@,
            decreases nlinks - j,
        {
            targets.push(env.symlinks[j].target.clone());
            j += 1;
        }
        let mut pre_flags: Vec<bool> = Vec::new();
        let npre = settings.hooks.pre_remove.len();
        let mut j: usize = 0;
        while j < npre
            invariant
                0 <= j <= npre == settings.hooks.pre_remove@.len(),
                pre_flags@.len() == j,
                forall|k: int|
                    0 <= k < j ==> (#[trigger] pre_flags@[k]) == settings.hooks.pre_remove@[
                        k
                    ].continue_on_error,
            decreases npre - j,
        {
            pre_flags.push(settings.hooks.pre_remove[j].continue_on_error);
            j += 1;
        }
        let mut post_flags: Vec<bool> = Vec::new();
        let npost = settings.hooks.post_remove.len();
        let mut j: usize = 0;
        while j < npost
            invariant
                0 <= j <= npost == settings.hooks.post_remove@.len(),
                post_flags@.len() == j,
                forall|k: int|
                    0 <= k < j ==> (#[trigger] post_flags@[k]) == settings.hooks.post_remove@[
                        k
                    ].continue_on_error,
            decreases npost - j,
        {
            post_flags.push(settings.hooks.post_remove[j].continue_on_error);
            j += 1;
        }
        let action = if pre_flags.len() > 0 {
            SagaAction::RunHook { phase: HookType::PreRemove, index: 0 }
        } else if targets.len() > 0 {
            SagaAction::RemoveLink { target: targets[0].clone() }
        } else {
            SagaAction::RemoveWorktree { path: worktree_path.clone(), force }
        };
        let state = if pre_flags.len() > 0 {
            RemoveState::PreHook(0)
        } else if targets.len() > 0 {
            RemoveState::RmLink(0)
        } else {
            RemoveState::Worktree
        };
        let saga = RemoveSaga {
            name: text::str_to_string(name),
            worktree_path,
            targets,
            force,
            pre_flags,
            post_flags,
            state,
            failure: None,
        };
        proof {
            assert(saga.spec_targets() =~= registry.spec_get(name@).symlinks@.map_values(
                |l: SymlinkInfo| l.target@,
            ));
        }
        Ok((saga, action))
    }
}

/// The removal saga's plan is unchanged.
pub open spec fn same_remove_core(pre: RemoveSaga, post: RemoveSaga) -> bool {
    &&& post.name == pre.name
    &&& post.worktree_path == pre.worktree_path
    &&& post.targets@ == pre.targets@
    &&& post.force == pre.force
    &&& post.pre_flags@ == pre.pre_flags@
    &&& post.post_flags@ == pre.post_flags@
}

/// The action and state that follow a finished link phase.
pub open spec fn remove_after_links(pre: RemoveSaga, post: RemoveSaga, action: SagaAction) -> bool {
    &&& post.state is Worktree
    &&& action matches SagaAction::RemoveWorktree { path, force: f } && path@ == pre.spec_path()
        && f == pre.force
}

/// The full transition relation of one `step` call of the removal saga.
pub open spec fn remove_step_rel(
    pre: RemoveSaga,
    rpre: EnvironmentRegistry,
    oc: StepOutcome,
    post: RemoveSaga,
    rpost: EnvironmentRegistry,
    action: SagaAction,
) -> bool {
    &&& same_remove_core(pre, post)
    &&& match pre.state {
        RemoveState::PreHook(i) => {
            &&& rpost == rpre
            &&& if !oc.success && !pre.pre_flags@[i as int] {
                &&& post.state is Done
                &&& post.failure matches Some(e) && e is Hook
                &&& action is Finished
            } else if i + 1 < pre.pre_flags@.len() {
                &&& post.state matches RemoveState::PreHook(k) && k == i + 1
                &&& post.failure is None
                &&& action matches SagaAction::RunHook { phase, index } && phase is PreRemove
                    && index == i + 1
            } else if pre.targets@.len() > 0 {
                &&& post.state matches RemoveState::RmLink(k) && k == 0
                &&& post.failure is None
                &&& action matches SagaAction::RemoveLink { target } && target@
                    == pre.spec_targets()[0]
            } else {
                &&& post.failure is None
                &&& remove_after_links(pre, post, action)
            }
        },
        RemoveState::RmLink(i) => {
            &&& rpost == rpre
            &&& if !oc.success && !pre.force {
                &&& post.state is Done
                &&& post.failure matches Some(e) && e is Symlink
                &&& action is Finished
            } else if i + 1 < pre.targets@.len() {
                &&& post.state matches RemoveState::RmLink(k) && k == i + 1
                &&& post.failure is None
                &&& action matches SagaAction::RemoveLink { target } && target@
                    == pre.spec_targets()[i + 1]
            } else {
                &&& post.failure is None
                &&& remove_after_links(pre, post, action)
            }
        },
        RemoveState::Worktree => {
            if !oc.success && !pre.force {
                &&& rpost == rpre
                &&& post.state is Done
                &&& post.failure matches Some(e) && e is Git
                &&& action is Finished
            } else {
                &&& reg_removed(rpre, rpost, pre.spec_name())
                &&& post.state is Persist
                &&& post.failure is None
                &&& action is PersistRegistry
            }
        },
        RemoveState::Persist => {
            &&& rpost == rpre
            &&& if !oc.success {
                &&& post.state is Done
                &&& post.failure matches Some(e) && e is Config
                &&& action is Finished
            } else if pre.post_flags@.len() > 0 {
                &&& post.state matches RemoveState::PostHook(k) && k == 0
                &&& post.failure is None
                &&& action matches SagaAction::RunHook { phase, index } && phase is PostRemove
                    && index == 0
            } else {
                &&& post.state is Done
                &&& post.failure is None
                &&& action is Finished
            }
        },
        RemoveState::PostHook(i) => {
            &&& rpost == rpre
            &&& post.failure is None
            &&& if i + 1 < pre.post_flags@.len() {
                &&& post.state matches RemoveState::PostHook(k) && k == i + 1
                &&& action matches SagaAction::RunHook { phase, index } && phase is PostRemove
                    && index == i + 1
            } else {
                &&& post.state is Done
                &&& action is Finished
            }
        },
        RemoveState::Done => false,
    }
}

impl RemoveSaga {
    /// Consume the outcome of the awaited step and produce the next action.
    pub fn step(&mut self, registry: &mut EnvironmentRegistry, outcome: &StepOutcome) -> (action:
        SagaAction)
        requires
            old(self).wf(),
            !(old(self).spec_state() is Done),
            old(registry).wf(),
        ensures
            final(self).wf(),
            final(registry).wf(),
            remove_step_rel(
                *old(self),
                *old(registry),
                *outcome,
                *final(self),
                *final(registry),
                action,
            ),
            final(self).measure() < old(self).measure(),
    {
        let st = self.state;
        match st {
            RemoveState::PreHook(i) => {
                let n = self.pre_flags.len();
                proof {
                    assert(i < n);
                }
                if !outcome.success && !self.pre_flags[i] {
                    self.failure = Some(
                        TwinError::hook(
                            outcome.message.clone(),
                            text::str_to_string("pre_remove"),
                            outcome.exit_code,
                        ),
                    );
                    self.state = RemoveState::Done;
                    SagaAction::Finished
                } else if i + 1 < n {
                    self.state = RemoveState::PreHook(i + 1);
                    SagaAction::RunHook { phase: HookType::PreRemove, index: i + 1 }
                } else if self.targets.len() > 0 {
                    self.state = RemoveState::RmLink(0);
                    SagaAction::RemoveLink { target: self.targets[0].clone() }
                } else {
                    self.state = RemoveState::Worktree;
                    SagaAction::RemoveWorktree {
                        path: self.worktree_path.clone(),
                        force: self.force,
                    }
                }
            },
            RemoveState::RmLink(i) => {
                let n = self.targets.len();
                proof {
                    assert(i < n);
                }
                if !outcome.success && !self.force {
                    self.failure = Some(
                        TwinError::symlink(
                            outcome.message.clone(),
                            Some(self.targets[i].clone()),
                        ),
                    );
                    self.state = RemoveState::Done;
                    SagaAction::Finished
                } else if i + 1 < n {
                    self.state = RemoveState::RmLink(i + 1);
                    SagaAction::RemoveLink { target: self.targets[i + 1].clone() }
                } else {
                    self.state = RemoveState::Worktree;
                    SagaAction::RemoveWorktree {
                        path: self.worktree_path.clone(),
                        force: self.force,
                    }
                }
            },
            RemoveState::Worktree => {
                if !outcome.success && !self.force {
                    self.failure = Some(TwinError::git(outcome.message.clone()));
                    self.state = RemoveState::Done;
                    SagaAction::Finished
                } else {
                    registry.remove(self.name.as_str());
                    self.state = RemoveState::Persist;
                    SagaAction::PersistRegistry
                }
            },
            RemoveState::Persist => {
                if !outcome.success {
                    self.failure = Some(
                        TwinError::config(
                            text::str_to_string("Failed to write registry"),
                            None,
                        ),
                    );
                    self.state = RemoveState::Done;
                    SagaAction::Finished
                } else if self.post_flags.len() > 0 {
                    self.state = RemoveState::PostHook(0);
                    SagaAction::RunHook { phase: HookType::PostRemove, index: 0 }
                } else {
                    self.state = RemoveState::Done;
                    SagaAction::Finished
                }
            },
            RemoveState::PostHook(i) => {
                let n = self.post_flags.len();
                proof {
                    assert(i < n);
                }
                if i + 1 < n {
                    self.state = RemoveState::PostHook(i + 1);
                    SagaAction::RunHook { phase: HookType::PostRemove, index: i + 1 }
                } else {
                    self.state = RemoveState::Done;
                    SagaAction::Finished
                }
            },
            RemoveState::Done => {
                proof {
                    assert(false);
                }
                SagaAction::Finished
            },
        }
    }

    /// Which state the machine is in.
    pub open spec fn spec_state(self) -> RemoveState {
        self.state
    }

    /// The saga's result, once it has finished.
    pub fn finish(self) -> (r: Result<(), TwinError>)
        requires
            self.spec_state() is Done,
        ensures
            self.failure matches Some(x) ==> r matches Err(x2) && x2 == x,
            (r is Ok) == (self.failure is None),
    {
        match self.failure {
            Some(x) => Err(x),
            None => Ok(()),
        }
    }
}

} // verus!

verus! {

/// Which steps of a simulated removal are made to fail.
pub struct RemoveFaultPlan {
    /// Fail the pre-remove hook at this index.
    pub pre_hook_fail: Option<usize>,
    /// Fail the removal of the link at this index (only a link that exists
    /// can fail to be removed; an absent target is removed trivially).
    pub link_fail: Option<usize>,
    /// Fail the worktree removal.
    pub worktree_fail: bool,
    /// Fail the registry write.
    pub persist_fail: bool,
    /// Fail the post-remove hook at this index.
    pub post_hook_fail: Option<usize>,
}

impl RemoveFaultPlan {
    /// A plan with no injected failures.
    pub fn none() -> (r: RemoveFaultPlan)
        ensures
            r.pre_hook_fail is None,
            r.link_fail is None,
            !r.worktree_fail,
            !r.persist_fail,
            r.post_hook_fail is None,
    {
        RemoveFaultPlan {
            pre_hook_fail: None,
            link_fail: None,
            worktree_fail: false,
            persist_fail: false,
            post_hook_fail: None,
        }
    }
}

impl SimWorld {
    /// Remove a link, with an injected fault: only a link that actually
    /// exists can fail to be removed; removing an absent target succeeds,
    /// whatever the fault plan says.
    fn link_remove_f(&mut self, target: &str, fault: bool) -> (ok: bool)
        ensures
            ok == !(fault && spec_has(old(self).links@, target@)),
            ok ==> !spec_has(final(self).links@, target@),
            ok ==> forall|y: Seq<char>|
                y != target@ ==> spec_has(final(self).links@, y) == spec_has(old(self).links@, y),
            !ok ==> *final(self) == *old(self),
            final(self).branches == old(self).branches,
            final(self).worktrees == old(self).worktrees,
            final(self).saved == old(self).saved,
    {
        if fault && text::contains_string(&self.links, target) {
            return false;
        }
        remove_str(&mut self.links, target);
        true
    }

    /// Remove a worktree directory, with an injected fault.
    fn wt_remove_f(&mut self, path: &str, fault: bool) -> (ok: bool)
        ensures
            ok == !fault,
            ok ==> !spec_has(final(self).worktrees@, path@),
            ok ==> forall|y: Seq<char>|
                y != path@ ==> spec_has(final(self).worktrees@, y) == spec_has(
                    old(self).worktrees@,
                    y,
                ),
            !ok ==> *final(self) == *old(self),
            final(self).branches == old(self).branches,
            final(self).links == old(self).links,
            final(self).saved == old(self).saved,
    {
        if fault {
            return false;
        }
        remove_str(&mut self.worktrees, path);
        true
    }
}

/// Whether `t` is one of the recorded link targets.
pub open spec fn in_targets(tgts: Seq<Seq<char>>, t: Seq<char>) -> bool {
    tgts.contains(t)
}

/// Whether every injected fault is one the removal tolerates without any
/// effect: faulted hooks allow continuation, a faulted link removal aims at
/// an absent target, and neither the worktree removal nor the registry
/// write fails.
pub open spec fn remove_faults_passable(
    settings: crate::types::ConfigSettings,
    faults: RemoveFaultPlan,
    w0: SimWorld,
    tgts: Seq<Seq<char>>,
) -> bool {
    &&& match faults.pre_hook_fail {
        Some(i) => i < settings.hooks.pre_remove@.len() ==> settings.hooks.pre_remove@[
            i as int
        ].continue_on_error,
        None => true,
    }
    &&& match faults.link_fail {
        Some(i) => i >= tgts.len() || !spec_has(w0.links@, tgts[i as int]),
        None => true,
    }
    &&& !faults.worktree_fail
    &&& !faults.persist_fail
}

/// The removal executor's loop invariant.
pub open spec fn remove_run_inv(
    saga: RemoveSaga,
    action: SagaAction,
    world: SimWorld,
    registry: EnvironmentRegistry,
    w0: SimWorld,
    r0: EnvironmentRegistry,
    settings: crate::types::ConfigSettings,
    faults: RemoveFaultPlan,
    nm: Seq<char>,
    wt: Seq<char>,
    tgts: Seq<Seq<char>>,
) -> bool {
    let passable = remove_faults_passable(settings, faults, w0, tgts);
    &&& saga.wf()
    &&& registry.wf()
    &&& saga.spec_name() == nm
    &&& saga.spec_path() == wt
    &&& saga.spec_targets() == tgts
    &&& saga.pre_flags@.len() == settings.hooks.pre_remove@.len()
    &&& forall|j: int|
        0 <= j < saga.pre_flags@.len() ==> (#[trigger] saga.pre_flags@[j])
            == settings.hooks.pre_remove@[j].continue_on_error
    &&& saga.post_flags@.len() == settings.hooks.post_remove@.len()
    &&& forall|n: Seq<char>| n != nm ==> registry.contains_name(n) == r0.contains_name(n)
    &&& world.branches == w0.branches
    &&& forall|p: Seq<char>|
        p != wt ==> spec_has(world.worktrees@, p) == spec_has(w0.worktrees@, p)
    &&& forall|t: Seq<char>|
        !in_targets(tgts, t) ==> spec_has(world.links@, t) == spec_has(w0.links@, t)
    &&& forall|t: Seq<char>| #[trigger] spec_has(world.links@, t) ==> spec_has(w0.links@, t)
    &&& (passable ==> saga.failure is None)
    &&& ((action is Finished) == (saga.state is Done))
    &&& match saga.state {
        RemoveState::PreHook(i) => {
            &&& action matches SagaAction::RunHook { phase, index } && phase is PreRemove
                && index == i
            &&& registry.contains_name(nm)
            &&& spec_has(world.worktrees@, wt) == spec_has(w0.worktrees@, wt)
            &&& forall|t: Seq<char>| spec_has(world.links@, t) == spec_has(w0.links@, t)
            &&& world.saved == w0.saved
        },
        RemoveState::RmLink(i) => {
            &&& action matches SagaAction::RemoveLink { target } && target@ == tgts[i as int]
            &&& registry.contains_name(nm)
            &&& spec_has(world.worktrees@, wt) == spec_has(w0.worktrees@, wt)
            &&& world.saved == w0.saved
            &&& (passable ==> forall|j: int| 0 <= j < i ==> !spec_has(
                world.links@,
                #[trigger] tgts[j],
            ))
        },
        RemoveState::Worktree => {
            &&& action matches SagaAction::RemoveWorktree { path, force: f } && path@ == wt && f
                == saga.force
            &&& registry.contains_name(nm)
            &&& spec_has(world.worktrees@, wt) == spec_has(w0.worktrees@, wt)
            &&& world.saved == w0.saved
            &&& (passable ==> forall|j: int| 0 <= j < tgts.len() ==> !spec_has(
                world.links@,
                #[trigger] tgts[j],
            ))
        },
        RemoveState::Persist => {
            &&& action is PersistRegistry
            &&& !registry.contains_name(nm)
            &&& world.saved == w0.saved
            &&& (passable ==> !spec_has(world.worktrees@, wt) && forall|j: int|
                0 <= j < tgts.len() ==> !spec_has(world.links@, #[trigger] tgts[j]))
        },
        RemoveState::PostHook(i) => {
            &&& action matches SagaAction::RunHook { phase, index } && phase is PostRemove
                && index == i
            &&& !registry.contains_name(nm)
            &&& world.saved matches Some(s) && !s.contains_name(nm)
            &&& (passable ==> !spec_has(world.worktrees@, wt) && forall|j: int|
                0 <= j < tgts.len() ==> !spec_has(world.links@, #[trigger] tgts[j]))
        },
        RemoveState::Done => {
            &&& (saga.failure is None ==> (!registry.contains_name(nm) && (world.saved
                matches Some(s) && !s.contains_name(nm))))
            &&& (saga.failure matches Some(e) ==> (e is Hook || e is Symlink || e is Git || e
                is Config) && ((e is Hook || e is Symlink || e is Git)
                ==> registry.contains_name(nm)) && (e is Config ==> !registry.contains_name(nm)))
            &&& (passable ==> !spec_has(world.worktrees@, wt) && (forall|j: int|
                0 <= j < tgts.len() ==> !spec_has(world.links@, #[trigger] tgts[j])))
        },
    }
}

/// Run the removal saga to completion against the simulated world, with the
/// given faults injected.
///
/// An absent name fails with `NotFound` and changes nothing. A failing
/// pre-remove hook (not marked to continue), or, without `force`, a failing
/// link or worktree removal, aborts with the registry entry intact. Once
/// the worktree removal step is passed, the entry is removed and the
/// registry rewritten; post-remove hook failures never undo the removal.
/// Removing a link whose target is already absent is a success, not an
/// error, so injected faults aimed at absent targets change nothing.
pub fn run_remove_sim(
    world: &mut SimWorld,
    registry: &mut EnvironmentRegistry,
    settings: &crate::types::ConfigSettings,
    name: &str,
    force: bool,
    faults: &RemoveFaultPlan,
) -> (r: Result<(), TwinError>)
    requires
        old(registry).wf(),
    ensures
        final(registry).wf(),
        !old(registry).contains_name(name@) ==> (r matches Err(e) && e is NotFound
            && *final(world) == *old(world) && *final(registry) == *old(registry)),
        old(registry).contains_name(name@) ==> ({
            let wt = old(registry).spec_get(name@).worktree_path@;
            let tgts = old(registry).spec_get(name@).symlinks@.map_values(
                |l: SymlinkInfo| l.target@,
            );
            &&& forall|n: Seq<char>|
                n != name@ ==> final(registry).contains_name(n) == old(registry).contains_name(n)
            &&& final(world).branches == old(world).branches
            &&& forall|p: Seq<char>|
                p != wt ==> spec_has(final(world).worktrees@, p) == spec_has(
                    old(world).worktrees@,
                    p,
                )
            &&& forall|t: Seq<char>|
                !in_targets(tgts, t) ==> spec_has(final(world).links@, t) == spec_has(
                    old(world).links@,
                    t,
                )
            &&& (r is Ok ==> (!final(registry).contains_name(name@) && (final(world).saved
                matches Some(s) && !s.contains_name(name@))))
            &&& (r matches Err(e) ==> (!(e is NotFound) && ((e is Hook || e is Symlink || e
                is Git) ==> final(registry).contains_name(name@)) && (e is Config
                ==> !final(registry).contains_name(name@))))
            &&& (remove_faults_passable(*settings, *faults, *old(world), tgts) ==> r is Ok
                && !spec_has(final(world).worktrees@, wt) && (forall|j: int|
                0 <= j < tgts.len() ==> !spec_has(final(world).links@, #[trigger] tgts[j])))
        }),
{
    let ghost w0 = *world;
    let ghost r0 = *registry;
    let ghost nm = name@;
    let ghost wt = old(registry).spec_get(name@).worktree_path@;
    let ghost tgts = old(registry).spec_get(name@).symlinks@.map_values(
        |l: SymlinkInfo| l.target@,
    );
    let begun = RemoveSaga::begin(registry, settings, name, force);
    let (mut saga, mut action) = match begun {
        Ok(p) => p,
        Err(e) => {
            return Err(e);
        },
    };
    while !action_is_finished(&action)
        invariant
            remove_run_inv(
                saga,
                action,
                *world,
                *registry,
                w0,
                r0,
                *settings,
                *faults,
                nm,
                wt,
                tgts,
            ),
        decreases saga.measure(),
    {
        let outcome: StepOutcome = match &action {
            SagaAction::RunHook { phase, index } => {
                let failed = match phase {
                    HookType::PreRemove => match faults.pre_hook_fail {
                        Some(f) => f == *index,
                        None => false,
                    },
                    HookType::PostRemove => match faults.post_hook_fail {
                        Some(f) => f == *index,
                        None => false,
                    },
                    _ => false,
                };
                StepOutcome {
                    success: !failed,
                    exit_code: Some(if failed { 1i32 } else { 0i32 }),
                    message: if failed {
                        text::str_to_string("hook failed")
                    } else {
                        String::new()
                    },
                }
            },
            SagaAction::RemoveLink { target } => {
                proof {
                    match saga.state {
                        RemoveState::RmLink(i) => {
                            assert(saga.spec_targets()[i as int] == target@);
                            assert(in_targets(tgts, target@));
                        },
                        _ => {},
                    }
                }
                let fault = match (&saga.state, faults.link_fail) {
                    (RemoveState::RmLink(i), Some(f)) => f == *i,
                    _ => false,
                };
                let ok = world.link_remove_f(target.as_str(), fault);
                StepOutcome {
                    success: ok,
                    exit_code: None,
                    message: if ok {
                        String::new()
                    } else {
                        text::str_to_string("link removal failed")
                    },
                }
            },
            SagaAction::RemoveWorktree { path, .. } => {
                let ok = world.wt_remove_f(path.as_str(), faults.worktree_fail);
                StepOutcome {
                    success: ok,
                    exit_code: None,
                    message: if ok {
                        String::new()
                    } else {
                        text::str_to_string("worktree removal failed")
                    },
                }
            },
            SagaAction::PersistRegistry => {
                let ok = world.persist(registry, faults.persist_fail);
                StepOutcome {
                    success: ok,
                    exit_code: None,
                    message: if ok {
                        String::new()
                    } else {
                        text::str_to_string("registry write failed")
                    },
                }
            },
            _ => StepOutcome { success: true, exit_code: None, message: String::new() },
        };
        action = saga.step(registry, &outcome);
    }
    saga.finish()
}

} // verus!

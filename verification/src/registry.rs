//! The catalog of created environments: an in-memory map from name to
//! environment, the optional active name, and the last-updated stamp.
//!
//! Names are unique; the active name, when present, refers to an existing
//! entry; and after `set_active(Some(..))` exactly the named entry has
//! `Active` status.

use vstd::prelude::*;
use crate::types::{AgentEnvironment, EnvironmentStatus};
use crate::text;
use crate::clock;

verus! {

/// The persisted catalog of environments.
#[derive(Debug)]
pub struct EnvironmentRegistry {
    /// The environments, one entry per name.
    pub environments: Vec<AgentEnvironment>,
    /// The name of the active environment, if any.
    pub active: Option<String>,
    /// When the registry last changed, in milliseconds since the Unix epoch.
    pub last_updated: Option<u64>,
}

impl EnvironmentRegistry {
    /// The names of the catalogued environments, in storage order.
    pub open spec fn names(self) -> Seq<Seq<char>> {
        self.environments@.map_values(|e: AgentEnvironment| e.name@)
    }

    /// Whether an environment of this name is catalogued.
    pub open spec fn contains_name(self, n: Seq<char>) -> bool {
        self.names().contains(n)
    }

    /// The storage index of the environment of this name.
    pub open spec fn index_of(self, n: Seq<char>) -> int {
        choose|i: int| 0 <= i < self.environments@.len() && self.environments@[i].name@ == n
    }

    /// The catalogued environment of this name.
    pub open spec fn spec_get(self, n: Seq<char>) -> AgentEnvironment {
        self.environments@[self.index_of(n)]
    }

    /// Names are unique, and the active name refers to an existing entry.
    pub open spec fn wf(self) -> bool {
        &&& forall|i: int, j: int|
            0 <= i < j < self.environments@.len() ==> self.environments@[i].name@
                != self.environments@[j].name@
        &&& match self.active {
            Some(a) => self.contains_name(a@),
            None => true,
        }
    }

    /// Exactly the entry the active name points to has `Active` status.
    pub open spec fn sole_active(self) -> bool {
        forall|i: int|
            0 <= i < self.environments@.len() ==> ((#[trigger] self.environments@[i].status)
                is Active <==> (self.active matches Some(a) && a@ == self.environments@[i].name@))
    }

    /// An empty registry.
    pub fn new() -> (r: EnvironmentRegistry)
        ensures
            r.environments@.len() == 0,
            r.active is None,
            r.last_updated is None,
            r.wf(),
            r.sole_active(),
    {
        EnvironmentRegistry { environments: Vec::new(), active: None, last_updated: None }
    }

    /// An owned copy whose entries agree field by field with this one's.
    pub fn duplicate(&self) -> (r: EnvironmentRegistry)
        ensures
            r.environments@.len() == self.environments@.len(),
            forall|j: int|
                0 <= j < self.environments@.len() ==> crate::types::env_eq(
                    #[trigger] r.environments@[j],
                    self.environments@[j],
                ),
            r.names() == self.names(),
            r.active == self.active,
            r.last_updated == self.last_updated,
            forall|n: Seq<char>| r.contains_name(n) == self.contains_name(n),
            self.wf() ==> r.wf(),
    {
        let mut envs: Vec<AgentEnvironment> = Vec::new();
        let n = self.environments.len();
        let mut i: usize = 0;
        while i < n
            invariant
                0 <= i <= n == self.environments@.len(),
                envs@.len() == i,
                forall|j: int|
                    0 <= j < i ==> crate::types::env_eq(
                        #[trigger] envs@[j],
                        self.environments@[j],
                    ),
            decreases n - i,
        {
            envs.push(self.environments[i].duplicate());
            i += 1;
        }
        let r = EnvironmentRegistry {
            environments: envs,
            active: text::clone_opt_string(&self.active),
            last_updated: self.last_updated,
        };
        proof {
            assert(r.names() =~= self.names());
        }
        r
    }

    /// The storage index of the entry named `name`, if one exists.
    fn find_index(&self, name: &str) -> (r: Option<usize>)
        ensures
            match r {
                Some(i) => i < self.environments@.len() && self.environments@[
                    i as int
                ].name@ == name@,
                None => !self.contains_name(name@),
            },
    {
        let n = self.environments.len();
        let mut i: usize = 0;
        while i < n
            invariant
                0 <= i <= n == self.environments@.len(),
                forall|j: int| 0 <= j < i ==> self.environments@[j].name@ != name@,
            decreases n - i,
        {
            if text::str_eq(self.environments[i].name.as_str(), name) {
                return Some(i);
            }
            i += 1;
        }
        assert forall|j: int|
            0 <= j < self.environments@.len() implies self.names()[j] != name@ by {}
        None
    }

    /// Insert an environment, replacing any entry of the same name, and
    /// refresh the update stamp.
    pub fn add(&mut self, env: AgentEnvironment)
        requires
            old(self).wf(),
        ensures
            final(self).wf(),
            final(self).contains_name(env.name@),
            final(self).spec_get(env.name@) == env,
            final(self).active == old(self).active,
            final(self).last_updated is Some,
            !old(self).contains_name(env.name@) ==> final(self).environments@ == old(
                self,
            ).environments@.push(env),
            old(self).contains_name(env.name@) ==> final(self).environments@ == old(
                self,
            ).environments@.update(old(self).index_of(env.name@), env),
            forall|n: Seq<char>|
                final(self).contains_name(n) == (old(self).contains_name(n) || n == env.name@),
    {
        let ghost before = self.environments@;
        let ghost bn = before.map_values(|e: AgentEnvironment| e.name@);
        let found = self.find_index(env.name.as_str());
        let ghost target = env.name@;
        match found {
            Some(i) => {
                proof {
                    let idx = self.index_of(env.name@);
                    assert(self.environments@[i as int].name@ == env.name@);
                    assert(0 <= idx < self.environments@.len() && self.environments@[idx].name@
                        == env.name@);
                    assert(idx == i as int);
                }
                let slot = &mut self.environments[i];
                *slot = env;
                proof {
                    let envs = self.environments@;
                    let an = envs.map_values(|e: AgentEnvironment| e.name@);
                    assert(an =~= bn.update(i as int, target));
                    assert(bn[i as int] == target);
                    assert(an =~= bn);
                    assert forall|x: int, y: int|
                        0 <= x < y < envs.len() implies envs[x].name@ != envs[y].name@ by {
                        assert(envs[x].name@ == an[x] && envs[y].name@ == an[y]);
                        assert(before[x].name@ == bn[x] && before[y].name@ == bn[y]);
                    }
                    assert forall|k: int|
                        0 <= k < envs.len() && #[trigger] envs[k].name@ == target implies envs[k]
                        == env by {
                        if k != i as int {
                            assert(envs[k].name@ == bn[k] && bn[i as int] == target);
                        }
                    }
                    assert(envs[i as int] == env && envs[i as int].name@ == target);
                }
            },
            None => {
                self.environments.push(env);
                proof {
                    let envs = self.environments@;
                    let an = envs.map_values(|e: AgentEnvironment| e.name@);
                    assert(an =~= bn.push(target));
                    assert forall|n: Seq<char>| an.contains(n) implies (bn.contains(n) || n
                        == target) by {
                        let k = choose|k: int| 0 <= k < an.len() && an[k] == n;
                        if k < bn.len() {
                            assert(bn[k] == n);
                        }
                    }
                    assert forall|n: Seq<char>| bn.contains(n) implies an.contains(n) by {
                        let k = choose|k: int| 0 <= k < bn.len() && bn[k] == n;
                        assert(an[k] == n);
                    }
                    assert(an[an.len() - 1] == target);
                    assert(!bn.contains(target));
                    assert forall|x: int, y: int|
                        0 <= x < y < envs.len() implies envs[x].name@ != envs[y].name@ by {
                        assert(envs[x].name@ == an[x] && envs[y].name@ == an[y]);
                        if y == envs.len() - 1 {
                            if an[x] == target {
                                assert(bn[x] == target);
                            }
                        } else {
                            assert(before[x].name@ == bn[x] && before[y].name@ == bn[y]);
                        }
                    }
                    assert forall|k: int|
                        0 <= k < envs.len() && #[trigger] envs[k].name@ == target implies envs[k]
                        == env by {
                        if k != envs.len() - 1 {
                            assert(bn[k] == target);
                        }
                    }
                    assert(envs[envs.len() - 1] == env && envs[envs.len() - 1].name@ == target);
                }
            },
        }
        self.last_updated = Some(clock::now_millis());
        proof {
            let envs = self.environments@;
            assert(exists|k: int| 0 <= k < envs.len() && #[trigger] envs[k].name@ == target);
            let w = choose|k: int| 0 <= k < envs.len() && #[trigger] envs[k].name@ == target;
            assert(self.names()[w] == target);
            assert(self.contains_name(target));
            let idx = self.index_of(target);
            assert(0 <= idx < envs.len() && envs[idx].name@ == target);
            assert(envs[idx] == env);
            if self.active is Some {
                let a = self.active->0;
                assert(old(self).contains_name(a@));
                let k = choose|k: int|
                    0 <= k < old(self).names().len() && old(self).names()[k] == a@;
                assert(before[k].name@ == a@);
                assert(self.names()[k] == envs[k].name@);
                assert(self.names().contains(a@));
            }
        }
    }

    /// Remove the entry of this name, if present; clear the active name if it
    /// pointed at the removed entry; refresh the update stamp.
    pub fn remove(&mut self, name: &str) -> (r: Option<AgentEnvironment>)
        requires
            old(self).wf(),
        ensures
            final(self).wf(),
            !final(self).contains_name(name@),
            final(self).last_updated is Some,
            forall|n: Seq<char>|
                n != name@ ==> final(self).contains_name(n) == old(self).contains_name(n),
            forall|n: Seq<char>|
                n != name@ && old(self).contains_name(n) ==> final(self).spec_get(n) == old(
                    self,
                ).spec_get(n),
            match r {
                Some(e) => old(self).contains_name(name@) && e == old(self).spec_get(name@)
                    && final(self).environments@ == old(self).environments@.remove(
                    old(self).index_of(name@),
                ),
                None => !old(self).contains_name(name@) && final(self).environments@ == old(
                    self,
                ).environments@,
            },
            final(self).active == if old(self).active matches Some(a) && a@ == name@ {
                None::<String>
            } else {
                old(self).active
            },
    {
        let found = self.find_index(name);
        let r = match found {
            Some(i) => {
                proof {
                    assert(self.names()[i as int] == name@);
                    let idx = self.index_of(name@);
                    assert(self.environments@[i as int].name@ == name@);
                    assert(0 <= idx < self.environments@.len() && self.environments@[idx].name@
                        == name@);
                    assert(idx == i as int);
                }
                let e = self.environments.remove(i);
                proof {
                    assert forall|k: int|
                        0 <= k < self.environments@.len() implies #[trigger] self.environments@[
                        k
                    ].name@ != name@ by {
                        if k < i as int {
                            assert(self.environments@[k] == old(self).environments@[k]);
                        } else {
                            assert(self.environments@[k] == old(self).environments@[k + 1]);
                        }
                    }
                    if self.contains_name(name@) {
                        let w = choose|w: int|
                            0 <= w < self.environments@.len() && self.environments@[w].name@
                                == name@;
                        assert(self.environments@[w].name@ != name@);
                    }
                }
                Some(e)
            },
            None => None,
        };
        let clear = match (&self.active, &r) {
            (Some(a), Some(_)) => text::str_eq(a.as_str(), name),
            _ => false,
        };
        if clear {
            self.active = None;
        }
        self.last_updated = Some(clock::now_millis());
        proof {
            if r is Some {
                let envs0 = old(self).environments@;
                let idx = old(self).index_of(name@);
                assert forall|n: Seq<char>|
                    n != name@ implies final(self).contains_name(n) == old(self).contains_name(
                    n,
                ) by {
                    lemma_membership_remove(envs0, idx, n);
                }
                assert forall|n: Seq<char>|
                    n != name@ && old(self).contains_name(n) implies final(self).spec_get(n) == old(
                    self,
                ).spec_get(n) by {
                    lemma_get_remove(envs0, idx, n, self.environments@);
                }
            }
            if self.active is Some {
                let a = self.active->0;
                assert(self.contains_name(a@));
            }
        }
        r
    }

    /// Make the named environment the sole active one: every other entry that
    /// was `Active` becomes `Inactive`, the named entry becomes `Active`, and
    /// the active name is updated. With `None`, only the active name is
    /// cleared.
    pub fn set_active(&mut self, name: Option<String>)
        requires
            old(self).wf(),
            name matches Some(n) ==> old(self).contains_name(n@),
        ensures
            final(self).wf(),
            final(self).active == name,
            final(self).last_updated is Some,
            final(self).environments@.len() == old(self).environments@.len(),
            forall|i: int|
                0 <= i < old(self).environments@.len() ==> same_env_except_status(
                    old(self).environments@[i],
                    #[trigger] final(self).environments@[i],
                ),
            name is Some ==> final(self).sole_active(),
            name is Some ==> forall|i: int|
                0 <= i < old(self).environments@.len() ==> (#[trigger] final(self).environments@[
                    i
                ].status) == (if old(self).environments@[i].name@ == name->0@ {
                    EnvironmentStatus::Active
                } else if old(self).environments@[i].status is Active {
                    EnvironmentStatus::Inactive
                } else {
                    old(self).environments@[i].status
                }),
            name is None ==> final(self).environments@ == old(self).environments@,
    {
        match &name {
            Some(n) => {
                let target = text::str_to_string(n.as_str());
                let len = self.environments.len();
                let mut i: usize = 0;
                while i < len
                    invariant
                        0 <= i <= len == self.environments@.len(),
                        len == old(self).environments@.len(),
                        forall|j: int|
                            0 <= j < len ==> old(self).environments@[j].name@ == (
                            #[trigger] self.environments@[j].name@),
                        forall|j: int|
                            0 <= j < len ==> same_env_except_status(
                                old(self).environments@[j],
                                #[trigger] self.environments@[j],
                            ),
                        target@ == n@,
                        forall|j: int|
                            0 <= j < i ==> (#[trigger] self.environments@[j].status) == (if old(
                                self,
                            ).environments@[j].name@ == n@ {
                                EnvironmentStatus::Active
                            } else if old(self).environments@[j].status is Active {
                                EnvironmentStatus::Inactive
                            } else {
                                old(self).environments@[j].status
                            }),
                        forall|j: int|
                            i <= j < len ==> (#[trigger] self.environments@[j].status) == old(
                                self,
                            ).environments@[j].status,
                    decreases len - i,
                {
                    let is_target = text::str_eq(
                        self.environments[i].name.as_str(),
                        target.as_str(),
                    );
                    if is_target {
                        self.environments[i].set_status(EnvironmentStatus::Active);
                    } else {
                        let was_active = self.environments[i].is_active();
                        if was_active {
                            self.environments[i].set_status(EnvironmentStatus::Inactive);
                        }
                    }
                    i += 1;
                }
                proof {
                    assert forall|k: int|
                        0 <= k < self.environments@.len() implies ((
                        #[trigger] self.environments@[k].status) is Active <==> (
                        Some(target) matches Some(a) && a@ == self.environments@[k].name@)) by {}
                }
            },
            None => {},
        }
        self.active = name;
        self.last_updated = Some(clock::now_millis());
        proof {
            if self.active is Some {
                let a = self.active->0;
                let w = choose|w: int|
                    0 <= w < old(self).environments@.len() && old(self).environments@[w].name@
                        == a@;
                assert(self.environments@[w].name@ == a@);
                assert(self.names()[w] == a@);
            }
        }
    }

    /// The catalogued environment of this name, if any.
    pub fn get(&self, name: &str) -> (r: Option<&AgentEnvironment>)
        requires
            self.wf(),
        ensures
            match r {
                Some(e) => self.contains_name(name@) && *e == self.spec_get(name@),
                None => !self.contains_name(name@),
            },
    {
        let found = self.find_index(name);
        match found {
            Some(i) => {
                proof {
                    assert(self.names()[i as int] == name@);
                    let idx = self.index_of(name@);
                    assert(0 <= idx < self.environments@.len() && self.environments@[idx].name@
                        == name@);
                    assert(idx == i as int);
                }
                Some(&self.environments[i])
            },
            None => None,
        }
    }

    /// The active environment, if an active name is set.
    pub fn get_active(&self) -> (r: Option<&AgentEnvironment>)
        requires
            self.wf(),
        ensures
            match r {
                Some(e) => self.active matches Some(a) && self.contains_name(a@) && *e
                    == self.spec_get(a@),
                None => self.active is None,
            },
    {
        match &self.active {
            Some(a) => {
                let name = text::str_to_string(a.as_str());
                self.get(name.as_str())
            },
            None => None,
        }
    }
}

/// Everything of the environment but its status and update stamp is the same.
pub open spec fn same_env_except_status(a: AgentEnvironment, b: AgentEnvironment) -> bool {
    &&& a.name == b.name
    &&& a.branch == b.branch
    &&& a.worktree_path == b.worktree_path
    &&& a.symlinks == b.symlinks
    &&& a.created_at == b.created_at
    &&& a.config_path == b.config_path
}

proof fn lemma_membership_remove(before: Seq<AgentEnvironment>, idx: int, n: Seq<char>)
    requires
        0 <= idx < before.len(),
        n != before[idx].name@,
    ensures
        before.remove(idx).map_values(|e: AgentEnvironment| e.name@).contains(n) == before
            .map_values(|e: AgentEnvironment| e.name@).contains(n),
{
    let after = before.remove(idx);
    let bn = before.map_values(|e: AgentEnvironment| e.name@);
    let an = after.map_values(|e: AgentEnvironment| e.name@);
    assert(an =~= bn.remove(idx));
    if bn.contains(n) {
        let i = choose|i: int| 0 <= i < bn.len() && bn[i] == n;
        if i < idx {
            assert(an[i] == n);
        } else {
            assert(i > idx);
            assert(an[i - 1] == n);
        }
    }
    if an.contains(n) {
        let i = choose|i: int| 0 <= i < an.len() && an[i] == n;
        if i < idx {
            assert(bn[i] == n);
        } else {
            assert(bn[i + 1] == n);
        }
    }
}

proof fn lemma_get_remove(
    before: Seq<AgentEnvironment>,
    idx: int,
    n: Seq<char>,
    after: Seq<AgentEnvironment>,
)
    requires
        0 <= idx < before.len(),
        n != before[idx].name@,
        after == before.remove(idx),
        forall|i: int, j: int|
            0 <= i < j < before.len() ==> before[i].name@ != before[j].name@,
        exists|i: int| 0 <= i < before.len() && before[i].name@ == n,
    ensures
        ({
            let bi = choose|i: int| 0 <= i < before.len() && before[i].name@ == n;
            let ai = choose|i: int| 0 <= i < after.len() && after[i].name@ == n;
            0 <= ai < after.len() && after[ai] == before[bi]
        }),
{
    let bi = choose|i: int| 0 <= i < before.len() && before[i].name@ == n;
    if bi < idx {
        assert(after[bi] == before[bi]);
        assert(after[bi].name@ == n);
    } else {
        assert(bi > idx);
        assert(after[bi - 1] == before[bi]);
        assert(after[bi - 1].name@ == n);
    }
    let ai = choose|i: int| 0 <= i < after.len() && after[i].name@ == n;
    assert(0 <= ai < after.len() && after[ai].name@ == n);
    let orig = if ai < idx {
        ai
    } else {
        ai + 1
    };
    assert(before[orig] == after[ai]);
    assert(before[orig].name@ == n);
    assert(orig == bi);
}

} // verus!

//! Parsing of the version-control tool's machine-readable listings: the
//! worktree listing (the one wire format that must be parsed exactly) and
//! the branch listing.
//!
//! Worktree listing grammar: each record starts with a `worktree ` path
//! line; subsequent lines attach the commit (`HEAD `), the branch
//! (`branch `; its absence means detached, leaving the branch field empty),
//! the `locked` flag and the `prunable` flag; the next `worktree ` line
//! starts the next record. Lines before the first record are ignored.

use vstd::prelude::*;
use crate::text;

verus! {

/// One worktree, as reconstructed from the tool's listing.
#[derive(Debug, Clone)]
pub struct WorktreeInfo {
    /// The worktree directory.
    pub path: String,
    /// The checked-out branch; empty when the worktree is detached.
    pub branch: String,
    /// The checked-out commit.
    pub commit: String,
    /// The environment name, for branches under `agent/`.
    pub agent_name: Option<String>,
    /// Whether the worktree is locked.
    pub locked: bool,
    /// Whether the worktree's metadata can be pruned.
    pub prunable: bool,
}

/// The mathematical value of a worktree record.
pub ghost struct WtView {
    /// The worktree directory.
    pub path: Seq<char>,
    /// The checked-out branch; empty when detached.
    pub branch: Seq<char>,
    /// The checked-out commit.
    pub commit: Seq<char>,
    /// The environment name, for branches under `agent/`.
    pub agent_name: Option<Seq<char>>,
    /// Whether the worktree is locked.
    pub locked: bool,
    /// Whether the worktree can be pruned.
    pub prunable: bool,
}

impl View for WorktreeInfo {
    type V = WtView;

    open spec fn view(&self) -> WtView {
        WtView {
            path: self.path@,
            branch: self.branch@,
            commit: self.commit@,
            agent_name: match self.agent_name {
                Some(n) => Some(n@),
                None => None,
            },
            locked: self.locked,
            prunable: self.prunable,
        }
    }
}

/// A fresh record for a path line, before any attribute line.
pub open spec fn wt_new(path: Seq<char>) -> WtView {
    WtView {
        path,
        branch: Seq::empty(),
        commit: Seq::empty(),
        agent_name: None,
        locked: false,
        prunable: false,
    }
}

/// Attach one attribute line to the current record.
pub open spec fn wt_apply(w: WtView, line: Seq<char>) -> WtView {
    if "HEAD "@.is_prefix_of(line) {
        WtView { commit: line.skip(5), ..w }
    } else if "branch "@.is_prefix_of(line) {
        let b = line.skip(7);
        WtView {
            branch: b,
            agent_name: if "agent/"@.is_prefix_of(b) {
                Some(b.skip(6))
            } else {
                None
            },
            ..w
        }
    } else if line == "locked"@ {
        WtView { locked: true, ..w }
    } else if line == "prunable"@ {
        WtView { prunable: true, ..w }
    } else {
        w
    }
}

/// The records denoted by a listing's lines, given the record currently
/// being built.
pub open spec fn wt_records(lines: Seq<Seq<char>>, cur: Option<WtView>) -> Seq<WtView>
    decreases lines.len(),
{
    if lines.len() == 0 {
        match cur {
            Some(w) => seq![w],
            None => Seq::empty(),
        }
    } else {
        let l = lines[0];
        if "worktree "@.is_prefix_of(l) {
            let fresh = wt_new(l.skip(9));
            match cur {
                Some(w) => seq![w] + wt_records(lines.skip(1), Some(fresh)),
                None => wt_records(lines.skip(1), Some(fresh)),
            }
        } else {
            match cur {
                Some(w) => wt_records(lines.skip(1), Some(wt_apply(w, l))),
                None => wt_records(lines.skip(1), None),
            }
        }
    }
}

/// Parse the machine-readable worktree listing, reproducing the grammar
/// exactly: one record per `worktree ` line, with the optional commit,
/// branch, lock and prunable attribute lines; a missing branch line leaves
/// the branch field empty (a detached worktree is not an error).
pub fn parse_worktree_list(output: &str) -> (r: Vec<WorktreeInfo>)
    ensures
        r@.map_values(|w: WorktreeInfo| w@) == wt_records(text::spec_split(output@, '\n'), None),
{
    proof {
        reveal_strlit("worktree ");
        reveal_strlit("HEAD ");
        reveal_strlit("branch ");
        reveal_strlit("agent/");
        reveal_strlit("locked");
        reveal_strlit("prunable");
    }
    let lines = text::split_lines(output);
    let ghost all = text::spec_split(output@, '\n');
    let mut out: Vec<WorktreeInfo> = Vec::new();
    let mut cur: Option<WorktreeInfo> = None;
    let n = lines.len();
    let mut i: usize = 0;
    proof {
        assert(all.skip(0) =~= all);
        assert(out@.map_values(|w: WorktreeInfo| w@) =~= Seq::<WtView>::empty());
        assert(Seq::<WtView>::empty() + wt_records(all, None) =~= wt_records(all, None));
    }
    while i < n
        invariant
            0 <= i <= n == lines@.len(),
            all == lines@.map_values(|l: String| l@),
            wt_records(all, None) == out@.map_values(|w: WorktreeInfo| w@) + wt_records(
                all.skip(i as int),
                match cur {
                    Some(w) => Some(w@),
                    None => None,
                },
            ),
        decreases n - i,
    {
        proof {
            reveal_strlit("worktree ");
            reveal_strlit("HEAD ");
            reveal_strlit("branch ");
            reveal_strlit("agent/");
            reveal_strlit("locked");
            reveal_strlit("prunable");
            assert(all.skip(i as int)[0] == all[i as int]);
            assert(all.skip(i as int).skip(1) =~= all.skip(i + 1 as int));
            assert(all[i as int] == lines@[i as int]@);
        }
        let line = lines[i].as_str();
        let llen = line.unicode_len();
        if text::has_prefix(line, "worktree ") {
            let path = text::substring(line, 9, llen);
            let fresh = WorktreeInfo {
                path,
                branch: String::new(),
                commit: String::new(),
                agent_name: None,
                locked: false,
                prunable: false,
            };
            proof {
                assert(fresh@ == wt_new(all[i as int].skip(9)));
            }
            match cur.take() {
                Some(w) => {
                    let ghost wv = w@;
                    out.push(w);
                    proof {
                        assert(out@.map_values(|x: WorktreeInfo| x@) =~= out@.drop_last()
                            .map_values(|x: WorktreeInfo| x@).push(wv));
                    }
                },
                None => {},
            }
            cur = Some(fresh);
        } else {
            match &mut cur {
                Some(w) => {
                    let ghost wv = w@;
                    if text::has_prefix(line, "HEAD ") {
                        w.commit = text::substring(line, 5, llen);
                    } else if text::has_prefix(line, "branch ") {
                        let b = text::substring(line, 7, llen);
                        if text::has_prefix(b.as_str(), "agent/") {
                            let blen = b.unicode_len();
                            w.agent_name = Some(text::substring(b.as_str(), 6, blen));
                        } else {
                            w.agent_name = None;
                        }
                        w.branch = b;
                    } else if text::str_eq(line, "locked") {
                        w.locked = true;
                    } else if text::str_eq(line, "prunable") {
                        w.prunable = true;
                    }
                    proof {
                        assert(w@ == wt_apply(wv, all[i as int]));
                    }
                },
                None => {},
            }
        }
        i += 1;
    }
    proof {
        assert(all.skip(n as int) =~= Seq::<Seq<char>>::empty());
    }
    match cur.take() {
        Some(w) => {
            let ghost wv = w@;
            out.push(w);
            proof {
                assert(out@.map_values(|x: WorktreeInfo| x@) =~= out@.drop_last().map_values(
                    |x: WorktreeInfo| x@,
                ).push(wv));
            }
        },
        None => {},
    }
    out
}

/// One branch, as reconstructed from the tool's verbose branch listing.
#[derive(Debug, Clone)]
pub struct BranchInfo {
    /// The branch name.
    pub name: String,
    /// The tracking remote, when known.
    pub remote: Option<String>,
    /// Whether the branch is checked out.
    pub current: bool,
    /// The branch's commit.
    pub commit: String,
    /// Commits ahead of upstream.
    pub ahead: usize,
    /// Commits behind upstream.
    pub behind: usize,
}

/// The names in a parsed branch listing.
pub open spec fn branch_names(branches: Seq<BranchInfo>) -> Seq<Seq<char>> {
    branches.map_values(|b: BranchInfo| b.name@)
}

/// Whether a parsed branch listing holds a branch of this name.
pub fn branch_exists(branches: &Vec<BranchInfo>, name: &str) -> (r: bool)
    ensures
        r == branch_names(branches@).contains(name@),
{
    let n = branches.len();
    let mut i: usize = 0;
    while i < n
        invariant
            0 <= i <= n == branches@.len(),
            forall|j: int| 0 <= j < i ==> (#[trigger] branches@[j].name)@ != name@,
        decreases n - i,
    {
        if text::str_eq(branches[i].name.as_str(), name) {
            proof {
                assert(branch_names(branches@)[i as int] == name@);
            }
            return true;
        }
        i += 1;
    }
    proof {
        let m = branch_names(branches@);
        if m.contains(name@) {
            let k = choose|k: int| 0 <= k < m.len() && m[k] == name@;
            assert(branches@[k].name@ != name@);
            assert(m[k] == branches@[k].name@);
        }
    }
    false
}

/// The names of every branch in a verbose listing: one line per branch, the
/// current one marked with a leading `*`, the name being the line's first
/// word after the marker. Lines with fewer than two words carry no branch.
pub open spec fn spec_branch_lines(lines: Seq<Seq<char>>) -> Seq<WtBranch>
    decreases lines.len(),
{
    if lines.len() == 0 {
        Seq::empty()
    } else {
        let toks = spec_words(lines[0]);
        let cur = toks.len() > 0 && toks[0] == "*"@;
        let rest = if cur {
            toks.skip(1)
        } else {
            toks
        };
        if rest.len() >= 2 {
            seq![WtBranch { name: rest[0], commit: rest[1], current: cur }] + spec_branch_lines(
                lines.skip(1),
            )
        } else {
            spec_branch_lines(lines.skip(1))
        }
    }
}

/// The mathematical value of one parsed branch line.
pub ghost struct WtBranch {
    /// The branch name.
    pub name: Seq<char>,
    /// The branch's commit.
    pub commit: Seq<char>,
    /// Whether the branch is checked out.
    pub current: bool,
}

/// The space-separated words of a line.
pub open spec fn spec_words(s: Seq<char>) -> Seq<Seq<char>> {
    text::spec_split(s, ' ').filter(|t: Seq<char>| t.len() > 0)
}

/// Split a line into its space-separated words.
pub fn words(s: &str) -> (r: Vec<String>)
    ensures
        r@.map_values(|t: String| t@) == spec_words(s@),
{
    let parts = text::split_char(s, ' ');
    let mut out: Vec<String> = Vec::new();
    let n = parts.len();
    let mut i: usize = 0;
    proof {
        assert(parts@.take(0).map_values(|t: String| t@) =~= Seq::<Seq<char>>::empty());
        assert(Seq::<Seq<char>>::empty().filter(|t: Seq<char>| t.len() > 0) =~= Seq::<
            Seq<char>,
        >::empty());
        assert(out@.map_values(|t: String| t@) =~= Seq::<Seq<char>>::empty());
    }
    while i < n
        invariant
            0 <= i <= n == parts@.len(),
            out@.map_values(|t: String| t@) == parts@.take(i as int).map_values(
                |t: String| t@,
            ).filter(|t: Seq<char>| t.len() > 0),
        decreases n - i,
    {
        let ghost pre = out@;
        if parts[i].as_str().unicode_len() > 0 {
            out.push(parts[i].clone());
        }
        proof {
            let m0 = parts@.take(i as int).map_values(|t: String| t@);
            let m1 = parts@.take(i + 1 as int).map_values(|t: String| t@);
            assert(parts@.take(i + 1 as int) =~= parts@.take(i as int).push(parts@[i as int]));
            assert(m1 =~= m0.push(parts@[i as int]@));
            reveal_with_fuel(Seq::filter, 2);
            assert(m1.drop_last() == m0);
            if parts@[i as int]@.len() > 0 {
                assert(out@.map_values(|t: String| t@) =~= pre.map_values(|t: String| t@).push(
                    parts@[i as int]@,
                ));
            }
        }
        i += 1;
    }
    proof {
        assert(parts@.take(n as int) =~= parts@);
    }
    out
}

/// Parse the verbose branch listing: one branch per line holding at least a
/// name and a commit, the current branch marked with `*`.
pub fn parse_branch_list(output: &str) -> (r: Vec<BranchInfo>)
    ensures
        r@.len() == spec_branch_lines(text::spec_split(output@, '\n')).len(),
        forall|j: int|
            0 <= j < r@.len() ==> {
                let b = spec_branch_lines(text::spec_split(output@, '\n'))[j];
                (#[trigger] r@[j]).name@ == b.name && r@[j].commit@ == b.commit && r@[j].current
                    == b.current && r@[j].remote is None && r@[j].ahead == 0 && r@[j].behind == 0
            },
{
    proof {
        reveal_strlit("*");
    }
    let lines = text::split_lines(output);
    let ghost all = text::spec_split(output@, '\n');
    let mut out: Vec<BranchInfo> = Vec::new();
    let n = lines.len();
    let mut i: usize = 0;
    proof {
        assert(all.skip(0) =~= all);
    }
    while i < n
        invariant
            0 <= i <= n == lines@.len(),
            all == lines@.map_values(|l: String| l@),
            spec_branch_lines(all).len() == out@.len() + spec_branch_lines(
                all.skip(i as int),
            ).len(),
            forall|j: int|
                0 <= j < out@.len() ==> {
                    let b = spec_branch_lines(all)[j];
                    (#[trigger] out@[j]).name@ == b.name && out@[j].commit@ == b.commit
                        && out@[j].current == b.current && out@[j].remote is None && out@[j].ahead
                        == 0 && out@[j].behind == 0
                },
            spec_branch_lines(all) == spec_branch_lines(all).take(out@.len() as int)
                + spec_branch_lines(all.skip(i as int)),
        decreases n - i,
    {
        proof {
            reveal_strlit("*");
            assert(all.skip(i as int)[0] == all[i as int]);
            assert(all.skip(i as int).skip(1) =~= all.skip(i + 1 as int));
            assert(all[i as int] == lines@[i as int]@);
        }
        let toks = words(lines[i].as_str());
        let cur = toks.len() > 0 && text::str_eq(toks[0].as_str(), "*");
        let start: usize = if cur {
            1
        } else {
            0
        };
        proof {
            let sw = spec_words(all[i as int]);
            if cur {
                assert(sw.skip(1) =~= toks@.map_values(|t: String| t@).skip(1));
            }
        }
        if toks.len() >= start + 2 {
            let b = BranchInfo {
                name: toks[start].clone(),
                remote: None,
                current: cur,
                commit: toks[start + 1].clone(),
                ahead: 0,
                behind: 0,
            };
            let ghost before = out@;
            out.push(b);
            proof {
                let sb = spec_branch_lines(all);
                let srest = spec_branch_lines(all.skip(i as int));
                let srest1 = spec_branch_lines(all.skip(i + 1 as int));
                assert(srest == seq![srest[0]] + srest1);
                assert(sb == sb.take(before.len() as int) + srest);
                assert(sb[before.len() as int] == srest[0]);
                assert(sb.take(out@.len() as int) =~= sb.take(before.len() as int).push(
                    srest[0],
                ));
                assert(sb =~= sb.take(out@.len() as int) + srest1);
            }
        }
        i += 1;
    }
    proof {
        assert(all.skip(n as int) =~= Seq::<Seq<char>>::empty());
        assert(spec_branch_lines(all).take(out@.len() as int) =~= spec_branch_lines(all));
    }
    out
}

} // verus!

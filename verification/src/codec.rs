//! The registry document: rendering the catalog as a canonical JSON-shaped
//! document and parsing it back. Reloading what was rendered restores the
//! catalog exactly: the round trip is proved below.
//!
//! The canonical form carries no whitespace. Strings escape the quote, the
//! backslash, and the newline, carriage-return and tab characters; all
//! other characters stand for themselves.

use vstd::prelude::*;
use crate::types::{AgentEnvironment, EnvironmentStatus, SymlinkInfo};
use crate::registry::EnvironmentRegistry;
use crate::text;

verus! {

/// The mathematical value of a link record in the document.
pub ghost struct LinkDoc {
    pub source: Seq<char>,
    pub target: Seq<char>,
    pub is_valid: bool,
    pub error_message: Option<Seq<char>>,
}

/// The mathematical value of an environment's lifecycle state.
pub ghost enum StatusDoc {
    Active,
    Inactive,
    Creating,
    Removing,
    Error(Seq<char>),
}

/// The mathematical value of an environment record in the document.
pub ghost struct EnvDoc {
    pub name: Seq<char>,
    pub branch: Seq<char>,
    pub worktree_path: Seq<char>,
    pub symlinks: Seq<LinkDoc>,
    pub status: StatusDoc,
    pub created_at: int,
    pub updated_at: int,
    pub config_path: Option<Seq<char>>,
}

/// The mathematical value of the whole registry document.
pub ghost struct RegDoc {
    pub environments: Seq<EnvDoc>,
    pub active: Option<Seq<char>>,
    pub last_updated: Option<int>,
}

/// The document value of a link record.
pub open spec fn link_doc(l: SymlinkInfo) -> LinkDoc {
    LinkDoc {
        source: l.source@,
        target: l.target@,
        is_valid: l.is_valid,
        error_message: match l.error_message {
            Some(m) => Some(m@),
            None => None,
        },
    }
}

/// The document value of a lifecycle state.
pub open spec fn status_doc(s: EnvironmentStatus) -> StatusDoc {
    match s {
        EnvironmentStatus::Active => StatusDoc::Active,
        EnvironmentStatus::Inactive => StatusDoc::Inactive,
        EnvironmentStatus::Creating => StatusDoc::Creating,
        EnvironmentStatus::Removing => StatusDoc::Removing,
        EnvironmentStatus::Error(m) => StatusDoc::Error(m@),
    }
}

/// The document value of an environment record.
pub open spec fn env_doc(e: AgentEnvironment) -> EnvDoc {
    EnvDoc {
        name: e.name@,
        branch: e.branch@,
        worktree_path: e.worktree_path@,
        symlinks: e.symlinks@.map_values(|l: SymlinkInfo| link_doc(l)),
        status: status_doc(e.status),
        created_at: e.created_at as int,
        updated_at: e.updated_at as int,
        config_path: match e.config_path {
            Some(p) => Some(p@),
            None => None,
        },
    }
}

/// The document value of the registry.
pub open spec fn reg_doc(r: EnvironmentRegistry) -> RegDoc {
    RegDoc {
        environments: r.environments@.map_values(|e: AgentEnvironment| env_doc(e)),
        active: match r.active {
            Some(a) => Some(a@),
            None => None,
        },
        last_updated: match r.last_updated {
            Some(t) => Some(t as int),
            None => None,
        },
    }
}

/// A document value that fits the registry's machine types.
pub open spec fn doc_wf(d: RegDoc) -> bool {
    &&& forall|i: int|
        0 <= i < d.environments.len() ==> 0 <= (#[trigger] d.environments[i]).created_at
            <= u64::MAX && 0 <= d.environments[i].updated_at <= u64::MAX
    &&& match d.last_updated {
        Some(t) => 0 <= t <= u64::MAX,
        None => true,
    }
}

/// The escape of one character.
pub open spec fn esc_char(c: char) -> Seq<char> {
    if c == '"' {
        seq!['\\', '"']
    } else if c == '\\' {
        seq!['\\', '\\']
    } else if c == '\n' {
        seq!['\\', 'n']
    } else if c == '\r' {
        seq!['\\', 'r']
    } else if c == '\t' {
        seq!['\\', 't']
    } else {
        seq![c]
    }
}

/// The escaped body of a string.
pub open spec fn esc(s: Seq<char>) -> Seq<char>
    decreases s.len(),
{
    if s.len() == 0 {
        Seq::empty()
    } else {
        esc_char(s[0]) + esc(s.skip(1))
    }
}

/// A rendered string: a quote, the escaped body, a quote.
pub open spec fn render_string(s: Seq<char>) -> Seq<char> {
    seq!['"'] + esc(s) + seq!['"']
}

/// A rendered optional string: `null`, or the string.
pub open spec fn render_opt_string(s: Option<Seq<char>>) -> Seq<char> {
    match s {
        Some(v) => render_string(v),
        None => "null"@,
    }
}

/// A rendered boolean.
pub open spec fn render_bool(b: bool) -> Seq<char> {
    if b {
        "true"@
    } else {
        "false"@
    }
}

/// A rendered optional number: `null`, or the decimal digits.
pub open spec fn render_opt_u64(t: Option<int>) -> Seq<char> {
    match t {
        Some(v) => text::spec_dec(v),
        None => "null"@,
    }
}

/// A rendered lifecycle state.
pub open spec fn render_status(s: StatusDoc) -> Seq<char> {
    match s {
        StatusDoc::Active => render_string("active"@),
        StatusDoc::Inactive => render_string("inactive"@),
        StatusDoc::Creating => render_string("creating"@),
        StatusDoc::Removing => render_string("removing"@),
        StatusDoc::Error(m) => "{\"error\":"@ + render_string(m) + "}"@,
    }
}

/// A rendered link record.
pub open spec fn render_link(l: LinkDoc) -> Seq<char> {
    "{\"source\":"@ + render_string(l.source) + ",\"target\":"@ + render_string(l.target)
        + ",\"is_valid\":"@ + render_bool(l.is_valid) + ",\"error_message\":"@ + render_opt_string(
        l.error_message,
    ) + "}"@
}

/// The comma-separated items of a link array.
pub open spec fn render_link_items(ls: Seq<LinkDoc>) -> Seq<char>
    decreases ls.len(),
{
    if ls.len() == 0 {
        Seq::empty()
    } else if ls.len() == 1 {
        render_link(ls[0])
    } else {
        render_link(ls[0]) + seq![','] + render_link_items(ls.skip(1))
    }
}

/// A rendered link array.
pub open spec fn render_links(ls: Seq<LinkDoc>) -> Seq<char> {
    seq!['['] + render_link_items(ls) + seq![']']
}

/// A rendered environment record.
#[verifier::opaque]
pub open spec fn render_env(e: EnvDoc) -> Seq<char> {
    "{\"name\":"@ + render_string(e.name) + ",\"branch\":"@ + render_string(e.branch)
        + ",\"worktree_path\":"@ + render_string(e.worktree_path) + ",\"symlinks\":"@
        + render_links(e.symlinks) + ",\"status\":"@ + render_status(e.status) + ",\"created_at\":"@
        + text::spec_dec(e.created_at) + ",\"updated_at\":"@ + text::spec_dec(e.updated_at)
        + ",\"config_path\":"@ + render_opt_string(e.config_path) + "}"@
}

/// The comma-separated members of the environments object, each keyed by
/// the environment's name.
pub open spec fn render_env_items(es: Seq<EnvDoc>) -> Seq<char>
    decreases es.len(),
{
    if es.len() == 0 {
        Seq::empty()
    } else if es.len() == 1 {
        render_string(es[0].name) + seq![':'] + render_env(es[0])
    } else {
        render_string(es[0].name) + seq![':'] + render_env(es[0]) + seq![','] + render_env_items(
            es.skip(1),
        )
    }
}

/// The rendered environments object.
pub open spec fn render_envs(es: Seq<EnvDoc>) -> Seq<char> {
    seq!['{'] + render_env_items(es) + seq!['}']
}

/// The rendered registry document.
pub open spec fn spec_render_registry(d: RegDoc) -> Seq<char> {
    "{\"environments\":"@ + render_envs(d.environments) + ",\"active\":"@ + render_opt_string(
        d.active,
    ) + ",\"last_updated\":"@ + render_opt_u64(d.last_updated) + "}"@
}

} // verus!

verus! {

/// Escape the characters of `s` from position `pos` on.
fn esc_str(s: &str, pos: usize) -> (r: String)
    requires
        pos <= s@.len(),
    ensures
        r@ == esc(s@.skip(pos as int)),
    decreases s@.len() - pos,
{
    let n = s.unicode_len();
    if pos == n {
        proof {
            assert(s@.skip(pos as int) =~= Seq::<char>::empty());
        }
        String::new()
    } else {
        let c = s.get_char(pos);
        let mut head = String::new();
        if c == '"' {
            head.push('\\');
            head.push('"');
        } else if c == '\\' {
            head.push('\\');
            head.push('\\');
        } else if c == '\n' {
            head.push('\\');
            head.push('n');
        } else if c == '\r' {
            head.push('\\');
            head.push('r');
        } else if c == '\t' {
            head.push('\\');
            head.push('t');
        } else {
            head.push(c);
        }
        let tail = esc_str(s, pos + 1);
        proof {
            assert(head@ =~= esc_char(s@[pos as int]));
            assert(s@.skip(pos as int)[0] == s@[pos as int]);
            assert(s@.skip(pos as int).skip(1) =~= s@.skip(pos + 1 as int));
        }
        text::concat2(head.as_str(), tail.as_str())
    }
}

/// Render a string with its quotes.
fn render_string_exec(s: &str) -> (r: String)
    ensures
        r@ == render_string(s@),
{
    proof {
        reveal_strlit("\"");
        assert("\""@ =~= seq!['"']);
        assert(s@.skip(0) =~= s@);
    }
    let body = esc_str(s, 0);
    text::concat3("\"", body.as_str(), "\"")
}

/// Render an optional string.
fn render_opt_string_exec(s: &Option<String>) -> (r: String)
    ensures
        r@ == render_opt_string(
            match s {
                Some(v) => Some(v@),
                None => None,
            },
        ),
{
    match s {
        Some(v) => render_string_exec(v.as_str()),
        None => text::str_to_string("null"),
    }
}

/// Render a boolean.
fn render_bool_exec(b: bool) -> (r: String)
    ensures
        r@ == render_bool(b),
{
    if b {
        text::str_to_string("true")
    } else {
        text::str_to_string("false")
    }
}

/// Render a link record.
fn render_link_exec(l: &SymlinkInfo) -> (r: String)
    ensures
        r@ == render_link(link_doc(*l)),
{
    let mut out = text::str_to_string("{\"source\":");
    out.append(render_string_exec(l.source.as_str()).as_str());
    out.append(",\"target\":");
    out.append(render_string_exec(l.target.as_str()).as_str());
    out.append(",\"is_valid\":");
    out.append(render_bool_exec(l.is_valid).as_str());
    out.append(",\"error_message\":");
    out.append(render_opt_string_exec(&l.error_message).as_str());
    out.append("}");
    out
}

/// Render the comma-separated items of a link array, from index `i` on.
fn render_link_items_exec(v: &Vec<SymlinkInfo>, i: usize) -> (r: String)
    requires
        i <= v@.len(),
    ensures
        r@ == render_link_items(v@.skip(i as int).map_values(|l: SymlinkInfo| link_doc(l))),
    decreases v@.len() - i,
{
    let ghost docs = v@.skip(i as int).map_values(|l: SymlinkInfo| link_doc(l));
    let n = v.len();
    if i == n {
        proof {
            assert(docs =~= Seq::<LinkDoc>::empty());
        }
        String::new()
    } else if i + 1 == n {
        let r = render_link_exec(&v[i]);
        proof {
            assert(docs.len() == 1);
            assert(docs[0] == link_doc(v@[i as int]));
        }
        r
    } else {
        let head = render_link_exec(&v[i]);
        let tail = render_link_items_exec(v, i + 1);
        proof {
            assert(docs[0] == link_doc(v@[i as int]));
            assert(docs.skip(1) =~= v@.skip(i + 1 as int).map_values(
                |l: SymlinkInfo| link_doc(l),
            ));
            reveal_strlit(",");
            assert(","@ =~= seq![',']);
        }
        let mid = text::concat2(head.as_str(), ",");
        text::concat2(mid.as_str(), tail.as_str())
    }
}

/// Render a link array.
fn render_links_exec(v: &Vec<SymlinkInfo>) -> (r: String)
    ensures
        r@ == render_links(v@.map_values(|l: SymlinkInfo| link_doc(l))),
{
    proof {
        reveal_strlit("[");
        reveal_strlit("]");
        assert("["@ =~= seq!['[']);
        assert("]"@ =~= seq![']']);
        assert(v@.skip(0) =~= v@);
    }
    let body = render_link_items_exec(v, 0);
    text::concat3("[", body.as_str(), "]")
}

/// Render a lifecycle state.
fn render_status_exec(s: &EnvironmentStatus) -> (r: String)
    ensures
        r@ == render_status(status_doc(*s)),
{
    proof {
        reveal_strlit("active");
        reveal_strlit("inactive");
        reveal_strlit("creating");
        reveal_strlit("removing");
    }
    match s {
        EnvironmentStatus::Active => render_string_exec("active"),
        EnvironmentStatus::Inactive => render_string_exec("inactive"),
        EnvironmentStatus::Creating => render_string_exec("creating"),
        EnvironmentStatus::Removing => render_string_exec("removing"),
        EnvironmentStatus::Error(m) => {
            let mut out = text::str_to_string("{\"error\":");
            out.append(render_string_exec(m.as_str()).as_str());
            out.append("}");
            out
        },
    }
}

/// Render one environment record.
fn render_env_exec(e: &AgentEnvironment) -> (r: String)
    ensures
        r@ == render_env(env_doc(*e)),
{
    proof {
        reveal(render_env);
    }
    let mut out = text::str_to_string("{\"name\":");
    out.append(render_string_exec(e.name.as_str()).as_str());
    out.append(",\"branch\":");
    out.append(render_string_exec(e.branch.as_str()).as_str());
    out.append(",\"worktree_path\":");
    out.append(render_string_exec(e.worktree_path.as_str()).as_str());
    out.append(",\"symlinks\":");
    out.append(render_links_exec(&e.symlinks).as_str());
    out.append(",\"status\":");
    out.append(render_status_exec(&e.status).as_str());
    out.append(",\"created_at\":");
    out.append(text::u64_to_string(e.created_at).as_str());
    out.append(",\"updated_at\":");
    out.append(text::u64_to_string(e.updated_at).as_str());
    out.append(",\"config_path\":");
    out.append(render_opt_string_exec(&e.config_path).as_str());
    out.append("}");
    out
}

/// Render the members of the environments object, from index `i` on.
fn render_env_items_exec(v: &Vec<AgentEnvironment>, i: usize) -> (r: String)
    requires
        i <= v@.len(),
    ensures
        r@ == render_env_items(v@.skip(i as int).map_values(|e: AgentEnvironment| env_doc(e))),
    decreases v@.len() - i,
{
    let ghost docs = v@.skip(i as int).map_values(|e: AgentEnvironment| env_doc(e));
    let n = v.len();
    if i == n {
        proof {
            assert(docs =~= Seq::<EnvDoc>::empty());
        }
        String::new()
    } else {
        let key = render_string_exec(v[i].name.as_str());
        let val = render_env_exec(&v[i]);
        proof {
            reveal_strlit(":");
            reveal_strlit(",");
            assert(":"@ =~= seq![':']);
            assert(","@ =~= seq![',']);
            assert(docs[0] == env_doc(v@[i as int]));
        }
        let mut out = key;
        out.append(":");
        out.append(val.as_str());
        if i + 1 == n {
            proof {
                assert(docs.len() == 1);
            }
            out
        } else {
            let tail = render_env_items_exec(v, i + 1);
            proof {
                assert(docs.skip(1) =~= v@.skip(i + 1 as int).map_values(
                    |e: AgentEnvironment| env_doc(e),
                ));
            }
            out.append(",");
            out.append(tail.as_str());
            out
        }
    }
}

/// Render the registry as its canonical document.
pub fn render_registry(r: &EnvironmentRegistry) -> (out: String)
    ensures
        out@ == spec_render_registry(reg_doc(*r)),
{
    proof {
        reveal_strlit("{");
        reveal_strlit("}");
        assert("{"@ =~= seq!['{']);
        assert("}"@ =~= seq!['}']);
        assert(r.environments@.skip(0) =~= r.environments@);
    }
    let mut out = text::str_to_string("{\"environments\":");
    out.append("{");
    out.append(render_env_items_exec(&r.environments, 0).as_str());
    out.append("}");
    out.append(",\"active\":");
    out.append(render_opt_string_exec(&r.active).as_str());
    out.append(",\"last_updated\":");
    match &r.last_updated {
        Some(t) => {
            out.append(text::u64_to_string(*t).as_str());
        },
        None => {
            out.append("null");
        },
    }
    out.append("}");
    out
}

} // verus!

verus! {

/// Consume an expected literal.
pub open spec fn p_lit(s: Seq<char>, lit: Seq<char>) -> Option<Seq<char>> {
    if lit.is_prefix_of(s) {
        Some(s.skip(lit.len() as int))
    } else {
        None
    }
}

/// The unescaped character behind a backslash.
pub open spec fn unesc(c: char) -> Option<char> {
    if c == '"' {
        Some('"')
    } else if c == '\\' {
        Some('\\')
    } else if c == 'n' {
        Some('\n')
    } else if c == 'r' {
        Some('\r')
    } else if c == 't' {
        Some('\t')
    } else {
        None
    }
}

/// Consume a string body up to its closing quote.
pub open spec fn p_str_body(s: Seq<char>) -> Option<(Seq<char>, Seq<char>)>
    decreases s.len(),
{
    if s.len() == 0 {
        None
    } else if s[0] == '"' {
        Some((Seq::empty(), s.skip(1)))
    } else if s[0] == '\\' {
        if s.len() < 2 {
            None
        } else {
            match unesc(s[1]) {
                None => None,
                Some(c) => match p_str_body(s.skip(2)) {
                    None => None,
                    Some(p) => Some((seq![c] + p.0, p.1)),
                },
            }
        }
    } else {
        match p_str_body(s.skip(1)) {
            None => None,
            Some(p) => Some((seq![s[0]] + p.0, p.1)),
        }
    }
}

/// Consume a quoted string.
pub open spec fn p_string(s: Seq<char>) -> Option<(Seq<char>, Seq<char>)> {
    if s.len() == 0 || s[0] != '"' {
        None
    } else {
        p_str_body(s.skip(1))
    }
}

/// Consume `null` or a quoted string.
pub open spec fn p_opt_string(s: Seq<char>) -> Option<(Option<Seq<char>>, Seq<char>)> {
    if "null"@.is_prefix_of(s) {
        Some((None, s.skip(4)))
    } else {
        match p_string(s) {
            None => None,
            Some(p) => Some((Some(p.0), p.1)),
        }
    }
}

/// Consume a boolean literal.
pub open spec fn p_bool(s: Seq<char>) -> Option<(bool, Seq<char>)> {
    if "true"@.is_prefix_of(s) {
        Some((true, s.skip(4)))
    } else if "false"@.is_prefix_of(s) {
        Some((false, s.skip(5)))
    } else {
        None
    }
}

/// Whether a character is a decimal digit.
pub open spec fn is_digit(c: char) -> bool {
    48 <= c as u32 <= 57
}

/// A digit character's value.
pub open spec fn dv(c: char) -> int {
    c as u32 - 48
}

/// Accumulate digits left to right.
pub open spec fn p_num_go(s: Seq<char>, acc: int) -> (int, Seq<char>)
    decreases s.len(),
{
    if s.len() == 0 || !is_digit(s[0]) {
        (acc, s)
    } else {
        p_num_go(s.skip(1), acc * 10 + dv(s[0]))
    }
}

/// Consume an unsigned number that fits the timestamp fields.
pub open spec fn p_num(s: Seq<char>) -> Option<(int, Seq<char>)> {
    if s.len() == 0 || !is_digit(s[0]) {
        None
    } else {
        let r = p_num_go(s, 0);
        if r.0 > u64::MAX {
            None
        } else {
            Some(r)
        }
    }
}

/// Consume `null` or a number.
pub open spec fn p_opt_num(s: Seq<char>) -> Option<(Option<int>, Seq<char>)> {
    if "null"@.is_prefix_of(s) {
        Some((None, s.skip(4)))
    } else {
        match p_num(s) {
            None => None,
            Some(p) => Some((Some(p.0), p.1)),
        }
    }
}

/// Consume a lifecycle state.
pub open spec fn p_status(s: Seq<char>) -> Option<(StatusDoc, Seq<char>)> {
    if s.len() == 0 {
        None
    } else if s[0] == '"' {
        match p_string(s) {
            None => None,
            Some(p) => {
                if p.0 == "active"@ {
                    Some((StatusDoc::Active, p.1))
                } else if p.0 == "inactive"@ {
                    Some((StatusDoc::Inactive, p.1))
                } else if p.0 == "creating"@ {
                    Some((StatusDoc::Creating, p.1))
                } else if p.0 == "removing"@ {
                    Some((StatusDoc::Removing, p.1))
                } else {
                    None
                }
            },
        }
    } else if s[0] == '{' {
        match p_lit(s, "{\"error\":"@) {
            None => None,
            Some(s1) => match p_string(s1) {
                None => None,
                Some(p) => match p_lit(p.1, "}"@) {
                    None => None,
                    Some(s2) => Some((StatusDoc::Error(p.0), s2)),
                },
            },
        }
    } else {
        None
    }
}

/// Consume one link record.
pub open spec fn p_link(s: Seq<char>) -> Option<(LinkDoc, Seq<char>)> {
    match p_lit(s, "{\"source\":"@) {
        None => None,
        Some(s1) => match p_string(s1) {
            None => None,
            Some(src) => match p_lit(src.1, ",\"target\":"@) {
                None => None,
                Some(s2) => match p_string(s2) {
                    None => None,
                    Some(tgt) => match p_lit(tgt.1, ",\"is_valid\":"@) {
                        None => None,
                        Some(s3) => match p_bool(s3) {
                            None => None,
                            Some(iv) => match p_lit(iv.1, ",\"error_message\":"@) {
                                None => None,
                                Some(s4) => match p_opt_string(s4) {
                                    None => None,
                                    Some(em) => match p_lit(em.1, "}"@) {
                                        None => None,
                                        Some(s5) => Some(
                                            (
                                                LinkDoc {
                                                    source: src.0,
                                                    target: tgt.0,
                                                    is_valid: iv.0,
                                                    error_message: em.0,
                                                },
                                                s5,
                                            ),
                                        ),
                                    },
                                },
                            },
                        },
                    },
                },
            },
        },
    }
}

/// Consume the items of a link array after its opening bracket, the first
/// item already due.
pub open spec fn p_link_items(s: Seq<char>, fuel: nat) -> Option<(Seq<LinkDoc>, Seq<char>)>
    decreases fuel,
{
    if fuel == 0 {
        None
    } else {
        match p_link(s) {
            None => None,
            Some(l) => {
                if l.1.len() > 0 && l.1[0] == ',' {
                    match p_link_items(l.1.skip(1), (fuel - 1) as nat) {
                        None => None,
                        Some(rest) => Some((seq![l.0] + rest.0, rest.1)),
                    }
                } else if l.1.len() > 0 && l.1[0] == ']' {
                    Some((seq![l.0], l.1.skip(1)))
                } else {
                    None
                }
            },
        }
    }
}

/// Consume a link array.
pub open spec fn p_links(s: Seq<char>, fuel: nat) -> Option<(Seq<LinkDoc>, Seq<char>)> {
    if s.len() == 0 || s[0] != '[' {
        None
    } else if s.len() >= 2 && s[1] == ']' {
        Some((Seq::empty(), s.skip(2)))
    } else {
        p_link_items(s.skip(1), fuel)
    }
}

/// Consume an environment record's name, branch and worktree path, up to
/// and including the symlinks key.
pub open spec fn p_env_head(s: Seq<char>) -> Option<((Seq<char>, Seq<char>, Seq<char>), Seq<char>)> {
    match p_lit(s, "{\"name\":"@) {
        None => None,
        Some(s1) => match p_string(s1) {
            None => None,
            Some(nm) => match p_lit(nm.1, ",\"branch\":"@) {
                None => None,
                Some(s2) => match p_string(s2) {
                    None => None,
                    Some(br) => match p_lit(br.1, ",\"worktree_path\":"@) {
                        None => None,
                        Some(s3) => match p_string(s3) {
                            None => None,
                            Some(wp) => match p_lit(wp.1, ",\"symlinks\":"@) {
                                None => None,
                                Some(s4) => Some(((nm.0, br.0, wp.0), s4)),
                            },
                        },
                    },
                },
            },
        },
    }
}

/// Consume an environment record's links, status, stamps and source path,
/// up to and including the closing brace.
pub open spec fn p_env_tail(s: Seq<char>, fuel: nat) -> Option<
    ((Seq<LinkDoc>, StatusDoc, int, int, Option<Seq<char>>), Seq<char>),
> {
    match p_links(s, fuel) {
        None => None,
        Some(ls) => match p_lit(ls.1, ",\"status\":"@) {
            None => None,
            Some(s5) => match p_status(s5) {
                None => None,
                Some(st) => match p_lit(st.1, ",\"created_at\":"@) {
                    None => None,
                    Some(s6) => match p_num(s6) {
                        None => None,
                        Some(ca) => match p_lit(ca.1, ",\"updated_at\":"@) {
                            None => None,
                            Some(s7) => match p_num(s7) {
                                None => None,
                                Some(ua) => match p_lit(ua.1, ",\"config_path\":"@) {
                                    None => None,
                                    Some(s8) => match p_opt_string(s8) {
                                        None => None,
                                        Some(cp) => match p_lit(cp.1, "}"@) {
                                            None => None,
                                            Some(s9) => Some(
                                                ((ls.0, st.0, ca.0, ua.0, cp.0), s9),
                                            ),
                                        },
                                    },
                                },
                            },
                        },
                    },
                },
            },
        },
    }
}

/// Consume one environment record.
pub open spec fn p_env(s: Seq<char>, fuel: nat) -> Option<(EnvDoc, Seq<char>)> {
    match p_env_head(s) {
        None => None,
        Some(h) => match p_env_tail(h.1, fuel) {
            None => None,
            Some(t) => Some(
                (
                    EnvDoc {
                        name: h.0.0,
                        branch: h.0.1,
                        worktree_path: h.0.2,
                        symlinks: t.0.0,
                        status: t.0.1,
                        created_at: t.0.2,
                        updated_at: t.0.3,
                        config_path: t.0.4,
                    },
                    t.1,
                ),
            ),
        },
    }
}

/// Consume the members of the environments object after its opening brace,
/// the first member already due. Each member's key is the environment's
/// name; the record's own name field is authoritative.
pub open spec fn p_env_items(s: Seq<char>, fuel: nat) -> Option<(Seq<EnvDoc>, Seq<char>)>
    decreases fuel,
{
    if fuel == 0 {
        None
    } else {
        match p_string(s) {
            None => None,
            Some(key) => match p_lit(key.1, ":"@) {
                None => None,
                Some(s1) => match p_env(s1, fuel) {
                    None => None,
                    Some(e) => {
                        if e.1.len() > 0 && e.1[0] == ',' {
                            match p_env_items(e.1.skip(1), (fuel - 1) as nat) {
                                None => None,
                                Some(rest) => Some((seq![e.0] + rest.0, rest.1)),
                            }
                        } else if e.1.len() > 0 && e.1[0] == '}' {
                            Some((seq![e.0], e.1.skip(1)))
                        } else {
                            None
                        }
                    },
                },
            },
        }
    }
}

/// Consume the environments object.
pub open spec fn p_envs(s: Seq<char>, fuel: nat) -> Option<(Seq<EnvDoc>, Seq<char>)> {
    if s.len() == 0 || s[0] != '{' {
        None
    } else if s.len() >= 2 && s[1] == '}' {
        Some((Seq::empty(), s.skip(2)))
    } else {
        p_env_items(s.skip(1), fuel)
    }
}

/// Parse the whole registry document; the document must be consumed
/// entirely.
pub open spec fn spec_parse_registry(s: Seq<char>) -> Option<RegDoc> {
    match p_lit(s, "{\"environments\":"@) {
        None => None,
        Some(s1) => match p_envs(s1, s1.len() as nat) {
            None => None,
            Some(es) => match p_lit(es.1, ",\"active\":"@) {
                None => None,
                Some(s2) => match p_opt_string(s2) {
                    None => None,
                    Some(a) => match p_lit(a.1, ",\"last_updated\":"@) {
                        None => None,
                        Some(s3) => match p_opt_num(s3) {
                            None => None,
                            Some(t) => match p_lit(t.1, "}"@) {
                                None => None,
                                Some(s4) => {
                                    if s4.len() == 0 {
                                        Some(
                                            RegDoc {
                                                environments: es.0,
                                                active: a.0,
                                                last_updated: t.0,
                                            },
                                        )
                                    } else {
                                        None
                                    }
                                },
                            },
                        },
                    },
                },
            },
        },
    }
}

} // verus!

verus! {

/// A literal consumes exactly itself.
proof fn lemma_p_lit(l: Seq<char>, rest: Seq<char>)
    ensures
        p_lit(l + rest, l) == Some(rest),
{
    let s = l + rest;
    assert(l =~= s.subrange(0, l.len() as int));
    assert(s.skip(l.len() as int) =~= rest);
}

/// A string body parses back to the characters it escaped.
proof fn lemma_str_body(v: Seq<char>, rest: Seq<char>)
    ensures
        p_str_body(esc(v) + seq!['"'] + rest) == Some((v, rest)),
    decreases v.len(),
{
    let s = esc(v) + seq!['"'] + rest;
    if v.len() == 0 {
        assert(s =~= seq!['"'] + rest);
        assert(s[0] == '"');
        assert(s.skip(1) =~= rest);
    } else {
        let c = v[0];
        let tail = esc(v.skip(1)) + seq!['"'] + rest;
        lemma_str_body(v.skip(1), rest);
        if c == '"' || c == '\\' || c == '\n' || c == '\r' || c == '\t' {
            assert(esc_char(c).len() == 2);
            assert(s =~= esc_char(c) + tail);
            assert(s[0] == '\\');
            assert(s[1] == esc_char(c)[1]);
            assert(unesc(esc_char(c)[1]) == Some(c));
            assert(s.skip(2) =~= tail);
            assert(seq![c] + v.skip(1) =~= v);
        } else {
            assert(esc_char(c) =~= seq![c]);
            assert(s =~= seq![c] + tail);
            assert(s[0] == c);
            assert(s.skip(1) =~= tail);
            assert(seq![c] + v.skip(1) =~= v);
        }
    }
}

/// A rendered string parses back to its value.
proof fn lemma_string(v: Seq<char>, rest: Seq<char>)
    ensures
        p_string(render_string(v) + rest) == Some((v, rest)),
{
    let s = render_string(v) + rest;
    assert(s[0] == '"');
    assert(s.skip(1) =~= esc(v) + seq!['"'] + rest);
    lemma_str_body(v, rest);
}

/// A rendered optional string parses back to its value.
proof fn lemma_opt_string(o: Option<Seq<char>>, rest: Seq<char>)
    ensures
        p_opt_string(render_opt_string(o) + rest) == Some((o, rest)),
{
    reveal_strlit("null");
    let s = render_opt_string(o) + rest;
    match o {
        None => {
            assert("null"@ =~= s.subrange(0, 4));
            assert(s.skip(4) =~= rest);
        },
        Some(v) => {
            assert(s[0] == '"');
            if "null"@.is_prefix_of(s) {
                assert(s.subrange(0, 4)[0] == 'n');
                assert(false);
            }
            lemma_string(v, rest);
        },
    }
}

/// A rendered boolean parses back to its value.
proof fn lemma_bool(b: bool, rest: Seq<char>)
    ensures
        p_bool(render_bool(b) + rest) == Some((b, rest)),
{
    reveal_strlit("true");
    reveal_strlit("false");
    let s = render_bool(b) + rest;
    if b {
        assert("true"@ =~= s.subrange(0, 4));
        assert(s.skip(4) =~= rest);
    } else {
        if "true"@.is_prefix_of(s) {
            assert(s.subrange(0, 4)[0] == 't');
            assert(s[0] == 'f');
            assert(false);
        }
        assert("false"@ =~= s.subrange(0, 5));
        assert(s.skip(5) =~= rest);
    }
}

/// Ten to the power of the decimal length of `n`.
pub open spec fn pow_len(n: int) -> int
    decreases n,
{
    if n < 10 {
        10
    } else {
        10 * pow_len(n / 10)
    }
}

/// Every character of a decimal rendering is a digit, standing for its
/// value.
proof fn lemma_dec_digits(n: int)
    requires
        n >= 0,
    ensures
        forall|i: int|
            0 <= i < text::spec_dec(n).len() ==> is_digit(#[trigger] text::spec_dec(n)[i]),
        text::spec_dec(n).len() > 0,
    decreases n,
{
    if n < 10 {
        assert(text::spec_dec(n)[0] == text::dec_digit(n));
        assert((text::dec_digit(n)) as u32 == n + 48);
        assert(is_digit(text::spec_dec(n)[0]));
    } else {
        lemma_dec_digits(n / 10);
        let d = text::dec_digit(n % 10);
        assert(d as u32 == (n % 10) + 48);
        assert forall|i: int|
            0 <= i < text::spec_dec(n).len() implies is_digit(
            #[trigger] text::spec_dec(n)[i],
        ) by {
            if i < text::spec_dec(n / 10).len() {
                assert(text::spec_dec(n)[i] == text::spec_dec(n / 10)[i]);
            } else {
                assert(text::spec_dec(n)[i] == d);
            }
        }
    }
}

/// Accumulating over a decimal rendering multiplies the accumulator by the
/// rendering's power of ten and adds the value.
proof fn lemma_go_dec(n: int, rest: Seq<char>, acc: int)
    requires
        n >= 0,
        acc >= 0,
    ensures
        p_num_go(text::spec_dec(n) + rest, acc) == p_num_go(rest, acc * pow_len(n) + n),
    decreases n,
{
    lemma_dec_digits(n);
    let s = text::spec_dec(n) + rest;
    if n < 10 {
        let d = text::dec_digit(n);
        assert(d as u32 == n + 48);
        assert(s[0] == d);
        assert(is_digit(d) && dv(d) == n);
        assert(s.skip(1) =~= rest);
        assert(acc * 10 + n == acc * pow_len(n) + n);
    } else {
        let d = text::dec_digit(n % 10);
        assert(text::spec_dec(n) =~= text::spec_dec(n / 10) + seq![d]);
        assert(s =~= text::spec_dec(n / 10) + (seq![d] + rest));
        lemma_go_dec(n / 10, seq![d] + rest, acc);
        let mid = acc * pow_len(n / 10) + n / 10;
        assert(p_num_go(s, acc) == p_num_go(seq![d] + rest, mid));
        assert(d as u32 == (n % 10) + 48);
        assert((seq![d] + rest)[0] == d);
        assert(is_digit(d) && dv(d) == n % 10);
        assert((seq![d] + rest).skip(1) =~= rest);
        lemma_pow_len_pos(n / 10);
        assert(mid >= 0) by (nonlinear_arith)
            requires
                mid == acc * pow_len(n / 10) + n / 10,
                acc >= 0,
                pow_len(n / 10) >= 10,
                n >= 10,
        ;
        assert(p_num_go(seq![d] + rest, mid) == p_num_go(rest, mid * 10 + n % 10));
        assert(mid * 10 + n % 10 == acc * pow_len(n) + n) by (nonlinear_arith)
            requires
                mid == acc * pow_len(n / 10) + n / 10,
                pow_len(n) == 10 * pow_len(n / 10),
                n >= 10,
                n % 10 == n - 10 * (n / 10),
        ;
    }
}

/// A power of ten is at least ten.
proof fn lemma_pow_len_pos(n: int)
    ensures
        pow_len(n) >= 10,
    decreases n,
{
    if n < 10 {
    } else {
        lemma_pow_len_pos(n / 10);
        assert(pow_len(n) == 10 * pow_len(n / 10));
        assert(10 * pow_len(n / 10) >= 10) by (nonlinear_arith)
            requires pow_len(n / 10) >= 10,
        ;
    }
}

/// A rendered number followed by a non-digit parses back to its value.
proof fn lemma_num(n: int, rest: Seq<char>)
    requires
        0 <= n <= u64::MAX,
        rest.len() == 0 || !is_digit(rest[0]),
    ensures
        p_num(text::spec_dec(n) + rest) == Some((n, rest)),
{
    lemma_dec_digits(n);
    let s = text::spec_dec(n) + rest;
    assert(s[0] == text::spec_dec(n)[0]);
    lemma_go_dec(n, rest, 0);
    assert(0 * pow_len(n) + n == n) by (nonlinear_arith);
    assert(p_num_go(rest, n) == (n, rest));
}

/// A rendered optional number followed by a non-digit parses back.
proof fn lemma_opt_num(o: Option<int>, rest: Seq<char>)
    requires
        o matches Some(v) ==> 0 <= v <= u64::MAX,
        rest.len() == 0 || !is_digit(rest[0]),
    ensures
        p_opt_num(render_opt_u64(o) + rest) == Some((o, rest)),
{
    reveal_strlit("null");
    let s = render_opt_u64(o) + rest;
    match o {
        None => {
            assert("null"@ =~= s.subrange(0, 4));
            assert(s.skip(4) =~= rest);
        },
        Some(v) => {
            lemma_dec_digits(v);
            assert(s[0] == text::spec_dec(v)[0]);
            if "null"@.is_prefix_of(s) {
                assert(s.subrange(0, 4)[0] == 'n');
                assert(false);
            }
            lemma_num(v, rest);
        },
    }
}

/// A rendered lifecycle state parses back to its value.
proof fn lemma_status(st: StatusDoc, rest: Seq<char>)
    ensures
        p_status(render_status(st) + rest) == Some((st, rest)),
{
    reveal_strlit("active");
    reveal_strlit("inactive");
    reveal_strlit("creating");
    reveal_strlit("removing");
    assert("active"@.len() == 6);
    assert("inactive"@.len() == 8);
    assert("creating"@.len() == 8);
    assert("removing"@.len() == 8);
    let s = render_status(st) + rest;
    match st {
        StatusDoc::Active => {
            assert(s[0] == '"');
            lemma_string("active"@, rest);
        },
        StatusDoc::Inactive => {
            assert(s[0] == '"');
            lemma_string("inactive"@, rest);
        },
        StatusDoc::Creating => {
            assert(s[0] == '"');
            lemma_string("creating"@, rest);
        },
        StatusDoc::Removing => {
            assert(s[0] == '"');
            lemma_string("removing"@, rest);
        },
        StatusDoc::Error(m) => {
            let a = "{\"error\":"@;
            reveal_strlit("{\"error\":");
            reveal_strlit("}");
            assert(s =~= a + (render_string(m) + ("}"@ + rest)));
            assert(s[0] == '{');
            lemma_p_lit(a, render_string(m) + ("}"@ + rest));
            lemma_string(m, "}"@ + rest);
            lemma_p_lit("}"@, rest);
            assert("}"@ + rest =~= "}"@ + rest);
        },
    }
}

} // verus!

verus! {

/// A rendered link record parses back to its value.
proof fn lemma_link(l: LinkDoc, rest: Seq<char>)
    ensures
        p_link(render_link(l) + rest) == Some((l, rest)),
{
    let a = "{\"source\":"@;
    let b = ",\"target\":"@;
    let c = ",\"is_valid\":"@;
    let d = ",\"error_message\":"@;
    let e = "}"@;
    let x5 = e + rest;
    let x4 = render_opt_string(l.error_message) + x5;
    let x3 = d + x4;
    let x2 = render_bool(l.is_valid) + x3;
    let x1 = c + x2;
    let y2 = render_string(l.target) + x1;
    let y1 = b + y2;
    let z = render_string(l.source) + y1;
    assert(render_link(l) + rest =~= a + z);
    lemma_p_lit(a, z);
    lemma_string(l.source, y1);
    lemma_p_lit(b, y2);
    lemma_string(l.target, x1);
    lemma_p_lit(c, x2);
    lemma_bool(l.is_valid, x3);
    lemma_p_lit(d, x4);
    lemma_opt_string(l.error_message, x5);
    lemma_p_lit(e, rest);
}

/// Rendered link items, then the closing bracket, parse back to the items.
#[verifier::rlimit(100)]
proof fn lemma_link_items(ls: Seq<LinkDoc>, rest: Seq<char>, fuel: nat)
    requires
        ls.len() >= 1,
        fuel >= ls.len(),
    ensures
        p_link_items(render_link_items(ls) + seq![']'] + rest, fuel) == Some((ls, rest)),
    decreases ls.len(),
{
    let s = render_link_items(ls) + seq![']'] + rest;
    if ls.len() == 1 {
        assert(s =~= render_link(ls[0]) + (seq![']'] + rest));
        lemma_link(ls[0], seq![']'] + rest);
        assert((seq![']'] + rest)[0] == ']');
        assert((seq![']'] + rest).skip(1) =~= rest);
        assert(seq![ls[0]] =~= ls);
    } else {
        let tail = render_link_items(ls.skip(1)) + seq![']'] + rest;
        assert(s =~= render_link(ls[0]) + (seq![','] + tail));
        lemma_link(ls[0], seq![','] + tail);
        assert((seq![','] + tail)[0] == ',');
        assert((seq![','] + tail).skip(1) =~= tail);
        lemma_link_items(ls.skip(1), rest, (fuel - 1) as nat);
        assert(seq![ls[0]] + ls.skip(1) =~= ls);
    }
}

/// A rendered link array parses back to its items.
proof fn lemma_links(ls: Seq<LinkDoc>, rest: Seq<char>, fuel: nat)
    requires
        fuel >= ls.len(),
    ensures
        p_links(render_links(ls) + rest, fuel) == Some((ls, rest)),
{
    let s = render_links(ls) + rest;
    assert(s[0] == '[');
    if ls.len() == 0 {
        assert(s =~= seq!['[', ']'] + rest);
        assert(s[1] == ']');
        assert(s.skip(2) =~= rest);
    } else {
        assert(s[1] == render_link_items(ls)[0]);
        assert(render_link_items(ls)[0] == render_link(ls[0])[0]);
        reveal_strlit("{\"source\":");
        assert(render_link(ls[0])[0] == '{');
        assert(s.skip(1) =~= render_link_items(ls) + seq![']'] + rest);
        lemma_link_items(ls, rest, fuel);
    }
}

/// A rendered environment record parses back to its value.
#[verifier::rlimit(100)]
proof fn lemma_env_head(e: EnvDoc, rest: Seq<char>)
    ensures
        p_env_head(
            ("{\"name\":"@ + render_string(e.name) + ",\"branch\":"@ + render_string(e.branch)
                + ",\"worktree_path\":"@ + render_string(e.worktree_path) + ",\"symlinks\":"@)
                + rest,
        ) == Some(((e.name, e.branch, e.worktree_path), rest)),
{
    let a = "{\"name\":"@;
    let b = ",\"branch\":"@;
    let c = ",\"worktree_path\":"@;
    let d = ",\"symlinks\":"@;
    let v2 = d + rest;
    let v1 = render_string(e.worktree_path) + v2;
    let u2 = c + v1;
    let u1 = render_string(e.branch) + u2;
    let t2 = b + u1;
    let t1 = render_string(e.name) + t2;
    assert((a + render_string(e.name) + b + render_string(e.branch) + c + render_string(
        e.worktree_path,
    ) + d) + rest =~= a + t1);
    lemma_p_lit(a, t1);
    lemma_string(e.name, t2);
    lemma_p_lit(b, u1);
    lemma_string(e.branch, u2);
    lemma_p_lit(c, v1);
    lemma_string(e.worktree_path, v2);
    lemma_p_lit(d, rest);
}

#[verifier::rlimit(100)]
proof fn lemma_env_tail(e: EnvDoc, rest: Seq<char>, fuel: nat)
    requires
        fuel >= e.symlinks.len(),
        0 <= e.created_at <= u64::MAX,
        0 <= e.updated_at <= u64::MAX,
    ensures
        p_env_tail(
            (render_links(e.symlinks) + ",\"status\":"@ + render_status(e.status)
                + ",\"created_at\":"@ + text::spec_dec(e.created_at) + ",\"updated_at\":"@
                + text::spec_dec(e.updated_at) + ",\"config_path\":"@ + render_opt_string(
                e.config_path,
            ) + "}"@) + rest,
            fuel,
        ) == Some(((e.symlinks, e.status, e.created_at, e.updated_at, e.config_path), rest)),
{
    let f = ",\"status\":"@;
    let g = ",\"created_at\":"@;
    let h = ",\"updated_at\":"@;
    let k = ",\"config_path\":"@;
    let z = "}"@;
    let x9 = z + rest;
    let x8 = render_opt_string(e.config_path) + x9;
    let x7 = k + x8;
    let x6 = text::spec_dec(e.updated_at) + x7;
    let x5 = h + x6;
    let x4 = text::spec_dec(e.created_at) + x5;
    let x3 = g + x4;
    let x2 = render_status(e.status) + x3;
    let x1 = f + x2;
    assert((render_links(e.symlinks) + f + render_status(e.status) + g + text::spec_dec(
        e.created_at,
    ) + h + text::spec_dec(e.updated_at) + k + render_opt_string(e.config_path) + z) + rest
        =~= render_links(e.symlinks) + x1);
    lemma_links(e.symlinks, x1, fuel);
    lemma_p_lit(f, x2);
    lemma_status(e.status, x3);
    lemma_p_lit(g, x4);
    reveal_strlit(",\"updated_at\":");
    assert(x5[0] == ',');
    lemma_num(e.created_at, x5);
    lemma_p_lit(h, x6);
    reveal_strlit(",\"config_path\":");
    assert(x7[0] == ',');
    lemma_num(e.updated_at, x7);
    lemma_p_lit(k, x8);
    lemma_opt_string(e.config_path, x9);
    lemma_p_lit(z, rest);
}

#[verifier::rlimit(100)]
proof fn lemma_env(e: EnvDoc, rest: Seq<char>, fuel: nat)
    requires
        fuel >= e.symlinks.len(),
        0 <= e.created_at <= u64::MAX,
        0 <= e.updated_at <= u64::MAX,
    ensures
        p_env(render_env(e) + rest, fuel) == Some((e, rest)),
{
    reveal(render_env);
    let head = "{\"name\":"@ + render_string(e.name) + ",\"branch\":"@ + render_string(e.branch)
        + ",\"worktree_path\":"@ + render_string(e.worktree_path) + ",\"symlinks\":"@;
    let tail = render_links(e.symlinks) + ",\"status\":"@ + render_status(e.status)
        + ",\"created_at\":"@ + text::spec_dec(e.created_at) + ",\"updated_at\":"@
        + text::spec_dec(e.updated_at) + ",\"config_path\":"@ + render_opt_string(e.config_path)
        + "}"@;
    assert(render_env(e) + rest =~= head + (tail + rest));
    lemma_env_head(e, tail + rest);
    lemma_env_tail(e, rest, fuel);
    assert(head + (tail + rest) =~= (head) + (tail + rest));
}

/// One unit of parser fuel per environment and per link.
pub open spec fn doc_size(es: Seq<EnvDoc>) -> int
    decreases es.len(),
{
    if es.len() == 0 {
        0
    } else {
        1 + es[0].symlinks.len() + doc_size(es.skip(1))
    }
}

/// Rendered environment members, then the closing brace, parse back.
#[verifier::spinoff_prover]
#[verifier::rlimit(100)]
proof fn lemma_env_items(es: Seq<EnvDoc>, rest: Seq<char>, fuel: nat)
    requires
        es.len() >= 1,
        fuel >= doc_size(es),
        forall|i: int|
            0 <= i < es.len() ==> 0 <= (#[trigger] es[i]).created_at <= u64::MAX && 0 <= es[
                i
            ].updated_at <= u64::MAX,
    ensures
        p_env_items(render_env_items(es) + seq!['}'] + rest, fuel) == Some((es, rest)),
    decreases es.len(),
{
    let s = render_env_items(es) + seq!['}'] + rest;
    assert(doc_size(es) == 1 + es[0].symlinks.len() + doc_size(es.skip(1)));
    assert(doc_size(es.skip(1)) >= 0) by {
        lemma_doc_size_nonneg(es.skip(1));
    }
    if es.len() == 1 {
        let after_key = seq![':'] + (render_env(es[0]) + (seq!['}'] + rest));
        assert(s =~= render_string(es[0].name) + after_key);
        lemma_string(es[0].name, after_key);
        lemma_p_lit_colon(render_env(es[0]) + (seq!['}'] + rest));
        lemma_env(es[0], seq!['}'] + rest, fuel);
        assert((seq!['}'] + rest)[0] == '}');
        assert((seq!['}'] + rest).skip(1) =~= rest);
        assert(seq![es[0]] =~= es);
    } else {
        let tail = render_env_items(es.skip(1)) + seq!['}'] + rest;
        let after_env = seq![','] + tail;
        let after_key = seq![':'] + (render_env(es[0]) + after_env);
        assert(s =~= render_string(es[0].name) + after_key);
        lemma_string(es[0].name, after_key);
        lemma_p_lit_colon(render_env(es[0]) + after_env);
        lemma_env(es[0], after_env, fuel);
        assert(after_env[0] == ',');
        assert(after_env.skip(1) =~= tail);
        assert forall|i: int|
            0 <= i < es.skip(1).len() implies 0 <= (#[trigger] es.skip(1)[i]).created_at
            <= u64::MAX && 0 <= es.skip(1)[i].updated_at <= u64::MAX by {
            assert(es.skip(1)[i] == es[i + 1]);
        }
        lemma_env_items(es.skip(1), rest, (fuel - 1) as nat);
        assert(seq![es[0]] + es.skip(1) =~= es);
    }
}

/// The colon literal consumes exactly itself.
proof fn lemma_p_lit_colon(rest: Seq<char>)
    ensures
        p_lit(seq![':'] + rest, ":"@) == Some(rest),
{
    reveal_strlit(":");
    assert(":"@ =~= seq![':']);
    lemma_p_lit(":"@, rest);
    assert(seq![':'] + rest =~= ":"@ + rest);
}

/// The fuel accounting never goes negative.
proof fn lemma_doc_size_nonneg(es: Seq<EnvDoc>)
    ensures
        doc_size(es) >= 0,
    decreases es.len(),
{
    if es.len() > 0 {
        lemma_doc_size_nonneg(es.skip(1));
    }
}

/// A rendered environments object parses back to its members.
proof fn lemma_envs(es: Seq<EnvDoc>, rest: Seq<char>, fuel: nat)
    requires
        fuel >= doc_size(es),
        forall|i: int|
            0 <= i < es.len() ==> 0 <= (#[trigger] es[i]).created_at <= u64::MAX && 0 <= es[
                i
            ].updated_at <= u64::MAX,
    ensures
        p_envs(render_envs(es) + rest, fuel) == Some((es, rest)),
{
    let s = render_envs(es) + rest;
    assert(s[0] == '{');
    if es.len() == 0 {
        assert(s =~= seq!['{', '}'] + rest);
        assert(s[1] == '}');
        assert(s.skip(2) =~= rest);
    } else {
        assert(s[1] == render_env_items(es)[0]);
        assert(render_env_items(es)[0] == render_string(es[0].name)[0]);
        assert(render_string(es[0].name)[0] == '"');
        assert(s.skip(1) =~= render_env_items(es) + seq!['}'] + rest);
        lemma_env_items(es, rest, fuel);
    }
}

/// Each rendered member spends at least as many characters as it needs
/// units of fuel.
proof fn lemma_render_sizes(es: Seq<EnvDoc>)
    ensures
        render_env_items(es).len() >= doc_size(es),
    decreases es.len(),
{
    reveal_strlit("{\"name\":");
    reveal_strlit("{\"source\":");
    if es.len() == 0 {
    } else {
        lemma_render_sizes(es.skip(1));
        lemma_doc_size_nonneg(es.skip(1));
        reveal(render_env);
        assert(render_link_items(es[0].symlinks).len() >= es[0].symlinks.len()) by {
            lemma_link_items_len(es[0].symlinks);
        }
        assert(render_env(es[0]).len() >= 1 + es[0].symlinks.len());
    }
}

/// Each rendered link spends at least one character.
proof fn lemma_link_items_len(ls: Seq<LinkDoc>)
    ensures
        render_link_items(ls).len() >= ls.len(),
    decreases ls.len(),
{
    reveal_strlit("{\"source\":");
    if ls.len() == 0 {
    } else if ls.len() == 1 {
        assert(render_link(ls[0]).len() >= 1);
    } else {
        lemma_link_items_len(ls.skip(1));
        assert(render_link(ls[0]).len() >= 1);
    }
}

/// Round trip: parsing a rendered registry document restores the document
/// value exactly — in particular the set of names, every branch, and the
/// active pointer.
#[verifier::rlimit(100)]
pub proof fn lemma_registry_round_trip(d: RegDoc)
    requires
        doc_wf(d),
    ensures
        spec_parse_registry(spec_render_registry(d)) == Some(d),
{
    let a = "{\"environments\":"@;
    let b = ",\"active\":"@;
    let c = ",\"last_updated\":"@;
    let z = "}"@;
    let x4 = z + Seq::<char>::empty();
    let x3 = render_opt_u64(d.last_updated) + x4;
    let x2 = b + (render_opt_string(d.active) + (c + x3));
    let x1 = render_envs(d.environments) + x2;
    assert(spec_render_registry(d) =~= a + x1);
    lemma_p_lit(a, x1);
    lemma_render_sizes(d.environments);
    lemma_doc_size_nonneg(d.environments);
    assert(x1.len() >= doc_size(d.environments));
    lemma_envs(d.environments, x2, x1.len() as nat);
    lemma_p_lit(b, render_opt_string(d.active) + (c + x3));
    lemma_opt_string(d.active, c + x3);
    lemma_p_lit(c, x3);
    reveal_strlit("}");
    assert(x3 == render_opt_u64(d.last_updated) + x4);
    assert(x4[0] == '}');
    lemma_opt_num(d.last_updated, x4);
    lemma_p_lit(z, Seq::<char>::empty());
    assert(x4 =~= z + Seq::<char>::empty());
}

} // verus!

verus! {

/// Consume an expected literal at a position.
fn x_lit(s: &str, pos: usize, lit: &str) -> (r: Option<usize>)
    requires
        pos <= s@.len(),
    ensures
        match r {
            Some(p2) => pos <= p2 <= s@.len() && p_lit(s@.skip(pos as int), lit@) == Some(
                s@.skip(p2 as int),
            ),
            None => p_lit(s@.skip(pos as int), lit@) is None,
        },
{
    let n = s.unicode_len();
    let ll = lit.unicode_len();
    if text::matches_at(s, pos, lit) {
        proof {
            assert(lit@ =~= s@.skip(pos as int).subrange(0, ll as int));
            assert(ll <= s@.skip(pos as int).len());
            assert(pos + ll <= n);
            assert(s@.skip(pos as int).skip(ll as int) =~= s@.skip(pos + ll));
        }
        Some(pos + ll)
    } else {
        None
    }
}

/// Consume a string body up to its closing quote.
fn x_str_body(s: &str, pos: usize) -> (r: Option<(String, usize)>)
    requires
        pos <= s@.len(),
    ensures
        match r {
            Some(p) => p.1 <= s@.len() && p_str_body(s@.skip(pos as int)) == Some(
                (p.0@, s@.skip(p.1 as int)),
            ),
            None => p_str_body(s@.skip(pos as int)) is None,
        },
    decreases s@.len() - pos,
{
    let n = s.unicode_len();
    let ghost suf = s@.skip(pos as int);
    if pos == n {
        return None;
    }
    let c = s.get_char(pos);
    proof {
        assert(suf[0] == s@[pos as int]);
        assert(suf.skip(1) =~= s@.skip(pos + 1));
    }
    if c == '"' {
        let mut out = String::new();
        proof {
            assert(out@ =~= Seq::<char>::empty());
        }
        Some((out, pos + 1))
    } else if c == '\\' {
        if pos + 1 == n {
            proof {
                assert(suf.len() < 2);
            }
            return None;
        }
        let e = s.get_char(pos + 1);
        proof {
            assert(suf[1] == s@[pos + 1]);
            assert(suf.skip(2) =~= s@.skip(pos + 2));
        }
        let u: char = if e == '"' {
            '"'
        } else if e == '\\' {
            '\\'
        } else if e == 'n' {
            '\n'
        } else if e == 'r' {
            '\r'
        } else if e == 't' {
            '\t'
        } else {
            return None;
        };
        proof {
            assert(unesc(e) == Some(u));
        }
        match x_str_body(s, pos + 2) {
            None => None,
            Some((v, p2)) => {
                let mut out = String::new();
                out.push(u);
                out.append(v.as_str());
                proof {
                    assert(out@ =~= seq![u] + v@);
                }
                Some((out, p2))
            },
        }
    } else {
        match x_str_body(s, pos + 1) {
            None => None,
            Some((v, p2)) => {
                let mut out = String::new();
                out.push(c);
                out.append(v.as_str());
                proof {
                    assert(out@ =~= seq![c] + v@);
                }
                Some((out, p2))
            },
        }
    }
}

/// Consume a quoted string.
fn x_string(s: &str, pos: usize) -> (r: Option<(String, usize)>)
    requires
        pos <= s@.len(),
    ensures
        match r {
            Some(p) => p.1 <= s@.len() && p_string(s@.skip(pos as int)) == Some(
                (p.0@, s@.skip(p.1 as int)),
            ),
            None => p_string(s@.skip(pos as int)) is None,
        },
{
    let n = s.unicode_len();
    if pos == n {
        return None;
    }
    proof {
        assert(s@.skip(pos as int)[0] == s@[pos as int]);
        assert(s@.skip(pos as int).skip(1) =~= s@.skip(pos + 1));
    }
    if s.get_char(pos) != '"' {
        return None;
    }
    x_str_body(s, pos + 1)
}

/// Consume `null` or a quoted string.
fn x_opt_string(s: &str, pos: usize) -> (r: Option<(Option<String>, usize)>)
    requires
        pos <= s@.len(),
    ensures
        match r {
            Some(p) => p.1 <= s@.len() && p_opt_string(s@.skip(pos as int)) == Some(
                (
                    match p.0 {
                        Some(v) => Some(v@),
                        None => None,
                    },
                    s@.skip(p.1 as int),
                ),
            ),
            None => p_opt_string(s@.skip(pos as int)) is None,
        },
{
    proof {
        reveal_strlit("null");
        assert("null"@.len() == 4);
    }
    match x_lit(s, pos, "null") {
        Some(p2) => Some((None, p2)),
        None => {
            match x_string(s, pos) {
                None => None,
                Some((v, p2)) => Some((Some(v), p2)),
            }
        },
    }
}

/// Consume a boolean literal.
fn x_bool(s: &str, pos: usize) -> (r: Option<(bool, usize)>)
    requires
        pos <= s@.len(),
    ensures
        match r {
            Some(p) => p.1 <= s@.len() && p_bool(s@.skip(pos as int)) == Some(
                (p.0, s@.skip(p.1 as int)),
            ),
            None => p_bool(s@.skip(pos as int)) is None,
        },
{
    proof {
        reveal_strlit("true");
        reveal_strlit("false");
        assert("true"@.len() == 4);
        assert("false"@.len() == 5);
    }
    match x_lit(s, pos, "true") {
        Some(p2) => Some((true, p2)),
        None => {
            match x_lit(s, pos, "false") {
                Some(p2) => Some((false, p2)),
                None => None,
            }
        },
    }
}

/// Once the accumulator is positive, accumulation only grows it.
proof fn lemma_go_monotone(s: Seq<char>, acc: int)
    requires
        acc >= 0,
    ensures
        p_num_go(s, acc).0 >= acc,
    decreases s.len(),
{
    if s.len() == 0 || !is_digit(s[0]) {
    } else {
        lemma_go_monotone(s.skip(1), acc * 10 + dv(s[0]));
    }
}

/// Consume an unsigned number that fits the timestamp fields.
fn x_num(s: &str, pos: usize) -> (r: Option<(u64, usize)>)
    requires
        pos <= s@.len(),
    ensures
        match r {
            Some(p) => p.1 <= s@.len() && p_num(s@.skip(pos as int)) == Some(
                (p.0 as int, s@.skip(p.1 as int)),
            ),
            None => p_num(s@.skip(pos as int)) is None,
        },
{
    let n = s.unicode_len();
    let ghost orig = s@.skip(pos as int);
    if pos == n {
        return None;
    }
    proof {
        assert(orig[0] == s@[pos as int]);
    }
    let c0 = s.get_char(pos) as u32;
    if !(48 <= c0 && c0 <= 57) {
        return None;
    }
    let mut acc: u128 = 0;
    let mut i: usize = pos;
    let mut stop = false;
    while i < n && !stop
        invariant
            pos <= i <= n == s@.len(),
            acc <= 0xffff_ffff_ffff_ffffu128,
            p_num_go(orig, 0) == p_num_go(s@.skip(i as int), acc as int),
            stop ==> i < n && !is_digit(s@[i as int]),
            orig == s@.skip(pos as int) && orig.len() > 0 && is_digit(orig[0]),
        decreases n - i, (if stop { 0int } else { 1int }),
    {
        let c = s.get_char(i) as u32;
        proof {
            assert(s@.skip(i as int)[0] == s@[i as int]);
        }
        if !(48 <= c && c <= 57) {
            stop = true;
        } else {
            proof {
                assert(s@.skip(i as int).skip(1) =~= s@.skip(i + 1));
                assert(is_digit(s@[i as int]));
                assert(dv(s@[i as int]) == c - 48);
            }
            let d = (c - 48) as u128;
            acc = acc * 10 + d;
            i += 1;
            if acc > 0xffff_ffff_ffff_ffffu128 {
                proof {
                    lemma_go_monotone(s@.skip(i as int), acc as int);
                    assert(p_num_go(orig, 0).0 > u64::MAX);
                }
                return None;
            }
        }
    }
    proof {
        if i == n {
            assert(s@.skip(i as int).len() == 0);
        } else {
            assert(s@.skip(i as int)[0] == s@[i as int]);
            assert(!is_digit(s@[i as int]));
        }
        assert(p_num_go(s@.skip(i as int), acc as int) == (acc as int, s@.skip(i as int)));
        assert(acc as int <= u64::MAX);
    }
    Some((acc as u64, i))
}

/// Consume `null` or a number.
fn x_opt_num(s: &str, pos: usize) -> (r: Option<(Option<u64>, usize)>)
    requires
        pos <= s@.len(),
    ensures
        match r {
            Some(p) => p.1 <= s@.len() && p_opt_num(s@.skip(pos as int)) == Some(
                (
                    match p.0 {
                        Some(v) => Some(v as int),
                        None => None,
                    },
                    s@.skip(p.1 as int),
                ),
            ),
            None => p_opt_num(s@.skip(pos as int)) is None,
        },
{
    proof {
        reveal_strlit("null");
        assert("null"@.len() == 4);
    }
    match x_lit(s, pos, "null") {
        Some(p2) => Some((None, p2)),
        None => {
            match x_num(s, pos) {
                None => None,
                Some((v, p2)) => Some((Some(v), p2)),
            }
        },
    }
}

/// Consume a lifecycle state.
fn x_status(s: &str, pos: usize) -> (r: Option<(EnvironmentStatus, usize)>)
    requires
        pos <= s@.len(),
    ensures
        match r {
            Some(p) => p.1 <= s@.len() && p_status(s@.skip(pos as int)) == Some(
                (status_doc(p.0), s@.skip(p.1 as int)),
            ),
            None => p_status(s@.skip(pos as int)) is None,
        },
{
    proof {
        reveal_strlit("active");
        reveal_strlit("inactive");
        reveal_strlit("creating");
        reveal_strlit("removing");
        assert("active"@.len() == 6);
        assert("inactive"@.len() == 8);
        assert("creating"@.len() == 8);
        assert("removing"@.len() == 8);
    }
    let n = s.unicode_len();
    if pos == n {
        return None;
    }
    proof {
        assert(s@.skip(pos as int)[0] == s@[pos as int]);
    }
    let c = s.get_char(pos);
    if c == '"' {
        match x_string(s, pos) {
            None => None,
            Some((v, p2)) => {
                if text::str_eq(v.as_str(), "active") {
                    Some((EnvironmentStatus::Active, p2))
                } else if text::str_eq(v.as_str(), "inactive") {
                    Some((EnvironmentStatus::Inactive, p2))
                } else if text::str_eq(v.as_str(), "creating") {
                    Some((EnvironmentStatus::Creating, p2))
                } else if text::str_eq(v.as_str(), "removing") {
                    Some((EnvironmentStatus::Removing, p2))
                } else {
                    None
                }
            },
        }
    } else if c == '{' {
        match x_lit(s, pos, "{\"error\":") {
            None => None,
            Some(p1) => {
                match x_string(s, p1) {
                    None => None,
                    Some((m, p2)) => {
                        match x_lit(s, p2, "}") {
                            None => None,
                            Some(p3) => Some((EnvironmentStatus::Error(m), p3)),
                        }
                    },
                }
            },
        }
    } else {
        None
    }
}

} // verus!

verus! {

/// Consume one link record.
fn x_link(s: &str, pos: usize) -> (r: Option<(SymlinkInfo, usize)>)
    requires
        pos <= s@.len(),
    ensures
        match r {
            Some(p) => p.1 <= s@.len() && p_link(s@.skip(pos as int)) == Some(
                (link_doc(p.0), s@.skip(p.1 as int)),
            ),
            None => p_link(s@.skip(pos as int)) is None,
        },
{
    let p1 = match x_lit(s, pos, "{\"source\":") {
        Some(p) => p,
        None => {
            return None;
        },
    };
    let (source, p2) = match x_string(s, p1) {
        Some(p) => p,
        None => {
            return None;
        },
    };
    let p3 = match x_lit(s, p2, ",\"target\":") {
        Some(p) => p,
        None => {
            return None;
        },
    };
    let (target, p4) = match x_string(s, p3) {
        Some(p) => p,
        None => {
            return None;
        },
    };
    let p5 = match x_lit(s, p4, ",\"is_valid\":") {
        Some(p) => p,
        None => {
            return None;
        },
    };
    let (is_valid, p6) = match x_bool(s, p5) {
        Some(p) => p,
        None => {
            return None;
        },
    };
    let p7 = match x_lit(s, p6, ",\"error_message\":") {
        Some(p) => p,
        None => {
            return None;
        },
    };
    let (error_message, p8) = match x_opt_string(s, p7) {
        Some(p) => p,
        None => {
            return None;
        },
    };
    let p9 = match x_lit(s, p8, "}") {
        Some(p) => p,
        None => {
            return None;
        },
    };
    Some((SymlinkInfo { source, target, is_valid, error_message }, p9))
}

/// Consume the items of a link array after its opening bracket.
fn x_link_items(s: &str, pos: usize, fuel: usize) -> (r: Option<(Vec<SymlinkInfo>, usize)>)
    requires
        pos <= s@.len(),
    ensures
        match r {
            Some(p) => p.1 <= s@.len() && p_link_items(s@.skip(pos as int), fuel as nat) == Some(
                (p.0@.map_values(|l: SymlinkInfo| link_doc(l)), s@.skip(p.1 as int)),
            ),
            None => p_link_items(s@.skip(pos as int), fuel as nat) is None,
        },
    decreases fuel,
{
    if fuel == 0 {
        return None;
    }
    let (l, p1) = match x_link(s, pos) {
        Some(p) => p,
        None => {
            return None;
        },
    };
    let n = s.unicode_len();
    let ghost rest = s@.skip(p1 as int);
    if p1 < n {
        let c = s.get_char(p1);
        proof {
            assert(rest[0] == s@[p1 as int]);
            assert(rest.skip(1) =~= s@.skip(p1 + 1));
        }
        if c == ',' {
            match x_link_items(s, p1 + 1, fuel - 1) {
                Some((mut items, p2)) => {
                    let ghost tailv = items@;
                    items.insert(0, l);
                    proof {
                        assert(items@.map_values(|x: SymlinkInfo| link_doc(x)) =~= seq![
                            link_doc(l)
                        ] + tailv.map_values(|x: SymlinkInfo| link_doc(x)));
                    }
                    Some((items, p2))
                },
                None => None,
            }
        } else if c == ']' {
            let mut items: Vec<SymlinkInfo> = Vec::new();
            items.push(l);
            proof {
                assert(items@.map_values(|x: SymlinkInfo| link_doc(x)) =~= seq![link_doc(l)]);
            }
            Some((items, p1 + 1))
        } else {
            None
        }
    } else {
        proof {
            assert(rest.len() == 0);
        }
        None
    }
}

/// Consume a link array.
fn x_links(s: &str, pos: usize, fuel: usize) -> (r: Option<(Vec<SymlinkInfo>, usize)>)
    requires
        pos <= s@.len(),
    ensures
        match r {
            Some(p) => p.1 <= s@.len() && p_links(s@.skip(pos as int), fuel as nat) == Some(
                (p.0@.map_values(|l: SymlinkInfo| link_doc(l)), s@.skip(p.1 as int)),
            ),
            None => p_links(s@.skip(pos as int), fuel as nat) is None,
        },
{
    let n = s.unicode_len();
    let ghost suf = s@.skip(pos as int);
    if pos == n {
        return None;
    }
    proof {
        assert(suf[0] == s@[pos as int]);
    }
    if s.get_char(pos) != '[' {
        return None;
    }
    if pos + 1 < n {
        proof {
            assert(suf.len() >= 2);
            assert(suf[1] == s@[pos + 1]);
            assert(suf.skip(2) =~= s@.skip(pos + 2));
        }
        if s.get_char(pos + 1) == ']' {
            let items: Vec<SymlinkInfo> = Vec::new();
            proof {
                assert(items@.map_values(|x: SymlinkInfo| link_doc(x)) =~= Seq::<
                    LinkDoc,
                >::empty());
            }
            return Some((items, pos + 2));
        }
    } else {
        proof {
            assert(suf.len() == 1);
        }
    }
    proof {
        assert(suf.skip(1) =~= s@.skip(pos + 1));
    }
    x_link_items(s, pos + 1, fuel)
}

/// Consume one environment record.
fn x_env(s: &str, pos: usize, fuel: usize) -> (r: Option<(AgentEnvironment, usize)>)
    requires
        pos <= s@.len(),
    ensures
        match r {
            Some(p) => p.1 <= s@.len() && p_env(s@.skip(pos as int), fuel as nat) == Some(
                (env_doc(p.0), s@.skip(p.1 as int)),
            ),
            None => p_env(s@.skip(pos as int), fuel as nat) is None,
        },
{
    let p1 = match x_lit(s, pos, "{\"name\":") {
        Some(p) => p,
        None => {
            return None;
        },
    };
    let (name, p2) = match x_string(s, p1) {
        Some(p) => p,
        None => {
            return None;
        },
    };
    let p3 = match x_lit(s, p2, ",\"branch\":") {
        Some(p) => p,
        None => {
            return None;
        },
    };
    let (branch, p4) = match x_string(s, p3) {
        Some(p) => p,
        None => {
            return None;
        },
    };
    let p5 = match x_lit(s, p4, ",\"worktree_path\":") {
        Some(p) => p,
        None => {
            return None;
        },
    };
    let (worktree_path, p6) = match x_string(s, p5) {
        Some(p) => p,
        None => {
            return None;
        },
    };
    let p7 = match x_lit(s, p6, ",\"symlinks\":") {
        Some(p) => p,
        None => {
            return None;
        },
    };
    let (symlinks, p8) = match x_links(s, p7, fuel) {
        Some(p) => p,
        None => {
            return None;
        },
    };
    let p9 = match x_lit(s, p8, ",\"status\":") {
        Some(p) => p,
        None => {
            return None;
        },
    };
    let (status, p10) = match x_status(s, p9) {
        Some(p) => p,
        None => {
            return None;
        },
    };
    let p11 = match x_lit(s, p10, ",\"created_at\":") {
        Some(p) => p,
        None => {
            return None;
        },
    };
    let (created_at, p12) = match x_num(s, p11) {
        Some(p) => p,
        None => {
            return None;
        },
    };
    let p13 = match x_lit(s, p12, ",\"updated_at\":") {
        Some(p) => p,
        None => {
            return None;
        },
    };
    let (updated_at, p14) = match x_num(s, p13) {
        Some(p) => p,
        None => {
            return None;
        },
    };
    let p15 = match x_lit(s, p14, ",\"config_path\":") {
        Some(p) => p,
        None => {
            return None;
        },
    };
    let (config_path, p16) = match x_opt_string(s, p15) {
        Some(p) => p,
        None => {
            return None;
        },
    };
    let p17 = match x_lit(s, p16, "}") {
        Some(p) => p,
        None => {
            return None;
        },
    };
    Some(
        (
            AgentEnvironment {
                name,
                branch,
                worktree_path,
                symlinks,
                status,
                created_at,
                updated_at,
                config_path,
            },
            p17,
        ),
    )
}

/// Consume the members of the environments object after its opening brace.
fn x_env_items(s: &str, pos: usize, fuel: usize) -> (r: Option<(Vec<AgentEnvironment>, usize)>)
    requires
        pos <= s@.len(),
    ensures
        match r {
            Some(p) => p.1 <= s@.len() && p_env_items(s@.skip(pos as int), fuel as nat) == Some(
                (p.0@.map_values(|e: AgentEnvironment| env_doc(e)), s@.skip(p.1 as int)),
            ),
            None => p_env_items(s@.skip(pos as int), fuel as nat) is None,
        },
    decreases fuel,
{
    if fuel == 0 {
        return None;
    }
    let (_key, p1) = match x_string(s, pos) {
        Some(p) => p,
        None => {
            return None;
        },
    };
    let p2 = match x_lit(s, p1, ":") {
        Some(p) => p,
        None => {
            return None;
        },
    };
    let (env, p3) = match x_env(s, p2, fuel) {
        Some(p) => p,
        None => {
            return None;
        },
    };
    let n = s.unicode_len();
    let ghost rest = s@.skip(p3 as int);
    if p3 < n {
        let c = s.get_char(p3);
        proof {
            assert(rest[0] == s@[p3 as int]);
            assert(rest.skip(1) =~= s@.skip(p3 + 1));
        }
        if c == ',' {
            match x_env_items(s, p3 + 1, fuel - 1) {
                Some((mut items, p4)) => {
                    let ghost tailv = items@;
                    items.insert(0, env);
                    proof {
                        assert(items@.map_values(|x: AgentEnvironment| env_doc(x)) =~= seq![
                            env_doc(env)
                        ] + tailv.map_values(|x: AgentEnvironment| env_doc(x)));
                    }
                    Some((items, p4))
                },
                None => None,
            }
        } else if c == '}' {
            let mut items: Vec<AgentEnvironment> = Vec::new();
            items.push(env);
            proof {
                assert(items@.map_values(|x: AgentEnvironment| env_doc(x)) =~= seq![
                    env_doc(env)
                ]);
            }
            Some((items, p3 + 1))
        } else {
            None
        }
    } else {
        proof {
            assert(rest.len() == 0);
        }
        None
    }
}

/// Parse a registry document back into a catalog value. The entire
/// document must be consumed; what does not parse yields nothing.
pub fn parse_registry(s: &str) -> (r: Option<EnvironmentRegistry>)
    ensures
        match r {
            Some(reg) => spec_parse_registry(s@) == Some(reg_doc(reg)),
            None => spec_parse_registry(s@) is None,
        },
{
    proof {
        assert(s@.skip(0) =~= s@);
    }
    let p1 = match x_lit(s, 0, "{\"environments\":") {
        Some(p) => p,
        None => {
            return None;
        },
    };
    let n = s.unicode_len();
    let ghost s1 = s@.skip(p1 as int);
    let (environments, p2) = {
        if p1 == n {
            return None;
        }
        proof {
            assert(s1[0] == s@[p1 as int]);
        }
        if s.get_char(p1) != '{' {
            return None;
        }
        if p1 + 1 < n && s.get_char(p1 + 1) == '}' {
            proof {
                assert(s1.len() >= 2);
                assert(s1[1] == s@[p1 + 1]);
                assert(s1.skip(2) =~= s@.skip(p1 + 2));
            }
            let empty_envs: Vec<AgentEnvironment> = Vec::new();
            proof {
                assert(empty_envs@.map_values(|e: AgentEnvironment| env_doc(e)) =~= Seq::<
                    EnvDoc,
                >::empty());
            }
            (empty_envs, p1 + 2)
        } else {
            proof {
                if p1 + 1 < n {
                    assert(s1[1] == s@[p1 + 1]);
                } else {
                    assert(s1.len() == 1);
                }
                assert(s1.skip(1) =~= s@.skip(p1 + 1));
                assert(n - p1 == s1.len());
            }
            match x_env_items(s, p1 + 1, n - p1) {
                Some(p) => p,
                None => {
                    return None;
                },
            }
        }
    };
    let p3 = match x_lit(s, p2, ",\"active\":") {
        Some(p) => p,
        None => {
            return None;
        },
    };
    let (active, p4) = match x_opt_string(s, p3) {
        Some(p) => p,
        None => {
            return None;
        },
    };
    let p5 = match x_lit(s, p4, ",\"last_updated\":") {
        Some(p) => p,
        None => {
            return None;
        },
    };
    let (last_updated, p6) = match x_opt_num(s, p5) {
        Some(p) => p,
        None => {
            return None;
        },
    };
    let p7 = match x_lit(s, p6, "}") {
        Some(p) => p,
        None => {
            return None;
        },
    };
    if p7 != n {
        proof {
            assert(s@.skip(p7 as int).len() > 0);
        }
        return None;
    }
    proof {
        assert(s@.skip(p7 as int).len() == 0);
    }
    Some(EnvironmentRegistry { environments, active, last_updated })
}

} // verus!

//! Data model: environments, link records, file mappings, hook commands,
//! and the configuration that drives the orchestrator.

use vstd::prelude::*;
use crate::clock;

verus! {

/// The lifecycle state of an environment.
#[derive(Debug, Clone, PartialEq)]
pub enum EnvironmentStatus {
    /// Currently in use; at most one environment is active at a time.
    Active,
    /// Created but not in use.
    Inactive,
    /// Being created.
    Creating,
    /// Being removed.
    Removing,
    /// Left in a failed state, with the reason.
    Error(String),
}

/// One provisioned file correspondence between the main repository and a
/// workspace.
#[derive(Debug, Clone)]
pub struct SymlinkInfo {
    /// Absolute source path.
    pub source: String,
    /// Absolute target path.
    pub target: String,
    /// Whether the link was created successfully.
    pub is_valid: bool,
    /// The failure message, if creation failed.
    pub error_message: Option<String>,
}

impl SymlinkInfo {
    /// A fresh, not-yet-validated record for the given endpoints.
    pub fn new(source: String, target: String) -> (r: SymlinkInfo)
        ensures
            r.source@ == source@,
            r.target@ == target@,
            !r.is_valid,
            r.error_message is None,
    {
        SymlinkInfo { source, target, is_valid: false, error_message: None }
    }

    /// Mark the record as successfully created.
    pub fn set_success(&mut self)
        ensures
            final(self).source == old(self).source,
            final(self).target == old(self).target,
            final(self).is_valid,
            final(self).error_message is None,
    {
        self.is_valid = true;
        self.error_message = None;
    }

    /// Mark the record as failed, with the reason.
    pub fn set_error(&mut self, message: String)
        ensures
            final(self).source == old(self).source,
            final(self).target == old(self).target,
            !final(self).is_valid,
            final(self).error_message matches Some(m) && m@ == message@,
    {
        self.is_valid = false;
        self.error_message = Some(message);
    }
}

/// One managed workspace: a worktree, its branch, and its provisioned links.
#[derive(Debug, Clone)]
pub struct AgentEnvironment {
    /// Unique identifier.
    pub name: String,
    /// The branch checked out in the worktree.
    pub branch: String,
    /// Absolute path of the worktree directory.
    pub worktree_path: String,
    /// The links provisioned for this environment, in creation order.
    pub symlinks: Vec<SymlinkInfo>,
    /// Lifecycle state.
    pub status: EnvironmentStatus,
    /// Creation time, in milliseconds since the Unix epoch.
    pub created_at: u64,
    /// Last update time, in milliseconds since the Unix epoch.
    pub updated_at: u64,
    /// The configuration document the environment was created from, if any.
    pub config_path: Option<String>,
}

impl AgentEnvironment {
    /// A new environment record, in `Creating` state, stamped with the
    /// current time.
    pub fn new(name: String, branch: String, worktree_path: String, config_path: Option<String>)
        -> (r: AgentEnvironment)
        ensures
            r.name@ == name@,
            r.branch@ == branch@,
            r.worktree_path@ == worktree_path@,
            r.symlinks@ =~= Seq::<SymlinkInfo>::empty(),
            r.status is Creating,
            r.created_at == r.updated_at,
            r.config_path == config_path,
    {
        let now = clock::now_millis();
        AgentEnvironment {
            name,
            branch,
            worktree_path,
            symlinks: Vec::new(),
            status: EnvironmentStatus::Creating,
            created_at: now,
            updated_at: now,
            config_path,
        }
    }

    /// Whether the environment is the active one.
    pub fn is_active(&self) -> (r: bool)
        ensures
            r == (self.status is Active),
    {
        match &self.status {
            EnvironmentStatus::Active => true,
            _ => false,
        }
    }

    /// The worktree path.
    pub fn path(&self) -> (r: &String)
        ensures
            r == &self.worktree_path,
    {
        &self.worktree_path
    }

    /// Append a link record and refresh the update time.
    pub fn add_symlink(&mut self, symlink: SymlinkInfo)
        ensures
            final(self).symlinks@ == old(self).symlinks@.push(symlink),
            final(self).name == old(self).name,
            final(self).branch == old(self).branch,
            final(self).worktree_path == old(self).worktree_path,
            final(self).status == old(self).status,
            final(self).created_at == old(self).created_at,
            final(self).config_path == old(self).config_path,
    {
        self.symlinks.push(symlink);
        self.updated_at = clock::now_millis();
    }

    /// Change the lifecycle state and refresh the update time.
    pub fn set_status(&mut self, status: EnvironmentStatus)
        ensures
            final(self).status == status,
            final(self).name == old(self).name,
            final(self).branch == old(self).branch,
            final(self).worktree_path == old(self).worktree_path,
            final(self).symlinks == old(self).symlinks,
            final(self).created_at == old(self).created_at,
            final(self).config_path == old(self).config_path,
    {
        self.status = status;
        self.updated_at = clock::now_millis();
    }
}

impl EnvironmentStatus {
    /// An owned copy with the same value.
    pub fn duplicate(&self) -> (r: EnvironmentStatus)
        ensures
            r == *self,
    {
        match self {
            EnvironmentStatus::Active => EnvironmentStatus::Active,
            EnvironmentStatus::Inactive => EnvironmentStatus::Inactive,
            EnvironmentStatus::Creating => EnvironmentStatus::Creating,
            EnvironmentStatus::Removing => EnvironmentStatus::Removing,
            EnvironmentStatus::Error(m) => EnvironmentStatus::Error(m.clone()),
        }
    }
}

impl SymlinkInfo {
    /// An owned copy with the same value.
    pub fn duplicate(&self) -> (r: SymlinkInfo)
        ensures
            r == *self,
    {
        SymlinkInfo {
            source: self.source.clone(),
            target: self.target.clone(),
            is_valid: self.is_valid,
            error_message: crate::text::clone_opt_string(&self.error_message),
        }
    }
}

/// An owned copy of a vector of link records.
pub fn clone_symlinks(v: &Vec<SymlinkInfo>) -> (r: Vec<SymlinkInfo>)
    ensures
        r@ == v@,
{
    let mut out: Vec<SymlinkInfo> = Vec::new();
    let n = v.len();
    let mut i: usize = 0;
    while i < n
        invariant
            0 <= i <= n == v@.len(),
            out@.len() == i,
            forall|j: int| 0 <= j < i ==> out@[j] == v@[j],
        decreases n - i,
    {
        out.push(v[i].duplicate());
        i += 1;
    }
    proof {
        assert(out@ =~= v@);
    }
    out
}

/// The two environment records agree on every field, comparing the link
/// records as a sequence.
pub open spec fn env_eq(a: AgentEnvironment, b: AgentEnvironment) -> bool {
    &&& a.name == b.name
    &&& a.branch == b.branch
    &&& a.worktree_path == b.worktree_path
    &&& a.symlinks@ == b.symlinks@
    &&& a.status == b.status
    &&& a.created_at == b.created_at
    &&& a.updated_at == b.updated_at
    &&& a.config_path == b.config_path
}

impl AgentEnvironment {
    /// An owned copy that agrees on every field.
    pub fn duplicate(&self) -> (r: AgentEnvironment)
        ensures
            env_eq(r, *self),
    {
        AgentEnvironment {
            name: self.name.clone(),
            branch: self.branch.clone(),
            worktree_path: self.worktree_path.clone(),
            symlinks: clone_symlinks(&self.symlinks),
            status: self.status.duplicate(),
            created_at: self.created_at,
            updated_at: self.updated_at,
            config_path: crate::text::clone_opt_string(&self.config_path),
        }
    }
}

/// How a configured file is shared with a workspace.
#[derive(Debug, Clone, Copy, PartialEq, Eq, Structural)]
pub enum MappingType {
    /// A native link: the entry is shared with the main repository.
    Symlink,
    /// A full copy: each workspace holds its own file.
    Copy,
}

/// The mapping type used when a configuration entry does not name one.
pub fn default_mapping_type() -> (r: MappingType)
    ensures
        r == MappingType::Symlink,
{
    MappingType::Symlink
}

/// One configured file correspondence, relative to both checkouts.
#[derive(Debug, Clone)]
pub struct FileMapping {
    /// The path, the same under the main repository and the workspace.
    pub path: String,
    /// Link or copy.
    pub mapping_type: MappingType,
    /// Free-form description.
    pub description: Option<String>,
    /// Leave an already-present target untouched.
    pub skip_if_exists: bool,
}

impl FileMapping {
    /// An owned copy with the same value.
    pub fn duplicate(&self) -> (r: FileMapping)
        ensures
            r == *self,
    {
        FileMapping {
            path: self.path.clone(),
            mapping_type: self.mapping_type,
            description: crate::text::clone_opt_string(&self.description),
            skip_if_exists: self.skip_if_exists,
        }
    }
}

/// One user-declared lifecycle command.
#[derive(Debug, Clone)]
pub struct HookCommand {
    /// The command to run.
    pub command: String,
    /// Its arguments.
    pub args: Vec<String>,
    /// Extra environment variables, as key-value pairs.
    pub env: Vec<(String, String)>,
    /// Execution bound, in seconds.
    pub timeout: u64,
    /// Whether a failure of this hook lets the sequence proceed.
    pub continue_on_error: bool,
}

/// The two hook commands agree on every field, comparing the argument and
/// variable lists as sequences.
pub open spec fn hook_eq(a: HookCommand, b: HookCommand) -> bool {
    &&& a.command == b.command
    &&& a.args@ == b.args@
    &&& a.env@ == b.env@
    &&& a.timeout == b.timeout
    &&& a.continue_on_error == b.continue_on_error
}

impl HookCommand {
    /// An owned copy that agrees on every field.
    pub fn duplicate(&self) -> (r: HookCommand)
        ensures
            hook_eq(r, *self),
    {
        HookCommand {
            command: self.command.clone(),
            args: crate::text::clone_string_vec(&self.args),
            env: crate::text::clone_pairs(&self.env),
            timeout: self.timeout,
            continue_on_error: self.continue_on_error,
        }
    }
}

/// An owned copy of a vector of hook commands, agreeing entry by entry.
pub fn clone_hooks(v: &Vec<HookCommand>) -> (r: Vec<HookCommand>)
    ensures
        r@.len() == v@.len(),
        forall|j: int| 0 <= j < v@.len() ==> hook_eq(#[trigger] r@[j], v@[j]),
{
    let mut out: Vec<HookCommand> = Vec::new();
    let n = v.len();
    let mut i: usize = 0;
    while i < n
        invariant
            0 <= i <= n == v@.len(),
            out@.len() == i,
            forall|j: int| 0 <= j < i ==> hook_eq(#[trigger] out@[j], v@[j]),
        decreases n - i,
    {
        out.push(v[i].duplicate());
        i += 1;
    }
    out
}

/// The timeout used when a hook does not declare one.
pub fn default_timeout() -> (r: u64)
    ensures
        r == 60,
{
    60
}

/// The hooks of the four lifecycle phases.
#[derive(Debug, Clone)]
pub struct HookConfig {
    /// Run before an environment is created.
    pub pre_create: Vec<HookCommand>,
    /// Run after an environment is created.
    pub post_create: Vec<HookCommand>,
    /// Run before an environment is removed.
    pub pre_remove: Vec<HookCommand>,
    /// Run after an environment is removed.
    pub post_remove: Vec<HookCommand>,
}

impl HookConfig {
    /// Whether no phase declares any hook; this is exactly the default value.
    pub fn is_empty(&self) -> (r: bool)
        ensures
            r == (self.pre_create@.len() == 0 && self.post_create@.len() == 0
                && self.pre_remove@.len() == 0 && self.post_remove@.len() == 0),
    {
        self.pre_create.len() == 0 && self.post_create.len() == 0 && self.pre_remove.len() == 0
            && self.post_remove.len() == 0
    }
}

impl Default for HookConfig {
    /// No hooks in any phase.
    fn default() -> (r: HookConfig)
        ensures
            r.pre_create@.len() == 0,
            r.post_create@.len() == 0,
            r.pre_remove@.len() == 0,
            r.post_remove@.len() == 0,
    {
        HookConfig {
            pre_create: Vec::new(),
            post_create: Vec::new(),
            pre_remove: Vec::new(),
            post_remove: Vec::new(),
        }
    }
}

/// The settings that drive creation: file mappings, hooks, the worktree base
/// directory, and the branch prefix.
#[derive(Debug, Clone)]
pub struct ConfigSettings {
    /// Files to provision into each workspace.
    pub files: Vec<FileMapping>,
    /// Lifecycle hooks.
    pub hooks: HookConfig,
    /// Base directory under which worktrees are placed.
    pub worktree_base: Option<String>,
    /// Prefix for generated branch names.
    pub branch_prefix: Option<String>,
}

impl Default for ConfigSettings {
    /// No files, no hooks, no base directory, and the standard prefix.
    fn default() -> (r: ConfigSettings)
        ensures
            r.files@.len() == 0,
            r.hooks.pre_create@.len() == 0,
            r.hooks.post_create@.len() == 0,
            r.hooks.pre_remove@.len() == 0,
            r.hooks.post_remove@.len() == 0,
            r.worktree_base is None,
            r.branch_prefix matches Some(p) && p@ == "agent"@,
    {
        ConfigSettings {
            files: Vec::new(),
            hooks: HookConfig::default(),
            worktree_base: None,
            branch_prefix: Some(crate::text::str_to_string("agent")),
        }
    }
}

/// A loaded configuration: the merged settings plus where they came from.
#[derive(Debug, Clone)]
pub struct Config {
    /// The merged settings.
    pub settings: ConfigSettings,
    /// The project configuration document, if one was read.
    pub path: Option<String>,
    /// The global configuration document, if one was read.
    pub global_path: Option<String>,
}

impl Config {
    /// An empty configuration with default settings.
    pub fn new() -> (r: Config)
        ensures
            r.settings.files@.len() == 0,
            r.settings.hooks.pre_create@.len() == 0,
            r.settings.hooks.post_create@.len() == 0,
            r.settings.hooks.pre_remove@.len() == 0,
            r.settings.hooks.post_remove@.len() == 0,
            r.settings.branch_prefix matches Some(p) && p@ == "agent"@,
            r.path is None,
            r.global_path is None,
    {
        Config { settings: ConfigSettings::default(), path: None, global_path: None }
    }

    /// A configuration pre-filled with illustrative mappings and hooks.
    pub fn default_example() -> (r: Config)
        ensures
            r.settings.files@.len() == 2,
            r.settings.files@[0].path@ == ".env.template"@,
            r.settings.files@[0].mapping_type == MappingType::Copy,
            r.settings.files@[0].skip_if_exists,
            r.settings.files@[1].path@ == ".tools/config.json"@,
            r.settings.files@[1].mapping_type == MappingType::Symlink,
            !r.settings.files@[1].skip_if_exists,
            r.settings.hooks.pre_create@.len() == 1,
            r.settings.hooks.post_create@.len() == 1,
            r.settings.hooks.pre_remove@.len() == 0,
            r.settings.hooks.post_remove@.len() == 0,
            r.settings.worktree_base matches Some(b) && b@ == "../workspaces"@,
            r.path is None,
            r.global_path is None,
    {
        let mut settings = ConfigSettings::default();
        let mut files: Vec<FileMapping> = Vec::new();
        files.push(
            FileMapping {
                path: crate::text::str_to_string(".env.template"),
                mapping_type: MappingType::Copy,
                description: Some(crate::text::str_to_string("Environment variable template")),
                skip_if_exists: true,
            },
        );
        files.push(
            FileMapping {
                path: crate::text::str_to_string(".tools/config.json"),
                mapping_type: MappingType::Symlink,
                description: Some(crate::text::str_to_string("Assistant settings")),
                skip_if_exists: false,
            },
        );
        settings.files = files;
        let mut pre_create: Vec<HookCommand> = Vec::new();
        let mut pre_args: Vec<String> = Vec::new();
        pre_args.push(crate::text::str_to_string("Creating worktree: {branch}"));
        pre_create.push(
            HookCommand {
                command: crate::text::str_to_string("echo"),
                args: pre_args,
                env: Vec::new(),
                timeout: 60,
                continue_on_error: false,
            },
        );
        let mut post_create: Vec<HookCommand> = Vec::new();
        let mut post_args: Vec<String> = Vec::new();
        post_args.push(crate::text::str_to_string("Worktree created at: {worktree_path}"));
        post_create.push(
            HookCommand {
                command: crate::text::str_to_string("echo"),
                args: post_args,
                env: Vec::new(),
                timeout: 60,
                continue_on_error: false,
            },
        );
        settings.hooks = HookConfig {
            pre_create,
            post_create,
            pre_remove: Vec::new(),
            post_remove: Vec::new(),
        };
        settings.worktree_base = Some(crate::text::str_to_string("../workspaces"));
        Config { settings, path: None, global_path: None }
    }
}

/// The operation a partial-failure report speaks of.
#[derive(Debug, Clone)]
pub enum OperationType {
    CreateEnvironment,
    RemoveEnvironment,
    SwitchEnvironment,
    CreateSymlinks,
    RemoveSymlinks,
}

} // verus!

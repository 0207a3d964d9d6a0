//! The application-level configuration: file mappings, hooks, the worktree
//! base directory and the branch prefix, with the merge of a global and a
//! project document.

use vstd::prelude::*;
use crate::types::{FileMapping, HookCommand, HookConfig, MappingType};
use crate::text;

verus! {

/// The branch prefix used when no document names one.
pub fn default_branch_prefix() -> (r: String)
    ensures
        r@ == "agent/"@,
{
    text::str_to_string("agent/")
}

/// A loaded application configuration.
#[derive(Debug, Clone)]
pub struct Config {
    /// Files to provision into each workspace.
    pub files: Vec<FileMapping>,
    /// Lifecycle hooks.
    pub hooks: HookConfig,
    /// Base directory under which worktrees are placed.
    pub worktree_base: Option<String>,
    /// Prefix for generated branch names.
    pub branch_prefix: String,
}

impl Default for Config {
    /// No files, no hooks, no base directory, the standard prefix.
    fn default() -> (r: Config)
        ensures
            r.files@.len() == 0,
            r.hooks.pre_create@.len() == 0,
            r.hooks.post_create@.len() == 0,
            r.hooks.pre_remove@.len() == 0,
            r.hooks.post_remove@.len() == 0,
            r.worktree_base is None,
            r.branch_prefix@ == "agent/"@,
    {
        Config {
            files: Vec::new(),
            hooks: HookConfig::default(),
            worktree_base: None,
            branch_prefix: default_branch_prefix(),
        }
    }
}

impl Config {
    /// A configuration pre-filled with illustrative mappings and hooks.
    pub fn example() -> (r: Config)
        ensures
            r.files@.len() == 3,
            r.files@[0].path@ == ".env"@,
            r.files@[0].mapping_type == MappingType::Symlink,
            r.files@[1].path@ == ".env.local"@,
            r.files@[1].mapping_type == MappingType::Copy,
            r.files@[2].path@ == ".vscode/settings.local.json"@,
            r.files@[2].mapping_type == MappingType::Symlink,
            r.files@[2].skip_if_exists,
            r.hooks.pre_create@.len() == 0,
            r.hooks.post_create@.len() == 2,
            r.hooks.post_create@[0].command@ == "echo"@,
            r.hooks.post_create@[0].timeout == 60,
            !r.hooks.post_create@[0].continue_on_error,
            r.hooks.post_create@[1].command@ == "npm"@,
            r.hooks.post_create@[1].timeout == 300,
            r.hooks.pre_remove@.len() == 1,
            r.hooks.pre_remove@[0].continue_on_error,
            r.hooks.post_remove@.len() == 0,
            r.worktree_base matches Some(b) && b@ == "./worktrees"@,
            r.branch_prefix@ == "agent/"@,
    {
        let mut files: Vec<FileMapping> = Vec::new();
        files.push(
            FileMapping {
                path: text::str_to_string(".env"),
                mapping_type: MappingType::Symlink,
                description: Some(text::str_to_string("Shared environment variables")),
                skip_if_exists: false,
            },
        );
        files.push(
            FileMapping {
                path: text::str_to_string(".env.local"),
                mapping_type: MappingType::Copy,
                description: Some(
                    text::str_to_string("Per-workspace environment variables"),
                ),
                skip_if_exists: false,
            },
        );
        files.push(
            FileMapping {
                path: text::str_to_string(".vscode/settings.local.json"),
                mapping_type: MappingType::Symlink,
                description: Some(text::str_to_string("Editor settings")),
                skip_if_exists: true,
            },
        );
        let mut post_create: Vec<HookCommand> = Vec::new();
        let mut echo_args: Vec<String> = Vec::new();
        echo_args.push(text::str_to_string("Setting up environment..."));
        post_create.push(
            HookCommand {
                command: text::str_to_string("echo"),
                args: echo_args,
                env: Vec::new(),
                timeout: 60,
                continue_on_error: false,
            },
        );
        let mut npm_args: Vec<String> = Vec::new();
        npm_args.push(text::str_to_string("install"));
        let mut npm_env: Vec<(String, String)> = Vec::new();
        npm_env.push((text::str_to_string("NODE_ENV"), text::str_to_string("production")));
        post_create.push(
            HookCommand {
                command: text::str_to_string("npm"),
                args: npm_args,
                env: npm_env,
                timeout: 300,
                continue_on_error: false,
            },
        );
        let mut pre_remove: Vec<HookCommand> = Vec::new();
        let mut clean_args: Vec<String> = Vec::new();
        clean_args.push(text::str_to_string("Cleaning up environment..."));
        pre_remove.push(
            HookCommand {
                command: text::str_to_string("echo"),
                args: clean_args,
                env: Vec::new(),
                timeout: 60,
                continue_on_error: true,
            },
        );
        Config {
            files,
            hooks: HookConfig {
                pre_create: Vec::new(),
                post_create,
                pre_remove,
                post_remove: Vec::new(),
            },
            worktree_base: Some(text::str_to_string("./worktrees")),
            branch_prefix: default_branch_prefix(),
        }
    }

    /// Merge a global and a project configuration: each project setting
    /// wins where it differs from the defaults, and the global setting
    /// fills the rest.
    pub fn merge(global: Config, project: Config) -> (r: Config)
        ensures
            r.files@ == if project.files@.len() > 0 {
                project.files@
            } else {
                global.files@
            },
            ({
                let project_hooks_set = project.hooks.pre_create@.len() > 0
                    || project.hooks.post_create@.len() > 0 || project.hooks.pre_remove@.len() > 0
                    || project.hooks.post_remove@.len() > 0;
                (project_hooks_set ==> r.hooks == project.hooks) && (!project_hooks_set
                    ==> r.hooks == global.hooks)
            }),
            r.worktree_base == if project.worktree_base is Some {
                project.worktree_base
            } else {
                global.worktree_base
            },
            r.branch_prefix@ == if project.branch_prefix@ != "agent/"@ {
                project.branch_prefix@
            } else {
                global.branch_prefix@
            },
    {
        proof {
            reveal_strlit("agent/");
        }
        let files = if project.files.len() > 0 {
            project.files
        } else {
            global.files
        };
        let hooks = if !project.hooks.is_empty() {
            project.hooks
        } else {
            global.hooks
        };
        let worktree_base = match project.worktree_base {
            Some(b) => Some(b),
            None => global.worktree_base,
        };
        let default_prefix = default_branch_prefix();
        let branch_prefix = if !text::str_eq(
            project.branch_prefix.as_str(),
            default_prefix.as_str(),
        ) {
            project.branch_prefix
        } else {
            global.branch_prefix
        };
        Config { files, hooks, worktree_base, branch_prefix }
    }
}

} // verus!

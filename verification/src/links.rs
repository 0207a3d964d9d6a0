//! Link provisioning decisions: which strategy a platform supports, and how
//! a link's health is judged. The filesystem work itself is the caller's.

use vstd::prelude::*;
use crate::text;

verus! {

/// How a file correspondence is realised.
#[derive(Debug, Clone, Copy, PartialEq, Eq, Structural)]
pub enum LinkStrategy {
    /// A native symbolic link.
    Symlink,
    /// A directory junction.
    Junction,
    /// A hard link.
    Hardlink,
    /// A full copy.
    Copy,
}

/// A link exists and is healthy only if an entry is present at the target,
/// the entry is a link, and its reference resolves; a broken link is
/// distinct from an absent one.
pub fn link_is_valid(exists: bool, is_link: bool, resolves: bool) -> (r: bool)
    ensures
        r == (exists && is_link && resolves),
{
    exists && is_link && resolves
}

/// Link decisions on platforms with native symbolic links.
#[derive(Debug)]
pub struct UnixSymlinkManager;

impl UnixSymlinkManager {
    /// The manager; no privilege probing is needed.
    pub fn new() -> (r: UnixSymlinkManager) {
        UnixSymlinkManager
    }

    /// Native links are always available.
    pub fn select_strategy(&self, _source: &str, _target: &str) -> (r: LinkStrategy)
        ensures
            r == LinkStrategy::Symlink,
    {
        LinkStrategy::Symlink
    }

    /// The command a user would run to create the link by hand.
    pub fn get_manual_instructions(&self, source: &str, target: &str) -> (r: String)
        ensures
            r@ == "To manually create the symlink, run:\n  ln -s \""@ + source@ + "\" \""@
                + target@ + "\""@,
    {
        let head = text::concat3("To manually create the symlink, run:\n  ln -s \"", source,
            "\" \"");
        text::concat2(head.as_str(), text::concat2(target, "\"").as_str())
    }
}

/// Link decisions on platforms where native links need a privilege: links
/// when the developer mode or elevation allows them, a copy otherwise.
#[derive(Debug)]
pub struct WindowsSymlinkManager {
    /// Whether the developer mode permits unprivileged links.
    pub developer_mode: bool,
    /// Whether the process runs elevated.
    pub is_elevated: bool,
}

impl WindowsSymlinkManager {
    /// A manager for the given privilege probe results; the probing itself
    /// is platform work done by the caller.
    pub fn new(developer_mode: bool, is_elevated: bool) -> (r: WindowsSymlinkManager)
        ensures
            r.developer_mode == developer_mode,
            r.is_elevated == is_elevated,
    {
        WindowsSymlinkManager { developer_mode, is_elevated }
    }

    /// Native linking when the privilege context supports it, otherwise a
    /// full copy; a pure function of the probed state.
    pub fn select_strategy(&self, _source: &str, _target: &str) -> (r: LinkStrategy)
        ensures
            r == if self.developer_mode || self.is_elevated {
                LinkStrategy::Symlink
            } else {
                LinkStrategy::Copy
            },
    {
        if self.developer_mode || self.is_elevated {
            LinkStrategy::Symlink
        } else {
            LinkStrategy::Copy
        }
    }

    /// The command a user would run to create the link by hand.
    pub fn get_manual_instructions(&self, source: &str, target: &str) -> (r: String)
        ensures
            r@ == "mklink \""@ + target@ + "\" \""@ + source@ + "\""@,
    {
        let head = text::concat3("mklink \"", target, "\" \"");
        text::concat2(head.as_str(), text::concat2(source, "\"").as_str())
    }
}

/// The link manager for the platform this library is built for.
pub fn create_symlink_manager() -> (r: UnixSymlinkManager) {
    UnixSymlinkManager::new()
}

} // verus!

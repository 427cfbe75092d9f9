//! Disk usage of the service data directories: what a walk does with each entry
//! it meets, and how block counts become bytes.
use vstd::prelude::*;

verus! {

/// `st_blocks` counts 512-byte units whatever the filesystem's own block size.
pub const BLOCK_SIZE: u64 = 512;

/// What a directory entry is, as its own metadata (not its target's) says.
#[derive(Debug, Clone, Copy, PartialEq, Eq)]
pub enum EntryKind {
    Symlink,
    Directory,
    File,
}

/// What a walk does with one entry.
#[derive(Debug, Clone, Copy, PartialEq, Eq)]
pub enum WalkStep {
    /// Neither followed nor counted.
    Skip,
    /// Walked later; its own inode is charged when it is.
    Descend,
    /// Charged this many bytes.
    Charge(u64),
}

/// The bytes `blocks` 512-byte units take.
pub open spec fn block_bytes(blocks: u64) -> int {
    blocks * BLOCK_SIZE
}

/// What a walk does with an entry of kind `kind` occupying `blocks` units:
/// symlinks are neither followed nor counted, directories are descended into,
/// and files are charged their block usage rather than their apparent size.
pub fn entry_step(kind: EntryKind, blocks: u64) -> (step: WalkStep)
    requires
        block_bytes(blocks) <= u64::MAX,
    ensures
        kind == EntryKind::Symlink ==> step == WalkStep::Skip,
        kind == EntryKind::Directory ==> step == WalkStep::Descend,
        kind == EntryKind::File ==> step == WalkStep::Charge((blocks * BLOCK_SIZE) as u64),
{
    match kind {
        EntryKind::Symlink => WalkStep::Skip,
        EntryKind::Directory => WalkStep::Descend,
        EntryKind::File => WalkStep::Charge(blocks * BLOCK_SIZE),
    }
}

/// A running total after charging `blocks` more units.
pub fn charge(total: u64, blocks: u64) -> (next: u64)
    requires
        total + block_bytes(blocks) <= u64::MAX,
    ensures
        next == total + block_bytes(blocks),
{
    total + blocks * BLOCK_SIZE
}

/// Which root entries become a series: immediate subdirectories with a name
/// that is valid text. Loose files at the root belong to no service.
pub fn is_series_root(kind: EntryKind, name_is_text: bool) -> (series: bool)
    ensures
        series == (kind == EntryKind::Directory && name_is_text),
{
    match kind {
        EntryKind::Directory => name_is_text,
        _ => false,
    }
}

} // verus!

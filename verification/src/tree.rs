//! The in-memory model of the input directory tree, and what the walk reads
//! off it: which relative paths are eligible files, which are directories,
//! and the destination path derived for an eligible file.
//!
//! Reading this model off the file system is the caller's unverified edge;
//! every rule about it is stated and proved here.

use vstd::prelude::*;
use crate::name::{eligible_name, png_name_of};

verus! {

/// One directory: the names of its regular files and its named
/// subdirectories. Entries that are neither (symlinks, devices) are not
/// represented; the walk skips them.
pub struct DirTree {
    pub files: Vec<Vec<u8>>,
    pub subdirs: Vec<(Vec<u8>, DirTree)>,
}

/// The sequence of byte-string components of a path held as a vector.
pub open spec fn path_view(p: Vec<Vec<u8>>) -> Seq<Seq<u8>> {
    Seq::new(p@.len() as nat, |i: int| p@[i]@)
}

/// `rel` (a non-empty component path relative to `t`) names an eligible
/// file of the walk: its last component is a file name with a non-empty
/// extension, found either directly in `t`, or — when `recursive` is set —
/// inside the subdirectory chain that the leading components name. With
/// `recursive` unset, subdirectories are skipped entirely.
pub open spec fn eligible_under(t: DirTree, recursive: bool, rel: Seq<Seq<u8>>) -> bool
    decreases t,
{
    if rel.len() == 1 {
        exists|k: int|
            0 <= k < t.files@.len() && t.files@[k]@ == rel[0] && eligible_name(rel[0])
    } else if rel.len() > 1 && recursive {
        exists|i: int|
            0 <= i < t.subdirs@.len() && t.subdirs@[i].0@ == rel[0] && eligible_under(
                t.subdirs@[i].1,
                recursive,
                rel.skip(1),
            )
    } else {
        false
    }
}

/// `rel` names a directory somewhere under `t`.
pub open spec fn dir_under(t: DirTree, rel: Seq<Seq<u8>>) -> bool
    decreases t,
{
    rel.len() >= 1 && exists|i: int|
        0 <= i < t.subdirs@.len() && t.subdirs@[i].0@ == rel[0] && (rel.len() == 1 || dir_under(
            t.subdirs@[i].1,
            rel.skip(1),
        ))
}

/// The destination path of an eligible source path: the same position in
/// the mirrored tree, with the file name's extension replaced by `png`.
pub open spec fn dest_of(src: Seq<Seq<u8>>) -> Seq<Seq<u8>>
    recommends
        src.len() >= 1,
{
    src.update(src.len() - 1, png_name_of(src.last()))
}

/// A tree with no entries yields nothing: no eligible file and no
/// directory, whatever the flag and the path.
pub proof fn lemma_empty_tree_yields_nothing(t: DirTree, recursive: bool, rel: Seq<Seq<u8>>)
    requires
        t.files@.len() == 0,
        t.subdirs@.len() == 0,
    ensures
        !eligible_under(t, recursive, rel),
        !dir_under(t, rel),
{
}

} // verus!

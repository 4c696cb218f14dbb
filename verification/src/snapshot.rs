//! What was found on disk, as plain values.
//!
//! Resolution never touches the file system. It works on a snapshot: a list
//! of paths, each with what was found there. Where a path is listed twice
//! the first listing counts.

use vstd::prelude::*;

verus! {

/// A file that was read: where it lies and what it holds.
#[derive(Debug)]
pub struct SourceFile {
    pub path: String,
    pub text: String,
}

/// What lies at a path.
#[derive(Debug)]
pub enum Node {
    /// A regular file with its text.
    File(String),
    /// A directory with the regular files directly inside it, each with its
    /// full path. Subdirectories are not listed. The order of the list is
    /// the listing order, which decides between two drop-ins of one
    /// directory: the later file wins. Whoever takes the snapshot should
    /// list in lexicographic order of the paths, so that the outcome does
    /// not depend on the file system.
    Dir(Vec<SourceFile>),
    /// A directory whose contents could not be listed.
    Unreadable,
}

/// The paths that were looked at and what was found there. A path that is
/// not listed does not exist.
#[derive(Debug)]
pub struct FsSnapshot {
    pub nodes: Vec<(String, Node)>,
}

/// Text of each string of a list.
pub open spec fn views(s: Seq<String>) -> Seq<Seq<char>> {
    Seq::new(s.len(), |i: int| s[i]@)
}

/// The first node listed under `path` at position `i` or later.
pub open spec fn node_from(nodes: Seq<(String, Node)>, path: Seq<char>, i: int) -> Option<Node>
    decreases nodes.len() - i,
{
    if i < 0 || i >= nodes.len() {
        None
    } else if nodes[i].0@ == path {
        Some(nodes[i].1)
    } else {
        node_from(nodes, path, i + 1)
    }
}

/// What the snapshot holds at `path`.
pub open spec fn node_at(nodes: Seq<(String, Node)>, path: Seq<char>) -> Option<Node> {
    node_from(nodes, path, 0)
}

/// A regular file lies at `path`.
pub open spec fn is_file_at(nodes: Seq<(String, Node)>, path: Seq<char>) -> bool {
    node_at(nodes, path) matches Some(Node::File(_))
}

/// A directory lies at `path`, readable or not.
pub open spec fn is_dir_at(nodes: Seq<(String, Node)>, path: Seq<char>) -> bool {
    match node_at(nodes, path) {
        Some(Node::Dir(_)) => true,
        Some(Node::Unreadable) => true,
        _ => false,
    }
}

impl FsSnapshot {
    /// Looks a path up.
    pub fn lookup(&self, path: &String) -> (r: Option<&Node>)
        ensures
            r is Some <==> node_at(self.nodes@, path@) is Some,
            r is Some ==> *r.unwrap() == node_at(self.nodes@, path@).unwrap(),
    {
        let mut i: usize = 0;
        while i < self.nodes.len()
            invariant
                i <= self.nodes.len(),
                node_at(self.nodes@, path@) == node_from(self.nodes@, path@, i as int),
            decreases self.nodes.len() - i,
        {
            if self.nodes[i].0 == *path {
                return Some(&self.nodes[i].1);
            }
            i = i + 1;
        }
        None
    }
}

} // verus!

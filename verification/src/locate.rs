//! Where configuration is looked for: the directory catalog, the main file
//! and the drop-in files.

use crate::error::CfgError;
use crate::path::{dotted, join, join_path, with_extension};
use crate::snapshot::{is_dir_at, is_file_at, node_at, views, FsSnapshot, Node, SourceFile};
use vstd::prelude::*;
use vstd::string::*;

verus! {

/// The path of the main file for one directory and one extension.
pub open spec fn candidate(dir: Seq<char>, name: Seq<char>, ext: Seq<char>) -> Seq<char> {
    join(dir, dotted(name, ext))
}

/// The first extension at position `j` or later whose candidate in `dir` is
/// a regular file.
pub open spec fn ext_hit_from(
    nodes: Seq<(String, Node)>,
    dir: Seq<char>,
    name: Seq<char>,
    exts: Seq<Seq<char>>,
    j: int,
) -> Option<int>
    decreases exts.len() - j,
{
    if j < 0 || j >= exts.len() {
        None
    } else if is_file_at(nodes, candidate(dir, name, exts[j])) {
        Some(j)
    } else {
        ext_hit_from(nodes, dir, name, exts, j + 1)
    }
}

/// The first directory at position `i` or later that holds a main file, with
/// the first extension that matches there.
pub open spec fn main_from(
    nodes: Seq<(String, Node)>,
    dirs: Seq<Seq<char>>,
    name: Seq<char>,
    exts: Seq<Seq<char>>,
    i: int,
) -> Option<(int, int)>
    decreases dirs.len() - i,
{
    if i < 0 || i >= dirs.len() {
        None
    } else {
        match ext_hit_from(nodes, dirs[i], name, exts, 0) {
            Some(j) => Some((i, j)),
            None => main_from(nodes, dirs, name, exts, i + 1),
        }
    }
}

/// The main file, as the positions of its directory and its extension:
/// directories are tried in order, and in each the extensions in order.
pub open spec fn main_file(
    nodes: Seq<(String, Node)>,
    dirs: Seq<Seq<char>>,
    name: Seq<char>,
    exts: Seq<Seq<char>>,
) -> Option<(int, int)> {
    main_from(nodes, dirs, name, exts, 0)
}

/// Finds the main file: the first candidate that is a regular file, going
/// through the directories in order and, in each, through the extensions in
/// order. No main file is a valid outcome.
pub fn find_conf(
    fs: &FsSnapshot,
    paths: &Vec<String>,
    name: &str,
    extension_list: &Vec<String>,
) -> (r: Option<SourceFile>)
    ensures
        match main_file(fs.nodes@, views(paths@), name@, views(extension_list@)) {
            None => r is None,
            Some((i, j)) => 0 <= i < paths.len() && 0 <= j < extension_list.len() && r is Some
                && r.unwrap().path@ == candidate(
                views(paths@)[i],
                name@,
                views(extension_list@)[j],
            ) && node_at(fs.nodes@, r.unwrap().path@) == Some(Node::File(r.unwrap().text)),
        },
{
    let ghost nodes = fs.nodes@;
    let ghost dirs = views(paths@);
    let ghost exts = views(extension_list@);
    let mut i: usize = 0;
    while i < paths.len()
        invariant
            i <= paths.len(),
            nodes == fs.nodes@,
            dirs == views(paths@),
            exts == views(extension_list@),
            main_file(nodes, dirs, name@, exts) == main_from(nodes, dirs, name@, exts, i as int),
        decreases paths.len() - i,
    {
        let mut j: usize = 0;
        while j < extension_list.len()
            invariant
                i < paths.len(),
                j <= extension_list.len(),
                nodes == fs.nodes@,
                dirs == views(paths@),
                exts == views(extension_list@),
                main_file(nodes, dirs, name@, exts) == main_from(nodes, dirs, name@, exts, i as int),
                ext_hit_from(nodes, dirs[i as int], name@, exts, 0) == ext_hit_from(
                    nodes,
                    dirs[i as int],
                    name@,
                    exts,
                    j as int,
                ),
            decreases extension_list.len() - j,
        {
            let leaf = with_extension(name, extension_list[j].as_str());
            let path = join_path(paths[i].as_str(), leaf.as_str());
            match fs.lookup(&path) {
                Some(node) => match node {
                    Node::File(text) => {
                        return Some(SourceFile { path, text: text.clone() });
                    },
                    _ => {},
                },
                None => {},
            }
            j = j + 1;
        }
        i = i + 1;
    }
    None
}

/// The drop-in directory of one base directory, with its path: `<name>.d`
/// where that is a directory, else `<name>.conf.d` where that is one.
pub open spec fn dropin_dir_at(nodes: Seq<(String, Node)>, dir: Seq<char>, name: Seq<char>) -> Option<
    (Seq<char>, Node),
> {
    let short = join(dir, name + ".d"@);
    let long = join(dir, name + ".conf.d"@);
    if is_dir_at(nodes, short) {
        Some((short, node_at(nodes, short).unwrap()))
    } else if is_dir_at(nodes, long) {
        Some((long, node_at(nodes, long).unwrap()))
    } else {
        None
    }
}

/// The drop-in directory of this base directory exists and cannot be listed.
pub open spec fn has_unreadable_dropin_dir(nodes: Seq<(String, Node)>, dir: Seq<char>, name: Seq<char>) -> bool {
    dropin_dir_at(nodes, dir, name) matches Some((_, Node::Unreadable))
}

/// The drop-in files of the directories at positions `lo` up to `hi`, in the
/// order in which they are applied: those of a later directory first, and
/// the files of one directory in listing order. Nothing where one of the
/// drop-in directories cannot be listed.
pub open spec fn dropins_between(
    nodes: Seq<(String, Node)>,
    dirs: Seq<Seq<char>>,
    name: Seq<char>,
    lo: int,
    hi: int,
) -> Option<Seq<SourceFile>>
    decreases hi - lo,
{
    if lo < 0 || lo >= hi || hi > dirs.len() {
        Some(Seq::empty())
    } else {
        match dropins_between(nodes, dirs, name, lo + 1, hi) {
            None => None,
            Some(lower) => match dropin_dir_at(nodes, dirs[lo], name) {
                Some((_, Node::Dir(files))) => Some(lower + files@),
                Some((_, Node::Unreadable)) => None,
                _ => Some(lower),
            },
        }
    }
}

/// All drop-in files in the order in which they are applied. A directory
/// earlier in the catalog has the higher priority, so its files come later.
pub open spec fn dropin_files(nodes: Seq<(String, Node)>, dirs: Seq<Seq<char>>, name: Seq<char>) -> Option<
    Seq<SourceFile>,
> {
    dropins_between(nodes, dirs, name, 0, dirs.len() as int)
}

/// One unreadable drop-in directory leaves no list of drop-in files.
pub proof fn lemma_unreadable_blocks(
    nodes: Seq<(String, Node)>,
    dirs: Seq<Seq<char>>,
    name: Seq<char>,
    lo: int,
    hi: int,
    k: int,
)
    requires
        0 <= lo <= k < hi <= dirs.len(),
        dropin_dir_at(nodes, dirs[k], name) matches Some((_, Node::Unreadable)),
    ensures
        dropins_between(nodes, dirs, name, lo, hi) is None,
    decreases k - lo,
{
    if lo < k {
        lemma_unreadable_blocks(nodes, dirs, name, lo + 1, hi, k);
    }
}

/// The drop-in directory under one base directory, if there is one.
pub fn dropin_dir<'a>(fs: &'a FsSnapshot, dir: &str, name: &str) -> (r: Option<(String, &'a Node)>)
    ensures
        match dropin_dir_at(fs.nodes@, dir@, name@) {
            None => r is None,
            Some((path, node)) => r is Some && r.unwrap().0@ == path && *r.unwrap().1 == node,
        },
{
    let short = join_path(dir, name.to_owned().concat(".d").as_str());
    match fs.lookup(&short) {
        Some(node) => match node {
            Node::File(_) => {},
            _ => {
                return Some((short, node));
            },
        },
        None => {},
    }
    let long = join_path(dir, name.to_owned().concat(".conf.d").as_str());
    match fs.lookup(&long) {
        Some(node) => match node {
            Node::File(_) => {},
            _ => {
                return Some((long, node));
            },
        },
        None => {},
    }
    None
}

/// Collects the drop-in files of every base directory, in the order in which
/// they are to be applied: lowest priority first. A directory that is not
/// there is passed over; one that cannot be listed is an error, and where
/// there are several the error names the one latest in the catalog.
pub fn find_dropins(fs: &FsSnapshot, conf_dirs: &Vec<String>, name: &str) -> (r: Result<
    Vec<SourceFile>,
    CfgError,
>)
    ensures
        match dropin_files(fs.nodes@, views(conf_dirs@), name@) {
            Some(files) => r is Ok && r.unwrap()@ == files,
            None => r is Err,
        },
        r is Err ==> (r.unwrap_err() matches CfgError::DropinDirUnreadable { path } && exists|k: int|
            0 <= k < conf_dirs.len() && #[trigger] dropin_dir_at(fs.nodes@, conf_dirs@[k]@, name@)
                == Some((path@, Node::Unreadable)) && forall|later: int|
                k < later < conf_dirs.len() ==> !has_unreadable_dropin_dir(
                    fs.nodes@,
                    #[trigger] conf_dirs@[later]@,
                    name@,
                )),
{
    let ghost nodes = fs.nodes@;
    let ghost dirs = views(conf_dirs@);
    let mut list: Vec<SourceFile> = Vec::new();
    let mut i: usize = conf_dirs.len();
    while i > 0
        invariant
            i <= conf_dirs.len(),
            nodes == fs.nodes@,
            dirs == views(conf_dirs@),
            dropins_between(nodes, dirs, name@, i as int, dirs.len() as int) == Some(list@),
            forall|later: int|
                i <= later < conf_dirs.len() ==> !has_unreadable_dropin_dir(
                    nodes,
                    #[trigger] conf_dirs@[later]@,
                    name@,
                ),
        decreases i,
    {
        i = i - 1;
        let ghost lower = list@;
        match dropin_dir(fs, conf_dirs[i].as_str(), name) {
            Some((path, node)) => match node {
                Node::Dir(files) => {
                    let mut k: usize = 0;
                    while k < files.len()
                        invariant
                            k <= files.len(),
                            list@ == lower + files@.take(k as int),
                        decreases files.len() - k,
                    {
                        list.push(SourceFile { path: files[k].path.clone(), text: files[k].text.clone() });
                        k = k + 1;
                        assert(files@.take(k as int) =~= files@.take(k - 1).push(files@[k - 1]));
                    }
                    assert(files@.take(k as int) =~= files@);
                },
                Node::Unreadable => {
                    proof {
                        lemma_unreadable_blocks(nodes, dirs, name@, 0, dirs.len() as int, i as int);
                    }
                    return Err(CfgError::DropinDirUnreadable { path });
                },
                Node::File(_) => {},
            },
            None => {},
        }
    }
    Ok(list)
}

/// One base directory as it enters the catalog: alone, or followed by its
/// project subdirectory.
pub open spec fn catalog_entry(base: Seq<char>, project: Option<Seq<char>>) -> Seq<Seq<char>> {
    match project {
        None => seq![base],
        Some(p) => seq![base, join(base, p)],
    }
}

/// The default catalog, highest priority first: `/etc`, `/run`, `/usr/etc`,
/// `/usr/share`, `/usr/lib`, each followed by its project subdirectory where
/// a project name is set.
pub open spec fn default_dirs(project: Option<Seq<char>>) -> Seq<Seq<char>> {
    catalog_entry("/etc"@, project) + catalog_entry("/run"@, project) + catalog_entry(
        "/usr/etc"@,
        project,
    ) + catalog_entry("/usr/share"@, project) + catalog_entry("/usr/lib"@, project)
}

/// The text of an optional string.
pub open spec fn option_view(s: Option<String>) -> Option<Seq<char>> {
    match s {
        None => None,
        Some(text) => Some(text@),
    }
}

fn push_base(dirs: &mut Vec<String>, base: &str, project_name: &Option<String>)
    ensures
        views(final(dirs)@) == views(old(dirs)@) + catalog_entry(base@, option_view(*project_name)),
{
    dirs.push(base.to_owned());
    match project_name {
        Some(project) => {
            dirs.push(join_path(base, project.as_str()));
        },
        None => {},
    }
    assert(views(dirs@) =~= views(old(dirs)@) + catalog_entry(base@, option_view(*project_name)));
}

/// The directories that are searched when the caller names none.
pub fn get_default_dirs(project_name: Option<String>) -> (r: Vec<String>)
    ensures
        views(r@) == default_dirs(option_view(project_name)),
{
    let mut dirs: Vec<String> = Vec::new();
    assert(views(dirs@) =~= Seq::empty());
    push_base(&mut dirs, "/etc", &project_name);
    push_base(&mut dirs, "/run", &project_name);
    push_base(&mut dirs, "/usr/etc", &project_name);
    push_base(&mut dirs, "/usr/share", &project_name);
    push_base(&mut dirs, "/usr/lib", &project_name);
    assert(views(dirs@) =~= default_dirs(option_view(project_name)));
    dirs
}

/// The paths that resolution looks at: for each directory of the catalog
/// the main-file candidates, one per extension, and the two places where its
/// drop-in directory may lie.
#[derive(Debug)]
pub struct ProbePlan {
    /// For each directory, the candidate for each extension.
    pub main_candidates: Vec<Vec<String>>,
    /// For each directory, `<name>.d` and `<name>.conf.d` under it.
    pub dropin_dirs: Vec<(String, String)>,
}

impl ProbePlan {
    /// The plan lists exactly the paths that resolution of `name` in `dirs`
    /// with `exts` looks at.
    pub open spec fn covers(&self, dirs: Seq<Seq<char>>, name: Seq<char>, exts: Seq<Seq<char>>) -> bool {
        &&& self.main_candidates@.len() == dirs.len()
        &&& self.dropin_dirs@.len() == dirs.len()
        &&& forall|i: int|
            0 <= i < dirs.len() ==> (#[trigger] self.main_candidates@[i])@.len() == exts.len()
        &&& forall|i: int, j: int|
            0 <= i < dirs.len() && 0 <= j < exts.len() ==> (#[trigger] self.main_candidates@[i]@[j])@
                == candidate(dirs[i], name, exts[j])
        &&& forall|i: int|
            0 <= i < dirs.len() ==> (#[trigger] self.dropin_dirs@[i]).0@ == join(
                dirs[i],
                name + ".d"@,
            ) && self.dropin_dirs@[i].1@ == join(dirs[i], name + ".conf.d"@)
    }
}

/// Lists the paths that have to be looked at to resolve `name` in the given
/// directories with the given extensions.
pub fn plan_probes(paths: &Vec<String>, name: &str, extension_list: &Vec<String>) -> (r: ProbePlan)
    ensures
        r.covers(views(paths@), name@, views(extension_list@)),
{
    let ghost dirs = views(paths@);
    let ghost exts = views(extension_list@);
    let mut main_candidates: Vec<Vec<String>> = Vec::new();
    let mut dropin_dirs: Vec<(String, String)> = Vec::new();
    let mut i: usize = 0;
    while i < paths.len()
        invariant
            i <= paths.len(),
            dirs == views(paths@),
            exts == views(extension_list@),
            main_candidates@.len() == i,
            dropin_dirs@.len() == i,
            forall|a: int| 0 <= a < i ==> (#[trigger] main_candidates@[a])@.len() == exts.len(),
            forall|a: int, b: int|
                0 <= a < i && 0 <= b < exts.len() ==> (#[trigger] main_candidates@[a]@[b])@
                    == candidate(dirs[a], name@, exts[b]),
            forall|a: int|
                0 <= a < i ==> (#[trigger] dropin_dirs@[a]).0@ == join(dirs[a], name@ + ".d"@)
                    && dropin_dirs@[a].1@ == join(dirs[a], name@ + ".conf.d"@),
        decreases paths.len() - i,
    {
        let dir = paths[i].as_str();
        let mut row: Vec<String> = Vec::new();
        let mut j: usize = 0;
        while j < extension_list.len()
            invariant
                i < paths.len(),
                j <= extension_list.len(),
                dir@ == dirs[i as int],
                dirs == views(paths@),
                exts == views(extension_list@),
                row@.len() == j,
                forall|b: int|
                    0 <= b < j ==> (#[trigger] row@[b])@ == candidate(dirs[i as int], name@, exts[b]),
            decreases extension_list.len() - j,
        {
            let leaf = with_extension(name, extension_list[j].as_str());
            row.push(join_path(dir, leaf.as_str()));
            j = j + 1;
        }
        main_candidates.push(row);
        let short = join_path(dir, name.to_owned().concat(".d").as_str());
        let long = join_path(dir, name.to_owned().concat(".conf.d").as_str());
        dropin_dirs.push((short, long));
        i = i + 1;
    }
    ProbePlan { main_candidates, dropin_dirs }
}

} // verus!

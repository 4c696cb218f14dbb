//! Putting the layers together: the main file below, the drop-ins on top.

use crate::dropins::{apply_parsed, dropin_table, fold_dropins, read_dropins};
use crate::entries::{entries_map, lemma_entries_map_concat};
use crate::error::CfgError;
use crate::format::{parse_text, parsed, FileFormat};
use crate::locate::{candidate, dropin_files, find_conf, find_dropins, main_file};
use crate::path::{extension, extension_of};
use crate::snapshot::{node_at, views, FsSnapshot, Node, SourceFile};
use config::Value;
use vstd::prelude::*;

verus! {

/// The table a main file holds: parsed in the format that its extension
/// names. Nothing where the extension names no format or the text is
/// malformed.
pub open spec fn main_file_table(path: Seq<char>, text: Seq<char>) -> Option<Map<Seq<char>, Value>> {
    match FileFormat::of_extension(extension_of(path)) {
        Some(format) => parsed(format, path, text),
        None => None,
    }
}

/// The table of the main layer: that of the main file, and the empty table
/// where there is no main file. Nothing where the main file cannot be
/// parsed.
pub open spec fn main_table(
    nodes: Seq<(String, Node)>,
    dirs: Seq<Seq<char>>,
    name: Seq<char>,
    exts: Seq<Seq<char>>,
) -> Option<Map<Seq<char>, Value>> {
    match main_file(nodes, dirs, name, exts) {
        None => Some(Map::empty()),
        Some((i, j)) => {
            let path = candidate(dirs[i], name, exts[j]);
            match node_at(nodes, path) {
                Some(Node::File(text)) => main_file_table(path, text@),
                _ => None,
            }
        },
    }
}

/// The table of overrides: all drop-in files folded in the order in which
/// they are applied. Nothing where a drop-in directory cannot be listed or a
/// drop-in file is malformed.
pub open spec fn override_table(nodes: Seq<(String, Node)>, dirs: Seq<Seq<char>>, name: Seq<char>) -> Option<
    Map<Seq<char>, Value>,
> {
    match dropin_files(nodes, dirs, name) {
        Some(files) => fold_dropins(files),
        None => None,
    }
}

/// Three layers as one table: defaults at the bottom, the main file over
/// them, the overrides on top.
pub open spec fn layered(
    defaults: Map<Seq<char>, Value>,
    main: Map<Seq<char>, Value>,
    overrides: Map<Seq<char>, Value>,
) -> Map<Seq<char>, Value> {
    defaults.union_prefer_right(main).union_prefer_right(overrides)
}

/// `path` is the main file, and it cannot be parsed; or it is a drop-in file
/// that is malformed.
pub open spec fn is_malformed_source(
    nodes: Seq<(String, Node)>,
    dirs: Seq<Seq<char>>,
    name: Seq<char>,
    exts: Seq<Seq<char>>,
    path: Seq<char>,
) -> bool {
    let as_main = match main_file(nodes, dirs, name, exts) {
        Some((i, j)) => main_table(nodes, dirs, name, exts) is None && path == candidate(
            dirs[i],
            name,
            exts[j],
        ),
        None => false,
    };
    let as_dropin = match dropin_files(nodes, dirs, name) {
        Some(files) => exists|k: int|
            0 <= k < files.len() && files[k].path@ == path && #[trigger] dropin_table(files[k])
                is None,
        None => false,
    };
    as_main || as_dropin
}

/// Parses a main file in the format of its extension.
pub fn read_main(file: &SourceFile) -> (r: Result<Vec<(String, Value)>, CfgError>)
    ensures
        match main_file_table(file.path@, file.text@) {
            Some(table) => r is Ok && entries_map(r.unwrap()@) == table,
            None => r matches Err(CfgError::Parse { path, .. }) && path == file.path,
        },
{
    let ext = extension(file.path.as_str());
    match FileFormat::from_extension(ext.as_str()) {
        Some(format) => {
            let outcome = parse_text(format, &file.path, file.text.as_str());
            let r = apply_parsed(Vec::new(), &file.path, outcome);
            proof {
                if outcome is Ok {
                    assert(Seq::<(String, Value)>::empty() + outcome.unwrap()@ =~= outcome.unwrap()@);
                }
            }
            r
        },
        None => Err(
            CfgError::Parse {
                path: file.path.clone(),
                message: "not of a supported file format".to_owned(),
            },
        ),
    }
}

/// Reads the main file and the drop-ins of one name from the directories
/// given, and hands back the entries of the main file followed by the
/// overrides. An unreadable drop-in directory is reported before any parse
/// error.
pub fn read_config(fs: &FsSnapshot, name: &str, extensions: &Vec<String>, paths: &Vec<String>) -> (r:
    Result<Vec<(String, Value)>, CfgError>)
    ensures
        match (
            main_table(fs.nodes@, views(paths@), name@, views(extensions@)),
            override_table(fs.nodes@, views(paths@), name@),
        ) {
            (Some(main), Some(overrides)) => r is Ok && entries_map(r.unwrap()@)
                == main.union_prefer_right(overrides),
            _ => r is Err,
        },
        r is Err ==> (r.unwrap_err() is DropinDirUnreadable || r.unwrap_err() is Parse),
        dropin_files(fs.nodes@, views(paths@), name@) is None <==> r matches Err(
            CfgError::DropinDirUnreadable { .. },
        ),
        r matches Err(CfgError::Parse { path, .. }) ==> is_malformed_source(
            fs.nodes@,
            views(paths@),
            name@,
            views(extensions@),
            path@,
        ),
{
    let configfile = find_conf(fs, paths, name, extensions);
    let dropin_list = match find_dropins(fs, paths, name) {
        Ok(files) => files,
        Err(e) => {
            return Err(e);
        },
    };
    let mut dropins = match read_dropins(&dropin_list) {
        Ok(entries) => entries,
        Err(e) => {
            return Err(e);
        },
    };
    let mut all = match configfile {
        Some(file) => match read_main(&file) {
            Ok(entries) => entries,
            Err(e) => {
                return Err(e);
            },
        },
        None => Vec::new(),
    };
    proof {
        lemma_entries_map_concat(all@, dropins@);
    }
    all.append(&mut dropins);
    Ok(all)
}

} // verus!

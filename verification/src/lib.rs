//! Layered configuration lookup: one main file plus ordered drop-in
//! fragments, resolved against a snapshot of the conventional directories.
//!
//! Three layers make a configuration. Default values lie at the bottom, the
//! main file over them, the drop-in files on top. Among drop-ins the files of
//! a directory earlier in the catalog win over those of a later one, and
//! within one directory the file later in the listing wins.
//!
//! A key is a top-level key of a file, as the parser hands it out. A nested
//! table is one value under its key: a layer that defines the key replaces
//! the table whole.
//!
//! The library reads no files. [`CfgBuilder::probe_plan`] says which paths
//! matter, the caller records what lies there in an
//! [`snapshot::FsSnapshot`], and [`CfgBuilder::build_config`] resolves the
//! request against it.

pub mod dropins;
pub mod entries;
pub mod error;
pub mod format;
pub mod laws;
pub mod locate;
pub mod path;
pub mod resolve;
pub mod resolved;
pub mod snapshot;

use crate::entries::{entries_map, lemma_entries_map_concat};
use crate::error::CfgError;
use crate::laws::{law_only_probed_paths_matter, lemma_nothing_found};
use crate::locate::{
    candidate, default_dirs, dropin_files, get_default_dirs, option_view, plan_probes, ProbePlan,
};
use crate::path::join;
use crate::resolve::{is_malformed_source, layered, main_table, override_table, read_config};
use crate::resolved::ResolvedConfig;
use crate::snapshot::{node_at, views, FsSnapshot, Node};
use config::Value;
use vstd::prelude::*;

verus! {

/// A request for one application's configuration: its name, the extensions
/// a main file may have, and optionally a project subdirectory, a list of
/// directories to search in place of the default ones, and default values.
#[derive(Debug, Clone)]
pub struct CfgBuilder {
    name: String,
    extensions: Vec<String>,
    project_name: Option<String>,
    path_override: Option<Vec<String>>,
    defaults: Option<Vec<(String, Value)>>,
}

impl CfgBuilder {
    /// The application's name.
    pub closed spec fn name_text(&self) -> Seq<char> {
        self.name@
    }

    /// The extensions a main file may have, in order of preference.
    pub closed spec fn extension_texts(&self) -> Seq<Seq<char>> {
        views(self.extensions@)
    }

    /// The project subdirectory, if one is set.
    pub closed spec fn project_text(&self) -> Option<Seq<char>> {
        option_view(self.project_name)
    }

    /// The directories that replace the default catalog, if any were given.
    pub closed spec fn path_texts(&self) -> Option<Seq<Seq<char>>> {
        match self.path_override {
            Some(paths) => Some(views(paths@)),
            None => None,
        }
    }

    /// The default values: where a key was given more than once, its last
    /// value.
    pub closed spec fn default_table(&self) -> Map<Seq<char>, Value> {
        match self.defaults {
            Some(entries) => entries_map(entries@),
            None => Map::empty(),
        }
    }

    /// The directories that are searched, highest priority first: the
    /// caller's own where given, else the default catalog.
    pub open spec fn search_dirs(&self) -> Seq<Seq<char>> {
        match self.path_texts() {
            Some(paths) => paths,
            None => default_dirs(self.project_text()),
        }
    }

    /// What the request resolves to against a snapshot: defaults below the
    /// main file below the drop-ins. Nothing where a drop-in directory
    /// cannot be listed or a file cannot be parsed.
    pub open spec fn resolution(&self, nodes: Seq<(String, Node)>) -> Option<Map<Seq<char>, Value>> {
        match (
            main_table(nodes, self.search_dirs(), self.name_text(), self.extension_texts()),
            override_table(nodes, self.search_dirs(), self.name_text()),
        ) {
            (Some(main), Some(overrides)) => Some(layered(self.default_table(), main, overrides)),
            _ => None,
        }
    }

    /// With no file anywhere, resolution succeeds and yields the defaults
    /// alone: the empty configuration where none were set.
    pub proof fn law_nothing_found_gives_defaults(&self, nodes: Seq<(String, Node)>)
        requires
            forall|path: Seq<char>| #[trigger] node_at(nodes, path) is None,
        ensures
            self.resolution(nodes) == Some(self.default_table()),
    {
        lemma_nothing_found(
            nodes,
            self.search_dirs(),
            self.name_text(),
            self.extension_texts(),
        );
        assert(layered(self.default_table(), Map::empty(), Map::empty()) =~= self.default_table());
    }

    /// A snapshot of the planned paths is enough: two snapshots that hold
    /// the same at every path of the request's probe plan resolve alike.
    pub proof fn law_planned_paths_suffice(
        &self,
        plan: ProbePlan,
        first: Seq<(String, Node)>,
        second: Seq<(String, Node)>,
    )
        requires
            plan.covers(self.search_dirs(), self.name_text(), self.extension_texts()),
            forall|i: int, j: int|
                0 <= i < plan.main_candidates@.len() && 0 <= j < plan.main_candidates@[i]@.len()
                    ==> #[trigger] node_at(first, plan.main_candidates@[i]@[j]@) == node_at(
                    second,
                    plan.main_candidates@[i]@[j]@,
                ),
            forall|i: int|
                0 <= i < plan.dropin_dirs@.len() ==> #[trigger] node_at(
                    first,
                    plan.dropin_dirs@[i].0@,
                ) == node_at(second, plan.dropin_dirs@[i].0@),
            forall|i: int|
                0 <= i < plan.dropin_dirs@.len() ==> #[trigger] node_at(
                    first,
                    plan.dropin_dirs@[i].1@,
                ) == node_at(second, plan.dropin_dirs@[i].1@),
        ensures
            self.resolution(first) == self.resolution(second),
    {
        let dirs = self.search_dirs();
        let name = self.name_text();
        let exts = self.extension_texts();
        assert forall|i: int, j: int| 0 <= i < dirs.len() && 0 <= j < exts.len() implies #[trigger] node_at(
            first,
            candidate(dirs[i], name, exts[j]),
        ) == node_at(second, candidate(dirs[i], name, exts[j])) by {
            assert(plan.main_candidates@[i]@.len() == exts.len());
            assert(plan.main_candidates@[i]@[j]@ == candidate(dirs[i], name, exts[j]));
        }
        assert forall|i: int| 0 <= i < dirs.len() implies #[trigger] node_at(
            first,
            join(dirs[i], name + ".d"@),
        ) == node_at(second, join(dirs[i], name + ".d"@)) by {
            assert(plan.dropin_dirs@[i].0@ == join(dirs[i], name + ".d"@));
        }
        assert forall|i: int| 0 <= i < dirs.len() implies #[trigger] node_at(
            first,
            join(dirs[i], name + ".conf.d"@),
        ) == node_at(second, join(dirs[i], name + ".conf.d"@)) by {
            assert(plan.dropin_dirs@[i].1@ == join(dirs[i], name + ".conf.d"@));
        }
        law_only_probed_paths_matter(first, second, dirs, name, exts);
    }

    /// A key that a drop-in defines resolves to the drop-in's value, whatever
    /// the main file and the defaults say.
    pub proof fn law_dropin_beats_main_file(&self, nodes: Seq<(String, Node)>, key: Seq<char>)
        requires
            self.resolution(nodes) is Some,
            override_table(nodes, self.search_dirs(), self.name_text()).unwrap().dom().contains(key),
        ensures
            self.resolution(nodes).unwrap().dom().contains(key),
            self.resolution(nodes).unwrap()[key] == override_table(
                nodes,
                self.search_dirs(),
                self.name_text(),
            ).unwrap()[key],
    {
    }

    /// Resolution depends on the request and the snapshot alone: two equal
    /// requests against one snapshot resolve to the same contents.
    pub proof fn law_resolution_repeats(&self, other: &CfgBuilder, nodes: Seq<(String, Node)>)
        requires
            self.name_text() == other.name_text(),
            self.extension_texts() == other.extension_texts(),
            self.project_text() == other.project_text(),
            self.path_texts() == other.path_texts(),
            self.default_table() == other.default_table(),
        ensures
            self.resolution(nodes) == other.resolution(nodes),
    {
    }

    /// Searches the given directories in place of the default catalog.
    pub fn override_paths(&mut self, paths: Vec<String>)
        ensures
            final(self).path_texts() == Some(views(paths@)),
            final(self).name_text() == old(self).name_text(),
            final(self).extension_texts() == old(self).extension_texts(),
            final(self).project_text() == old(self).project_text(),
            final(self).default_table() == old(self).default_table(),
    {
        self.path_override = Some(paths);
    }

    /// Sets the default values, which count where neither the main file nor
    /// a drop-in defines a key.
    pub fn from_defaults(&mut self, defaults: Vec<(String, Value)>)
        ensures
            final(self).default_table() == entries_map(defaults@),
            final(self).name_text() == old(self).name_text(),
            final(self).extension_texts() == old(self).extension_texts(),
            final(self).project_text() == old(self).project_text(),
            final(self).path_texts() == old(self).path_texts(),
    {
        self.defaults = Some(defaults);
    }

    /// Adds the project subdirectory of each default directory to the
    /// catalog.
    pub fn set_project_name(&mut self, project_name: &str)
        ensures
            final(self).project_text() == Some(project_name@),
            final(self).name_text() == old(self).name_text(),
            final(self).extension_texts() == old(self).extension_texts(),
            final(self).path_texts() == old(self).path_texts(),
            final(self).default_table() == old(self).default_table(),
    {
        self.project_name = Some(project_name.to_owned());
    }

    /// Allows one more extension for the main file, after those allowed so
    /// far.
    pub fn set_extension(&mut self, extension: &'static str)
        ensures
            final(self).extension_texts() == old(self).extension_texts().push(extension@),
            final(self).name_text() == old(self).name_text(),
            final(self).project_text() == old(self).project_text(),
            final(self).path_texts() == old(self).path_texts(),
            final(self).default_table() == old(self).default_table(),
    {
        self.extensions.push(extension.to_owned());
        assert(views(self.extensions@) =~= views(old(self).extensions@).push(extension@));
    }

    /// The directories that are searched, highest priority first.
    pub fn search_paths(&self) -> (r: Vec<String>)
        ensures
            views(r@) == self.search_dirs(),
    {
        match &self.path_override {
            Some(paths) => {
                let mut copy: Vec<String> = Vec::new();
                let mut i: usize = 0;
                while i < paths.len()
                    invariant
                        i <= paths.len(),
                        copy@ == paths@.take(i as int),
                    decreases paths.len() - i,
                {
                    copy.push(paths[i].clone());
                    i = i + 1;
                    assert(paths@.take(i as int) =~= paths@.take(i - 1).push(paths@[i - 1]));
                }
                assert(paths@.take(i as int) =~= paths@);
                copy
            },
            None => get_default_dirs(
                match &self.project_name {
                    Some(project) => Some(project.clone()),
                    None => None,
                },
            ),
        }
    }

    /// The paths that a snapshot has to cover for this request.
    pub fn probe_plan(&self) -> (r: ProbePlan)
        ensures
            r.covers(self.search_dirs(), self.name_text(), self.extension_texts()),
    {
        let paths = self.search_paths();
        plan_probes(&paths, self.name.as_str(), &self.extensions)
    }

    /// Resolves the request against a snapshot of the file system.
    pub fn build_config(self, fs: &FsSnapshot) -> (r: Result<ResolvedConfig, CfgError>)
        ensures
            match self.resolution(fs.nodes@) {
                Some(table) => r is Ok && r.unwrap()@ == table,
                None => r is Err,
            },
            r is Err ==> (r.unwrap_err() is DropinDirUnreadable || r.unwrap_err() is Parse),
            dropin_files(fs.nodes@, self.search_dirs(), self.name_text()) is None <==> r matches Err(
                CfgError::DropinDirUnreadable { .. },
            ),
            r matches Err(CfgError::Parse { path, .. }) ==> is_malformed_source(
                fs.nodes@,
                self.search_dirs(),
                self.name_text(),
                self.extension_texts(),
                path@,
            ),
    {
        let paths = match self.path_override {
            Some(paths) => paths,
            None => get_default_dirs(self.project_name),
        };
        let mut layers = match read_config(fs, self.name.as_str(), &self.extensions, &paths) {
            Ok(layers) => layers,
            Err(e) => {
                return Err(e);
            },
        };
        let mut entries = match self.defaults {
            Some(defaults) => defaults,
            None => Vec::new(),
        };
        proof {
            lemma_entries_map_concat(entries@, layers@);
            let main = main_table(
                fs.nodes@,
                self.search_dirs(),
                self.name_text(),
                self.extension_texts(),
            ).unwrap();
            let overrides = override_table(fs.nodes@, self.search_dirs(), self.name_text()).unwrap();
            assert(self.default_table().union_prefer_right(main.union_prefer_right(overrides))
                =~= layered(self.default_table(), main, overrides));
        }
        entries.append(&mut layers);
        Ok(ResolvedConfig::from_entries(entries))
    }
}

/// A request for the configuration of `name`, with the usual extensions and
/// nothing else set.
pub fn new(name: &str) -> (r: CfgBuilder)
    ensures
        r.name_text() == name@,
        r.extension_texts() == seq![
            "ini"@,
            "conf"@,
            "toml"@,
            "yaml"@,
            "yml"@,
            "json"@,
            "json5"@,
            "ron"@,
        ],
        r.project_text() is None,
        r.path_texts() is None,
        r.default_table() == Map::<Seq<char>, Value>::empty(),
{
    let mut extensions: Vec<String> = Vec::new();
    extensions.push("ini".to_owned());
    extensions.push("conf".to_owned());
    extensions.push("toml".to_owned());
    extensions.push("yaml".to_owned());
    extensions.push("yml".to_owned());
    extensions.push("json".to_owned());
    extensions.push("json5".to_owned());
    extensions.push("ron".to_owned());
    assert(views(extensions@) =~= seq![
        "ini"@,
        "conf"@,
        "toml"@,
        "yaml"@,
        "yml"@,
        "json"@,
        "json5"@,
        "ron"@,
    ]);
    CfgBuilder {
        name: name.to_owned(),
        extensions,
        project_name: None,
        path_override: None,
        defaults: None,
    }
}

/// Lays the second configuration over the first: a key of the second
/// replaces the same key of the first.
pub fn merge(config1: &ResolvedConfig, config2: &ResolvedConfig) -> (r: Result<
    ResolvedConfig,
    CfgError,
>)
    ensures
        r is Ok,
        r.unwrap()@ == config1@.union_prefer_right(config2@),
{
    Ok(config1.overlaid(config2))
}

} // verus!

//! Folding drop-in files into one table of overrides.

use crate::entries::{entries_map, lemma_entries_map_concat};
use crate::error::CfgError;
use crate::format::{parse_text, parsed, FileFormat};
use crate::path::{extension, extension_of};
use crate::snapshot::SourceFile;
use config::Value;
use vstd::prelude::*;

verus! {

/// The table that one drop-in file holds: parsed in the format of its
/// extension, or as ini where the extension names none. Nothing where the
/// file is malformed.
pub open spec fn dropin_table(file: SourceFile) -> Option<Map<Seq<char>, Value>> {
    parsed(FileFormat::of_dropin(extension_of(file.path@)), file.path@, file.text@)
}

/// The overrides that a list of drop-in files amounts to: each file is laid
/// over the ones before it, key by key. Nothing where a file is malformed.
pub open spec fn fold_dropins(files: Seq<SourceFile>) -> Option<Map<Seq<char>, Value>>
    decreases files.len(),
{
    if files.len() == 0 {
        Some(Map::empty())
    } else {
        match (fold_dropins(files.drop_last()), dropin_table(files.last())) {
            (Some(below), Some(table)) => Some(below.union_prefer_right(table)),
            _ => None,
        }
    }
}

/// One malformed file leaves no overrides at all.
pub proof fn lemma_malformed_blocks(files: Seq<SourceFile>, k: int)
    requires
        0 <= k < files.len(),
        dropin_table(files[k]) is None,
    ensures
        fold_dropins(files) is None,
    decreases files.len(),
{
    if k < files.len() - 1 {
        lemma_malformed_blocks(files.drop_last(), k);
    }
}

/// Lays the outcome of parsing one file over the entries gathered so far: a
/// parsed table is appended, so that its keys replace earlier ones; a
/// failure becomes a parse error that names the file.
pub fn apply_parsed(
    cache: Vec<(String, Value)>,
    path: &String,
    outcome: Result<Vec<(String, Value)>, String>,
) -> (r: Result<Vec<(String, Value)>, CfgError>)
    ensures
        match outcome {
            Ok(table) => r is Ok && r.unwrap()@ == cache@ + table@ && entries_map(r.unwrap()@)
                == entries_map(cache@).union_prefer_right(entries_map(table@)),
            Err(message) => r == Err::<Vec<(String, Value)>, CfgError>(
                CfgError::Parse { path: *path, message },
            ),
        },
{
    match outcome {
        Ok(table) => {
            let mut cache = cache;
            let mut table = table;
            proof {
                lemma_entries_map_concat(cache@, table@);
            }
            cache.append(&mut table);
            Ok(cache)
        },
        Err(message) => Err(CfgError::Parse { path: path.clone(), message }),
    }
}

/// Parses the drop-in files in the order given and folds them into one list
/// of overrides, in which a later file's value replaces an earlier one's. A
/// malformed file aborts the whole; the error names the first such file.
pub fn read_dropins(dropins: &Vec<SourceFile>) -> (r: Result<Vec<(String, Value)>, CfgError>)
    ensures
        match fold_dropins(dropins@) {
            Some(table) => r is Ok && entries_map(r.unwrap()@) == table,
            None => r is Err,
        },
        r is Err ==> (r.unwrap_err() matches CfgError::Parse { path, .. } && exists|k: int|
            0 <= k < dropins.len() && dropins@[k].path == path && #[trigger] dropin_table(
                dropins@[k],
            ) is None && forall|j: int| 0 <= j < k ==> #[trigger] dropin_table(dropins@[j]) is Some),
{
    let mut cache: Vec<(String, Value)> = Vec::new();
    let mut k: usize = 0;
    while k < dropins.len()
        invariant
            k <= dropins.len(),
            fold_dropins(dropins@.take(k as int)) == Some(entries_map(cache@)),
            forall|j: int| 0 <= j < k ==> #[trigger] dropin_table(dropins@[j]) is Some,
        decreases dropins.len() - k,
    {
        let file = &dropins[k];
        let ext = extension(file.path.as_str());
        let format = FileFormat::for_dropin(ext.as_str());
        let outcome = parse_text(format, &file.path, file.text.as_str());
        proof {
            assert(dropins@.take(k + 1).drop_last() =~= dropins@.take(k as int));
            if outcome is Err {
                lemma_malformed_blocks(dropins@, k as int);
            }
        }
        match apply_parsed(cache, &file.path, outcome) {
            Ok(next) => {
                cache = next;
            },
            Err(e) => {
                return Err(e);
            },
        }
        k = k + 1;
    }
    assert(dropins@.take(k as int) =~= dropins@);
    Ok(cache)
}

} // verus!

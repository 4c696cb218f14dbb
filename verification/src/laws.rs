//! What holds of every resolution: which main file is chosen, and which
//! layer decides a key.

use crate::dropins::{dropin_table, fold_dropins};
use crate::locate::{
    candidate, dropin_dir_at, dropin_files, dropins_between, ext_hit_from, main_file, main_from,
};
use crate::path::join;
use crate::resolve::{layered, main_table, override_table};
use crate::snapshot::{is_file_at, node_at, Node, SourceFile};
use config::Value;
use vstd::prelude::*;

verus! {

/// The candidate for directory `i` and extension `j` is a regular file.
pub open spec fn is_hit(
    nodes: Seq<(String, Node)>,
    dirs: Seq<Seq<char>>,
    name: Seq<char>,
    exts: Seq<Seq<char>>,
    i: int,
    j: int,
) -> bool {
    0 <= i < dirs.len() && 0 <= j < exts.len() && is_file_at(
        nodes,
        candidate(dirs[i], name, exts[j]),
    )
}

/// The pair `(i2, j2)` is tried before `(i, j)`: an earlier directory, or the
/// same directory and an earlier extension.
pub open spec fn comes_before(i2: int, j2: int, i: int, j: int) -> bool {
    i2 < i || (i2 == i && j2 < j)
}

proof fn lemma_ext_hit(
    nodes: Seq<(String, Node)>,
    dir: Seq<char>,
    name: Seq<char>,
    exts: Seq<Seq<char>>,
    from: int,
)
    requires
        0 <= from,
    ensures
        match ext_hit_from(nodes, dir, name, exts, from) {
            Some(j) => from <= j < exts.len() && is_file_at(nodes, candidate(dir, name, exts[j]))
                && forall|j2: int|
                from <= j2 < j ==> !is_file_at(nodes, #[trigger] candidate(dir, name, exts[j2])),
            None => forall|j2: int|
                from <= j2 < exts.len() ==> !is_file_at(
                    nodes,
                    #[trigger] candidate(dir, name, exts[j2]),
                ),
        },
    decreases exts.len() - from,
{
    if from < exts.len() && !is_file_at(nodes, candidate(dir, name, exts[from])) {
        lemma_ext_hit(nodes, dir, name, exts, from + 1);
    }
}

proof fn lemma_main_from(
    nodes: Seq<(String, Node)>,
    dirs: Seq<Seq<char>>,
    name: Seq<char>,
    exts: Seq<Seq<char>>,
    from: int,
)
    requires
        0 <= from,
    ensures
        match main_from(nodes, dirs, name, exts, from) {
            Some((i, j)) => is_hit(nodes, dirs, name, exts, i, j) && from <= i && forall|
                i2: int,
                j2: int,
            |
                from <= i2 && comes_before(i2, j2, i, j) ==> !#[trigger] is_hit(
                    nodes,
                    dirs,
                    name,
                    exts,
                    i2,
                    j2,
                ),
            None => forall|i2: int, j2: int|
                from <= i2 ==> !#[trigger] is_hit(nodes, dirs, name, exts, i2, j2),
        },
    decreases dirs.len() - from,
{
    if from < dirs.len() {
        lemma_ext_hit(nodes, dirs[from], name, exts, 0);
        if ext_hit_from(nodes, dirs[from], name, exts, 0) is None {
            lemma_main_from(nodes, dirs, name, exts, from + 1);
        }
    }
}

/// The main file is the first candidate that exists, going through the
/// directories in order and through the extensions in each: no candidate
/// that is tried before it exists. There is no main file exactly where no
/// candidate exists.
pub proof fn law_main_file_is_first_hit(
    nodes: Seq<(String, Node)>,
    dirs: Seq<Seq<char>>,
    name: Seq<char>,
    exts: Seq<Seq<char>>,
)
    ensures
        match main_file(nodes, dirs, name, exts) {
            Some((i, j)) => is_hit(nodes, dirs, name, exts, i, j) && forall|i2: int, j2: int|
                comes_before(i2, j2, i, j) ==> !#[trigger] is_hit(nodes, dirs, name, exts, i2, j2),
            None => forall|i2: int, j2: int| !#[trigger] is_hit(nodes, dirs, name, exts, i2, j2),
        },
{
    lemma_main_from(nodes, dirs, name, exts, 0);
}

/// A candidate that exists, with none before it that does, is the main file.
pub proof fn law_first_hit_is_main_file(
    nodes: Seq<(String, Node)>,
    dirs: Seq<Seq<char>>,
    name: Seq<char>,
    exts: Seq<Seq<char>>,
    i: int,
    j: int,
)
    requires
        is_hit(nodes, dirs, name, exts, i, j),
        forall|i2: int, j2: int|
            comes_before(i2, j2, i, j) ==> !#[trigger] is_hit(nodes, dirs, name, exts, i2, j2),
    ensures
        main_file(nodes, dirs, name, exts) == Some((i, j)),
{
    law_main_file_is_first_hit(nodes, dirs, name, exts);
    match main_file(nodes, dirs, name, exts) {
        Some((a, b)) => {
            assert(!comes_before(a, b, i, j));
            assert(!comes_before(i, j, a, b));
        },
        None => {
            assert(!is_hit(nodes, dirs, name, exts, i, j));
        },
    }
}

/// What lies at candidates that are tried after the main file does not
/// matter: a second snapshot that agrees with the first on the main file and
/// on every candidate before it has the same main file.
pub proof fn law_later_candidates_do_not_matter(
    first: Seq<(String, Node)>,
    second: Seq<(String, Node)>,
    dirs: Seq<Seq<char>>,
    name: Seq<char>,
    exts: Seq<Seq<char>>,
)
    requires
        main_file(first, dirs, name, exts) is Some,
        forall|i2: int, j2: int|
            !comes_before(
                main_file(first, dirs, name, exts).unwrap().0,
                main_file(first, dirs, name, exts).unwrap().1,
                i2,
                j2,
            ) ==> #[trigger] is_hit(first, dirs, name, exts, i2, j2) == is_hit(
                second,
                dirs,
                name,
                exts,
                i2,
                j2,
            ),
    ensures
        main_file(second, dirs, name, exts) == main_file(first, dirs, name, exts),
{
    let (i, j) = main_file(first, dirs, name, exts).unwrap();
    law_main_file_is_first_hit(first, dirs, name, exts);
    assert(is_hit(first, dirs, name, exts, i, j));
    assert forall|i2: int, j2: int| comes_before(i2, j2, i, j) implies !#[trigger] is_hit(
        second,
        dirs,
        name,
        exts,
        i2,
        j2,
    ) by {
        assert(!is_hit(first, dirs, name, exts, i2, j2));
    }
    law_first_hit_is_main_file(second, dirs, name, exts, i, j);
}

/// Folding two lists of drop-in files one after the other lays the second
/// fold over the first.
pub proof fn lemma_fold_concat(a: Seq<SourceFile>, b: Seq<SourceFile>)
    ensures
        fold_dropins(a + b) == match (fold_dropins(a), fold_dropins(b)) {
            (Some(x), Some(y)) => Some(x.union_prefer_right(y)),
            _ => None,
        },
    decreases b.len(),
{
    if b.len() == 0 {
        assert(a + b =~= a);
        if fold_dropins(a) is Some {
            assert(fold_dropins(a).unwrap().union_prefer_right(Map::empty()) =~= fold_dropins(
                a,
            ).unwrap());
        }
    } else {
        lemma_fold_concat(a, b.drop_last());
        assert((a + b).drop_last() =~= a + b.drop_last());
        assert((a + b).last() == b.last());
        match (fold_dropins(a), fold_dropins(b.drop_last()), dropin_table(b.last())) {
            (Some(x), Some(y), Some(t)) => {
                assert(x.union_prefer_right(y).union_prefer_right(t) =~= x.union_prefer_right(
                    y.union_prefer_right(t),
                ));
            },
            _ => {},
        }
    }
}

/// The drop-in files of a range of directories are those of its later part
/// followed by those of its earlier part.
pub proof fn lemma_dropins_split(
    nodes: Seq<(String, Node)>,
    dirs: Seq<Seq<char>>,
    name: Seq<char>,
    lo: int,
    mid: int,
    hi: int,
)
    requires
        0 <= lo <= mid <= hi <= dirs.len(),
    ensures
        dropins_between(nodes, dirs, name, lo, hi) == match (
            dropins_between(nodes, dirs, name, mid, hi),
            dropins_between(nodes, dirs, name, lo, mid),
        ) {
            (Some(lower), Some(higher)) => Some(lower + higher),
            _ => None,
        },
    decreases mid - lo,
{
    if lo == mid {
        if dropins_between(nodes, dirs, name, mid, hi) is Some {
            let lower = dropins_between(nodes, dirs, name, mid, hi).unwrap();
            assert(lower + Seq::<SourceFile>::empty() =~= lower);
        }
    } else {
        lemma_dropins_split(nodes, dirs, name, lo + 1, mid, hi);
        match (
            dropins_between(nodes, dirs, name, mid, hi),
            dropins_between(nodes, dirs, name, lo + 1, mid),
        ) {
            (Some(lower), Some(higher)) => {
                match dropin_dir_at(nodes, dirs[lo], name) {
                    Some((_, Node::Dir(files))) => {
                        assert((lower + higher) + files@ =~= lower + (higher + files@));
                    },
                    _ => {},
                }
            },
            _ => {},
        }
    }
}

/// The overrides that the drop-ins of the directories at positions `lo` up
/// to `hi` amount to.
pub open spec fn overrides_between(
    nodes: Seq<(String, Node)>,
    dirs: Seq<Seq<char>>,
    name: Seq<char>,
    lo: int,
    hi: int,
) -> Option<Map<Seq<char>, Value>> {
    match dropins_between(nodes, dirs, name, lo, hi) {
        Some(files) => fold_dropins(files),
        None => None,
    }
}

/// Among drop-ins, the directory earlier in the catalog wins: a key that the
/// drop-ins of directory `i` define, and those of no directory before it,
/// resolves to the value it has in directory `i`, whatever the directories
/// after it say.
pub proof fn law_higher_directory_wins(
    nodes: Seq<(String, Node)>,
    dirs: Seq<Seq<char>>,
    name: Seq<char>,
    i: int,
    key: Seq<char>,
)
    requires
        0 <= i < dirs.len(),
        override_table(nodes, dirs, name) is Some,
        overrides_between(nodes, dirs, name, i, i + 1) matches Some(own) && own.dom().contains(key),
        overrides_between(nodes, dirs, name, 0, i) matches Some(higher) ==> !higher.dom().contains(
            key,
        ),
    ensures
        overrides_between(nodes, dirs, name, i, i + 1) is Some,
        override_table(nodes, dirs, name).unwrap().dom().contains(key),
        override_table(nodes, dirs, name).unwrap()[key] == overrides_between(
            nodes,
            dirs,
            name,
            i,
            i + 1,
        ).unwrap()[key],
{
    let n = dirs.len() as int;
    lemma_dropins_split(nodes, dirs, name, 0, i, n);
    lemma_dropins_split(nodes, dirs, name, i, i + 1, n);
    let after = dropins_between(nodes, dirs, name, i + 1, n).unwrap();
    let own = dropins_between(nodes, dirs, name, i, i + 1).unwrap();
    let before = dropins_between(nodes, dirs, name, 0, i).unwrap();
    lemma_fold_concat(after + own, before);
    lemma_fold_concat(after, own);
}

/// Among the files of a list, the last one that defines a key decides it.
/// Of one drop-in directory this says that the file later in its listing
/// wins.
pub proof fn law_last_file_wins(files: Seq<SourceFile>, k: int, key: Seq<char>)
    requires
        0 <= k < files.len(),
        fold_dropins(files) is Some,
        dropin_table(files[k]) matches Some(table) && table.dom().contains(key),
        forall|j: int|
            k < j < files.len() ==> (#[trigger] dropin_table(files[j]) matches Some(table)
                ==> !table.dom().contains(key)),
    ensures
        dropin_table(files[k]) is Some,
        fold_dropins(files).unwrap().dom().contains(key),
        fold_dropins(files).unwrap()[key] == dropin_table(files[k]).unwrap()[key],
    decreases files.len(),
{
    if k < files.len() - 1 {
        assert(dropin_table(files[files.len() - 1]) is Some);
        law_last_file_wins(files.drop_last(), k, key);
    }
}

/// A drop-in beats the main file and the defaults: a key that the overrides
/// define resolves to its override.
pub proof fn law_override_wins(
    defaults: Map<Seq<char>, Value>,
    main: Map<Seq<char>, Value>,
    overrides: Map<Seq<char>, Value>,
    key: Seq<char>,
)
    requires
        overrides.dom().contains(key),
    ensures
        layered(defaults, main, overrides).dom().contains(key),
        layered(defaults, main, overrides)[key] == overrides[key],
{
}

/// The main file beats the defaults where no drop-in speaks.
pub proof fn law_main_file_over_defaults(
    defaults: Map<Seq<char>, Value>,
    main: Map<Seq<char>, Value>,
    overrides: Map<Seq<char>, Value>,
    key: Seq<char>,
)
    requires
        !overrides.dom().contains(key),
        main.dom().contains(key),
    ensures
        layered(defaults, main, overrides).dom().contains(key),
        layered(defaults, main, overrides)[key] == main[key],
{
}

/// A default counts only where neither the main file nor a drop-in defines
/// the key, and a key that no layer defines is absent.
pub proof fn law_defaults_come_last(
    defaults: Map<Seq<char>, Value>,
    main: Map<Seq<char>, Value>,
    overrides: Map<Seq<char>, Value>,
    key: Seq<char>,
)
    requires
        !overrides.dom().contains(key),
        !main.dom().contains(key),
    ensures
        layered(defaults, main, overrides).dom().contains(key) == defaults.dom().contains(key),
        defaults.dom().contains(key) ==> layered(defaults, main, overrides)[key] == defaults[key],
{
}

/// Where nothing exists at any path there is no main file and no drop-in
/// file, and both exist as empty layers.
pub proof fn lemma_nothing_found(
    nodes: Seq<(String, Node)>,
    dirs: Seq<Seq<char>>,
    name: Seq<char>,
    exts: Seq<Seq<char>>,
)
    requires
        forall|path: Seq<char>| #[trigger] node_at(nodes, path) is None,
    ensures
        main_file(nodes, dirs, name, exts) is None,
        dropin_files(nodes, dirs, name) == Some(Seq::<SourceFile>::empty()),
{
    law_main_file_is_first_hit(nodes, dirs, name, exts);
    match main_file(nodes, dirs, name, exts) {
        Some((i, j)) => {
            assert(node_at(nodes, candidate(dirs[i], name, exts[j])) is None);
        },
        None => {},
    }
    lemma_no_dropins(nodes, dirs, name, 0);
}

proof fn lemma_no_dropins(nodes: Seq<(String, Node)>, dirs: Seq<Seq<char>>, name: Seq<char>, lo: int)
    requires
        0 <= lo,
        forall|path: Seq<char>| #[trigger] node_at(nodes, path) is None,
    ensures
        dropins_between(nodes, dirs, name, lo, dirs.len() as int) == Some(
            Seq::<SourceFile>::empty(),
        ),
    decreases dirs.len() - lo,
{
    if lo < dirs.len() {
        lemma_no_dropins(nodes, dirs, name, lo + 1);
        let short = join(dirs[lo], name + ".d"@);
        let long = join(dirs[lo], name + ".conf.d"@);
        assert(node_at(nodes, short) is None);
        assert(node_at(nodes, long) is None);
    }
}

/// Two snapshots hold the same at every path that resolution of `name` in
/// `dirs` with `exts` looks at: the main-file candidates and the two places
/// of each directory's drop-ins.
pub open spec fn agree_on_probes(
    first: Seq<(String, Node)>,
    second: Seq<(String, Node)>,
    dirs: Seq<Seq<char>>,
    name: Seq<char>,
    exts: Seq<Seq<char>>,
) -> bool {
    &&& forall|i: int, j: int|
        0 <= i < dirs.len() && 0 <= j < exts.len() ==> #[trigger] node_at(
            first,
            candidate(dirs[i], name, exts[j]),
        ) == node_at(second, candidate(dirs[i], name, exts[j]))
    &&& forall|i: int|
        0 <= i < dirs.len() ==> #[trigger] node_at(first, join(dirs[i], name + ".d"@)) == node_at(
            second,
            join(dirs[i], name + ".d"@),
        )
    &&& forall|i: int|
        0 <= i < dirs.len() ==> #[trigger] node_at(first, join(dirs[i], name + ".conf.d"@))
            == node_at(second, join(dirs[i], name + ".conf.d"@))
}

proof fn lemma_same_dropins(
    first: Seq<(String, Node)>,
    second: Seq<(String, Node)>,
    dirs: Seq<Seq<char>>,
    name: Seq<char>,
    exts: Seq<Seq<char>>,
    lo: int,
)
    requires
        0 <= lo,
        agree_on_probes(first, second, dirs, name, exts),
    ensures
        dropins_between(first, dirs, name, lo, dirs.len() as int) == dropins_between(
            second,
            dirs,
            name,
            lo,
            dirs.len() as int,
        ),
    decreases dirs.len() - lo,
{
    if lo < dirs.len() {
        lemma_same_dropins(first, second, dirs, name, exts, lo + 1);
        assert(node_at(first, join(dirs[lo], name + ".d"@)) == node_at(
            second,
            join(dirs[lo], name + ".d"@),
        ));
        assert(node_at(first, join(dirs[lo], name + ".conf.d"@)) == node_at(
            second,
            join(dirs[lo], name + ".conf.d"@),
        ));
    }
}

/// Resolution looks at nothing but the probed paths: two snapshots that
/// agree there have the same main file, the same main layer and the same
/// overrides.
pub proof fn law_only_probed_paths_matter(
    first: Seq<(String, Node)>,
    second: Seq<(String, Node)>,
    dirs: Seq<Seq<char>>,
    name: Seq<char>,
    exts: Seq<Seq<char>>,
)
    requires
        agree_on_probes(first, second, dirs, name, exts),
    ensures
        main_file(first, dirs, name, exts) == main_file(second, dirs, name, exts),
        main_table(first, dirs, name, exts) == main_table(second, dirs, name, exts),
        dropin_files(first, dirs, name) == dropin_files(second, dirs, name),
        override_table(first, dirs, name) == override_table(second, dirs, name),
{
    assert forall|i: int, j: int| #[trigger]
        is_hit(first, dirs, name, exts, i, j) == is_hit(second, dirs, name, exts, i, j) by {
        if 0 <= i < dirs.len() && 0 <= j < exts.len() {
            assert(node_at(first, candidate(dirs[i], name, exts[j])) == node_at(
                second,
                candidate(dirs[i], name, exts[j]),
            ));
        }
    }
    law_main_file_is_first_hit(first, dirs, name, exts);
    law_main_file_is_first_hit(second, dirs, name, exts);
    match main_file(first, dirs, name, exts) {
        Some((i, j)) => {
            assert(is_hit(first, dirs, name, exts, i, j));
            assert forall|i2: int, j2: int| comes_before(i2, j2, i, j) implies !#[trigger] is_hit(
                second,
                dirs,
                name,
                exts,
                i2,
                j2,
            ) by {
                assert(!is_hit(first, dirs, name, exts, i2, j2));
            }
            law_first_hit_is_main_file(second, dirs, name, exts, i, j);
            assert(node_at(first, candidate(dirs[i], name, exts[j])) == node_at(
                second,
                candidate(dirs[i], name, exts[j]),
            ));
        },
        None => {
            match main_file(second, dirs, name, exts) {
                Some((a, b)) => {
                    assert(is_hit(first, dirs, name, exts, a, b));
                },
                None => {},
            }
        },
    }
    lemma_same_dropins(first, second, dirs, name, exts, 0);
}

} // verus!

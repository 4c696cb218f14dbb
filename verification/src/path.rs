//! Paths as plain text: joining a directory with a leaf name, and reading
//! the extension off a file name.

use vstd::prelude::*;
use vstd::string::*;

verus! {

/// `dir`, a slash, then `leaf`.
pub open spec fn join(dir: Seq<char>, leaf: Seq<char>) -> Seq<char> {
    dir + seq!['/'] + leaf
}

/// `name`, a dot, then `ext`.
pub open spec fn dotted(name: Seq<char>, ext: Seq<char>) -> Seq<char> {
    name + seq!['.'] + ext
}

/// Joins a directory and a leaf name with one slash.
pub fn join_path(dir: &str, leaf: &str) -> (r: String)
    ensures
        r@ == join(dir@, leaf@),
{
    proof {
        reveal_strlit("/");
    }
    let r = dir.to_owned().concat("/").concat(leaf);
    assert("/"@ =~= seq!['/']);
    r
}

/// Appends a dot and an extension to a name.
pub fn with_extension(name: &str, ext: &str) -> (r: String)
    ensures
        r@ == dotted(name@, ext@),
{
    proof {
        reveal_strlit(".");
    }
    let r = name.to_owned().concat(".").concat(ext);
    assert("."@ =~= seq!['.']);
    r
}

/// The extension read backward from position `i`: the text after the last
/// dot, as long as that dot comes after the last slash and does not open the
/// file name. Empty where there is no such dot.
pub open spec fn extension_from(path: Seq<char>, i: int) -> Seq<char>
    decreases i,
{
    if i <= 0 || i > path.len() {
        Seq::empty()
    } else if path[i - 1] == '/' {
        Seq::empty()
    } else if path[i - 1] == '.' {
        if i >= 2 && path[i - 2] != '/' {
            path.subrange(i, path.len() as int)
        } else {
            Seq::empty()
        }
    } else {
        extension_from(path, i - 1)
    }
}

/// The extension of a path: `toml` for `/etc/app.d/10-net.toml`, nothing for
/// `/etc/app.d/README` or `/etc/app.d/.hidden`.
pub open spec fn extension_of(path: Seq<char>) -> Seq<char> {
    extension_from(path, path.len() as int)
}

/// Reads the extension off a path.
pub fn extension(path: &str) -> (r: String)
    ensures
        r@ == extension_of(path@),
{
    let n = path.unicode_len();
    let mut i: usize = n;
    while i > 0
        invariant
            i <= n,
            n == path@.len(),
            extension_of(path@) == extension_from(path@, i as int),
        decreases i,
    {
        let c = path.get_char(i - 1);
        if c == '/' {
            return String::new();
        }
        if c == '.' {
            if i >= 2 {
                let before = path.get_char(i - 2);
                if before != '/' {
                    return path.substring_char(i, n).to_owned();
                }
            }
            return String::new();
        }
        i = i - 1;
    }
    String::new()
}

} // verus!

//! Relative-path reasoning: the root-relative key of a walked source file,
//! its destination under the output directory, and the extension-based
//! split between templated and opaque files.

use vstd::prelude::*;

use crate::text::{
    find_char, find_from, find_last, lemma_find_last_is, lemma_find_last_none, rfind_char, str_eq,
};

verus! {

/// The root-relative key of a source path: everything after the leading
/// scan-root segment, empty if the path is that single segment.
pub open spec fn strip_root(p: Seq<char>) -> Seq<char> {
    match find_from(p, 0, '/') {
        Some(i) => p.skip(i + 1),
        None => Seq::empty(),
    }
}

/// Where a source path lands: its root-relative key re-parented under the
/// output directory, nesting preserved.
pub open spec fn mapped_path(output_dir: Seq<char>, src: Seq<char>) -> Seq<char> {
    if strip_root(src).len() == 0 {
        output_dir
    } else {
        output_dir + seq!['/'] + strip_root(src)
    }
}

/// Drops the leading segment of `p` (up to and including the first `/`).
pub fn strip_root_exec(p: &str) -> (r: &str)
    ensures
        r@ == strip_root(p@),
{
    let n = p.unicode_len();
    match find_char(p, 0, '/') {
        Some(i) => {
            let rest = p.substring_char(i + 1, n);
            proof {
                assert(p@.subrange(i + 1, n as int) =~= p@.skip(i + 1));
            }
            rest
        },
        None => {
            let rest = p.substring_char(n, n);
            proof {
                assert(p@.subrange(n as int, n as int) =~= Seq::<char>::empty());
            }
            rest
        },
    }
}

/// Joins `dir` and a relative path `rest` with a `/`, or returns `dir`
/// when there is nothing to join.
pub fn join_path(dir: &str, rest: &str) -> (r: String)
    ensures
        rest@.len() == 0 ==> r@ == dir@,
        rest@.len() > 0 ==> r@ == dir@ + seq!['/'] + rest@,
{
    if rest.unicode_len() == 0 {
        String::from_str(dir)
    } else {
        let mut out = String::from_str(dir);
        out.append("/");
        out.append(rest);
        proof {
            reveal_strlit("/");
            assert("/"@ =~= seq!['/']);
        }
        out
    }
}

/// The file name of `p`: everything after the last `/`.
pub open spec fn file_name_of(p: Seq<char>) -> Seq<char> {
    match find_last(p, '/') {
        Some(i) => p.skip(i + 1),
        None => p,
    }
}

/// The extension of `p`: what follows the last `.` of its file name,
/// empty when the name has no `.` past its first character.
pub open spec fn extension_of(p: Seq<char>) -> Seq<char> {
    match find_last(file_name_of(p), '.') {
        Some(i) => if i > 0 {
            file_name_of(p).skip(i + 1)
        } else {
            Seq::empty()
        },
        None => Seq::empty(),
    }
}

/// Extracts the extension of `p`.
pub fn extension(p: &str) -> (r: &str)
    ensures
        r@ == extension_of(p@),
{
    let n = p.unicode_len();
    let ns: usize = match rfind_char(p, 0, '/') {
        Some(i) => {
            proof {
                lemma_find_last_is(p@, '/', i as int);
            }
            i + 1
        },
        None => {
            proof {
                lemma_find_last_none(p@, '/');
            }
            0
        },
    };
    let ghost name = file_name_of(p@);
    proof {
        assert(name =~= p@.skip(ns as int));
    }
    match rfind_char(p, ns, '.') {
        Some(di) => {
            proof {
                assert(name[di - ns] == '.');
                assert(forall|k: int| di - ns < k < name.len() ==> name[k] != '.');
                lemma_find_last_is(name, '.', di - ns);
            }
            if di > ns {
                let ext = p.substring_char(di + 1, n);
                proof {
                    assert(p@.subrange(di + 1, n as int) =~= name.skip(di - ns + 1));
                }
                ext
            } else {
                let ext = p.substring_char(n, n);
                proof {
                    assert(p@.subrange(n as int, n as int) =~= Seq::<char>::empty());
                }
                ext
            }
        },
        None => {
            proof {
                lemma_find_last_none(name, '.');
            }
            let ext = p.substring_char(n, n);
            proof {
                assert(p@.subrange(n as int, n as int) =~= Seq::<char>::empty());
            }
            ext
        },
    }
}

/// The fixed, case-sensitive allow-list of templated extensions.
pub open spec fn is_templated_ext(ext: Seq<char>) -> bool {
    ||| ext == "properties"@
    ||| ext == "txt"@
    ||| ext == "yaml"@
    ||| ext == "yml"@
    ||| ext == "conf"@
    ||| ext == "config"@
    ||| ext == "toml"@
    ||| ext == "json"@
    ||| ext == "json5"@
    ||| ext == "secret"@
}

/// A path is templated when its extension is on the allow-list; all other
/// files are opaque and copied byte for byte.
pub open spec fn is_templated_path(p: Seq<char>) -> bool {
    is_templated_ext(extension_of(p))
}

/// Classifies `p` by its extension.
pub fn path_is_templated(p: &str) -> (r: bool)
    ensures
        r == is_templated_path(p@),
{
    let ext = extension(p);
    str_eq(ext, "properties") || str_eq(ext, "txt") || str_eq(ext, "yaml") || str_eq(ext, "yml")
        || str_eq(ext, "conf") || str_eq(ext, "config") || str_eq(ext, "toml") || str_eq(
        ext,
        "json",
    ) || str_eq(ext, "json5") || str_eq(ext, "secret")
}

} // verus!

use vstd::prelude::*;
use vstd::string::{StrSliceExecFns, StringExecFns};

use crate::error::{concat3, lit, Error};
use crate::lock::str_eq;

verus! {

/// Reading and writing files, and the working directory: a capability the
/// surrounding program provides. Paths travel as plain text.
pub trait FileSystem {
    /// Reads a whole file.
    fn read_to_string(&self, p: &str) -> Result<String, Error>;

    /// Writes a whole file.
    fn write(&self, p: &str, s: &str) -> Result<(), Error>;

    /// The current working directory.
    fn current_dir(&self) -> Result<String, Error>;
}

/// The path with the file name pushed onto it when it names a directory,
/// and untouched otherwise.
pub open spec fn joined_path(path: Seq<char>, file_name: Seq<char>, path_is_dir: bool) -> Seq<
    char,
> {
    if path_is_dir {
        path + "/"@ + file_name
    } else {
        path
    }
}

/// Whether the component after the last `/` of `p` (all of `p` when it
/// holds no `/`) is exactly `file_name`.
pub open spec fn file_name_matches(p: Seq<char>, file_name: Seq<char>) -> bool {
    exists|k: int|
        #![trigger p.subrange(k + 1, p.len() as int)]
        -1 <= k < p.len() && (k == -1 || p[k] == '/') && (forall|m: int|
            k < m < p.len() ==> p[m] != '/') && p.subrange(k + 1, p.len() as int) == file_name
}

/// Appends the file name to a directory path; a path that already names a
/// file stays as it is. Whether the path names a directory is the caller's
/// to say: only the surrounding program can ask the disk.
pub fn ensure_flake_nix_path(path: &str, path_is_dir: bool) -> (r: String)
    ensures
        r@ == joined_path(path@, "flake.nix"@, path_is_dir),
{
    if path_is_dir {
        concat3(path, "/", "flake.nix")
    } else {
        lit(path)
    }
}

/// Resolves where a named file stands under a path: pushes the file name
/// onto a directory path, then insists that the resulting path really ends
/// in that file name, and refuses any other path.
pub fn ensure_file(path: &str, file_name: &str, path_is_dir: bool) -> (r: Result<String, Error>)
    ensures
        match r {
            Ok(p) => p@ == joined_path(path@, file_name@, path_is_dir) && file_name_matches(
                p@,
                file_name@,
            ),
            Err(e) => !file_name_matches(joined_path(path@, file_name@, path_is_dir), file_name@)
                && e matches Error::Error(_),
        },
{
    let joined = if path_is_dir {
        concat3(path, "/", file_name)
    } else {
        lit(path)
    };
    let q = joined.as_str();
    let n = q.unicode_len();
    // find the position after the last slash
    let mut start: usize = 0;
    let mut i: usize = 0;
    while i < n
        invariant
            start <= i <= n,
            n == q@.len(),
            start == 0 || q@[start - 1] == '/',
            forall|m: int| start <= m < i ==> q@[m] != '/',
        decreases n - i,
    {
        if q.get_char(i) == '/' {
            start = i + 1;
        }
        i = i + 1;
    }
    let last = q.substring_char(start, n);
    if str_eq(last, file_name) {
        proof {
            let k = start - 1;
            assert(q@.subrange(k + 1, q@.len() as int) == file_name@);
            assert(file_name_matches(q@, file_name@));
        }
        Ok(joined)
    } else {
        proof {
            assert(!file_name_matches(q@, file_name@)) by {
                if file_name_matches(q@, file_name@) {
                    let k = choose|k: int|
                        #![trigger q@.subrange(k + 1, q@.len() as int)]
                        -1 <= k < q@.len() && (k == -1 || q@[k] == '/') && (forall|m: int|
                            k < m < q@.len() ==> q@[m] != '/') && q@.subrange(
                            k + 1,
                            q@.len() as int,
                        ) == file_name@;
                    assert(k == start - 1) by {
                        if k < start - 1 {
                            assert(q@[start - 1] == '/');
                        } else if k > start - 1 {
                            assert(q@[k] == '/');
                        }
                    }
                    assert(q@.subrange(start as int, q@.len() as int) == file_name@);
                }
            }
        }
        Err(
            Error::Error(
                concat3("Path '", q, "' doesn't match the expected file name"),
            ),
        )
    }
}

} // verus!

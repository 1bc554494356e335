//! Where the backing file of a mapping lives.
use vstd::prelude::*;
use vstd::string::*;

verus! {

/// A character that ends a directory part of a path.
pub open spec fn is_separator(c: char) -> bool {
    c == '/' || c == '\\'
}

/// The path of the file `name` inside directory `dir`: the two are joined by
/// one `/`, unless `dir` is empty or already ends in a separator.
pub open spec fn joined(dir: Seq<char>, name: Seq<char>) -> Seq<char> {
    if dir.len() == 0 || is_separator(dir.last()) {
        dir + name
    } else {
        dir + seq!['/'] + name
    }
}

/// The path of the backing file for the mapping `name` in `dir`.
pub fn backing_path(dir: &str, name: &str) -> (r: String)
    ensures
        r@ == joined(dir@, name@),
{
    let n = dir.unicode_len();
    let mut r = String::from_str(dir);
    if n > 0 {
        let c = dir.get_char(n - 1);
        if c != '/' && c != '\\' {
            r.append("/");
            proof {
                reveal_strlit("/");
            }
        }
    }
    r.append(name);
    r
}

} // verus!

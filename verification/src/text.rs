//! Path joining for the paths the library computes.

use vstd::prelude::*;
use vstd::string::*;

verus! {

/// What joining the path `name` onto the directory `dir` gives on Unix: an
/// absolute `name` replaces `dir`; otherwise a `/` is put between the two
/// unless `dir` is empty or already ends with one.
pub open spec fn joined_path(dir: Seq<char>, name: Seq<char>) -> Seq<char> {
    if name.len() > 0 && name[0] == '/' {
        name
    } else if dir.len() == 0 || dir.last() == '/' {
        dir + name
    } else {
        dir + seq!['/'] + name
    }
}

/// Joins the path `name` onto the directory `dir`.
pub fn join_path(dir: &str, name: &str) -> (res: String)
    ensures
        res@ == joined_path(dir@, name@),
{
    let name_len = name.unicode_len();
    let dir_len = dir.unicode_len();
    if name_len > 0 && name.get_char(0) == '/' {
        name.to_owned()
    } else if dir_len == 0 || dir.get_char(dir_len - 1) == '/' {
        let mut res = dir.to_owned();
        res.append(name);
        res
    } else {
        let mut res = dir.to_owned();
        res.append("/");
        res.append(name);
        proof {
            reveal_strlit("/");
        }
        res
    }
}

} // verus!

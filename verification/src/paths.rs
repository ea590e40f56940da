//! Where the application keeps its files, as (Unix) path strings.

use vstd::prelude::*;

use crate::text::{chars_of, to_owned};

verus! {

/// The application's data directory below a home directory.
pub const DATA_SUBDIR: &'static str = "/.local/share/boxbreaker/";

/// The file `file` in the application's data directory of home `home`.
pub open spec fn data_file_spec(home: Seq<char>, file: Seq<char>) -> Seq<char> {
    home + DATA_SUBDIR@ + file
}

/// The path of `file` in the application's data directory below `home`.
pub fn data_file(home: &str, file: &str) -> (res: String)
    ensures
        res@ == data_file_spec(home@, file@),
{
    let mut p = to_owned(home);
    p.append(DATA_SUBDIR);
    p.append(file);
    p
}

/// Joining `name` onto the directory `dir`, as `PathBuf::push` does on Unix: an
/// absolute `name` replaces `dir`; otherwise a `/` goes between them unless
/// `dir` is empty or already ends with one.
pub open spec fn path_join(dir: Seq<char>, name: Seq<char>) -> Seq<char> {
    if name.len() > 0 && name[0] == '/' {
        name
    } else if dir.len() == 0 || dir.last() == '/' {
        dir + name
    } else {
        dir + seq!['/'] + name
    }
}

/// `dir` joined with `name`.
pub fn join_path(dir: &str, name: &str) -> (res: String)
    ensures
        res@ == path_join(dir@, name@),
{
    let n = chars_of(name);
    if n.len() > 0 && n[0] == '/' {
        return to_owned(name);
    }
    let d = chars_of(dir);
    let mut p = to_owned(dir);
    if !(d.len() == 0 || d[d.len() - 1] == '/') {
        p.append("/");
        proof {
            reveal_strlit("/");
        }
    }
    p.append(name);
    assert(p@ =~= path_join(dir@, name@));
    p
}

/// The file a card's cached prices are kept in: `"{card_id}.json"` in the
/// cache directory `dir`.
pub fn cache_path(dir: &str, card_id: &str) -> (res: String)
    ensures
        res@ == path_join(dir@, card_id@ + ".json"@),
{
    let mut file = to_owned(card_id);
    file.append(".json");
    join_path(dir, file.as_str())
}

} // verus!

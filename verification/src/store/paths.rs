//! Store layout: a directory holding `bus.db` and an `inbox` directory of
//! per-instance spool files.

use vstd::prelude::*;
use vstd::string::StrSliceExecFns;
use crate::text::{decimal, decimal_text, join2, join3, owned};

verus! {

/// `base` joined with the relative or absolute path `name`, as Unix
/// `Path::join` does: an absolute `name` replaces `base`; otherwise a `/`
/// is put between them unless `base` is empty or already ends in `/`.
pub open spec fn path_join(base: Seq<char>, name: Seq<char>) -> Seq<char> {
    if name.len() > 0 && name[0] == '/' {
        name
    } else if base.len() == 0 || base.last() == '/' {
        base + name
    } else {
        base + "/"@ + name
    }
}

/// Joins `name` onto `base` as `Path::join` does on Unix.
pub fn join_path(base: &str, name: &str) -> (p: String)
    ensures
        p@ == path_join(base@, name@),
{
    let nl = name.unicode_len();
    if nl > 0 && name.get_char(0) == '/' {
        return owned(name);
    }
    let bl = base.unicode_len();
    if bl == 0 || base.get_char(bl - 1) == '/' {
        join2(base, name)
    } else {
        join3(base, "/", name)
    }
}

/// The inbox directory under a store root.
pub fn inbox_dir(base: &str) -> (p: String)
    ensures
        p@ == path_join(base@, "inbox"@),
{
    join_path(base, "inbox")
}

/// The database file under a store root.
pub fn db_path(base: &str) -> (p: String)
    ensures
        p@ == path_join(base@, "bus.db"@),
{
    join_path(base, "bus.db")
}

/// The spool file of instance `id`: `<base>/inbox/<id>.jsonl`.
pub fn inbox_path(base: &str, id: &str) -> (p: String)
    ensures
        p@ == path_join(path_join(base@, "inbox"@), id@ + ".jsonl"@),
{
    let dir = inbox_dir(base);
    let file = join2(id, ".jsonl");
    join_path(dir.as_str(), file.as_str())
}

/// The name a consumer renames a spool to while reading it:
/// `<base>/inbox/<id>.processing.<pid>`.
pub fn snapshot_path(base: &str, id: &str, pid: u32) -> (p: String)
    ensures
        p@ == path_join(path_join(base@, "inbox"@), id@ + ".processing."@ + decimal_text(pid as nat)),
{
    let dir = inbox_dir(base);
    let digits = decimal(pid as u64);
    let file = join3(id, ".processing.", digits.as_str());
    join_path(dir.as_str(), file.as_str())
}

} // verus!

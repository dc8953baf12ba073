//! Where the database lives.
use vstd::prelude::*;

use crate::paths;

verus! {

/// The database file inside the application's data directory.
pub fn db_path(data_dir: &str) -> (res: String)
    ensures
        res@ == paths::path_join(data_dir@, "db.json"@),
{
    paths::join(data_dir, "db.json")
}

} // verus!

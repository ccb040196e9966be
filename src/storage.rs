use vstd::prelude::*;

use crate::text::owned;

verus! {

/// Directory that holds the agent's data files by default.
pub const DEFAULT_STORAGE_PATH: &'static str = "E:/WHU/SoftwareEngineering/GroupWork/LQMY-Desk";

/// Name of the device-table file inside the storage directory.
pub const USERINFO_FILE: &'static str = "user_data.json";

/// The storage directory.
pub fn load_storage_path() -> (r: String)
    ensures
        r@ == DEFAULT_STORAGE_PATH@,
{
    owned(DEFAULT_STORAGE_PATH)
}

/// Path of the device-table file inside directory `dir`.
pub fn get_userinfo_path(dir: &str) -> (r: String)
    ensures
        r@ == dir@ + "/"@ + USERINFO_FILE@,
{
    let a = owned(dir).concat("/");
    a.concat(USERINFO_FILE)
}

} // verus!

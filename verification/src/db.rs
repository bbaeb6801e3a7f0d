//! Where the database lives and how it is opened.
use vstd::prelude::*;
use vstd::string::StringExecFns;

verus! {

/// The application's data directory name and database file name.
pub const APP_DIR_NAME: &'static str = "chronograph";

pub const DB_FILE_NAME: &'static str = "chronograph.db";

/// The connection string for the SQLite file at `db_path`, opened for reading
/// and writing and created when missing.
pub fn db_url(db_path: &str) -> (r: String)
    ensures
        r@ == "sqlite://"@ + db_path@ + "?mode=rwc"@,
{
    let mut url = String::from_str("sqlite://");
    url.append(db_path);
    url.append("?mode=rwc");
    url
}

} // verus!

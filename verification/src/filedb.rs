//! The handle a file-backed world database is opened with.
//!
//! Reading a world — the configuration file, the map raster and the
//! placeholder texture beside it — is input work done by the surrounding
//! application; the library keeps the part it can state exactly: the handle
//! that names the configuration file the rest of the world is found from.

use vstd::prelude::*;

verus! {

/// A world database backed by files beside a configuration file.
pub struct FileDatabase {
    pub config_file: String,
}

impl FileDatabase {
    /// A handle on the database whose configuration lives at the given path.
    pub fn new(config_file: &str) -> (r: FileDatabase)
        ensures
            r.config_file@ == config_file@,
    {
        FileDatabase { config_file: config_file.to_string() }
    }

    /// The path of the configuration file the handle was opened with.
    pub fn config_file(&self) -> (r: &str)
        ensures
            r@ == self.config_file@,
    {
        self.config_file.as_str()
    }
}

} // verus!

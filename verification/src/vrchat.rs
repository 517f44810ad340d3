use vstd::prelude::*;
use vstd::string::StringExecFns;

verus! {

/// The game's own configuration, reduced to the one field this tool reads.
/// The directory is kept as a plain path string; reading and deserializing
/// the configuration file happens outside this module and hands the parsed
/// value in.
pub struct VRChat {
    /// Parent directory of the game's download cache.
    pub cache_directory: String,
}

impl VRChat {
    /// Path of the game's configuration file inside its data directory.
    pub fn get_path(data_directory: &str) -> (r: String)
        ensures
            r@ == data_directory@ + "/config.json"@,
    {
        let mut path = <String as StringExecFns>::from_str(data_directory);
        path.append("/config.json");
        path
    }

    /// The game appends its fixed cache folder name to the configured
    /// parent directory; the folder name itself cannot be changed.
    pub fn resolved_cache_directory(&self) -> (r: String)
        ensures
            r@ == self.cache_directory@ + "/Cache-WindowsPlayer"@,
    {
        let mut path = self.cache_directory.clone();
        path.append("/Cache-WindowsPlayer");
        path
    }
}

} // verus!

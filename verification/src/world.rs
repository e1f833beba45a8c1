//! The pure part of world-data management: archive naming and the size
//! arithmetic of listings. Archiving, extraction and directory walks are
//! the shell's job.

use vstd::prelude::*;
use vstd::string::*;

verus! {

/// The archive name a world backup is stored under: the world's name and
/// a timestamp.
pub fn backup_file_name(world_name: &str, timestamp: &str) -> (f: String)
    ensures
        f@ == world_name@ + "_"@ + timestamp@ + ".zip"@,
{
    let mut f = world_name.to_owned();
    f.append("_");
    f.append(timestamp);
    f.append(".zip");
    proof {
        assert(f@ =~= world_name@ + "_"@ + timestamp@ + ".zip"@);
    }
    f
}

/// Whole megabytes of a byte count, as listings report sizes.
pub fn bytes_to_mb(bytes: u64) -> (mb: u64)
    ensures
        mb == bytes / 1048576,
{
    bytes / 1048576
}

} // verus!

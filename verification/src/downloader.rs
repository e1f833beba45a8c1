//! What the executable-artifact acquisition computes: the request URLs of
//! the Paper build pipeline, the fixed Spigot offering, and the choice of
//! build. The downloads themselves are the shell's job.

use vstd::prelude::*;
use vstd::string::*;

use crate::text::spec_dec;
use crate::text::u64_to_dec;

verus! {

/// Where Spigot's build tool is fetched from.
pub const SPIGOT_BUILDTOOLS_URL: &'static str =
    "https://hub.spigotmc.org/jenkins/job/BuildTools/lastSuccessfulBuild/artifact/target/BuildTools.jar";

/// The listing of game versions the Paper project publishes.
pub fn paper_project_url() -> (u: String)
    ensures
        u@ == "https://api.papermc.io/v2/projects/paper"@,
{
    "https://api.papermc.io/v2/projects/paper".to_owned()
}

/// The listing of builds Paper publishes for one game version.
pub fn paper_builds_url(version: &str) -> (u: String)
    ensures
        u@ == "https://api.papermc.io/v2/projects/paper/versions/"@ + version@,
{
    let mut u = "https://api.papermc.io/v2/projects/paper/versions/".to_owned();
    u.append(version);
    u
}

/// The metadata of one Paper build.
pub fn paper_build_url(version: &str, build: u32) -> (u: String)
    ensures
        u@ == "https://api.papermc.io/v2/projects/paper/versions/"@ + version@ + "/builds/"@
            + spec_dec(build as nat),
{
    let mut u = paper_builds_url(version);
    u.append("/builds/");
    u.append(u64_to_dec(build as u64).as_str());
    proof {
        assert(u@ =~= "https://api.papermc.io/v2/projects/paper/versions/"@ + version@
            + "/builds/"@ + spec_dec(build as nat));
    }
    u
}

/// The download of one Paper build's application artifact.
pub fn paper_download_url(version: &str, build: u32, artifact: &str) -> (u: String)
    ensures
        u@ == "https://api.papermc.io/v2/projects/paper/versions/"@ + version@ + "/builds/"@
            + spec_dec(build as nat) + "/downloads/"@ + artifact@,
{
    let mut u = paper_build_url(version, build);
    u.append("/downloads/");
    u.append(artifact);
    proof {
        assert(u@ =~= "https://api.papermc.io/v2/projects/paper/versions/"@ + version@
            + "/builds/"@ + spec_dec(build as nat) + "/downloads/"@ + artifact@);
    }
    u
}

/// The newest of a version's builds: the last one listed.
pub fn latest_build(builds: &Vec<u32>) -> (r: Option<u32>)
    ensures
        r is Some <==> builds@.len() > 0,
        r is Some ==> r->0 == builds@.last(),
{
    if builds.len() == 0 {
        None
    } else {
        Some(builds[builds.len() - 1])
    }
}

/// The game versions offered for Spigot: the build tool can build any, so
/// a fixed set of widely used ones is listed.
pub fn spigot_versions() -> (r: Vec<String>)
    ensures
        r@.len() == 6,
        r@[0]@ == "1.21.1"@,
        r@[1]@ == "1.21"@,
        r@[2]@ == "1.20.6"@,
        r@[3]@ == "1.20.4"@,
        r@[4]@ == "1.20.1"@,
        r@[5]@ == "1.19.4"@,
{
    let mut r: Vec<String> = Vec::new();
    r.push("1.21.1".to_owned());
    r.push("1.21".to_owned());
    r.push("1.20.6".to_owned());
    r.push("1.20.4".to_owned());
    r.push("1.20.1".to_owned());
    r.push("1.19.4".to_owned());
    r
}

/// The artifact name Spigot's build tool leaves behind for a version.
pub fn spigot_jar_name(version: &str) -> (f: String)
    ensures
        f@ == "spigot-"@ + version@ + ".jar"@,
{
    let mut f = "spigot-".to_owned();
    f.append(version);
    f.append(".jar");
    proof {
        assert(f@ =~= "spigot-"@ + version@ + ".jar"@);
    }
    f
}

} // verus!

//! Where the measurement tool comes from, what its files are called and how it
//! is run.

use vstd::prelude::*;

verus! {

/// Where the archive with the measurement tool is fetched from.
pub const SPEEDTEST_URL: &'static str =
    "https://bintray.com/ookla/download/download_file?file_path=ookla-speedtest-1.0.0-x86_64-linux.tgz";

/// The file name under which the archive is kept in the workspace.
pub const TARBALL_NAME: &'static str = "speedtest.tgz";

/// The file name of the tool inside the archive.
pub const SPEEDTEST_BIN_NAME: &'static str = "speedtest";

/// The shell command that runs the program `bin_name` of the directory
/// `dir_name`, a directory of the current one, and asks it for a JSON result
/// and to take its licence and privacy terms as accepted. The names are put in
/// as they are, without quoting.
pub open spec fn command_line(dir_name: Seq<char>, bin_name: Seq<char>) -> Seq<char> {
    "./"@ + dir_name + "/"@ + bin_name + " -f json --accept-license --accept-gdpr"@
}

/// The shell command that runs the tool.
pub fn speedtest_command(dir_name: &str, bin_name: &str) -> (command: String)
    ensures
        command@ == command_line(dir_name@, bin_name@),
{
    let mut command = "./".to_owned();
    command.append(dir_name);
    command.append("/");
    command.append(bin_name);
    command.append(" -f json --accept-license --accept-gdpr");
    command
}

} // verus!

//! The command line: one argument that names the test.

use vstd::prelude::*;

verus! {

/// What the command line asks for.
#[derive(Clone, Copy, Debug, PartialEq, Eq, Structural)]
pub enum Invocation {
    /// `-d`: the download test.
    DownloadTest,
    /// `-u`: the upload test.
    UploadTest,
    /// Anything else, or no argument: the usage message.
    Usage,
}

/// What an argument asks for.
pub open spec fn invocation_of(argument: Option<Seq<char>>) -> Invocation {
    match argument {
        Some(text) => if text == "-d"@ {
            Invocation::DownloadTest
        } else if text == "-u"@ {
            Invocation::UploadTest
        } else {
            Invocation::Usage
        },
        None => Invocation::Usage,
    }
}

/// The view of an optional argument.
pub open spec fn argument_view(argument: Option<&str>) -> Option<Seq<char>> {
    match argument {
        Some(text) => Some(text@),
        None => None,
    }
}

impl Invocation {
    /// Reads the first argument of the command line, if there is one.
    pub fn parse(argument: Option<&str>) -> (invocation: Invocation)
        ensures
            invocation == invocation_of(argument_view(argument)),
    {
        match argument {
            Some(text) => {
                let given = text.to_owned();
                if given == "-d".to_owned() {
                    Invocation::DownloadTest
                } else if given == "-u".to_owned() {
                    Invocation::UploadTest
                } else {
                    Invocation::Usage
                }
            },
            None => Invocation::Usage,
        }
    }
}

/// The text of the usage message.
pub open spec fn usage_text() -> Seq<char> {
    "usage: pass -d for the download test or -u for the upload test"@
}

/// The message for a command line that names no test.
pub fn usage_message() -> (message: String)
    ensures
        message@ == usage_text(),
{
    "usage: pass -d for the download test or -u for the upload test".to_owned()
}

} // verus!

//! The title of a video, as the title tool reported it.

use vstd::prelude::*;
use vstd::string::StringExecFns;

verus! {

/// What a finished run of the title tool left behind.
#[derive(Debug, PartialEq, Eq)]
pub struct ToolOutput {
    /// The tool ended without an error.
    pub success: bool,
    /// What it wrote as its result.
    pub stdout: String,
    /// What it wrote as its complaint.
    pub stderr: String,
}

/// What is reported when the tool could not be started.
pub open spec fn not_started_text(why: Seq<char>) -> Seq<char> {
    "yt-dlp could not be started: "@ + why
}

/// What is reported when the tool ended with an error.
pub open spec fn tool_failed_text(complaint: Seq<char>) -> Seq<char> {
    "yt-dlp failed: "@ + complaint
}

/// What is reported when the tool ended well and wrote nothing.
pub open spec fn no_title_text() -> Seq<char> {
    "yt-dlp returned no title"@
}

/// The title that a run of the tool gives, or the reason why it gives none.
/// A run that could not be started, one that ended with an error and one that
/// wrote nothing give no title; any other gives what it wrote, as it stands.
pub open spec fn video_name(run: Result<(bool, Seq<char>, Seq<char>), Seq<char>>) -> Result<
    Seq<char>,
    Seq<char>,
> {
    match run {
        Err(why) => Err(not_started_text(why)),
        Ok((success, stdout, stderr)) => if !success {
            Err(tool_failed_text(stderr))
        } else if stdout.len() == 0 {
            Err(no_title_text())
        } else {
            Ok(stdout)
        },
    }
}

/// A run of the tool over sequences of characters.
pub open spec fn run_view(run: Result<ToolOutput, String>) -> Result<
    (bool, Seq<char>, Seq<char>),
    Seq<char>,
> {
    match run {
        Err(why) => Err(why@),
        Ok(output) => Ok((output.success, output.stdout@, output.stderr@)),
    }
}

/// Reads the title of a video off a run of the title tool.
pub fn get_video_name(run: Result<ToolOutput, String>) -> (name: Result<String, String>)
    ensures
        match name {
            Ok(title) => video_name(run_view(run)) == Ok::<Seq<char>, Seq<char>>(title@),
            Err(reason) => video_name(run_view(run)) == Err::<Seq<char>, Seq<char>>(reason@),
        },
{
    match run {
        Err(why) => Err(String::from_str("yt-dlp could not be started: ").concat(why.as_str())),
        Ok(output) => {
            if !output.success {
                Err(String::from_str("yt-dlp failed: ").concat(output.stderr.as_str()))
            } else if output.stdout.as_str().is_empty() {
                Err(String::from_str("yt-dlp returned no title"))
            } else {
                Ok(output.stdout)
            }
        },
    }
}

} // verus!

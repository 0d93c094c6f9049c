//! The texts the bot answers with.

use vstd::prelude::*;
use vstd::string::{StringExecFns, StringSliceAdditionalSpecFns};
use vstd::utf8::is_ascii_chars_encode_utf8;
use crate::resolve::{Resolution, ResolutionView};
use crate::text::{decimal, decimal_of, join, joined_with, texts_of};

verus! {

/// What is said when no registered song matches.
pub open spec fn no_match_text() -> Seq<char> {
    "No videos with a name like this exist"@
}

/// What is said when several registered songs match: their titles, with a
/// comma and a blank between each two.
pub open spec fn ambiguous_text(titles: Seq<Seq<char>>) -> Seq<char> {
    "More than one video was found: "@ + joined_with(titles, ", "@) + ". Be more specific"@
}

/// What a resolution leads to: the URL to put in the queue, or what is said in
/// place of playing.
pub open spec fn url_or_refusal_text(resolution: ResolutionView) -> Result<Seq<char>, Seq<char>> {
    match resolution {
        ResolutionView::Direct(url) => Ok(url),
        ResolutionView::Found(url) => Ok(url),
        ResolutionView::NoMatch => Err(no_match_text()),
        ResolutionView::Ambiguous(titles) => Err(ambiguous_text(titles)),
    }
}

/// What is said once a song stands in the queue.
pub open spec fn added_text(title: Seq<char>, position: nat) -> Seq<char> {
    "Added '"@ + title + "' in queue position "@ + decimal_of(position)
}

/// What is said after a skip, given how many songs the queue still holds.
pub open spec fn skip_text(queue_len: nat) -> Seq<char> {
    if queue_len == 0 {
        "Skipping current song. The queue is now empty."@
    } else {
        "Skipping current song"@
    }
}

/// The help message: one line for each command.
pub open spec fn help_text() -> Seq<char> {
    "!help = show this message"@ + "\n"@
        + "!play <YouTube URL> = add the given Youtube link to the queue"@ + "\n"@
        + "!skip = skip the currently playing song and go to the next one in the queue"@ + "\n"@
        + "!stop = stop the current song and clear the queue"@
}

/// The URL to put in the queue, or the reply that takes the place of playing
/// where the resolution gave no URL. The list of titles must be one that a
/// single string can hold with its separators.
pub fn url_or_refusal(resolution: Resolution) -> (step: Result<String, String>)
    requires
        resolution matches Resolution::Ambiguous(titles) ==> 2 * titles.len() <= isize::MAX,
    ensures
        match step {
            Ok(url) => url_or_refusal_text(resolution@) == Ok::<Seq<char>, Seq<char>>(url@),
            Err(reply) => url_or_refusal_text(resolution@) == Err::<Seq<char>, Seq<char>>(reply@),
        },
{
    match resolution {
        Resolution::Direct(url) => Ok(url),
        Resolution::Found(url) => Ok(url),
        Resolution::NoMatch => Err(String::from_str("No videos with a name like this exist")),
        Resolution::Ambiguous(titles) => {
            proof {
                reveal_strlit(", ");
                is_ascii_chars_encode_utf8(", "@);
            }
            let listed = join(&titles, ", ");
            let mut text = String::from_str("More than one video was found: ");
            text.append(listed.as_str());
            text.append(". Be more specific");
            Err(text)
        },
    }
}

/// The reply after a song was put in the queue at `position`.
pub fn added_reply(title: &str, position: usize) -> (reply: String)
    ensures
        reply@ == added_text(title@, position as nat),
{
    let mut reply = String::from_str("Added '");
    reply.append(title);
    reply.append("' in queue position ");
    reply.append(decimal(position).as_str());
    reply
}

/// The reply after a skip that left `queue_len` songs in the queue.
pub fn skip_reply(queue_len: usize) -> (reply: String)
    ensures
        reply@ == skip_text(queue_len as nat),
{
    if queue_len == 0 {
        String::from_str("Skipping current song. The queue is now empty.")
    } else {
        String::from_str("Skipping current song")
    }
}

/// The help message.
pub fn help_message() -> (message: String)
    ensures
        message@ == help_text(),
{
    let mut message = String::new();
    message.append("!help = show this message");
    message.append("\n");
    message.append("!play <YouTube URL> = add the given Youtube link to the queue");
    message.append("\n");
    message.append("!skip = skip the currently playing song and go to the next one in the queue");
    message.append("\n");
    message.append("!stop = stop the current song and clear the queue");
    message
}

} // verus!

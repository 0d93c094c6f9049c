//! The steps of a `reg` command around the title lookup and the store.

use vstd::prelude::*;
use vstd::string::StringExecFns;
use crate::database::{error_text, RegistryError};
use crate::resolve::{watch_prefix, watch_url};
use crate::text::{
    before_first, cut_before, is_substring, lemma_before_first_absent, lemma_without_absent,
    strip_all, without,
};

verus! {

/// What a `reg` command does once the title lookup has answered.
#[derive(Debug, PartialEq, Eq)]
pub enum Registration {
    /// Ask the store to keep this entry, then hand its answer to the registry.
    Store { video_id: String, title: String },
    /// Register nothing and say this.
    Refuse(String),
}

/// A `Registration` over sequences of characters.
pub enum RegistrationView {
    Store { video_id: Seq<char>, title: Seq<char> },
    Refuse(Seq<char>),
}

impl View for Registration {
    type V = RegistrationView;

    open spec fn view(&self) -> RegistrationView {
        match self {
            Registration::Store { video_id, title } => RegistrationView::Store {
                video_id: video_id@,
                title: title@,
            },
            Registration::Refuse(reply) => RegistrationView::Refuse(reply@),
        }
    }
}

/// The video identifier in a URL: what is left in front of the first `&` once
/// the text that leads to a song is taken out.
pub open spec fn video_id_of(url: Seq<char>) -> Seq<char> {
    before_first(without(url, watch_prefix()), '&')
}

/// What is said when `reg` comes without a URL that names a video.
pub open spec fn usage_text() -> Seq<char> {
    "Must provide a URL to a video or audio"@
}

/// What is said when the title lookup failed.
pub open spec fn no_title_reply_text(reason: Seq<char>) -> Seq<char> {
    "Could not retrieve video name. "@ + reason
}

/// What is said once the registry has answered.
pub open spec fn outcome_text(outcome: Result<(), RegistryError>) -> Seq<char> {
    match outcome {
        Ok(_) => "Video registered in database."@,
        Err(error) => "Could not store video in database. "@ + error_text(error),
    }
}

/// The step after the title lookup: no title, no entry; a URL without an
/// identifier, no entry; else the entry to store.
pub open spec fn planned(url: Seq<char>, title: Result<Seq<char>, Seq<char>>) -> RegistrationView {
    match title {
        Err(reason) => RegistrationView::Refuse(no_title_reply_text(reason)),
        Ok(title) => if video_id_of(url).len() == 0 {
            RegistrationView::Refuse(usage_text())
        } else {
            RegistrationView::Store { video_id: video_id_of(url), title }
        },
    }
}

/// A title lookup over sequences of characters.
pub open spec fn lookup_view(title: Result<String, String>) -> Result<Seq<char>, Seq<char>> {
    match title {
        Ok(title) => Ok(title@),
        Err(reason) => Err(reason@),
    }
}

/// The video identifier in a URL.
pub fn video_id_from_url(url: &str) -> (video_id: String)
    ensures
        video_id@ == video_id_of(url@),
{
    let stripped = strip_all(url, "https://www.youtube.com/watch?v=");
    cut_before(stripped.as_str(), '&')
}

/// The reply to a `reg` command that names no video.
pub fn usage_reply() -> (reply: String)
    ensures
        reply@ == usage_text(),
{
    String::from_str("Must provide a URL to a video or audio")
}

/// Decides what a `reg` command does once the title lookup has answered.
pub fn plan_registration(url: &str, title: Result<String, String>) -> (step: Registration)
    ensures
        step@ == planned(url@, lookup_view(title)),
{
    match title {
        Err(reason) => Registration::Refuse(
            String::from_str("Could not retrieve video name. ").concat(reason.as_str()),
        ),
        Ok(title) => {
            let video_id = video_id_from_url(url);
            if video_id.as_str().is_empty() {
                Registration::Refuse(usage_reply())
            } else {
                Registration::Store { video_id, title }
            }
        },
    }
}

/// The reply to a `reg` command once the registry has answered.
pub fn registration_reply(outcome: Result<(), RegistryError>) -> (reply: String)
    ensures
        reply@ == outcome_text(outcome),
{
    match outcome {
        Ok(_) => String::from_str("Video registered in database."),
        Err(error) => String::from_str("Could not store video in database. ").concat(
            error.message().as_str(),
        ),
    }
}

/// The URL under which a registered song plays leads back to its identifier,
/// for every identifier that holds neither `&` nor the text that leads to a
/// song.
pub proof fn lemma_watch_url_leads_back(video_id: Seq<char>)
    requires
        !video_id.contains('&'),
        !is_substring(watch_prefix(), video_id),
    ensures
        video_id_of(watch_url(video_id)) == video_id,
{
    let prefix = watch_prefix();
    let url = watch_url(video_id);
    reveal_strlit("https://www.youtube.com/watch?v=");
    assert(url.subrange(0, prefix.len() as int) =~= prefix);
    assert(url.skip(prefix.len() as int) =~= video_id);
    lemma_without_absent(video_id, prefix);
    lemma_before_first_absent(video_id, '&');
}

} // verus!

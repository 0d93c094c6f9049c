//! How the argument of a `play` command becomes something to play.

use vstd::prelude::*;
use vstd::string::StringExecFns;
use crate::database::{
    lemma_empty_query_finds_all, lemma_none_found, matching, rows_view, Database,
};
use crate::text::{chars_of, matches_at, occurs_at, title_contains};

verus! {

/// What a `play` argument came to.
#[derive(Debug, PartialEq, Eq)]
pub enum Resolution {
    /// The argument is a URL and is played as it stands.
    Direct(String),
    /// One registered song matched: the URL under which it plays.
    Found(String),
    /// No registered song matched.
    NoMatch,
    /// Several registered songs matched: their titles, in registry order.
    Ambiguous(Vec<String>),
}

/// A `Resolution` over sequences of characters.
pub enum ResolutionView {
    Direct(Seq<char>),
    Found(Seq<char>),
    NoMatch,
    Ambiguous(Seq<Seq<char>>),
}

impl View for Resolution {
    type V = ResolutionView;

    open spec fn view(&self) -> ResolutionView {
        match self {
            Resolution::Direct(url) => ResolutionView::Direct(url@),
            Resolution::Found(url) => ResolutionView::Found(url@),
            Resolution::NoMatch => ResolutionView::NoMatch,
            Resolution::Ambiguous(titles) => ResolutionView::Ambiguous(
                titles@.map_values(|title: String| title@),
            ),
        }
    }
}

/// The text that a `play` argument starts with when it is a URL.
pub open spec fn url_scheme() -> Seq<char> {
    "https"@
}

/// The text in front of the video identifier in the URL of a song.
pub open spec fn watch_prefix() -> Seq<char> {
    "https://www.youtube.com/watch?v="@
}

/// The argument is taken as a URL.
pub open spec fn is_direct_url(input: Seq<char>) -> bool {
    occurs_at(url_scheme(), input, 0)
}

/// The URL under which the song with this identifier plays.
pub open spec fn watch_url(video_id: Seq<char>) -> Seq<char> {
    watch_prefix() + video_id
}

/// The titles of some entries, in their order.
pub open spec fn titles_of(rows: Seq<(Seq<char>, Seq<char>)>) -> Seq<Seq<char>> {
    rows.map_values(|row: (Seq<char>, Seq<char>)| row.1)
}

/// The resolution policy. A URL is played as it stands, whatever the registry
/// holds. Any other argument is looked up among the titles: one match plays,
/// none or several do not.
pub open spec fn resolved(rows: Seq<(Seq<char>, Seq<char>)>, input: Seq<char>) -> ResolutionView {
    if is_direct_url(input) {
        ResolutionView::Direct(input)
    } else {
        let found = matching(rows, input);
        if found.len() == 0 {
            ResolutionView::NoMatch
        } else if found.len() == 1 {
            ResolutionView::Found(watch_url(found[0].0))
        } else {
            ResolutionView::Ambiguous(titles_of(found))
        }
    }
}

/// Whether the argument is taken as a URL.
pub fn is_direct(input: &str) -> (direct: bool)
    ensures
        direct == is_direct_url(input@),
{
    let text = chars_of(input);
    let scheme = chars_of("https");
    matches_at(&text, &scheme, 0)
}

/// The URL under which the song with this identifier plays.
pub fn canonical_url(video_id: &str) -> (url: String)
    ensures
        url@ == watch_url(video_id@),
{
    String::from_str("https://www.youtube.com/watch?v=").concat(video_id)
}

/// Resolves the argument of a `play` command against the registry.
pub fn resolve(input: String, db: &Database) -> (resolution: Resolution)
    ensures
        resolution@ == resolved(db@, input@),
{
    if is_direct(input.as_str()) {
        return Resolution::Direct(input);
    }
    let found = db.find_videos_like(input);
    if found.len() == 0 {
        Resolution::NoMatch
    } else if found.len() == 1 {
        Resolution::Found(canonical_url(found[0].0.as_str()))
    } else {
        let mut titles: Vec<String> = Vec::new();
        let mut i: usize = 0;
        while i < found.len()
            invariant
                i <= found.len(),
                titles@.len() == i,
                forall|k: int| 0 <= k < i ==> (#[trigger] titles@[k])@ == found@[k].1@,
            decreases found.len() - i,
        {
            titles.push(found[i].1.clone());
            i += 1;
        }
        assert(titles@.map_values(|title: String| title@) =~= titles_of(rows_view(found@)));
        Resolution::Ambiguous(titles)
    }
}

/// A URL resolves to itself whatever the registry holds.
pub proof fn lemma_url_bypasses_registry(
    rows: Seq<(Seq<char>, Seq<char>)>,
    other: Seq<(Seq<char>, Seq<char>)>,
    input: Seq<char>,
)
    requires
        is_direct_url(input),
    ensures
        resolved(rows, input) == ResolutionView::Direct(input),
        resolved(rows, input) == resolved(other, input),
{
}

/// The empty argument matches every entry: it plays where the registry holds
/// one song and is ambiguous where it holds several.
pub proof fn lemma_empty_argument_matches_all(rows: Seq<(Seq<char>, Seq<char>)>)
    ensures
        resolved(rows, Seq::<char>::empty()) == if rows.len() == 0 {
            ResolutionView::NoMatch
        } else if rows.len() == 1 {
            ResolutionView::Found(watch_url(rows[0].0))
        } else {
            ResolutionView::Ambiguous(titles_of(rows))
        },
{
    reveal_strlit("https");
    lemma_empty_query_finds_all(rows);
}

/// An argument that is no URL and that the title of exactly one entry holds
/// resolves to that entry.
pub proof fn lemma_single_match_resolves(
    rows: Seq<(Seq<char>, Seq<char>)>,
    input: Seq<char>,
    k: int,
)
    requires
        !is_direct_url(input),
        0 <= k < rows.len(),
        forall|j: int|
            0 <= j < rows.len() ==> (title_contains(#[trigger] rows[j].1, input) <==> j == k),
    ensures
        matching(rows, input) == seq![rows[k]],
        resolved(rows, input) == ResolutionView::Found(watch_url(rows[k].0)),
{
    let keep = |row: (Seq<char>, Seq<char>)| title_contains(row.1, input);
    let front = rows.take(k);
    let back = rows.skip(k + 1);
    lemma_none_found(front, input);
    lemma_none_found(back, input);
    assert(rows =~= (front + seq![rows[k]]) + back);
    Seq::filter_distributes_over_add(front + seq![rows[k]], back, keep);
    Seq::filter_distributes_over_add(front, seq![rows[k]], keep);
    assert(seq![rows[k]].filter(keep) =~= seq![rows[k]]) by {
        reveal(Seq::filter);
    }
}

} // verus!

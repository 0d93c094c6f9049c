//! The registry of known songs: video identifiers and their titles.

use vstd::prelude::*;
use vstd::string::StringExecFns;
use crate::text::{contains, lemma_empty_query_matches, lowered, lowered_chars, title_contains};

verus! {

/// Why an insertion was refused.
#[derive(Clone, Copy, Debug, PartialEq, Eq, Structural)]
pub enum RegistryError {
    /// The video identifier is already registered.
    DuplicateKey,
    /// The durable store could not take the entry.
    StorageFailure,
}

/// An error of the registry in words.
pub open spec fn error_text(error: RegistryError) -> Seq<char> {
    match error {
        RegistryError::DuplicateKey => "A video with this id is already registered"@,
        RegistryError::StorageFailure => "The database could not be written"@,
    }
}

impl RegistryError {
    /// The error in words, for the user.
    pub fn message(&self) -> (text: String)
        ensures
            text@ == error_text(*self),
    {
        match self {
            RegistryError::DuplicateKey => String::from_str(
                "A video with this id is already registered",
            ),
            RegistryError::StorageFailure => String::from_str("The database could not be written"),
        }
    }
}

/// What the durable store answered when it was asked to keep a new entry.
#[derive(Clone, Copy, Debug, PartialEq, Eq, Structural)]
pub enum WriteOutcome {
    /// The entry is on disk.
    Written,
    /// The store already holds an entry under this identifier.
    KeyExists,
    /// The store could not be written.
    Failed,
}

/// The extended result code with which SQLite refuses a row whose primary key
/// is taken.
pub const SQLITE_CONSTRAINT_PRIMARYKEY: i32 = 1555;

/// The extended result code with which SQLite refuses a row that breaks a
/// uniqueness constraint.
pub const SQLITE_CONSTRAINT_UNIQUE: i32 = 2067;

/// What an `INSERT` on the song table came to: the number of rows it wrote,
/// or SQLite's extended result code where SQLite refused it, or nothing where
/// the statement failed before SQLite judged it.
pub open spec fn outcome_of(written: Result<usize, Option<i32>>) -> WriteOutcome {
    match written {
        Ok(_) => WriteOutcome::Written,
        Err(Some(code)) => if code == SQLITE_CONSTRAINT_PRIMARYKEY || code
            == SQLITE_CONSTRAINT_UNIQUE {
            WriteOutcome::KeyExists
        } else {
            WriteOutcome::Failed
        },
        Err(None) => WriteOutcome::Failed,
    }
}

impl WriteOutcome {
    /// Reads the answer of the store off the result of an `INSERT`.
    pub fn of_insert(written: Result<usize, Option<i32>>) -> (outcome: WriteOutcome)
        ensures
            outcome == outcome_of(written),
    {
        match written {
            Ok(_) => WriteOutcome::Written,
            Err(Some(code)) => {
                if code == SQLITE_CONSTRAINT_PRIMARYKEY || code == SQLITE_CONSTRAINT_UNIQUE {
                    WriteOutcome::KeyExists
                } else {
                    WriteOutcome::Failed
                }
            },
            Err(None) => WriteOutcome::Failed,
        }
    }
}

/// The entries behind a vector of `(video id, title)` pairs.
pub open spec fn rows_view(rows: Seq<(String, String)>) -> Seq<(Seq<char>, Seq<char>)> {
    rows.map_values(|row: (String, String)| (row.0@, row.1@))
}

/// Some entry of `rows` has the identifier `id`.
pub open spec fn has_id(rows: Seq<(Seq<char>, Seq<char>)>, id: Seq<char>) -> bool {
    exists|i: int| 0 <= i < rows.len() && #[trigger] rows[i].0 == id
}

/// No identifier is empty and none occurs twice.
pub open spec fn well_formed(rows: Seq<(Seq<char>, Seq<char>)>) -> bool {
    &&& forall|i: int| 0 <= i < rows.len() ==> (#[trigger] rows[i]).0.len() > 0
    &&& forall|i: int, j: int|
        0 <= i < j < rows.len() ==> (#[trigger] rows[i]).0 != (#[trigger] rows[j]).0
}

/// What a registry takes over from the rows of a store: each row in its order,
/// but for those with an empty identifier and those whose identifier an
/// earlier row has.
pub open spec fn admitted(stored: Seq<(Seq<char>, Seq<char>)>) -> Seq<(Seq<char>, Seq<char>)>
    decreases stored.len(),
{
    if stored.len() == 0 {
        stored
    } else {
        let before = admitted(stored.drop_last());
        let row = stored.last();
        if row.0.len() > 0 && !has_id(before, row.0) {
            before.push(row)
        } else {
            before
        }
    }
}

/// What an insertion answers, given the entries held before it.
pub open spec fn insert_result(
    rows: Seq<(Seq<char>, Seq<char>)>,
    id: Seq<char>,
    write: WriteOutcome,
) -> Result<(), RegistryError> {
    if has_id(rows, id) {
        Err(RegistryError::DuplicateKey)
    } else {
        match write {
            WriteOutcome::Written => Ok(()),
            WriteOutcome::KeyExists => Err(RegistryError::DuplicateKey),
            WriteOutcome::Failed => Err(RegistryError::StorageFailure),
        }
    }
}

/// The entries held after an insertion: one more at the end where it
/// succeeded, the same as before where it did not.
pub open spec fn insert_state(
    rows: Seq<(Seq<char>, Seq<char>)>,
    id: Seq<char>,
    title: Seq<char>,
    write: WriteOutcome,
) -> Seq<(Seq<char>, Seq<char>)> {
    if insert_result(rows, id, write) is Ok {
        rows.push((id, title))
    } else {
        rows
    }
}

/// The entries of `rows` whose title holds `query`, letter case set aside, in
/// the order in which `rows` holds them.
pub open spec fn matching(rows: Seq<(Seq<char>, Seq<char>)>, query: Seq<char>) -> Seq<
    (Seq<char>, Seq<char>),
> {
    rows.filter(|row: (Seq<char>, Seq<char>)| title_contains(row.1, query))
}

/// One request to register a song, with the answer the durable store gave to it.
pub struct Attempt {
    pub video_id: Seq<char>,
    pub title: Seq<char>,
    pub write: WriteOutcome,
}

/// The entries held after a run of insertions, made one after the other on a
/// registry that held `rows`.
pub open spec fn replay(rows: Seq<(Seq<char>, Seq<char>)>, calls: Seq<Attempt>) -> Seq<
    (Seq<char>, Seq<char>),
>
    decreases calls.len(),
{
    if calls.len() == 0 {
        rows
    } else {
        let call = calls.last();
        insert_state(replay(rows, calls.drop_last()), call.video_id, call.title, call.write)
    }
}

/// What the insertion at position `k` of such a run answers.
pub open spec fn answer(rows: Seq<(Seq<char>, Seq<char>)>, calls: Seq<Attempt>, k: int) -> Result<
    (),
    RegistryError,
> {
    insert_result(replay(rows, calls.take(k)), calls[k].video_id, calls[k].write)
}

/// Whether some row has this identifier.
fn holds(songs: &Vec<(String, String)>, video_id: &String) -> (held: bool)
    ensures
        held == has_id(rows_view(songs@), video_id@),
{
    let mut i: usize = 0;
    while i < songs.len()
        invariant
            i <= songs.len(),
            forall|j: int| 0 <= j < i ==> (#[trigger] rows_view(songs@)[j]).0 != video_id@,
        decreases songs.len() - i,
    {
        if songs[i].0 == *video_id {
            assert(rows_view(songs@)[i as int].0 == video_id@);
            return true;
        }
        i += 1;
    }
    false
}

/// The registry: entries in the order of their insertion.
pub struct Database {
    songs: Vec<(String, String)>,
}

impl View for Database {
    type V = Seq<(Seq<char>, Seq<char>)>;

    closed spec fn view(&self) -> Seq<(Seq<char>, Seq<char>)> {
        rows_view(self.songs@)
    }
}

impl Database {
    #[verifier::type_invariant]
    spec fn inv(&self) -> bool {
        well_formed(rows_view(self.songs@))
    }

    /// A registry over the rows that the store holds when the program starts.
    pub fn open(stored: Vec<(String, String)>) -> (db: Database)
        ensures
            db@ == admitted(rows_view(stored@)),
            well_formed(db@),
    {
        let mut songs: Vec<(String, String)> = Vec::new();
        let mut i: usize = 0;
        while i < stored.len()
            invariant
                i <= stored.len(),
                rows_view(songs@) == admitted(rows_view(stored@).take(i as int)),
                well_formed(rows_view(songs@)),
            decreases stored.len() - i,
        {
            let ghost before = rows_view(songs@);
            let ghost row = rows_view(stored@)[i as int];
            assert(rows_view(stored@).take(i + 1).drop_last() =~= rows_view(stored@).take(
                i as int,
            ));
            if !stored[i].0.as_str().is_empty() && !holds(&songs, &stored[i].0) {
                songs.push((stored[i].0.clone(), stored[i].1.clone()));
                proof {
                    assert(rows_view(songs@) =~= before.push(row));
                    lemma_insert_keeps_well_formed(before, row.0, row.1, WriteOutcome::Written);
                }
            }
            i += 1;
        }
        assert(rows_view(stored@).take(i as int) =~= rows_view(stored@));
        Database { songs }
    }

    /// How many entries the registry holds.
    pub fn len(&self) -> (n: usize)
        ensures
            n == self@.len(),
    {
        self.songs.len()
    }

    /// Whether an entry with this identifier is registered.
    pub fn contains_id(&self, video_id: &String) -> (held: bool)
        ensures
            held == has_id(self@, video_id@),
    {
        holds(&self.songs, video_id)
    }

    /// The title registered under an identifier.
    pub fn title_of(&self, video_id: &String) -> (title: Option<String>)
        ensures
            match title {
                Some(title) => self@.contains((video_id@, title@)),
                None => !has_id(self@, video_id@),
            },
            well_formed(self@),
    {
        proof {
            use_type_invariant(self);
        }
        let mut i: usize = 0;
        while i < self.songs.len()
            invariant
                well_formed(self@),
                i <= self.songs.len(),
                forall|j: int| 0 <= j < i ==> (#[trigger] self@[j]).0 != video_id@,
            decreases self.songs.len() - i,
        {
            if self.songs[i].0 == *video_id {
                assert(self@[i as int] == (video_id@, self.songs[i as int].1@));
                return Some(self.songs[i].1.clone());
            }
            i += 1;
        }
        None
    }

    /// Registers a song once the durable store has answered the request to
    /// keep it. An identifier that is already registered is refused whatever
    /// the store answered; a new one is taken exactly when the store wrote it.
    pub fn add_song(&mut self, video_id: String, video_title: String, write: WriteOutcome) -> (r:
        Result<(), RegistryError>)
        requires
            video_id@.len() > 0,
        ensures
            r == insert_result(old(self)@, video_id@, write),
            final(self)@ == insert_state(old(self)@, video_id@, video_title@, write),
            well_formed(final(self)@),
    {
        proof {
            use_type_invariant(&*self);
        }
        if self.contains_id(&video_id) {
            return Err(RegistryError::DuplicateKey);
        }
        match write {
            WriteOutcome::Written => {
                let ghost before = self@;
                let mut songs: Vec<(String, String)> = Vec::new();
                core::mem::swap(&mut self.songs, &mut songs);
                songs.push((video_id, video_title));
                assert(rows_view(songs@) =~= before.push((video_id@, video_title@)));
                core::mem::swap(&mut self.songs, &mut songs);
                Ok(())
            },
            WriteOutcome::KeyExists => Err(RegistryError::DuplicateKey),
            WriteOutcome::Failed => Err(RegistryError::StorageFailure),
        }
    }

    /// The entries whose title holds `input`, letter case set aside, in the
    /// order of their insertion.
    pub fn find_videos_like(&self, input: String) -> (found: Vec<(String, String)>)
        ensures
            rows_view(found@) == matching(self@, input@),
    {
        let needle = lowered_chars(input.as_str());
        let mut found: Vec<(String, String)> = Vec::new();
        let mut i: usize = 0;
        assert(matching(self@.take(0), input@) =~= rows_view(found@)) by {
            reveal(Seq::filter);
        }
        while i < self.songs.len()
            invariant
                needle@ == lowered(input@),
                i <= self.songs.len(),
                rows_view(found@) == matching(self@.take(i as int), input@),
            decreases self.songs.len() - i,
        {
            let hay = lowered_chars(self.songs[i].1.as_str());
            let hit = contains(&hay, &needle);
            proof {
                assert(self@.take(i + 1).drop_last() =~= self@.take(i as int));
                reveal(Seq::filter);
            }
            if hit {
                found.push((self.songs[i].0.clone(), self.songs[i].1.clone()));
            }
            i += 1;
        }
        assert(self@.take(i as int) =~= self@);
        found
    }
}

/// Rows that are well formed are all taken over, as they stand.
pub proof fn lemma_admitted_keeps_well_formed_rows(stored: Seq<(Seq<char>, Seq<char>)>)
    requires
        well_formed(stored),
    ensures
        admitted(stored) == stored,
    decreases stored.len(),
{
    if stored.len() > 0 {
        lemma_admitted_keeps_well_formed_rows(stored.drop_last());
    }
}

/// An insertion keeps the registry well formed.
pub proof fn lemma_insert_keeps_well_formed(
    rows: Seq<(Seq<char>, Seq<char>)>,
    id: Seq<char>,
    title: Seq<char>,
    write: WriteOutcome,
)
    requires
        well_formed(rows),
        id.len() > 0,
    ensures
        well_formed(insert_state(rows, id, title, write)),
{
}

/// The insertion at position `k` of a run acts on what the `k` insertions
/// before it left.
pub proof fn lemma_replay_step(rows: Seq<(Seq<char>, Seq<char>)>, calls: Seq<Attempt>, k: int)
    requires
        0 <= k < calls.len(),
    ensures
        replay(rows, calls.take(k + 1)) == insert_state(
            replay(rows, calls.take(k)),
            calls[k].video_id,
            calls[k].title,
            calls[k].write,
        ),
{
    assert(calls.take(k + 1).drop_last() =~= calls.take(k));
}

/// A run of insertions never removes or changes an entry: what the registry
/// held after `k` of them still stands, in place, after `m >= k` of them.
pub proof fn lemma_replay_grows(
    rows: Seq<(Seq<char>, Seq<char>)>,
    calls: Seq<Attempt>,
    k: int,
    m: int,
)
    requires
        0 <= k <= m <= calls.len(),
    ensures
        replay(rows, calls.take(k)).is_prefix_of(replay(rows, calls.take(m))),
    decreases m - k,
{
    if k < m {
        lemma_replay_grows(rows, calls, k, m - 1);
        lemma_replay_step(rows, calls, m - 1);
    }
}

/// A run of insertions with identifiers that are not empty keeps the registry
/// well formed.
pub proof fn lemma_replay_well_formed(rows: Seq<(Seq<char>, Seq<char>)>, calls: Seq<Attempt>)
    requires
        well_formed(rows),
        forall|k: int| 0 <= k < calls.len() ==> (#[trigger] calls[k]).video_id.len() > 0,
    ensures
        well_formed(replay(rows, calls)),
    decreases calls.len(),
{
    if calls.len() > 0 {
        let before = calls.drop_last();
        lemma_replay_well_formed(rows, before);
        let call = calls.last();
        lemma_insert_keeps_well_formed(
            replay(rows, before),
            call.video_id,
            call.title,
            call.write,
        );
    }
}

/// Uniqueness. In any run of insertions, where one insertion of an identifier
/// succeeds no other insertion of that identifier does. Every later one is
/// refused as a duplicate. An earlier one had been refused by the store: as a
/// duplicate where the store knew the key, as a storage failure where the
/// store could not be written. The registry keeps, for that identifier, the
/// title of the insertion that succeeded, and no other.
pub proof fn lemma_one_success_per_id(
    rows: Seq<(Seq<char>, Seq<char>)>,
    calls: Seq<Attempt>,
    i: int,
    j: int,
)
    requires
        well_formed(rows),
        forall|k: int| 0 <= k < calls.len() ==> (#[trigger] calls[k]).video_id.len() > 0,
        0 <= i < calls.len(),
        0 <= j < calls.len(),
        i != j,
        calls[i].video_id == calls[j].video_id,
        answer(rows, calls, i) is Ok,
    ensures
        answer(rows, calls, j) is Err,
        i < j ==> answer(rows, calls, j) == Err::<(), RegistryError>(RegistryError::DuplicateKey),
        j < i ==> calls[j].write != WriteOutcome::Written,
        j < i && calls[j].write == WriteOutcome::KeyExists ==> answer(rows, calls, j) == Err::<
            (),
            RegistryError,
        >(RegistryError::DuplicateKey),
        j < i && calls[j].write == WriteOutcome::Failed ==> answer(rows, calls, j) == Err::<
            (),
            RegistryError,
        >(RegistryError::StorageFailure),
        forall|title: Seq<char>|
            replay(rows, calls).contains((calls[i].video_id, title)) <==> title == calls[i].title,
{
    let id = calls[i].video_id;
    let slot = replay(rows, calls.take(i)).len() as int;
    // The insertion at `i` put its entry behind what the registry held.
    lemma_replay_step(rows, calls, i);
    assert(replay(rows, calls.take(i + 1))[slot] == (id, calls[i].title));
    if i < j {
        // The entry was still there when the insertion at `j` came.
        lemma_replay_grows(rows, calls, i + 1, j);
        assert(replay(rows, calls.take(j))[slot].0 == id);
    } else {
        // What the insertion at `j` found or left, the one at `i` found too.
        lemma_replay_step(rows, calls, j);
        lemma_replay_grows(rows, calls, j, i);
        lemma_replay_grows(rows, calls, j + 1, i);
        let seen = replay(rows, calls.take(j));
        if has_id(seen, id) {
            let w = choose|w: int| 0 <= w < seen.len() && #[trigger] seen[w].0 == id;
            assert(replay(rows, calls.take(i))[w].0 == id);
        }
        if calls[j].write == WriteOutcome::Written {
            assert(replay(rows, calls.take(j + 1))[seen.len() as int].0 == id);
        }
    }
    // The entry is there at the end, and no other entry has its identifier.
    assert(calls.take(calls.len() as int) =~= calls);
    lemma_replay_grows(rows, calls, i + 1, calls.len() as int);
    lemma_replay_well_formed(rows, calls);
    let last = replay(rows, calls);
    assert(last[slot] == (id, calls[i].title));
    assert forall|title: Seq<char>| last.contains((id, title)) implies title == calls[i].title by {
        let w = choose|w: int| 0 <= w < last.len() && last[w] == (id, title);
        assert(last[w].0 == last[slot].0);
    }
}

/// The substring law. A lookup returns an entry exactly when the registry holds
/// it and its title, in lower case, holds the query in lower case.
pub proof fn lemma_found_iff_title_contains(
    rows: Seq<(Seq<char>, Seq<char>)>,
    query: Seq<char>,
    row: (Seq<char>, Seq<char>),
)
    ensures
        matching(rows, query).contains(row) <==> rows.contains(row) && title_contains(
            row.1,
            query,
        ),
{
    let keep = |row: (Seq<char>, Seq<char>)| title_contains(row.1, query);
    if matching(rows, query).contains(row) {
        rows.lemma_filter_contains_rev(keep, row);
    }
    if rows.contains(row) && title_contains(row.1, query) {
        let w = choose|w: int| 0 <= w < rows.len() && rows[w] == row;
        rows.lemma_filter_contains(keep, w);
    }
}

/// Where no title holds the query, a lookup finds nothing.
pub proof fn lemma_none_found(rows: Seq<(Seq<char>, Seq<char>)>, query: Seq<char>)
    requires
        forall|j: int| 0 <= j < rows.len() ==> !title_contains(#[trigger] rows[j].1, query),
    ensures
        matching(rows, query) == Seq::<(Seq<char>, Seq<char>)>::empty(),
    decreases rows.len(),
{
    reveal(Seq::filter);
    if rows.len() > 0 {
        lemma_none_found(rows.drop_last(), query);
    }
}

/// A lookup hands out the entries in the order in which the registry holds
/// them: what it finds among the first `n` entries comes first.
pub proof fn lemma_found_in_registry_order(
    rows: Seq<(Seq<char>, Seq<char>)>,
    query: Seq<char>,
    n: int,
)
    requires
        0 <= n <= rows.len(),
    ensures
        matching(rows.take(n), query).is_prefix_of(matching(rows, query)),
{
    let keep = |row: (Seq<char>, Seq<char>)| title_contains(row.1, query);
    assert(rows =~= rows.take(n) + rows.skip(n));
    Seq::filter_distributes_over_add(rows.take(n), rows.skip(n), keep);
}

/// An entry that was taken is seen by every later lookup whose query its
/// title holds, behind the entries that were there before; a refused insertion
/// changes no lookup.
pub proof fn lemma_insert_then_find(
    rows: Seq<(Seq<char>, Seq<char>)>,
    id: Seq<char>,
    title: Seq<char>,
    write: WriteOutcome,
    query: Seq<char>,
)
    ensures
        matching(insert_state(rows, id, title, write), query) == if insert_result(rows, id, write)
            is Ok && title_contains(title, query) {
            matching(rows, query).push((id, title))
        } else {
            matching(rows, query)
        },
{
    if insert_result(rows, id, write) is Ok {
        let after = rows.push((id, title));
        assert(after.drop_last() =~= rows);
        reveal(Seq::filter);
    }
}

/// Repeatable reads. Two lookups with the same query on the same registry
/// return the same entries in the same order.
pub proof fn lemma_read_is_repeatable(
    db: Database,
    input: Seq<char>,
    first: Seq<(String, String)>,
    second: Seq<(String, String)>,
)
    requires
        rows_view(first) == matching(db@, input),
        rows_view(second) == matching(db@, input),
    ensures
        rows_view(first) == rows_view(second),
{
}

/// The empty query finds every entry.
pub proof fn lemma_empty_query_finds_all(rows: Seq<(Seq<char>, Seq<char>)>)
    ensures
        matching(rows, Seq::<char>::empty()) == rows,
    decreases rows.len(),
{
    reveal(Seq::filter);
    if rows.len() > 0 {
        lemma_empty_query_finds_all(rows.drop_last());
        lemma_empty_query_matches(rows.last().1);
    }
}

} // verus!

use dmbot::database::{Database, RegistryError, WriteOutcome};

fn row(id: &str, title: &str) -> (String, String) {
    (id.to_string(), title.to_string())
}

fn daily() -> Database {
    Database::open(vec![row("id1", "Daily Mix"), row("id2", "Daily News")])
}

#[test]
fn second_insert_of_an_identifier_is_a_duplicate() {
    let mut db = Database::open(Vec::new());
    assert_eq!(
        db.add_song("abc123".to_string(), "Lo-Fi Beats".to_string(), WriteOutcome::Written),
        Ok(())
    );
    assert_eq!(
        db.add_song("abc123".to_string(), "Other".to_string(), WriteOutcome::Written),
        Err(RegistryError::DuplicateKey)
    );
    assert_eq!(db.len(), 1);
    assert_eq!(db.title_of(&"abc123".to_string()), Some("Lo-Fi Beats".to_string()));
    assert_eq!(db.find_videos_like(String::new()), vec![row("abc123", "Lo-Fi Beats")]);
    assert_eq!(db.find_videos_like("other".to_string()), Vec::new());
}

#[test]
fn daily_finds_both_and_mix_finds_one() {
    let db = daily();
    assert_eq!(
        db.find_videos_like("daily".to_string()),
        vec![row("id1", "Daily Mix"), row("id2", "Daily News")]
    );
    assert_eq!(db.find_videos_like("mix".to_string()), vec![row("id1", "Daily Mix")]);
}

#[test]
fn lookup_sets_letter_case_aside_on_both_sides() {
    let db = daily();
    assert_eq!(db.find_videos_like("DAILY N".to_string()), vec![row("id2", "Daily News")]);
    assert_eq!(db.find_videos_like("dAiLy mIx".to_string()), vec![row("id1", "Daily Mix")]);
    let umlauts = Database::open(vec![row("u1", "ÄRGER im Büro")]);
    assert_eq!(umlauts.find_videos_like("ärger".to_string()), vec![row("u1", "ÄRGER im Büro")]);
    assert_eq!(umlauts.find_videos_like("BÜRO".to_string()), vec![row("u1", "ÄRGER im Büro")]);
}

#[test]
fn lookup_wants_the_query_in_one_piece() {
    let db = daily();
    assert_eq!(db.find_videos_like("dailymix".to_string()), Vec::new());
    assert_eq!(db.find_videos_like("daily  mix".to_string()), Vec::new());
    assert_eq!(db.find_videos_like("id1".to_string()), Vec::new());
    assert_eq!(db.find_videos_like("Daily Mix and more".to_string()), Vec::new());
}

#[test]
fn lookup_on_an_empty_registry_finds_nothing() {
    let db = Database::open(Vec::new());
    assert_eq!(db.len(), 0);
    assert_eq!(db.find_videos_like("lofi".to_string()), Vec::new());
    assert_eq!(db.find_videos_like(String::new()), Vec::new());
}

#[test]
fn repeated_lookups_return_the_same() {
    let db = daily();
    let first = db.find_videos_like("daily".to_string());
    let second = db.find_videos_like("daily".to_string());
    let third = db.find_videos_like("daily".to_string());
    assert_eq!(first, second);
    assert_eq!(second, third);
}

#[test]
fn refused_insertions_leave_lookups_as_they_were() {
    let mut db = daily();
    let before = db.find_videos_like("daily".to_string());
    let refused = [
        ("id1", "Daily Other", WriteOutcome::Written),
        ("id3", "Daily Third", WriteOutcome::Failed),
        ("id4", "Daily Fourth", WriteOutcome::KeyExists),
    ];
    for (id, title, write) in refused {
        assert!(db.add_song(id.to_string(), title.to_string(), write).is_err());
    }
    assert_eq!(db.find_videos_like("daily".to_string()), before);
}

#[test]
fn empty_query_returns_every_entry_in_insertion_order() {
    let mut db = Database::open(Vec::new());
    assert_eq!(db.add_song("z".to_string(), "Zebra".to_string(), WriteOutcome::Written), Ok(()));
    assert_eq!(db.add_song("a".to_string(), "".to_string(), WriteOutcome::Written), Ok(()));
    assert_eq!(db.add_song("m".to_string(), "Mule".to_string(), WriteOutcome::Written), Ok(()));
    assert_eq!(
        db.find_videos_like(String::new()),
        vec![row("z", "Zebra"), row("a", ""), row("m", "Mule")]
    );
}

#[test]
fn a_successful_insert_is_seen_by_the_next_lookup() {
    let mut db = daily();
    assert_eq!(db.find_videos_like("news".to_string()).len(), 1);
    assert_eq!(
        db.add_song("id3".to_string(), "Evening NEWS".to_string(), WriteOutcome::Written),
        Ok(())
    );
    assert_eq!(
        db.find_videos_like("news".to_string()),
        vec![row("id2", "Daily News"), row("id3", "Evening NEWS")]
    );
}

#[test]
fn at_most_one_insertion_succeeds_for_each_identifier() {
    let mut db = Database::open(Vec::new());
    let calls = vec![
        ("a", "first a", WriteOutcome::Failed),
        ("a", "second a", WriteOutcome::Written),
        ("b", "first b", WriteOutcome::Written),
        ("a", "third a", WriteOutcome::Written),
        ("b", "second b", WriteOutcome::Failed),
        ("a", "fourth a", WriteOutcome::KeyExists),
        ("b", "third b", WriteOutcome::Written),
    ];
    let mut answers = Vec::new();
    for (id, title, write) in calls {
        answers.push(db.add_song(id.to_string(), title.to_string(), write));
    }
    assert_eq!(
        answers,
        vec![
            Err(RegistryError::StorageFailure),
            Ok(()),
            Ok(()),
            Err(RegistryError::DuplicateKey),
            Err(RegistryError::DuplicateKey),
            Err(RegistryError::DuplicateKey),
            Err(RegistryError::DuplicateKey),
        ]
    );
    assert_eq!(
        db.find_videos_like(String::new()),
        vec![row("a", "second a"), row("b", "first b")]
    );
}

#[test]
fn a_store_that_fails_gives_storage_failure_and_keeps_nothing() {
    let mut db = Database::open(Vec::new());
    assert_eq!(
        db.add_song("abc123".to_string(), "Lo-Fi Beats".to_string(), WriteOutcome::Failed),
        Err(RegistryError::StorageFailure)
    );
    assert_eq!(db.len(), 0);
    assert!(!db.contains_id(&"abc123".to_string()));
}

#[test]
fn a_store_that_knows_the_key_gives_duplicate_key() {
    let mut db = Database::open(Vec::new());
    assert_eq!(
        db.add_song("abc123".to_string(), "Lo-Fi Beats".to_string(), WriteOutcome::KeyExists),
        Err(RegistryError::DuplicateKey)
    );
    assert_eq!(db.len(), 0);
}

#[test]
fn a_registered_key_is_a_duplicate_whatever_the_store_says() {
    let mut db = daily();
    for write in [WriteOutcome::Written, WriteOutcome::KeyExists, WriteOutcome::Failed] {
        assert_eq!(
            db.add_song("id2".to_string(), "Again".to_string(), write),
            Err(RegistryError::DuplicateKey)
        );
    }
    assert_eq!(db.len(), 2);
}

#[test]
fn identifiers_are_told_apart_by_letter_case() {
    let mut db = Database::open(Vec::new());
    assert_eq!(db.add_song("abc".to_string(), "lower".to_string(), WriteOutcome::Written), Ok(()));
    assert_eq!(db.add_song("ABC".to_string(), "upper".to_string(), WriteOutcome::Written), Ok(()));
    assert!(db.contains_id(&"abc".to_string()));
    assert!(db.contains_id(&"ABC".to_string()));
    assert!(!db.contains_id(&"Abc".to_string()));
}

#[test]
fn titles_need_not_be_unique() {
    let mut db = Database::open(Vec::new());
    assert_eq!(db.add_song("x1".to_string(), "Same".to_string(), WriteOutcome::Written), Ok(()));
    assert_eq!(db.add_song("x2".to_string(), "Same".to_string(), WriteOutcome::Written), Ok(()));
    assert_eq!(db.find_videos_like("same".to_string()), vec![row("x1", "Same"), row("x2", "Same")]);
}

#[test]
fn open_takes_over_well_formed_rows_as_they_stand() {
    let rows = vec![row("id1", "Daily Mix"), row("id2", "Daily News"), row("id3", "")];
    let db = Database::open(rows.clone());
    assert_eq!(db.len(), 3);
    assert_eq!(db.find_videos_like(String::new()), rows);
}

#[test]
fn open_leaves_out_empty_identifiers_and_later_duplicates() {
    let db = Database::open(vec![
        row("", "No id"),
        row("id1", "First"),
        row("id2", "Second"),
        row("id1", "First again"),
        row("", "No id either"),
        row("id3", "Third"),
    ]);
    assert_eq!(db.len(), 3);
    assert_eq!(
        db.find_videos_like(String::new()),
        vec![row("id1", "First"), row("id2", "Second"), row("id3", "Third")]
    );
    assert!(!db.contains_id(&String::new()));
}

#[test]
fn title_of_gives_the_title_under_an_identifier() {
    let db = daily();
    assert_eq!(db.title_of(&"id1".to_string()), Some("Daily Mix".to_string()));
    assert_eq!(db.title_of(&"id2".to_string()), Some("Daily News".to_string()));
    assert_eq!(db.title_of(&"id3".to_string()), None);
    assert_eq!(db.title_of(&"ID1".to_string()), None);
    assert_eq!(db.title_of(&String::new()), None);
}

#[test]
fn of_insert_reads_the_answer_of_the_store() {
    assert_eq!(WriteOutcome::of_insert(Ok(1)), WriteOutcome::Written);
    assert_eq!(WriteOutcome::of_insert(Ok(0)), WriteOutcome::Written);
    assert_eq!(WriteOutcome::of_insert(Err(Some(1555))), WriteOutcome::KeyExists);
    assert_eq!(WriteOutcome::of_insert(Err(Some(2067))), WriteOutcome::KeyExists);
    assert_eq!(WriteOutcome::of_insert(Err(Some(19))), WriteOutcome::Failed);
    assert_eq!(WriteOutcome::of_insert(Err(Some(1299))), WriteOutcome::Failed);
    assert_eq!(WriteOutcome::of_insert(Err(Some(13))), WriteOutcome::Failed);
    assert_eq!(WriteOutcome::of_insert(Err(Some(0))), WriteOutcome::Failed);
    assert_eq!(WriteOutcome::of_insert(Err(Some(-1))), WriteOutcome::Failed);
    assert_eq!(WriteOutcome::of_insert(Err(None)), WriteOutcome::Failed);
}

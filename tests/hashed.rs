use asset_extractor::{
    hashed_output_dir, index_file_path, plan_copies, CopyOutcome, ExtractError, HashedProgress,
    HashedSubcommand, IndexFile, IndexFileLocation, Object,
};

fn object(hash: &str, size: u64) -> Object {
    Object::new(hash.to_string(), size).unwrap()
}

#[test]
fn hashed_file_path_is_bucket_then_hash() {
    let o = object("ab12cd34ef", 10);
    assert_eq!(o.hashed_file_path(), "ab/ab12cd34ef");
    assert_eq!(object("00", 1).hashed_file_path(), "00/00");
    assert_eq!(o.hashed_file_name(), "ab12cd34ef");
    assert_eq!(o.size(), 10);
}

#[test]
fn object_needs_two_characters_of_hash() {
    assert!(Object::new("a".to_string(), 1).is_none());
    assert!(Object::new(String::new(), 1).is_none());
    assert!(Object::new("ab".to_string(), 1).is_some());
}

#[test]
fn object_needs_a_hexadecimal_hash() {
    assert!(Object::new("a\u{e9}1".to_string(), 1).is_none());
    assert!(Object::new("zz12".to_string(), 1).is_none());
    assert!(Object::new("ab1g".to_string(), 1).is_none());
    assert!(Object::new("09AFaf".to_string(), 1).is_some());
    assert_eq!(Object::new("09AFaf".to_string(), 1).unwrap().parent_dir(), "09");
}

#[test]
fn single_sound_is_copied_to_its_logical_path() {
    let mut index = IndexFile::new();
    index.insert("sounds/a.ogg".to_string(), object("ab12cd34", 10));
    let jobs = plan_copies(&index, "store/objects", "out");
    assert_eq!(jobs.len(), 1);
    assert_eq!(jobs[0].logical_path, "sounds/a.ogg");
    assert_eq!(jobs[0].source, "store/objects/ab/ab12cd34");
    assert_eq!(jobs[0].target, "out/sounds/a.ogg");
}

#[test]
fn one_copy_per_unique_path() {
    let mut index = IndexFile::new();
    index.insert("a.txt".to_string(), object("1111", 1));
    index.insert("b/c.txt".to_string(), object("2222", 2));
    index.insert("a.txt".to_string(), object("3333", 3));
    assert_eq!(index.len(), 2);
    assert_eq!(index.path_at(0), "a.txt");
    assert_eq!(index.object_at(0).hashed_file_name(), "3333");
    let jobs = plan_copies(&index, "objects/", "out");
    assert_eq!(jobs.len(), 2);
    assert_eq!(jobs[0].source, "objects/33/3333");
    assert_eq!(jobs[1].target, "out/b/c.txt");
}

#[test]
fn empty_index_plans_nothing() {
    let index = IndexFile::new();
    assert!(plan_copies(&index, "o", "out").is_empty());
}

#[test]
fn every_entry_is_attempted_despite_failures() {
    let outcomes = [
        CopyOutcome::ReadFailed,
        CopyOutcome::WriteFailed,
        CopyOutcome::Copied,
        CopyOutcome::ReadFailed,
    ];
    let mut progress = HashedProgress::new(outcomes.len());
    let mut positions = Vec::new();
    for outcome in outcomes {
        assert!(!progress.is_done());
        positions.push(progress.position());
        progress.record(outcome);
    }
    assert!(progress.is_done());
    assert_eq!(progress.attempted, 4);
    assert_eq!(progress.copied, 1);
    assert_eq!(progress.skipped, 2);
    assert_eq!(progress.failed, 1);
    assert_eq!(positions, vec![(1, 4), (2, 4), (3, 4), (4, 4)]);
}

#[test]
fn one_missing_object_leaves_the_rest_copied() {
    let mut progress = HashedProgress::new(5);
    for i in 0..5 {
        let outcome = if i == 2 { CopyOutcome::ReadFailed } else { CopyOutcome::Copied };
        progress.record(outcome);
    }
    assert_eq!(progress.copied, 4);
    assert_eq!(progress.skipped, 1);
    assert!(progress.is_done());
}

#[test]
fn index_location_from_input() {
    assert!(matches!(
        IndexFileLocation::parse("indexes/24.json", true),
        IndexFileLocation::File(p) if p == "indexes/24.json"
    ));
    assert!(matches!(
        IndexFileLocation::parse("24", false),
        IndexFileLocation::Version(v) if v == "24"
    ));
}

#[test]
fn index_file_of_a_version() {
    assert_eq!(index_file_path("root/indexes", "7"), "root/indexes/7.json");
    assert_eq!(index_file_path("root/indexes", "1.20"), "root/indexes/1.20.json");
    let cmd = HashedSubcommand {
        hashed_assets_dir: None,
        index: Some(IndexFileLocation::Version("24".to_string())),
    };
    let none: Vec<String> = Vec::new();
    assert_eq!(cmd.index_candidate("assets", &none).unwrap(), "assets/indexes/24.json");
    assert_eq!(cmd.index_file("assets", &none, true).unwrap(), "assets/indexes/24.json");
    match cmd.index_file("assets", &none, false) {
        Err(ExtractError::MissingIndexFile(p)) => assert_eq!(p, "assets/indexes/24.json"),
        _ => panic!("a missing index must be reported"),
    }
}

#[test]
fn index_file_given_as_path_is_taken_as_is() {
    let cmd = HashedSubcommand {
        hashed_assets_dir: Some("store".to_string()),
        index: Some(IndexFileLocation::File("my/index.json".to_string())),
    };
    let none: Vec<String> = Vec::new();
    assert_eq!(cmd.index_file("store", &none, false).unwrap(), "my/index.json");
    assert_eq!(cmd.input_dir(Some("default".to_string())).unwrap(), "store");
    assert_eq!(cmd.resolve_input_dir(None, true).unwrap(), "store");
    assert!(matches!(
        cmd.resolve_input_dir(None, false),
        Err(ExtractError::MissingHashedAssetsDir)
    ));
}

#[test]
fn no_store_folder_is_an_error() {
    let cmd = HashedSubcommand { hashed_assets_dir: None, index: None };
    assert!(matches!(cmd.resolve_input_dir(None, true), Err(ExtractError::MissingHashedAssetsDir)));
    assert_eq!(cmd.resolve_input_dir(Some("mc/assets".to_string()), true).unwrap(), "mc/assets");
}

#[test]
fn without_index_the_last_listed_is_used() {
    let cmd = HashedSubcommand { hashed_assets_dir: None, index: None };
    let listing = vec!["3.json".to_string(), "17.json".to_string(), "5.json".to_string()];
    assert_eq!(cmd.index_file("mc/assets", &listing, true).unwrap(), "mc/assets/indexes/5.json");
    let none: Vec<String> = Vec::new();
    match cmd.index_file("mc/assets", &none, true) {
        Err(ExtractError::MissingIndexFile(p)) => assert_eq!(p, "mc/assets/indexes"),
        _ => panic!("an empty index folder must be reported"),
    }
    assert_eq!(cmd.input_dir(Some("default".to_string())).unwrap(), "default");
    assert!(cmd.input_dir(None).is_none());
}

#[test]
fn hashed_output_keeps_or_drops_assets_folder() {
    assert_eq!(hashed_output_dir("out", false), "out/assets");
    assert_eq!(hashed_output_dir("out/", false), "out/assets");
    assert_eq!(hashed_output_dir("out", true), "out");
    assert_eq!(HashedSubcommand::objects_dir("mc/assets"), "mc/assets/objects");
}

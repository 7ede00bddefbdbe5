use asset_extractor::{
    file_name, hashed_assets_dir, join, versions_dir, ExtractError, ExtractedContents, OptionExt,
    Version, VersionAction, VersionEvent, VersionRun, VersionSubcommand,
};

fn version(path: &str) -> Version {
    Version::parse(path, true, &None, false).unwrap()
}

#[test]
fn absolute_folder_is_kept() {
    let v = version("/games/mc/versions/1.20.1");
    assert_eq!(v.path(), "/games/mc/versions/1.20.1");
    assert_eq!(v.name(), "1.20.1");
    assert_eq!(v.jar_file().unwrap(), "/games/mc/versions/1.20.1/1.20.1.jar");
    assert_eq!(v.manifest_file().unwrap(), "/games/mc/versions/1.20.1/1.20.1.json");
}

#[test]
fn bare_name_is_looked_up_in_versions_folder() {
    let root = Some("/home/u/.minecraft/versions".to_string());
    assert_eq!(
        Version::candidate("1.20.1", &root).unwrap(),
        "/home/u/.minecraft/versions/1.20.1"
    );
    let v = Version::parse("1.20.1", false, &root, true).unwrap();
    assert_eq!(v.path(), "/home/u/.minecraft/versions/1.20.1");
    assert_eq!(v.jar_file().unwrap(), "/home/u/.minecraft/versions/1.20.1/1.20.1.jar");
}

#[test]
fn unknown_version_is_an_error_naming_it() {
    let root = Some("/mc/versions".to_string());
    let e = Version::parse("9.9", false, &root, false).unwrap_err();
    assert_eq!(e.version, "9.9");
    assert_eq!(
        e.to_string(),
        "invalid version '9.9': no directory exists of that path nor name within `minecraft/versions`"
    );
    assert_eq!(Version::parse("9.9", false, &None, true).unwrap_err().version, "9.9");
}

#[test]
fn existing_folder_without_own_name_is_kept() {
    let v = Version::parse("/", true, &None, false).unwrap();
    assert_eq!(v.path(), "/");
    assert_eq!(file_name(v.path()), None);
    assert_eq!(v.jar_file(), None);
    assert_eq!(v.manifest_file(), None);
    let root = Some("/mc/versions".to_string());
    let up = Version::parse("x/..", false, &root, true).unwrap();
    assert_eq!(up.path(), "/mc/versions/x/..");
    assert_eq!(up.jar_file(), None);
}

#[test]
fn version_run_needs_a_named_folder() {
    let cmd = VersionSubcommand {
        version_dir: version("/"),
        hashed_assets_dir: None,
        extracted_contents: ExtractedContents { assets: false, data: true },
    };
    match VersionRun::new(cmd, None) {
        Err(e) => assert_eq!(e.version, "/"),
        Ok(_) => panic!("a folder without a name has no archive"),
    }
    let nothing = VersionSubcommand {
        version_dir: version("/"),
        hashed_assets_dir: None,
        extracted_contents: ExtractedContents { assets: false, data: false },
    };
    assert!(matches!(VersionRun::new(nothing, None), Ok((_, VersionAction::Finish))));
}

#[test]
fn name_skips_trailing_separators_and_dots() {
    assert_eq!(version("versions/1.19/").name(), "1.19");
    assert_eq!(version("versions/1.19/.").name(), "1.19");
    assert_eq!(file_name("a/b"), Some("b".to_string()));
    assert_eq!(file_name("a/.."), None);
    assert_eq!(file_name("."), None);
    assert_eq!(file_name(""), None);
    assert_eq!(file_name("/"), None);
}

#[test]
fn joining_paths() {
    assert_eq!(join("a", "b"), "a/b");
    assert_eq!(join("a/", "b"), "a/b");
    assert_eq!(join("", "b"), "b");
    assert_eq!(join("a", "/b"), "/b");
}

#[test]
fn default_folders_below_the_game_folder() {
    let base = Some("/home/u/.minecraft".to_string());
    assert_eq!(hashed_assets_dir(base.clone()).unwrap(), "/home/u/.minecraft/assets");
    assert_eq!(versions_dir(base).unwrap(), "/home/u/.minecraft/versions");
    assert!(hashed_assets_dir(None).is_none());
    assert!(versions_dir(None).is_none());
}

#[test]
fn inspect_mut_changes_the_value_in_place() {
    let o = Some(3).inspect_mut(|x| *x += 1);
    assert_eq!(o, Some(4));
    let n: Option<i32> = None;
    assert_eq!(n.inspect_mut(|x| *x += 1), None);
}

fn command(assets: bool, data: bool, hashed: Option<&str>) -> VersionSubcommand {
    VersionSubcommand {
        version_dir: version("v/1.20.1"),
        hashed_assets_dir: hashed.map(|s| s.to_string()),
        extracted_contents: ExtractedContents { assets, data },
    }
}

#[test]
fn version_run_with_nothing_selected_finishes_at_once() {
    let (run, action) = VersionRun::new(command(false, false, None), None).unwrap();
    assert!(matches!(action, VersionAction::Finish));
    assert!(matches!(run.pending(), VersionAction::Finish));
}

#[test]
fn missing_index_fails_before_hashed_assets() {
    let cmd = command(true, false, Some("store"));
    let hashed = cmd.hashed_assets_candidate(None);
    let (mut run, action) = VersionRun::new(cmd, hashed).unwrap();
    match action {
        VersionAction::ReadManifest(p) => assert_eq!(p, "v/1.20.1/1.20.1.json"),
        _ => panic!("the manifest comes first"),
    }
    match run.step(VersionEvent::ManifestRead("7".to_string())).unwrap() {
        VersionAction::CheckIndexFile(p) => assert_eq!(p, "store/indexes/7.json"),
        _ => panic!("the index file is checked next"),
    }
    match run.step(VersionEvent::IndexFileChecked(false)) {
        Err(ExtractError::MissingIndexFile(p)) => assert_eq!(p, "store/indexes/7.json"),
        _ => panic!("a missing index ends the run"),
    }
    assert!(matches!(run.pending(), VersionAction::Finish));
}

#[test]
fn version_run_extracts_archive_then_hashed_assets() {
    let cmd = command(true, true, None);
    let hashed = cmd.hashed_assets_candidate(Some("mc/assets".to_string()));
    let (mut run, _) = VersionRun::new(cmd, hashed).unwrap();
    run.step(VersionEvent::ManifestRead("17".to_string())).unwrap();
    match run.step(VersionEvent::IndexFileChecked(true)).unwrap() {
        VersionAction::ExtractJar(p) => assert_eq!(p, "v/1.20.1/1.20.1.jar"),
        _ => panic!("the archive comes before the hashed assets"),
    }
    match run.step(VersionEvent::JarExtracted).unwrap() {
        VersionAction::ExtractHashed { hashed_assets_dir, index_file } => {
            assert_eq!(hashed_assets_dir, "mc/assets");
            assert_eq!(index_file, "mc/assets/indexes/17.json");
        }
        _ => panic!("hashed assets come last"),
    }
    assert!(matches!(run.step(VersionEvent::HashedExtracted).unwrap(), VersionAction::Finish));
}

#[test]
fn version_run_for_data_only_skips_the_manifest() {
    let (mut run, action) = VersionRun::new(command(false, true, None), None).unwrap();
    assert!(matches!(action, VersionAction::ExtractJar(_)));
    let again = run.step(VersionEvent::HashedExtracted).unwrap();
    assert!(matches!(again, VersionAction::ExtractJar(_)));
    assert!(matches!(run.step(VersionEvent::JarExtracted).unwrap(), VersionAction::Finish));
}

#[test]
fn version_run_without_store_fails() {
    let (mut run, _) = VersionRun::new(command(true, false, None), None).unwrap();
    assert!(matches!(
        run.step(VersionEvent::ManifestRead("7".to_string())),
        Err(ExtractError::MissingHashedAssetsDir)
    ));
}

use asset_extractor::{entry_output_path, Archive, ExtractError, ExtractedContents};
use std::io::{Cursor, Write};
use zip::write::SimpleFileOptions;
use zip::{CompressionMethod, ZipWriter};

fn parts(path: &str) -> Vec<String> {
    path.split('/').filter(|s| !s.is_empty()).map(|s| s.to_string()).collect()
}

fn archive(entries: &[(&str, Option<&[u8]>)]) -> Vec<u8> {
    let mut writer = ZipWriter::new(Cursor::new(Vec::new()));
    let options = SimpleFileOptions::default().compression_method(CompressionMethod::Stored);
    for (name, contents) in entries {
        match contents {
            Some(bytes) => {
                writer.start_file(*name, options).unwrap();
                writer.write_all(bytes).unwrap();
            }
            None => writer.add_directory(*name, options).unwrap(),
        }
    }
    writer.finish().unwrap().into_inner()
}

const ASSETS: ExtractedContents = ExtractedContents { assets: true, data: false };
const DATA: ExtractedContents = ExtractedContents { assets: false, data: true };
const BOTH: ExtractedContents = ExtractedContents { assets: true, data: true };
const NOTHING: ExtractedContents = ExtractedContents { assets: false, data: false };

#[test]
fn selection_in_words() {
    assert_eq!(NOTHING.to_string(), "nothing");
    assert_eq!(ASSETS.to_string(), "assets");
    assert_eq!(DATA.to_string(), "data");
    assert_eq!(BOTH.to_string(), "assets and data");
    assert_eq!(ExtractedContents::default(), ASSETS);
    assert!(NOTHING.is_empty());
    assert!(!DATA.is_empty());
}

#[test]
fn assets_entry_keeps_or_drops_its_folder() {
    let p = parts("assets/minecraft/lang/en_us.json");
    assert_eq!(entry_output_path(&p, &None, ASSETS, false), Some(p.clone()));
    assert_eq!(entry_output_path(&p, &None, ASSETS, true), Some(parts("minecraft/lang/en_us.json")));
    assert_eq!(entry_output_path(&p, &None, DATA, false), None);
}

#[test]
fn root_folder_is_stripped_first() {
    let root = Some(parts("1.20.1"));
    let p = parts("1.20.1/data/minecraft/recipe.json");
    assert_eq!(entry_output_path(&p, &root, DATA, false), Some(parts("data/minecraft/recipe.json")));
    assert_eq!(entry_output_path(&p, &root, DATA, true), Some(parts("minecraft/recipe.json")));
    let outside = parts("other/data/x.json");
    assert_eq!(entry_output_path(&outside, &root, BOTH, false), None);
    assert_eq!(entry_output_path(&parts("1.20.1"), &root, BOTH, false), None);
}

#[test]
fn folder_prefix_is_a_whole_component() {
    let p = parts("assetsx/a.txt");
    assert_eq!(entry_output_path(&p, &None, BOTH, false), None);
    let dir = parts("assets");
    assert_eq!(entry_output_path(&dir, &None, ASSETS, true), Some(Vec::new()));
    assert_eq!(entry_output_path(&dir, &None, NOTHING, true), None);
}

#[test]
fn assets_only_without_top_level_folder() {
    let bytes = archive(&[
        ("1.20.1/", None),
        ("1.20.1/assets/x.txt", Some(b"xx")),
        ("1.20.1/data/y.txt", Some(b"yyy")),
    ]);
    let mut a = Archive::open(bytes).unwrap();
    assert_eq!(a.len(), 3);
    let plan = a.plan(ASSETS, true).unwrap();
    assert_eq!(plan.len(), 1);
    assert_eq!(plan[0].index, 1);
    assert_eq!(plan[0].path, vec!["x.txt".to_string()]);
    assert!(!plan[0].is_dir);
    assert_eq!(a.contents(plan[0].index).unwrap(), b"xx".to_vec());
}

#[test]
fn both_folders_with_their_names() {
    let bytes = archive(&[
        ("assets/", None),
        ("assets/x.txt", Some(b"x")),
        ("data/y.txt", Some(b"y")),
        ("pack.png", Some(b"p")),
    ]);
    let mut a = Archive::open(bytes).unwrap();
    let plan = a.plan(BOTH, false).unwrap();
    let paths: Vec<Vec<String>> = plan.iter().map(|s| s.path.clone()).collect();
    assert_eq!(paths, vec![parts("assets"), parts("assets/x.txt"), parts("data/y.txt")]);
    assert!(plan[0].is_dir);
    assert_eq!(a.contents(2).unwrap(), b"y".to_vec());
}

#[test]
fn nothing_selected_plans_nothing() {
    let bytes = archive(&[("assets/x.txt", Some(b"x")), ("data/y.txt", Some(b"y"))]);
    let mut a = Archive::open(bytes).unwrap();
    assert!(a.plan(NOTHING, false).unwrap().is_empty());
    assert!(a.plan(NOTHING, true).unwrap().is_empty());
}

#[test]
fn bytes_that_are_no_archive_are_refused() {
    assert!(matches!(Archive::open(b"not a zip".to_vec()), Err(ExtractError::Archive(_))));
}

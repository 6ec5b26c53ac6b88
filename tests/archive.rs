use std::io::Write;

use atlas_launcher::archive::{apply_patches, entry_names, extract_file, extract_main_class, merge_selection, merge_zips, trim_blanks, unpack_entries};
use atlas_launcher::error::LaunchError;

fn zip_of(entries: &[(&str, &str)]) -> Vec<u8> {
    let mut w = zip::ZipWriter::new(std::io::Cursor::new(Vec::new()));
    for (name, data) in entries {
        let options = zip::write::FileOptions::default().compression_method(zip::CompressionMethod::Deflated);
        if name.ends_with('/') {
            w.add_directory(name.trim_end_matches('/'), options).unwrap();
        } else {
            w.start_file(*name, options).unwrap();
            w.write_all(data.as_bytes()).unwrap();
        }
    }
    w.finish().unwrap().into_inner()
}

#[test]
fn finds_entry_by_part_of_its_name() {
    let z = zip_of(&[("a/install_profile.json", "{}"), ("version.json", "[1]")]);
    assert_eq!(extract_file(&z, "version.json").unwrap(), b"[1]".to_vec());
    assert_eq!(extract_file(&z, "install_profile").unwrap(), b"{}".to_vec());
    assert_eq!(extract_file(&z, "client.lzma"), Err(LaunchError::NotFound));
    assert_eq!(extract_file(&b"not a zip".to_vec(), "x"), Err(LaunchError::MalformedManifest));
}

#[test]
fn merge_prefers_source_and_drops_metadata() {
    let target = zip_of(&[("META-INF/MANIFEST.MF", "old"), ("a.class", "target-a"), ("b.class", "target-b")]);
    let source = zip_of(&[("META-INF/SIG.SF", "sig"), ("b.class", "source-b"), ("c.class", "source-c")]);
    let merged = merge_zips(&target, &source, true).unwrap();
    let names = entry_names(&merged).unwrap();
    assert_eq!(names, vec!["b.class", "c.class", "a.class"]);
    assert_eq!(extract_file(&merged, "b.class").unwrap(), b"source-b".to_vec());
    assert_eq!(extract_file(&merged, "a.class").unwrap(), b"target-a".to_vec());
    let kept = merge_zips(&target, &source, false).unwrap();
    assert_eq!(entry_names(&kept).unwrap(), vec!["META-INF/SIG.SF", "b.class", "c.class", "META-INF/MANIFEST.MF", "a.class"]);
}

#[test]
fn merge_selection_by_names() {
    let s = vec!["META-INF/X".to_string(), "b".to_string()];
    let t = vec!["a".to_string(), "b".to_string(), "META-INF/Y".to_string()];
    assert_eq!(merge_selection(&s, &t, true), vec![(true, 1), (false, 0)]);
    assert_eq!(merge_selection(&s, &t, false), vec![(true, 0), (true, 1), (false, 0), (false, 2)]);
}

#[test]
fn main_class_from_jar() {
    let jar = zip_of(&[("META-INF/MANIFEST.MF", "Manifest-Version: 1.0\r\nMain-Class: net.minecraftforge.installertools.ConsoleTool\r\n")]);
    assert_eq!(extract_main_class(&jar).unwrap(), "net.minecraftforge.installertools.ConsoleTool\r");
    let spaced = zip_of(&[("META-INF/MANIFEST.MF", "Main-Class:  X\n")]);
    assert_eq!(extract_main_class(&spaced).unwrap(), " X");
    let none = zip_of(&[("META-INF/MANIFEST.MF", "Manifest-Version: 1.0\n")]);
    assert_eq!(extract_main_class(&none), Err(LaunchError::NotFound));
    let no_manifest = zip_of(&[("a.class", "x")]);
    assert_eq!(extract_main_class(&no_manifest), Err(LaunchError::NotFound));
}

#[test]
fn trimming() {
    assert_eq!(trim_blanks(&" \tabc d\r\n".to_string()), "abc d");
    assert_eq!(trim_blanks(&"   ".to_string()), "");
}

#[test]
fn unpacking_skips_metadata() {
    let z = zip_of(&[("META-INF/MANIFEST.MF", "m"), ("lib/", ""), ("lib/liblwjgl.so", "so")]);
    let entries = unpack_entries(&z).unwrap();
    assert_eq!(entries.len(), 2);
    assert_eq!(entries[0].name, "lib/");
    assert!(entries[0].is_dir);
    assert_eq!(entries[1].name, "lib/liblwjgl.so");
    assert!(!entries[1].is_dir);
    assert_eq!(entries[1].data, b"so".to_vec());
}

#[test]
fn merge_selection_keeps_each_name_once() {
    let s = vec!["x".to_string(), "x".to_string()];
    let t = vec!["y".to_string(), "y".to_string(), "x".to_string()];
    assert_eq!(merge_selection(&s, &t, true), vec![(true, 0), (false, 0)]);
}

#[test]
fn patches_apply_in_order() {
    let jar = zip_of(&[("a.class", "vanilla-a"), ("b.class", "vanilla-b"), ("META-INF/MOJANG.SF", "sig")]);
    let first = zip_of(&[("a.class", "first-a"), ("META-INF/MANIFEST.MF", "m")]);
    let second = zip_of(&[("a.class", "second-a"), ("c.class", "second-c")]);
    let patched = apply_patches(jar, &vec![first, second]).unwrap();
    assert_eq!(entry_names(&patched).unwrap(), vec!["a.class", "c.class", "b.class"]);
    assert_eq!(extract_file(&patched, "a.class").unwrap(), b"second-a".to_vec());
    assert_eq!(apply_patches(b"not a zip".to_vec(), &vec![]).unwrap(), b"not a zip".to_vec());
    assert_eq!(apply_patches(b"not a zip".to_vec(), &vec![zip_of(&[("a", "b")])]), Err(LaunchError::MalformedManifest));
}

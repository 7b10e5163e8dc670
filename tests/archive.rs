use subchunker::json::{azul_download_url, plugin_id};
use std::io::{Cursor, Write};
use subchunker::archive::{mod_id_of, plan_extraction, plugin_manifest, read_archive, strip_leading};
use subchunker::error::InstallError;
use zip::write::SimpleFileOptions;

fn build(entries: &[(&str, bool)]) -> Vec<u8> {
    let mut w = zip::ZipWriter::new(Cursor::new(Vec::new()));
    let opts = SimpleFileOptions::default().compression_method(zip::CompressionMethod::Stored);
    for (name, dir) in entries {
        if *dir {
            w.add_directory(*name, opts).unwrap();
        } else {
            w.start_file(*name, opts).unwrap();
            w.write_all(b"data").unwrap();
        }
    }
    w.finish().unwrap().into_inner()
}

#[test]
fn extraction_strips_the_top_level_folder() {
    let bytes = build(&[
        ("jdk-25/", true),
        ("jdk-25/bin/", true),
        ("jdk-25/bin/java", false),
        ("jdk-25/lib/modules", false),
        ("jdk-25/release", false),
    ]);
    let mut archive = read_archive(bytes).unwrap();
    let plan = plan_extraction(&mut archive).unwrap();
    let paths: Vec<Vec<String>> = plan.iter().map(|p| p.path.clone()).collect();
    assert_eq!(
        paths,
        vec![
            vec![],
            vec!["bin".to_string()],
            vec!["bin".to_string(), "java".to_string()],
            vec!["lib".to_string(), "modules".to_string()],
            vec!["release".to_string()],
        ]
    );
    assert!(plan.iter().all(|p| !p.path.iter().any(|c| c == "jdk-25")));
    let kinds: Vec<bool> = plan.iter().map(|p| p.is_dir).collect();
    assert_eq!(kinds, vec![true, true, false, false, false]);
    let indexes: Vec<usize> = plan.iter().map(|p| p.index).collect();
    assert_eq!(indexes, vec![0, 1, 2, 3, 4]);
}

#[test]
fn empty_archive_is_an_archive_error() {
    let bytes = build(&[]);
    let mut archive = read_archive(bytes).unwrap();
    assert!(matches!(plan_extraction(&mut archive), Err(InstallError::Archive)));
}

#[test]
fn malformed_archive_is_an_archive_error() {
    assert!(matches!(read_archive(b"not a zip".to_vec()), Err(InstallError::Archive)));
}

#[test]
fn strip_drops_one_component() {
    let c = vec!["a".to_string(), "b".to_string(), "c".to_string()];
    assert_eq!(strip_leading(&c), vec!["b".to_string(), "c".to_string()]);
    assert_eq!(strip_leading(&vec!["a".to_string()]), Vec::<String>::new());
    assert_eq!(strip_leading(&vec![]), Vec::<String>::new());
}

fn build_with(entries: &[(&str, &str)]) -> Vec<u8> {
    let mut w = zip::ZipWriter::new(Cursor::new(Vec::new()));
    let opts = SimpleFileOptions::default();
    for (name, text) in entries {
        w.start_file(*name, opts).unwrap();
        w.write_all(text.as_bytes()).unwrap();
    }
    w.finish().unwrap().into_inner()
}

#[test]
fn plugin_manifest_is_read_from_the_archive() {
    let manifest = "{\"schemaVersion\": 1, \"id\": \"lithium\"}";
    let bytes = build_with(&[("META-INF/MANIFEST.MF", "x"), ("fabric.mod.json", manifest)]);
    let mut archive = read_archive(bytes).unwrap();
    assert_eq!(plugin_manifest(&mut archive).unwrap(), manifest);
}

#[test]
fn archive_without_manifest_is_an_archive_error() {
    let bytes = build_with(&[("other.json", "{}")]);
    let mut archive = read_archive(bytes).unwrap();
    assert!(matches!(plugin_manifest(&mut archive), Err(InstallError::Archive)));
}

#[test]
fn unreadable_entry_is_an_archive_error() {
    let mut bytes = build(&[("top/", true), ("top/file", false)]);
    // Corrupt the local header signature of the second entry so that it
    // cannot be opened, while the central directory still lists it.
    let sig = [0x50u8, 0x4b, 0x03, 0x04];
    let positions: Vec<usize> = (0..bytes.len() - 3).filter(|&i| bytes[i..i + 4] == sig).collect();
    assert_eq!(positions.len(), 2);
    bytes[positions[1]] = 0;
    let mut archive = read_archive(bytes).unwrap();
    assert!(matches!(plan_extraction(&mut archive), Err(InstallError::Archive)));
}

#[test]
fn json_fields_are_read() {
    assert_eq!(plugin_id("{\"schemaVersion\": 1, \"id\": \"lithium\"}").unwrap(), "lithium");
    assert_eq!(
        azul_download_url("{\"url\": \"https://cdn.azul.com/x.zip\", \"name\": \"x\"}").unwrap(),
        "https://cdn.azul.com/x.zip"
    );
    assert!(matches!(plugin_id("{\"id\": 3}"), Err(InstallError::Parse)));
    assert!(matches!(plugin_id("[\"id\"]"), Err(InstallError::Parse)));
    assert!(matches!(azul_download_url("not json"), Err(InstallError::Parse)));
}

#[test]
fn plugin_identifier_from_archive_bytes() {
    let ok = build_with(&[("fabric.mod.json", "{\"id\": \"chunky\", \"version\": \"1.4\"}")]);
    assert_eq!(mod_id_of(ok).unwrap(), "chunky");
    let no_manifest = build_with(&[("other.json", "{}")]);
    assert!(matches!(mod_id_of(no_manifest), Err(InstallError::Archive)));
    let no_id = build_with(&[("fabric.mod.json", "{\"name\": \"x\"}")]);
    assert!(matches!(mod_id_of(no_id), Err(InstallError::Parse)));
    assert!(matches!(mod_id_of(b"garbage".to_vec()), Err(InstallError::Archive)));
}

use screen_lib::archive::{unpack_plan, UnpackStep};
use std::io::{Cursor, Write};
use zip::write::SimpleFileOptions;

fn bundle() -> Vec<u8> {
    let mut w = zip::ZipWriter::new(Cursor::new(Vec::new()));
    let opts = SimpleFileOptions::default().compression_method(zip::CompressionMethod::Stored);
    w.add_directory("bin/", opts).unwrap();
    w.start_file("bin/ffmpeg", opts).unwrap();
    w.write_all(b"binary").unwrap();
    w.start_file("README", opts).unwrap();
    w.write_all(b"read me").unwrap();
    w.finish().unwrap().into_inner()
}

#[test]
fn unpack_plan_one_step_per_entry_in_order() {
    let steps = unpack_plan(&bundle()).unwrap();
    assert_eq!(steps.len(), 3);
    match &steps[0] {
        UnpackStep::CreateDir { name, path } => {
            assert_eq!(name, "bin/");
            assert_eq!(path, "bin");
        }
        _ => panic!("directory entry planned as a file"),
    }
    match &steps[1] {
        UnpackStep::WriteFile { name, path, content } => {
            assert_eq!(name, "bin/ffmpeg");
            assert_eq!(path, "bin/ffmpeg");
            assert_eq!(content, &b"binary".to_vec());
        }
        _ => panic!("file entry planned as a folder"),
    }
    match &steps[2] {
        UnpackStep::WriteFile { name, content, .. } => {
            assert_eq!(name, "README");
            assert_eq!(content, &b"read me".to_vec());
        }
        _ => panic!("file entry planned as a folder"),
    }
}

#[test]
fn unpack_plan_rejects_non_archive() {
    assert!(unpack_plan(b"not a zip archive").is_err());
    assert!(unpack_plan(&[]).is_err());
}

fn hostile_bundle() -> Vec<u8> {
    let mut w = zip::ZipWriter::new(Cursor::new(Vec::new()));
    let opts = SimpleFileOptions::default().compression_method(zip::CompressionMethod::Stored);
    w.start_file("../../x", opts).unwrap();
    w.write_all(b"up").unwrap();
    w.start_file("/etc/y", opts).unwrap();
    w.write_all(b"root").unwrap();
    w.start_file("a/./b/../c", opts).unwrap();
    w.write_all(b"dots").unwrap();
    w.finish().unwrap().into_inner()
}

#[test]
fn unpack_paths_stay_inside_destination() {
    let steps = unpack_plan(&hostile_bundle()).unwrap();
    assert_eq!(steps.len(), 3);
    for step in &steps {
        let path = match step {
            UnpackStep::CreateDir { path, .. } => path,
            UnpackStep::WriteFile { path, .. } => path,
        };
        assert!(!path.starts_with('/') && !path.starts_with('\\'));
        assert!(path.split(['/', '\\']).all(|c| c != ".." && c != "."));
    }
    match &steps[0] {
        UnpackStep::WriteFile { name, path, content } => {
            assert_eq!(name, "../../x");
            assert_eq!(path, "x");
            assert_eq!(content, &b"up".to_vec());
        }
        _ => panic!("file entry planned as a folder"),
    }
}

#[test]
fn unpack_path_of_portable_name_keeps_its_components() {
    let mut w = zip::ZipWriter::new(Cursor::new(Vec::new()));
    let opts = SimpleFileOptions::default().compression_method(zip::CompressionMethod::Stored);
    w.start_file("ffmpeg/ffmpeg", opts).unwrap();
    w.write_all(b"bin").unwrap();
    let bytes = w.finish().unwrap().into_inner();
    let steps = unpack_plan(&bytes).unwrap();
    match &steps[0] {
        UnpackStep::WriteFile { path, .. } => {
            let parts: Vec<&str> = path.split(['/', '\\']).collect();
            assert_eq!(parts, vec!["ffmpeg", "ffmpeg"]);
        }
        _ => panic!("file entry planned as a folder"),
    }
}

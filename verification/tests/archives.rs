use std::io::{Cursor, Write};

use nif_viewer::archive::{
    archive_kind, bsa_files, extract_7z, extract_archive, progress_text, unzip, ArchiveKind, BsaEntry,
    Extracted, FileError,
};
use nif_viewer::state::ArchiveLoadStatus;

fn fresh_status() -> ArchiveLoadStatus {
    ArchiveLoadStatus { phase: Some("waiting".to_string()), error: Some("earlier".to_string()) }
}

fn zip_bytes(files: &[(&str, &[u8])], directories: &[&str]) -> Vec<u8> {
    let mut writer = zip::ZipWriter::new(Cursor::new(Vec::new()));
    let options = zip::write::SimpleFileOptions::default()
        .compression_method(zip::CompressionMethod::Stored);
    for directory in directories {
        writer.add_directory(*directory, options).unwrap();
    }
    for (name, contents) in files {
        writer.start_file(*name, options).unwrap();
        writer.write_all(contents).unwrap();
    }
    writer.finish().unwrap().into_inner()
}

fn seven_zip_bytes(files: &[(&str, &[u8])], directories: &[&str]) -> Vec<u8> {
    let mut writer = sevenz_rust2::ArchiveWriter::new(Cursor::new(Vec::new())).unwrap();
    for directory in directories {
        writer
            .push_archive_entry::<&[u8]>(sevenz_rust2::ArchiveEntry::new_directory(directory), None)
            .unwrap();
    }
    for (name, contents) in files {
        writer
            .push_archive_entry(sevenz_rust2::ArchiveEntry::new_file(name), Some(*contents))
            .unwrap();
    }
    writer.finish().unwrap().into_inner()
}

fn sorted(mut files: Vec<(String, Vec<u8>)>) -> Vec<(String, Vec<u8>)> {
    files.sort();
    files
}

#[test]
fn archive_kind_reads_the_first_bytes() {
    assert_eq!(archive_kind(&[0x00, 0x01, 0x00, 0x00, 0x10]), ArchiveKind::Bsa);
    assert_eq!(archive_kind(&[0x37, 0x7a, 0xbc, 0xaf, 0x27, 0x1c, 0x00]), ArchiveKind::SevenZip);
    assert_eq!(archive_kind(b"PK\x03\x04"), ArchiveKind::Zip);
    assert_eq!(archive_kind(&[0x00, 0x01, 0x00]), ArchiveKind::Zip);
    assert_eq!(archive_kind(&[0x37, 0x7a, 0xbc, 0xaf, 0x27]), ArchiveKind::Zip);
    assert_eq!(archive_kind(&[]), ArchiveKind::Zip);
}

#[test]
fn progress_text_counts_entries() {
    assert_eq!(progress_text(1, 12), "Extracting files... 1/12");
    assert_eq!(progress_text(120, 120), "Extracting files... 120/120");
    assert_eq!(progress_text(0, 0), "Extracting files... 0/0");
}

#[test]
fn file_error_messages_name_the_reader() {
    assert_eq!(FileError::UnzipError("bad".to_string()).message(), "Unzip Error: bad");
    assert_eq!(FileError::SevenZipError("bad".to_string()).message(), "7-Zip Error: bad");
    assert_eq!(FileError::BsaError("bad".to_string()).message(), "BSA Error: bad");
    assert_eq!(FileError::IoError("bad".to_string()).message(), "IO Error: bad");
    assert_eq!(FileError::FetchError("bad".to_string()).message(), "Fetch Error: bad");
}

#[test]
fn unzip_keeps_files_under_normalized_paths() {
    let bytes = zip_bytes(
        &[("Meshes/Tree.NIF", b"tree"), ("textures/./a/../Bark.dds", b"bark")],
        &["meshes/"],
    );
    let mut status = fresh_status();
    let files = unzip(bytes, &mut status).ok().unwrap();
    assert_eq!(
        sorted(files),
        vec![
            ("meshes\\tree.nif".to_string(), b"tree".to_vec()),
            ("textures\\bark.dds".to_string(), b"bark".to_vec()),
        ]
    );
    assert_eq!(status.phase, None);
    assert_eq!(status.error, Some("earlier".to_string()));
}

#[test]
fn unzip_refuses_what_is_not_a_zip() {
    let mut status = fresh_status();
    match unzip(b"definitely not an archive".to_vec(), &mut status) {
        Err(FileError::UnzipError(_)) => {}
        _ => panic!("expected an unzip error"),
    }
    assert_eq!(status.error, Some("earlier".to_string()));
}

#[test]
fn extract_7z_skips_directories() {
    let bytes = seven_zip_bytes(&[("Meshes/Rock.nif", b"rock"), ("readme.txt", b"hi")], &["Meshes"]);
    let mut status = fresh_status();
    let files = extract_7z(bytes, &mut status).ok().unwrap();
    assert_eq!(
        sorted(files),
        vec![
            ("meshes\\rock.nif".to_string(), b"rock".to_vec()),
            ("readme.txt".to_string(), b"hi".to_vec()),
        ]
    );
    assert_eq!(status.phase, None);
}

#[test]
fn extract_7z_refuses_a_broken_archive() {
    let mut bytes = vec![0x37, 0x7a, 0xbc, 0xaf, 0x27, 0x1c];
    bytes.extend_from_slice(&[0xff; 10]);
    let mut status = fresh_status();
    match extract_7z(bytes, &mut status) {
        Err(FileError::SevenZipError(_)) => {}
        _ => panic!("expected a 7-Zip error"),
    }
}

#[test]
fn extract_archive_dispatches_on_the_kind() {
    let mut status = fresh_status();
    match extract_archive(zip_bytes(&[("a/B.txt", b"b")], &[]), &mut status) {
        Ok(Extracted::Files(files)) => assert_eq!(files, vec![("a\\b.txt".to_string(), b"b".to_vec())]),
        _ => panic!("expected files"),
    }

    let mut status = fresh_status();
    match extract_archive(seven_zip_bytes(&[("C.txt", b"c")], &[]), &mut status) {
        Ok(Extracted::Files(files)) => assert_eq!(files, vec![("c.txt".to_string(), b"c".to_vec())]),
        _ => panic!("expected files"),
    }

    let mut status = fresh_status();
    let bsa = vec![0x00, 0x01, 0x00, 0x00, 0x2a];
    match extract_archive(bsa.clone(), &mut status) {
        Ok(Extracted::Bsa(bytes)) => assert_eq!(bytes, bsa),
        _ => panic!("expected the BSA bytes back"),
    }
    assert_eq!(status.phase, Some("Opening BSA archive...".to_string()));
    assert_eq!(status.error, Some("earlier".to_string()));
}

#[test]
fn bsa_files_keeps_named_entries() {
    let mut status = fresh_status();
    let entries = vec![
        BsaEntry { name: Some(b"Meshes\\X.NIF".to_vec()), contents: b"x".to_vec() },
        BsaEntry { name: None, contents: b"lost".to_vec() },
        BsaEntry { name: Some(b"textures/y.dds".to_vec()), contents: b"y".to_vec() },
    ];
    let files = bsa_files(true, entries, &mut status).ok().unwrap();
    assert_eq!(
        files,
        vec![
            ("meshes\\x.nif".to_string(), b"x".to_vec()),
            ("textures\\y.dds".to_string(), b"y".to_vec()),
        ]
    );
    assert_eq!(status.phase, None);
}

#[test]
fn bsa_files_decodes_names_lossily() {
    let mut status = fresh_status();
    let entries = vec![BsaEntry { name: Some(vec![b'A', 0xff, b'b']), contents: vec![1] }];
    let files = bsa_files(true, entries, &mut status).ok().unwrap();
    assert_eq!(files, vec![("a\u{fffd}b".to_string(), vec![1])]);
}

#[test]
fn bsa_files_refuses_archives_without_names() {
    let mut status = fresh_status();
    let entries = vec![BsaEntry { name: None, contents: b"x".to_vec() }];
    match bsa_files(false, entries, &mut status) {
        Err(FileError::BsaError(message)) => {
            assert_eq!(message, "BSA archives without stored file names cannot be browsed")
        }
        _ => panic!("expected a BSA error"),
    }
    assert_eq!(status.phase, Some("waiting".to_string()));
}

#[test]
fn upload_messages_name_the_file_and_status() {
    assert_eq!(nif_viewer::archive::upload_phase("mod.zip"), "Uploading mod.zip...");
    match nif_viewer::archive::upload_status_error(413) {
        FileError::FetchError(message) => assert_eq!(message, "Upload failed with HTTP status 413"),
        _ => panic!("expected a fetch error"),
    }
}

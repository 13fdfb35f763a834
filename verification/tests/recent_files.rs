use nif_viewer::recent::{RecentFile, RecentFileSource, RecentFiles, MAX_RECENT_FILES};

fn entry(source: RecentFileSource, path: &str, file_name: &str) -> RecentFile {
    RecentFile { path: path.to_string(), file_name: file_name.to_string(), source }
}

fn paths(files: &RecentFiles) -> Vec<String> {
    files.files.iter().map(|f| f.path.clone()).collect()
}

#[test]
fn recording_moves_the_archive_to_the_front() {
    let mut files = RecentFiles { files: vec![] };
    files.record(RecentFileSource::Url, "a.zip", "x.nif");
    files.record(RecentFileSource::Disk, "b.zip", "y.nif");
    files.record(RecentFileSource::Url, "a.zip", "z.nif");
    assert_eq!(paths(&files), vec!["a.zip", "b.zip"]);
    assert_eq!(files.files[0].file_name, "z.nif");
    assert_eq!(files.files[1].source, RecentFileSource::Disk);
    files.record(RecentFileSource::Url, "", "ignored.nif");
    assert_eq!(paths(&files), vec!["a.zip", "b.zip"]);
}

#[test]
fn recording_keeps_at_most_ten_entries() {
    let mut files = RecentFiles { files: vec![] };
    for i in 0..15 {
        files.record(RecentFileSource::Url, &format!("{i}.zip"), "m.nif");
    }
    assert_eq!(files.files.len(), MAX_RECENT_FILES);
    assert_eq!(files.files[0].path, "14.zip");
    assert_eq!(files.files[9].path, "5.zip");
}

#[test]
fn stored_text_round_trips() {
    let files = RecentFiles {
        files: vec![
            entry(RecentFileSource::Disk, "local.zip", "meshes\\a.nif"),
            entry(RecentFileSource::Url, "https://x/y.zip", "b\tc.nif"),
        ],
    };
    let text = files.encode();
    assert_eq!(text, "disk\tlocal.zip\tmeshes\\a.nif\nurl\thttps://x/y.zip\tb\tc.nif");
    let back = RecentFiles::decode(&text);
    assert_eq!(back.files.len(), 2);
    assert_eq!(back.files[0].source, RecentFileSource::Disk);
    assert_eq!(back.files[0].file_name, "meshes\\a.nif");
    assert_eq!(back.files[1].path, "https://x/y.zip");
    assert_eq!(back.files[1].file_name, "b\tc.nif");
    assert_eq!(RecentFiles { files: vec![] }.encode(), "");
}

#[test]
fn decoding_accepts_old_lines_and_skips_broken_ones() {
    let back = RecentFiles::decode("a.zip\tx.nif\r\nbroken\n\tno-path.nif\nother\tb.zip\ty.nif\n");
    assert_eq!(paths(&back), vec!["a.zip", "b.zip"]);
    assert_eq!(back.files[0].source, RecentFileSource::Url);
    assert_eq!(back.files[0].file_name, "x.nif");
    assert_eq!(back.files[1].source, RecentFileSource::Url);
    assert!(RecentFiles::decode("").files.is_empty());
}

#[test]
fn source_labels() {
    assert_eq!(RecentFileSource::Disk.label(), "File");
    assert_eq!(RecentFileSource::Url.label(), "URL");
    assert_eq!(RecentFileSource::default(), RecentFileSource::Url);
}

#[test]
fn recording_never_lists_an_archive_twice() {
    let mut files = RecentFiles { files: Vec::new() };
    for (path, name) in [("a.zip", "1.nif"), ("b.zip", "2.nif"), ("a.zip", "3.nif"), ("c.zip", "4.nif"), ("b.zip", "5.nif")] {
        files.record(RecentFileSource::Url, path, name);
    }
    assert_eq!(paths(&files), vec!["b.zip".to_string(), "c.zip".to_string(), "a.zip".to_string()]);
    assert_eq!(files.files[0].file_name, "5.nif");
    assert_eq!(files.files[2].file_name, "3.nif");
}

#[test]
fn recording_into_stored_text_reads_back_as_recorded() {
    let stored = "a.zip\tx.nif\r\ndisk\tb.zip\ty.nif\nurl\tc.zip\tz.nif";
    let mut files = RecentFiles::decode(stored);
    files.record(RecentFileSource::Disk, "b.zip", "new.nif");
    let back = RecentFiles::decode(&files.encode());
    assert_eq!(paths(&back), vec!["b.zip", "a.zip", "c.zip"]);
    assert_eq!(back.files[0].file_name, "new.nif");
    assert_eq!(back.files[0].source, RecentFileSource::Disk);
    assert_eq!(back.files[1].file_name, "x.nif");
    assert_eq!(back.files[1].source, RecentFileSource::Url);
    let mut unchanged = RecentFiles::decode(stored);
    unchanged.record(RecentFileSource::Url, "", "ignored.nif");
    assert_eq!(paths(&unchanged), vec!["a.zip", "b.zip", "c.zip"]);
}

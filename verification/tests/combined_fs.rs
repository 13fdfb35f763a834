use nif_viewer::files::{AnyFS, CombinedFS, HashmapFS, NullFS, RealFS};

fn disk(path: &str) -> Option<Vec<u8>> {
    match path {
        "/res/a.dds" => Some(b"disk-a".to_vec()),
        "/res/b.dds" => Some(b"disk-b".to_vec()),
        _ => None,
    }
}

fn archive(files: &[(&str, &[u8])]) -> AnyFS {
    AnyFS::Archive(HashmapFS::new_from_vec(
        String::new(),
        files.iter().map(|(p, b)| (p.to_string(), b.to_vec())).collect(),
    ))
}

fn sorted(mut v: Vec<String>) -> Vec<String> {
    v.sort();
    v
}

#[test]
fn the_first_part_that_has_a_file_gives_it() {
    let mut combined = CombinedFS::new();
    combined.add_filesystem(AnyFS::Null(NullFS));
    combined.add_filesystem(archive(&[("a.dds", b"archive-a")]));
    combined.add_filesystem(AnyFS::Folder(RealFS::new("/res".to_string())));
    assert_eq!(combined.read("a.dds", false, &disk).map(|b| b.to_vec()), Some(b"archive-a".to_vec()));
    assert_eq!(combined.read("b.dds", false, &disk).map(|b| b.to_vec()), Some(b"disk-b".to_vec()));
    assert_eq!(combined.read("c.dds", false, &disk).map(|b| b.to_vec()), None);
    assert_eq!(sorted(combined.absolute_paths()), vec!["a.dds".to_string(), "b.dds".to_string()]);
}

#[test]
fn clearing_removes_every_part() {
    let mut combined = CombinedFS::new();
    combined.add_filesystem(archive(&[("a.dds", b"x")]));
    combined.clear_filesystems();
    assert_eq!(combined.read("a.dds", true, &disk).map(|b| b.to_vec()), None);
    assert!(combined.absolute_paths().is_empty());
}

#[test]
fn paths_listed_by_several_parts_appear_once() {
    let mut combined = CombinedFS::new();
    combined.add_filesystem(archive(&[("a.dds", b"1"), ("b.dds", b"2")]));
    combined.add_filesystem(archive(&[("b.dds", b"3")]));
    assert_eq!(sorted(combined.absolute_paths()), vec!["a.dds".to_string(), "b.dds".to_string()]);
    assert_eq!(combined.read("b.dds", true, &disk).map(|b| b.to_vec()), Some(b"2".to_vec()));
}

use std::cell::RefCell;

use nif_viewer::files::{rebuild_resources, FSState, HashmapFS, RealFS};
use nif_viewer::shared::SharedBytes;

fn disk(path: &str) -> Option<Vec<u8>> {
    match path {
        "/data/one/textures/a.dds" => Some(b"one-a".to_vec()),
        "/data/two/textures/a.dds" => Some(b"two-a".to_vec()),
        "/data/two/textures/b.dds" => Some(b"two-b".to_vec()),
        _ => None,
    }
}

fn bytes(data: Option<SharedBytes>) -> Option<Vec<u8>> {
    data.map(|d| d.to_vec())
}

fn sorted(mut paths: Vec<String>) -> Vec<String> {
    paths.sort();
    paths
}

#[test]
fn a_resource_folder_reads_below_its_base() {
    let mut folder = RealFS::new("/data/one".to_string());
    assert!(folder.has_base());
    assert_eq!(folder.full_path("textures/a.dds"), "/data/one/textures/a.dds");
    assert_eq!(bytes(folder.read("textures/a.dds", &disk)), Some(b"one-a".to_vec()));
    assert_eq!(folder.absolute_paths(), vec!["textures/a.dds".to_string()]);
    assert_eq!(bytes(folder.read("textures/missing.dds", &disk)), None);
    assert_eq!(folder.absolute_paths(), vec!["textures/a.dds".to_string()]);
}

#[test]
fn a_resource_folder_serves_a_second_read_from_its_cache() {
    let calls = RefCell::new(Vec::new());
    let counting = |path: &str| {
        calls.borrow_mut().push(path.to_string());
        disk(path)
    };
    let mut folder = RealFS::new("/data/one".to_string());
    assert_eq!(bytes(folder.read("textures/a.dds", &counting)), Some(b"one-a".to_vec()));
    assert_eq!(bytes(folder.read("textures/a.dds", &counting)), Some(b"one-a".to_vec()));
    assert_eq!(*calls.borrow(), vec!["/data/one/textures/a.dds".to_string()]);
    let changed = |_: &str| Some(b"changed".to_vec());
    assert_eq!(bytes(folder.read("textures/a.dds", &changed)), Some(b"one-a".to_vec()));
    assert_eq!(folder.absolute_paths(), vec!["textures/a.dds".to_string()]);
}

#[test]
fn a_resource_folder_asks_the_disk_again_after_a_miss() {
    let calls = RefCell::new(Vec::new());
    let counting = |path: &str| {
        calls.borrow_mut().push(path.to_string());
        disk(path)
    };
    let mut folder = RealFS::new("/data/one".to_string());
    assert_eq!(bytes(folder.read("textures/none.dds", &counting)), None);
    assert_eq!(bytes(folder.read("textures/none.dds", &counting)), None);
    assert_eq!(calls.borrow().len(), 2);
    assert!(folder.absolute_paths().is_empty());
}

#[test]
fn rebuilding_resources_keeps_their_order() {
    let mut state = FSState::new();
    rebuild_resources(&mut state, &["/data/one".to_string(), "/data/two".to_string()]);
    assert_eq!(state.resource_file_systems.len(), 2);
    assert!(state.file_system.is_none());
    assert_eq!(bytes(state.resource_read("textures/a.dds", &disk)), Some(b"one-a".to_vec()));
    assert_eq!(bytes(state.resource_read("textures/b.dds", &disk)), Some(b"two-b".to_vec()));
    assert_eq!(bytes(state.resource_read("textures/c.dds", &disk)), None);
    assert_eq!(
        sorted(state.absolute_paths()),
        vec!["textures/a.dds".to_string(), "textures/b.dds".to_string()]
    );
}

#[test]
fn the_archive_is_read_before_resource_folders() {
    let mut state = FSState::new();
    state.file_system = Some(HashmapFS::new_from_vec(
        String::new(),
        vec![("textures/a.dds".to_string(), b"archive-a".to_vec())],
    ));
    rebuild_resources(&mut state, &["/data/one".to_string()]);
    assert_eq!(bytes(state.read("textures/a.dds", false, &disk)), Some(b"archive-a".to_vec()));
    assert_eq!(bytes(state.read("textures/b.dds", false, &disk)), None);
    assert_eq!(state.absolute_paths(), vec!["textures/a.dds".to_string()]);
}

#[test]
fn listed_paths_are_not_repeated() {
    let mut state = FSState::new();
    state.file_system = Some(HashmapFS::new_from_vec(
        String::new(),
        vec![("textures/x.dds".to_string(), b"x".to_vec())],
    ));
    rebuild_resources(&mut state, &["/data/one".to_string(), "/data/two".to_string()]);
    state.resource_file_systems[1].read("textures/a.dds", &disk);
    state.resource_file_systems[0].read("textures/a.dds", &disk);
    assert_eq!(
        sorted(state.absolute_paths()),
        vec!["textures/a.dds".to_string(), "textures/x.dds".to_string()]
    );
}

#[test]
fn a_later_archive_entry_replaces_an_earlier_one() {
    let fs = HashmapFS::new_from_vec(
        String::new(),
        vec![("a".to_string(), b"first".to_vec()), ("a".to_string(), b"second".to_vec())],
    );
    assert_eq!(bytes(fs.read("a", true)), Some(b"second".to_vec()));
    assert_eq!(fs.absolute_paths(), vec!["a".to_string()]);
}

#[test]
fn clearing_caches_keeps_the_folders() {
    let mut state = FSState::new();
    rebuild_resources(&mut state, &["/data/one".to_string(), "/data/two".to_string()]);
    state.resource_read("textures/b.dds", &disk);
    assert_eq!(state.absolute_paths(), vec!["textures/b.dds".to_string()]);
    state.clear_resource_caches();
    assert!(state.absolute_paths().is_empty());
    assert_eq!(state.resource_file_systems[1].full_path("x"), "/data/two/x");
}

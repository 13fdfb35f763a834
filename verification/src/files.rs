//! In-memory filesystems that hold the files of an opened archive, and the
//! caches of the resource folders searched after it.

use vstd::prelude::*;
use vstd::hash_map::StringHashMap;
use crate::shared::{SharedBytes, shared_bytes};
use crate::paths::{join_backslash, asset_candidate, find_asset, get_nif_base_dir, join_prefix, nif_base_dir, nif_dir_depth, normalize_chars, resolved_segments, seg_views};
use crate::text::{chars_of, string_from_chars};

verus! {

/// Views of a vector of strings.
pub open spec fn string_views(v: Seq<String>) -> Seq<Seq<char>> {
    v.map_values(|s: String| s@)
}

/// Views of a list of named files.
pub open spec fn entry_views(v: Seq<(String, SharedBytes)>) -> Seq<(Seq<char>, Seq<u8>)> {
    v.map_values(|e: (String, SharedBytes)| (e.0@, shared_bytes(e.1)))
}

/// Views of a list of named files given as plain byte vectors.
pub open spec fn vec_entry_views(v: Seq<(String, Vec<u8>)>) -> Seq<(Seq<char>, Seq<u8>)> {
    v.map_values(|e: (String, Vec<u8>)| (e.0@, e.1@))
}

/// The file map that inserting `entries` in order builds: a later entry with
/// the same path replaces an earlier one.
pub open spec fn entries_map(entries: Seq<(Seq<char>, Seq<u8>)>) -> Map<Seq<char>, Seq<u8>>
    decreases entries.len(),
{
    if entries.len() == 0 {
        Map::empty()
    } else {
        entries_map(entries.drop_last()).insert(entries.last().0, entries.last().1)
    }
}

/// The key that a read of `path` looks up: the path itself when the read is
/// absolute or no base is set, otherwise `base/path`.
pub open spec fn read_key(base: Seq<char>, path: Seq<char>, absolute_path: bool) -> Seq<char> {
    if absolute_path || base.len() == 0 {
        path
    } else {
        base + seq!['/'] + path
    }
}

/// A file map together with the list of its keys.
pub struct FileTable {
    map: StringHashMap<SharedBytes>,
    keys: Vec<String>,
}

impl FileTable {
    /// The key list names every stored file exactly once.
    pub closed spec fn wf(self) -> bool {
        &&& string_views(self.keys@).no_duplicates()
        &&& forall|k: Seq<char>| self.map@.contains_key(k) <==> string_views(self.keys@).contains(k)
    }

    /// The files, by path.
    pub closed spec fn files(self) -> Map<Seq<char>, Seq<u8>> {
        self.map@.map_values(|b: SharedBytes| shared_bytes(b))
    }

    /// A table with no files.
    pub fn new() -> (r: FileTable)
        ensures
            r.wf(),
            r.files() == Map::<Seq<char>, Seq<u8>>::empty(),
    {
        let r = FileTable { map: StringHashMap::new(), keys: Vec::new() };
        assert(r.files() =~= Map::<Seq<char>, Seq<u8>>::empty());
        r
    }

    /// Adds or replaces one file.
    pub fn insert(&mut self, path: String, data: SharedBytes)
        requires
            old(self).wf(),
        ensures
            final(self).wf(),
            final(self).files() == old(self).files().insert(path@, shared_bytes(data)),
    {
        let ghost old_files = self.files();
        if !self.map.contains_key(path.as_str()) {
            let ghost old_keys = string_views(self.keys@);
            self.keys.push(path.clone());
            assert(string_views(self.keys@) =~= old_keys.push(path@));
            assert(forall|k: Seq<char>| old_keys.push(path@).contains(k) <==> (old_keys.contains(k) || k == path@)) by {
                assert forall|k: Seq<char>| old_keys.push(path@).contains(k) implies (old_keys.contains(k) || k == path@) by {
                    let i = choose|i: int| 0 <= i < old_keys.push(path@).len() && old_keys.push(path@)[i] == k;
                    if i < old_keys.len() {
                        assert(old_keys[i] == k);
                    }
                }
                assert forall|k: Seq<char>| old_keys.contains(k) implies old_keys.push(path@).contains(k) by {
                    let i = choose|i: int| 0 <= i < old_keys.len() && old_keys[i] == k;
                    assert(old_keys.push(path@)[i] == k);
                }
                assert(old_keys.push(path@)[old_keys.len() as int] == path@);
            }
        }
        self.map.insert(path, data);
        assert(self.files() =~= old_files.insert(path@, shared_bytes(data)));
    }

    /// The file stored under `path`, if any.
    pub fn get(&self, path: &str) -> (r: Option<SharedBytes>)
        ensures
            match r {
                Some(b) => self.files().contains_key(path@) && shared_bytes(b) == self.files()[path@],
                None => !self.files().contains_key(path@),
            },
    {
        match self.map.get(path) {
            Some(b) => Some(b.share()),
            None => None,
        }
    }

    /// Every stored path, each once.
    pub fn paths(&self) -> (r: Vec<String>)
        requires
            self.wf(),
        ensures
            string_views(r@).no_duplicates(),
            forall|k: Seq<char>| self.files().contains_key(k) <==> string_views(r@).contains(k),
    {
        let r = self.keys.clone();
        assert(string_views(r@) =~= string_views(self.keys@));
        r
    }
}

/// A filesystem that holds no files.
pub struct NullFS;

impl NullFS {
    /// Every read misses.
    pub fn read(&self, _path: &str, _absolute_path: bool) -> (r: Option<SharedBytes>)
        ensures
            r is None,
    {
        None
    }

    /// No paths.
    pub fn absolute_paths(&self) -> (r: Vec<String>)
        ensures
            r@.len() == 0,
    {
        Vec::new()
    }

    /// A null filesystem reports no base folder.
    pub fn base(&self) -> (r: Option<String>)
        ensures
            r is None,
    {
        None
    }

    /// A null filesystem has no base folder.
    pub fn has_base(&self) -> (r: bool)
        ensures
            !r,
    {
        false
    }
}

/// The files of an extracted archive, kept in memory, with an optional base
/// folder that relative reads are resolved against.
pub struct HashmapFS {
    base: String,
    inner: FileTable,
}

impl HashmapFS {
    /// The files, by their full path inside the archive.
    pub closed spec fn files(self) -> Map<Seq<char>, Seq<u8>> {
        self.inner.files()
    }

    /// The archive's key list is consistent with its files.
    pub closed spec fn wf(self) -> bool {
        self.inner.wf()
    }

    /// The base folder prepended to relative reads (empty when unset).
    pub closed spec fn base_path(self) -> Seq<char> {
        self.base@
    }

    /// A filesystem over the given files; a later entry with the same path
    /// replaces an earlier one.
    pub fn new(base: String, inner: Vec<(String, SharedBytes)>) -> (r: HashmapFS)
        ensures
            r.wf(),
            r.base_path() == base@,
            r.files() == entries_map(entry_views(inner@)),
    {
        let mut table = FileTable::new();
        let mut i: usize = 0;
        assert(entry_views(inner@).take(0) =~= Seq::<(Seq<char>, Seq<u8>)>::empty());
        while i < inner.len()
            invariant
                i <= inner.len(),
                table.wf(),
                table.files() == entries_map(entry_views(inner@).take(i as int)),
            decreases inner.len() - i,
        {
            let entry = &inner[i];
            table.insert(entry.0.clone(), entry.1.share());
            assert(entry_views(inner@).take(i + 1).drop_last() =~= entry_views(inner@).take(i as int));
            i += 1;
        }
        assert(entry_views(inner@).take(inner.len() as int) =~= entry_views(inner@));
        HashmapFS { base, inner: table }
    }
}


impl HashmapFS {
    /// A filesystem over files given as plain byte vectors; a later entry with
    /// the same path replaces an earlier one.
    pub fn new_from_vec(base: String, inner: Vec<(String, Vec<u8>)>) -> (r: HashmapFS)
        ensures
            r.wf(),
            r.base_path() == base@,
            r.files() == entries_map(vec_entry_views(inner@)),
    {
        let mut table = FileTable::new();
        let mut i: usize = 0;
        assert(vec_entry_views(inner@).take(0) =~= Seq::<(Seq<char>, Seq<u8>)>::empty());
        while i < inner.len()
            invariant
                i <= inner.len(),
                table.wf(),
                table.files() == entries_map(vec_entry_views(inner@).take(i as int)),
            decreases inner.len() - i,
        {
            let entry = &inner[i];
            table.insert(entry.0.clone(), SharedBytes::from_slice(entry.1.as_slice()));
            assert(vec_entry_views(inner@).take(i + 1).drop_last() =~= vec_entry_views(inner@).take(i as int));
            i += 1;
        }
        assert(vec_entry_views(inner@).take(inner.len() as int) =~= vec_entry_views(inner@));
        HashmapFS { base, inner: table }
    }

    /// The base folder is not reported to callers: reads use it, but the
    /// filesystem answers `None` like every filesystem of the viewer.
    pub fn base(&self) -> (r: Option<String>)
        ensures
            r is None,
    {
        None
    }

    /// An archive filesystem always has a base folder that can be set.
    pub fn has_base(&self) -> (r: bool)
        ensures
            r,
    {
        true
    }

    /// Replaces the base folder; the files are unchanged.
    pub fn set_base(&mut self, base: String)
        requires
            old(self).wf(),
        ensures
            final(self).wf(),
            final(self).base_path() == base@,
            final(self).files() == old(self).files(),
    {
        self.base = base;
    }

    /// Reads a file: `path` itself when `absolute_path` is set or no base is
    /// set, otherwise `base/path`.
    pub fn read(&self, path: &str, absolute_path: bool) -> (r: Option<SharedBytes>)
        requires
            self.wf(),
        ensures
            ({
                let key = read_key(self.base_path(), path@, absolute_path);
                match r {
                    Some(b) => self.files().contains_key(key) && shared_bytes(b) == self.files()[key],
                    None => !self.files().contains_key(key),
                }
            }),
    {
        if absolute_path || self.base.as_str().is_empty() {
            self.inner.get(path)
        } else {
            let mut full_path = self.base.clone();
            full_path.append("/");
            full_path.append(path);
            proof {
                reveal_strlit("/");
                assert("/"@ =~= seq!['/']);
            }
            self.inner.get(full_path.as_str())
        }
    }

    /// Every file path in the archive, each once.
    pub fn absolute_paths(&self) -> (r: Vec<String>)
        requires
            self.wf(),
        ensures
            string_views(r@).no_duplicates(),
            forall|k: Seq<char>| self.files().contains_key(k) <==> string_views(r@).contains(k),
    {
        self.inner.paths()
    }

    /// Sets the base folder to the asset root of the given NIF path.
    pub fn rebase_to_file(&mut self, file_path: &str)
        requires
            old(self).wf(),
        ensures
            final(self).wf(),
            final(self).base_path() == nif_base_dir(file_path@),
            final(self).files() == old(self).files(),
    {
        if self.has_base() {
            let base = get_nif_base_dir(file_path).to_owned();
            self.set_base(base);
        }
    }
}

/// Finds the file that a NIF refers to by `requested_path`: the path is tried
/// relative to the NIF's own folder first, then relative to each enclosing
/// folder up to the archive root (so `../` segments and assets kept beside the
/// `meshes` folder are both found).
pub fn find_file(file_system: &HashmapFS, nif_path: &str, requested_path: &str) -> (r: Option<Vec<u8>>)
    requires
        file_system.wf(),
    ensures
        match find_asset(file_system.files(), nif_path@, requested_path@, nif_dir_depth(nif_path@)) {
            Some(bytes) => r matches Some(v) && v@ == bytes,
            None => r is None,
        },
{
    let nif = chars_of(nif_path);
    let requested = chars_of(requested_path);
    let segs = resolved_segments(&nif);
    let mut k: usize = if segs.len() > 0 { segs.len() - 1 } else { 0 };
    loop
        invariant
            file_system.wf(),
            nif@ == nif_path@,
            requested@ == requested_path@,
            seg_views(segs@) == crate::paths::resolve_segments(crate::paths::split_at_seps(nif_path@)),
            k <= segs.len(),
            k <= nif_dir_depth(nif_path@),
            find_asset(file_system.files(), nif_path@, requested_path@, nif_dir_depth(nif_path@))
                == find_asset(file_system.files(), nif_path@, requested_path@, k as int),
        decreases k,
    {
        let mut candidate = join_prefix(&segs, k);
        candidate.push('\\');
        let mut j: usize = 0;
        let ghost prefix = candidate@;
        while j < requested.len()
            invariant
                j <= requested.len(),
                candidate@ == prefix + requested@.take(j as int),
            decreases requested.len() - j,
        {
            candidate.push(requested[j]);
            assert(requested@.take(j + 1) =~= requested@.take(j as int).push(requested@[j as int]));
            j += 1;
        }
        assert(requested@.take(requested.len() as int) =~= requested@);
        assert(candidate@ =~= join_backslash(seg_views(segs@).take(k as int)) + seq!['\\'] + requested_path@);
        let key = string_from_chars(&normalize_chars(&candidate));
        assert(key@ == asset_candidate(nif_path@, requested_path@, k as int));
        match file_system.read(key.as_str(), true) {
            Some(bytes) => {
                return Some(bytes.to_vec());
            },
            None => {},
        }
        if k == 0 {
            assert(find_asset(file_system.files(), nif_path@, requested_path@, -1) is None);
            return None;
        }
        k -= 1;
    }
}

/// A resource folder on disk: files read from it are kept in memory.
pub struct RealFS {
    base: String,
    cache: FileTable,
}

/// The disk path of `path` inside the folder `base`.
pub open spec fn disk_path(base: Seq<char>, path: Seq<char>) -> Seq<char> {
    base + seq!['/'] + path
}

impl RealFS {
    /// The folder's key list is consistent with its cached files.
    pub closed spec fn wf(self) -> bool {
        self.cache.wf()
    }

    /// The folder.
    pub closed spec fn base_path(self) -> Seq<char> {
        self.base@
    }

    /// The files read so far, by the path they were requested under.
    pub closed spec fn cached_files(self) -> Map<Seq<char>, Seq<u8>> {
        self.cache.files()
    }

    /// A resource folder with nothing read yet.
    pub fn new(base: String) -> (r: RealFS)
        ensures
            r.wf(),
            r.base_path() == base@,
            r.cached_files() == Map::<Seq<char>, Seq<u8>>::empty(),
    {
        RealFS { base, cache: FileTable::new() }
    }

    /// A resource folder has a base folder that can be set.
    pub fn has_base(&self) -> (r: bool)
        ensures
            r,
    {
        true
    }

    /// Replaces the folder; what was read stays cached.
    pub fn set_base(&mut self, base: String)
        requires
            old(self).wf(),
        ensures
            final(self).wf(),
            final(self).base_path() == base@,
            final(self).cached_files() == old(self).cached_files(),
    {
        self.base = base;
    }

    /// Forgets the files read for the previously loaded NIF.
    pub fn clear_cache(&mut self)
        ensures
            final(self).wf(),
            final(self).base_path() == old(self).base_path(),
            final(self).cached_files() == Map::<Seq<char>, Seq<u8>>::empty(),
    {
        self.cache = FileTable::new();
    }

    /// The disk path a read of `path` opens: `base/path`.
    pub fn full_path(&self, path: &str) -> (r: String)
        ensures
            r@ == disk_path(self.base_path(), path@),
    {
        let mut full = self.base.clone();
        full.append("/");
        full.append(path);
        proof {
            reveal_strlit("/");
            assert("/"@ =~= seq!['/']);
        }
        full
    }

    /// Every path read so far, each once.
    pub fn absolute_paths(&self) -> (r: Vec<String>)
        requires
            self.wf(),
        ensures
            string_views(r@).no_duplicates(),
            forall|k: Seq<char>| self.cached_files().contains_key(k) <==> string_views(r@).contains(k),
    {
        self.cache.paths()
    }

    /// Reads `path` from the folder: a file read before is served from the
    /// cache; otherwise `load` reads `base/path` from disk, and what it reads
    /// is cached under `path`.
    pub fn read<F: Fn(&str) -> Option<Vec<u8>>>(&mut self, path: &str, load: &F) -> (r: Option<SharedBytes>)
        requires
            old(self).wf(),
            forall|p: &str| load.requires((p,)),
        ensures
            final(self).wf(),
            folder_read(*old(self), *final(self), path@, r, *load),
    {
        if let Some(data) = self.cache.get(path) {
            return Some(data);
        }
        let full = self.full_path(path);
        let loaded = load(full.as_str());
        match loaded {
            Some(bytes) => {
                let data = SharedBytes::from_slice(bytes.as_slice());
                self.cache.insert(path.to_owned(), data.share());
                Some(data)
            },
            None => None,
        }
    }
}

/// Whether a resource folder has `path` cached.
pub open spec fn cache_hit(fs: RealFS, path: Seq<char>) -> bool {
    fs.cached_files().contains_key(path)
}

/// A resource folder misses `path`: nothing is cached under it, and `load`
/// found nothing at `base/path` on disk.
pub open spec fn folder_misses<F: Fn(&str) -> Option<Vec<u8>>>(fs: RealFS, path: Seq<char>, load: F) -> bool {
    &&& !cache_hit(fs, path)
    &&& exists|p: &str, v: Option<Vec<u8>>| p@ == disk_path(fs.base_path(), path) && load.ensures((p,), v) && v is None
}

/// What reading `path` from a resource folder gave, and how the folder
/// changed: a cached file is served from the cache, which stays as it is;
/// otherwise `load` is handed `base/path`, and what it read (if anything) is
/// the result and is cached under `path`. The folder keeps its base.
pub open spec fn folder_read<F: Fn(&str) -> Option<Vec<u8>>>(
    before: RealFS,
    after: RealFS,
    path: Seq<char>,
    r: Option<SharedBytes>,
    load: F,
) -> bool {
    &&& after.base_path() == before.base_path()
    &&& if cache_hit(before, path) {
        &&& r matches Some(b) && shared_bytes(b) == before.cached_files()[path]
        &&& after.cached_files() == before.cached_files()
    } else {
        exists|p: &str, v: Option<Vec<u8>>| p@ == disk_path(before.base_path(), path) && load.ensures((p,), v)
            && match v {
                Some(bytes) => r matches Some(b) && shared_bytes(b) == bytes@
                    && after.cached_files() == before.cached_files().insert(path, bytes@),
                None => r is None && after.cached_files() == before.cached_files(),
            }
    }
}

/// A miss leaves the folder's cache as it was and means the folder misses.
pub proof fn lemma_folder_read_none<F: Fn(&str) -> Option<Vec<u8>>>(
    before: RealFS,
    after: RealFS,
    path: Seq<char>,
    load: F,
)
    requires
        folder_read(before, after, path, None, load),
    ensures
        folder_misses(before, path, load),
        after.cached_files() == before.cached_files(),
        after.base_path() == before.base_path(),
{
}

/// A file read from a folder is served from its cache by the next read,
/// with the same bytes, and the cache does not change again.
pub proof fn lemma_second_read_cached<F: Fn(&str) -> Option<Vec<u8>>>(
    first: RealFS,
    second: RealFS,
    third: RealFS,
    path: Seq<char>,
    b1: SharedBytes,
    r2: Option<SharedBytes>,
    load: F,
)
    requires
        folder_read(first, second, path, Some(b1), load),
        folder_read(second, third, path, r2, load),
    ensures
        cache_hit(second, path),
        r2 matches Some(b2) && shared_bytes(b2) == shared_bytes(b1),
        third.cached_files() == second.cached_files(),
{
}

/// The outcome of reading `path` from resource folders `before`, leaving
/// them as `after`: the folders keep their places and bases; a miss means
/// every folder missed (nothing cached, nothing on disk) and no cache
/// changed; a hit comes from the first folder that had it cached or read it
/// from disk, every folder before it missed, and the folders after it were
/// not asked.
pub open spec fn resources_read<F: Fn(&str) -> Option<Vec<u8>>>(
    before: Seq<RealFS>,
    after: Seq<RealFS>,
    path: Seq<char>,
    r: Option<SharedBytes>,
    load: F,
) -> bool {
    &&& after.len() == before.len()
    &&& forall|i: int| 0 <= i < after.len() ==> (#[trigger] after[i]).wf() && after[i].base_path() == before[i].base_path()
    &&& match r {
        None => forall|i: int| 0 <= i < before.len() ==> folder_read(#[trigger] before[i], after[i], path, None, load),
        Some(b) => exists|i: int| 0 <= i < before.len()
            && (forall|j: int| 0 <= j < i ==> folder_read(#[trigger] before[j], after[j], path, None, load))
            && folder_read(before[i], after[i], path, r, load)
            && (forall|j: int| i < j < before.len() ==> #[trigger] after[j].cached_files() == before[j].cached_files()),
    }
}

/// Resource folders are searched in their order: when none has `path`
/// cached (as after they are rebuilt), a read gives the bytes that `load`
/// found at `base/path` of the first folder where it found any, every
/// earlier folder found nothing, and a read that gives nothing means `load`
/// found nothing in any folder.
pub proof fn lemma_resources_search_order<F: Fn(&str) -> Option<Vec<u8>>>(
    before: Seq<RealFS>,
    after: Seq<RealFS>,
    path: Seq<char>,
    r: Option<SharedBytes>,
    load: F,
)
    requires
        forall|i: int| 0 <= i < before.len() ==> !cache_hit(#[trigger] before[i], path),
        resources_read(before, after, path, r, load),
    ensures
        r is None ==> forall|i: int| 0 <= i < before.len() ==> folder_misses(#[trigger] before[i], path, load),
        r matches Some(b) ==> exists|i: int| #![trigger before[i]] 0 <= i < before.len()
            && (forall|j: int| 0 <= j < i ==> folder_misses(#[trigger] before[j], path, load))
            && exists|p: &str, v: Option<Vec<u8>>| p@ == disk_path(before[i].base_path(), path)
                && load.ensures((p,), v) && (v matches Some(bytes) && bytes@ == shared_bytes(b)),
{
    match r {
        None => {
            assert forall|i: int| 0 <= i < before.len() implies folder_misses(#[trigger] before[i], path, load) by {
                lemma_folder_read_none(before[i], after[i], path, load);
            }
        },
        Some(b) => {
            let i = choose|i: int| 0 <= i < before.len()
                && (forall|j: int| 0 <= j < i ==> folder_read(#[trigger] before[j], after[j], path, None, load))
                && folder_read(before[i], after[i], path, r, load)
                && (forall|j: int| i < j < before.len() ==> #[trigger] after[j].cached_files() == before[j].cached_files());
            assert forall|j: int| 0 <= j < i implies folder_misses(#[trigger] before[j], path, load) by {
                lemma_folder_read_none(before[j], after[j], path, load);
            }
            assert(!cache_hit(before[i], path));
        },
    }
}

/// Reads `path` from the resource folders in order and stops at the first
/// folder that has it (cached, or read from disk by `load`).
fn read_resources<F: Fn(&str) -> Option<Vec<u8>>>(resources: &mut Vec<RealFS>, path: &str, load: &F) -> (r:
    Option<SharedBytes>)
    requires
        forall|i: int| 0 <= i < old(resources)@.len() ==> (#[trigger] old(resources)@[i]).wf(),
        forall|p: &str| load.requires((p,)),
    ensures
        resources_read(old(resources)@, final(resources)@, path@, r, *load),
{
    let mut rest: Vec<RealFS> = Vec::new();
    std::mem::swap(&mut rest, resources);
    let ghost olds = rest@;
    assert(olds == old(resources)@);
    let mut done: Vec<RealFS> = Vec::new();
    assert(rest@ =~= olds.skip(0));
    while rest.len() > 0
        invariant
            olds == old(resources)@,
            done.len() + rest.len() == olds.len(),
            rest@ == olds.skip(done.len() as int),
            forall|i: int| 0 <= i < olds.len() ==> (#[trigger] olds[i]).wf(),
            forall|p: &str| load.requires((p,)),
            forall|j: int| 0 <= j < done.len() ==> (#[trigger] done@[j]).wf()
                && folder_read(olds[j], done@[j], path@, None, *load),
        decreases rest.len(),
    {
        let i = done.len();
        let mut fs = rest.remove(0);
        assert(fs == olds[i as int]);
        let got = fs.read(path, load);
        let ghost after = fs;
        let ghost before_done = done@;
        done.push(fs);
        if got.is_some() {
            let ghost tail = rest@;
            assert(tail =~= olds.skip(i + 1));
            done.append(&mut rest);
            *resources = done;
            proof {
                assert(resources@ =~= before_done.push(after) + tail);
                assert forall|j: int| 0 <= j < i implies resources@[j] == before_done[j] by {}
                assert forall|j: int| 0 <= j < resources@.len() implies (#[trigger] resources@[j]).wf()
                    && resources@[j].base_path() == olds[j].base_path() by {
                    if j < i {
                        assert(resources@[j] == before_done[j]);
                    } else if j == i {
                        assert(resources@[j] == after);
                    } else {
                        assert(resources@[j] == tail[j - i - 1]);
                        assert(tail[j - i - 1] == olds[j]);
                    }
                }
                assert forall|j: int| i < j < olds.len() implies #[trigger] resources@[j].cached_files() == olds[j].cached_files() by {
                    assert(resources@[j] == tail[j - i - 1]);
                    assert(tail[j - i - 1] == olds[j]);
                }
                assert(resources@[i as int] == after);
                assert(folder_read(olds[i as int], resources@[i as int], path@, got, *load));
            }
            return got;
        }
        assert(rest@ =~= olds.skip(done.len() as int));
    }
    *resources = done;
    assert(resources@.len() == olds.len());
    assert forall|i: int| 0 <= i < olds.len() implies folder_read(#[trigger] olds[i], resources@[i], path@, None, *load) by {
        assert(resources@[i] == done@[i]);
    }
    None
}

/// The files the viewer can reach: those of the opened archive first, then
/// those of the resource folders, in their order.
pub struct FSState {
    /// The archive opened by the user, if any.
    pub file_system: Option<HashmapFS>,
    /// Folders from the resource settings; always searched after the archive.
    pub resource_file_systems: Vec<RealFS>,
}

impl FSState {
    /// Every part's key list is consistent with its files.
    pub open spec fn wf(self) -> bool {
        &&& (self.file_system matches Some(fs) ==> fs.wf())
        &&& forall|i: int| 0 <= i < self.resource_file_systems.len() ==> (#[trigger] self.resource_file_systems@[i]).wf()
    }

    /// No archive and no resource folders.
    pub fn new() -> (r: FSState)
        ensures
            r.wf(),
            r.file_system is None,
            r.resource_file_systems@.len() == 0,
    {
        FSState { file_system: None, resource_file_systems: Vec::new() }
    }

    /// Reads from the resource folders only.
    pub fn resource_read<F: Fn(&str) -> Option<Vec<u8>>>(&mut self, path: &str, load: &F) -> (r: Option<SharedBytes>)
        requires
            old(self).wf(),
            forall|p: &str| load.requires((p,)),
        ensures
            final(self).wf(),
            final(self).file_system == old(self).file_system,
            resources_read(old(self).resource_file_systems@, final(self).resource_file_systems@, path@, r, *load),
    {
        read_resources(&mut self.resource_file_systems, path, load)
    }

    /// Reads a file: from the opened archive when it has it (see
    /// `HashmapFS::read`), otherwise from the first resource folder that has it.
    pub fn read<F: Fn(&str) -> Option<Vec<u8>>>(&mut self, path: &str, absolute_path: bool, load: &F) -> (r:
        Option<SharedBytes>)
        requires
            old(self).wf(),
            forall|p: &str| load.requires((p,)),
        ensures
            final(self).wf(),
            fsstate_read(*old(self), *final(self), path@, absolute_path, r, *load),
    {
        if let Some(fs) = &self.file_system {
            if let Some(data) = fs.read(path, absolute_path) {
                return Some(data);
            }
        }
        self.resource_read(path, load)
    }
}

/// Whether the opened archive holds `path` (under its base, unless the path
/// is absolute).
pub open spec fn archive_hit(fs: FSState, path: Seq<char>, absolute_path: bool) -> bool {
    fs.file_system matches Some(a) && a.files().contains_key(read_key(a.base_path(), path, absolute_path))
}

/// What reading `path` from the viewer's files gave, and how they changed:
/// the opened archive answers when it holds the file, and then nothing
/// changes; otherwise the resource folders are read in order (see
/// `resources_read`). The archive never changes.
pub open spec fn fsstate_read<F: Fn(&str) -> Option<Vec<u8>>>(
    before: FSState,
    after: FSState,
    path: Seq<char>,
    absolute_path: bool,
    r: Option<SharedBytes>,
    load: F,
) -> bool {
    &&& after.file_system == before.file_system
    &&& after.resource_file_systems@.len() == before.resource_file_systems@.len()
    &&& if archive_hit(before, path, absolute_path) {
        let a = before.file_system.unwrap();
        &&& r matches Some(b) && shared_bytes(b) == a.files()[read_key(a.base_path(), path, absolute_path)]
        &&& same_files(before, after)
    } else {
        resources_read(before.resource_file_systems@, after.resource_file_systems@, path, r, load)
    }
}

/// `path` is found nowhere: not in the opened archive (under its base), and
/// every resource folder misses it (nothing cached, nothing on disk).
pub open spec fn fs_misses<F: Fn(&str) -> Option<Vec<u8>>>(fs: FSState, path: Seq<char>, load: F) -> bool {
    &&& !archive_hit(fs, path, false)
    &&& forall|i: int| 0 <= i < fs.resource_file_systems@.len() ==> folder_misses(
        #[trigger] fs.resource_file_systems@[i],
        path,
        load,
    )
}

/// A read that found nothing means the file is found nowhere, and the
/// files read alike afterwards.
pub proof fn lemma_fsstate_read_none<F: Fn(&str) -> Option<Vec<u8>>>(
    before: FSState,
    after: FSState,
    path: Seq<char>,
    load: F,
)
    requires
        fsstate_read(before, after, path, false, None, load),
    ensures
        fs_misses(before, path, load),
        same_files(before, after),
{
    assert forall|i: int| 0 <= i < before.resource_file_systems@.len() implies folder_misses(
        #[trigger] before.resource_file_systems@[i],
        path,
        load,
    ) && before.resource_file_systems@[i].base_path() == after.resource_file_systems@[i].base_path()
        && before.resource_file_systems@[i].cached_files() == after.resource_file_systems@[i].cached_files() by {
        lemma_folder_read_none(before.resource_file_systems@[i], after.resource_file_systems@[i], path, load);
    }
}

/// Reading from files that read alike gives the same outcome.
pub proof fn lemma_fsstate_read_same_files<F: Fn(&str) -> Option<Vec<u8>>>(
    a: FSState,
    b: FSState,
    after: FSState,
    path: Seq<char>,
    absolute_path: bool,
    r: Option<SharedBytes>,
    load: F,
)
    requires
        same_files(a, b),
        fsstate_read(b, after, path, absolute_path, r, load),
    ensures
        fsstate_read(a, after, path, absolute_path, r, load),
{
    let ra = a.resource_file_systems@;
    let rb = b.resource_file_systems@;
    let rf = after.resource_file_systems@;
    assert forall|i: int| 0 <= i < ra.len() implies #[trigger] ra[i].base_path() == rb[i].base_path()
        && ra[i].cached_files() == rb[i].cached_files() by {
        assert(same_files(a, b));
    }
    if !archive_hit(b, path, absolute_path) {
        assert forall|i: int| 0 <= i < rf.len() implies (#[trigger] rf[i]).wf() && rf[i].base_path() == ra[i].base_path() by {
            assert(ra[i].base_path() == rb[i].base_path());
        }
        assert forall|i: int, q: Option<SharedBytes>| 0 <= i < ra.len() && #[trigger] folder_read(rb[i], rf[i], path, q, load)
            implies folder_read(ra[i], rf[i], path, q, load) by {
            assert(ra[i].base_path() == rb[i].base_path() && ra[i].cached_files() == rb[i].cached_files());
        }
        match r {
            None => {
                assert forall|i: int| 0 <= i < ra.len() implies folder_read(#[trigger] ra[i], rf[i], path, None, load) by {
                    assert(folder_read(rb[i], rf[i], path, None, load));
                }
            },
            Some(x) => {
                let k = choose|k: int| 0 <= k < rb.len()
                    && (forall|j: int| 0 <= j < k ==> folder_read(#[trigger] rb[j], rf[j], path, None, load))
                    && folder_read(rb[k], rf[k], path, r, load)
                    && (forall|j: int| k < j < rb.len() ==> #[trigger] rf[j].cached_files() == rb[j].cached_files());
                assert forall|j: int| 0 <= j < k implies folder_read(#[trigger] ra[j], rf[j], path, None, load) by {
                    assert(folder_read(rb[j], rf[j], path, None, load));
                }
                assert(folder_read(ra[k], rf[k], path, r, load));
                assert forall|j: int| k < j < ra.len() implies #[trigger] rf[j].cached_files() == ra[j].cached_files() by {
                    assert(rf[j].cached_files() == rb[j].cached_files());
                }
            },
        }
    } else {
        assert(same_files(a, after)) by {
            assert forall|i: int| 0 <= i < ra.len() implies (#[trigger] ra[i]).base_path() == rf[i].base_path()
                && ra[i].cached_files() == rf[i].cached_files() by {
                assert(rb[i].base_path() == rf[i].base_path());
            }
        }
    }
}

/// Two states of the viewer's files that read alike: the same archive, and
/// resource folders with the same bases and caches.
pub open spec fn same_files(a: FSState, b: FSState) -> bool {
    &&& a.file_system == b.file_system
    &&& a.resource_file_systems@.len() == b.resource_file_systems@.len()
    &&& forall|i: int| 0 <= i < a.resource_file_systems@.len() ==> {
        &&& (#[trigger] a.resource_file_systems@[i]).base_path() == b.resource_file_systems@[i].base_path()
        &&& a.resource_file_systems@[i].cached_files() == b.resource_file_systems@[i].cached_files()
    }
}

impl FSState {
    /// Forgets the files every resource folder read for the previous NIF.
    pub fn clear_resource_caches(&mut self)
        requires
            old(self).wf(),
        ensures
            final(self).wf(),
            final(self).file_system == old(self).file_system,
            final(self).resource_file_systems@.len() == old(self).resource_file_systems@.len(),
            forall|i: int| 0 <= i < final(self).resource_file_systems@.len() ==> {
                &&& (#[trigger] final(self).resource_file_systems@[i]).base_path() == old(self).resource_file_systems@[i].base_path()
                &&& final(self).resource_file_systems@[i].cached_files() == Map::<Seq<char>, Seq<u8>>::empty()
            },
    {
        let mut rest: Vec<RealFS> = Vec::new();
        std::mem::swap(&mut rest, &mut self.resource_file_systems);
        let ghost olds = rest@;
        let mut done: Vec<RealFS> = Vec::new();
        assert(rest@ =~= olds.skip(0));
        while rest.len() > 0
            invariant
                done.len() + rest.len() == olds.len(),
                rest@ == olds.skip(done.len() as int),
                forall|i: int| 0 <= i < olds.len() ==> (#[trigger] olds[i]).wf(),
                forall|j: int| 0 <= j < done.len() ==> (#[trigger] done@[j]).wf()
                    && done@[j].base_path() == olds[j].base_path()
                    && done@[j].cached_files() == Map::<Seq<char>, Seq<u8>>::empty(),
            decreases rest.len(),
        {
            let i = done.len();
            let mut folder = rest.remove(0);
            assert(folder == olds[i as int]);
            folder.clear_cache();
            done.push(folder);
            assert(rest@ =~= olds.skip(done.len() as int));
        }
        self.resource_file_systems = done;
    }

    /// Reads a NIF chosen from the opened archive by its full path. When the
    /// archive has it, the archive's base becomes the NIF's asset root, so
    /// that the NIF's textures are looked up beside it; otherwise nothing
    /// changes.
    pub fn read_nif(&mut self, file_name: &str) -> (r: Option<Vec<u8>>)
        requires
            old(self).wf(),
        ensures
            final(self).wf(),
            final(self).resource_file_systems@ == old(self).resource_file_systems@,
            match old(self).file_system {
                None => r is None && final(self).file_system is None,
                Some(fs) => if fs.files().contains_key(file_name@) {
                    &&& r matches Some(bytes) && bytes@ == fs.files()[file_name@]
                    &&& final(self).file_system matches Some(now) && now.wf()
                        && now.files() == fs.files() && now.base_path() == nif_base_dir(file_name@)
                } else {
                    r is None && final(self).file_system == old(self).file_system
                },
            },
    {
        let mut fs = match self.file_system.take() {
            Some(fs) => fs,
            None => return None,
        };
        let bytes = match fs.read(file_name, true) {
            Some(data) => Some(data.to_vec()),
            None => None,
        };
        if bytes.is_some() {
            fs.rebase_to_file(file_name);
        }
        self.file_system = Some(fs);
        bytes
    }
}

/// Replaces the resource folders by one empty folder per path, in order.
pub fn rebuild_resources(fsstate: &mut FSState, paths: &[String])
    requires
        old(fsstate).wf(),
    ensures
        final(fsstate).wf(),
        final(fsstate).file_system == old(fsstate).file_system,
        final(fsstate).resource_file_systems@.len() == paths@.len(),
        forall|i: int| 0 <= i < paths@.len() ==> (#[trigger] final(fsstate).resource_file_systems@[i]).base_path() == paths@[i]@
            && final(fsstate).resource_file_systems@[i].cached_files() == Map::<Seq<char>, Seq<u8>>::empty(),
{
    let mut folders: Vec<RealFS> = Vec::new();
    let mut i: usize = 0;
    while i < paths.len()
        invariant
            i <= paths@.len(),
            folders.len() == i,
            forall|j: int| 0 <= j < i ==> (#[trigger] folders@[j]).wf() && folders@[j].base_path() == paths@[j]@
                && folders@[j].cached_files() == Map::<Seq<char>, Seq<u8>>::empty(),
        decreases paths@.len() - i,
    {
        folders.push(RealFS::new(paths[i].clone()));
        i += 1;
    }
    fsstate.resource_file_systems = folders;
}

/// The paths cached by the given resource folders.
pub open spec fn cached_paths(folders: Seq<RealFS>) -> Set<Seq<char>>
    decreases folders.len(),
{
    if folders.len() == 0 {
        Set::empty()
    } else {
        cached_paths(folders.drop_last()).union(folders.last().cached_files().dom())
    }
}

/// The paths the viewer lists: the archive's files and the files read from
/// the resource folders.
pub open spec fn listed_paths(fsstate: FSState) -> Set<Seq<char>> {
    let archive = match fsstate.file_system {
        Some(fs) => fs.files().dom(),
        None => Set::empty(),
    };
    archive.union(cached_paths(fsstate.resource_file_systems@))
}

/// A sequence with one more element contains exactly that element and the
/// elements it had.
proof fn lemma_push_contains<A>(s: Seq<A>, x: A, k: A)
    ensures
        s.push(x).contains(k) <==> (k == x || s.contains(k)),
{
    if s.contains(k) {
        let j = choose|j: int| 0 <= j < s.len() && s[j] == k;
        assert(s.push(x)[j] == k);
    }
    if k == x {
        assert(s.push(x)[s.len() as int] == x);
    }
    if s.push(x).contains(k) {
        let j = choose|j: int| 0 <= j < s.push(x).len() && s.push(x)[j] == k;
        if j < s.len() {
            assert(s[j] == k);
        }
    }
}

/// Appends the paths not seen yet.
fn add_unseen(out: &mut Vec<String>, seen: &mut StringHashMap<bool>, paths: Vec<String>)
    requires
        string_views(old(out)@).no_duplicates(),
        forall|k: Seq<char>| old(seen)@.contains_key(k) <==> string_views(old(out)@).contains(k),
    ensures
        string_views(final(out)@).no_duplicates(),
        forall|k: Seq<char>| final(seen)@.contains_key(k) <==> string_views(final(out)@).contains(k),
        forall|k: Seq<char>| #[trigger] string_views(final(out)@).contains(k) <==> (string_views(old(out)@).contains(k)
            || string_views(paths@).contains(k)),
{
    let ghost start = string_views(out@);
    let mut i: usize = 0;
    while i < paths.len()
        invariant
            i <= paths.len(),
            string_views(out@).no_duplicates(),
            forall|k: Seq<char>| seen@.contains_key(k) <==> string_views(out@).contains(k),
            forall|k: Seq<char>| #[trigger] string_views(out@).contains(k) <==> (start.contains(k)
                || string_views(paths@).take(i as int).contains(k)),
        decreases paths.len() - i,
    {
        let p = &paths[i];
        let ghost pv = p@;
        let ghost taken = string_views(paths@).take(i as int);
        assert(string_views(paths@).take(i + 1) =~= taken.push(pv));
        let ghost before = string_views(out@);
        if !seen.contains_key(p.as_str()) {
            out.push(p.clone());
            seen.insert(p.clone(), true);
            assert(string_views(out@) =~= before.push(pv));
            assert forall|k: Seq<char>| seen@.contains_key(k) <==> string_views(out@).contains(k) by {
                lemma_push_contains(before, pv, k);
            }
        }
        assert forall|k: Seq<char>| #[trigger] string_views(out@).contains(k) <==> (start.contains(k)
            || taken.push(pv).contains(k)) by {
            lemma_push_contains(taken, pv, k);
            lemma_push_contains(before, pv, k);
            assert(before.contains(k) <==> (start.contains(k) || taken.contains(k)));
        }
        i += 1;
    }
    assert(string_views(paths@).take(paths.len() as int) =~= string_views(paths@));
}

impl FSState {
    /// Every path the viewer can list, each once: the archive's files and
    /// the files read from the resource folders.
    pub fn absolute_paths(&self) -> (r: Vec<String>)
        requires
            self.wf(),
        ensures
            string_views(r@).no_duplicates(),
            forall|k: Seq<char>| string_views(r@).contains(k) <==> listed_paths(*self).contains(k),
    {
        let mut out: Vec<String> = Vec::new();
        let mut seen: StringHashMap<bool> = StringHashMap::new();
        let ghost archive = match &self.file_system {
            Some(fs) => fs.files().dom(),
            None => Set::<Seq<char>>::empty(),
        };
        if let Some(fs) = &self.file_system {
            add_unseen(&mut out, &mut seen, fs.absolute_paths());
        }
        assert(forall|k: Seq<char>| string_views(out@).contains(k) <==> archive.contains(k));
        let mut i: usize = 0;
        while i < self.resource_file_systems.len()
            invariant
                self.wf(),
                i <= self.resource_file_systems.len(),
                string_views(out@).no_duplicates(),
                forall|k: Seq<char>| seen@.contains_key(k) <==> string_views(out@).contains(k),
                forall|k: Seq<char>| #[trigger] string_views(out@).contains(k) <==> (archive.contains(k)
                    || cached_paths(self.resource_file_systems@.take(i as int)).contains(k)),
            decreases self.resource_file_systems.len() - i,
        {
            let folder = &self.resource_file_systems[i];
            assert(folder.wf());
            let ghost before = string_views(out@);
            let listed = folder.absolute_paths();
            let ghost lv = string_views(listed@);
            add_unseen(&mut out, &mut seen, listed);
            let ghost next = self.resource_file_systems@.take(i + 1);
            assert(next.drop_last() =~= self.resource_file_systems@.take(i as int));
            assert(next.last() == *folder);
            assert(cached_paths(next) == cached_paths(next.drop_last()).union(folder.cached_files().dom()));
            assert forall|k: Seq<char>| #[trigger] string_views(out@).contains(k) <==> (archive.contains(k)
                || cached_paths(next).contains(k)) by {
                assert(string_views(out@).contains(k) <==> (before.contains(k) || lv.contains(k)));
                assert(lv.contains(k) <==> folder.cached_files().contains_key(k));
            }
            i += 1;
            assert(self.resource_file_systems@.take(i as int) == next);
        }
        assert(self.resource_file_systems@.take(self.resource_file_systems.len() as int) =~= self.resource_file_systems@);
        out
    }
}

/// A filesystem that a combination can hold.
pub enum AnyFS {
    Null(NullFS),
    Archive(HashmapFS),
    Folder(RealFS),
}

impl AnyFS {
    /// The held filesystem is well formed.
    pub open spec fn wf(self) -> bool {
        match self {
            AnyFS::Null(_) => true,
            AnyFS::Archive(fs) => fs.wf(),
            AnyFS::Folder(fs) => fs.wf(),
        }
    }

    /// The paths the held filesystem lists.
    pub open spec fn listed(self) -> Set<Seq<char>> {
        match self {
            AnyFS::Null(_) => Set::empty(),
            AnyFS::Archive(fs) => fs.files().dom(),
            AnyFS::Folder(fs) => fs.cached_files().dom(),
        }
    }
}

/// What reading `path` from one part gave, and how the part changed: the
/// empty filesystem misses; an archive answers from its files and does not
/// change; a folder answers as `RealFS::read` does (see `folder_read`).
pub open spec fn part_read<F: Fn(&str) -> Option<Vec<u8>>>(
    before: AnyFS,
    after: AnyFS,
    path: Seq<char>,
    absolute_path: bool,
    r: Option<SharedBytes>,
    load: F,
) -> bool {
    &&& after.wf()
    &&& match before {
        AnyFS::Null(_) => r is None && after == before,
        AnyFS::Archive(fs) => {
            let key = read_key(fs.base_path(), path, absolute_path);
            &&& after == before
            &&& match r {
                Some(b) => fs.files().contains_key(key) && shared_bytes(b) == fs.files()[key],
                None => !fs.files().contains_key(key),
            }
        },
        AnyFS::Folder(fs) => after matches AnyFS::Folder(now) && folder_read(fs, now, path, r, load),
    }
}

/// Reads from one part.
fn read_part<F: Fn(&str) -> Option<Vec<u8>>>(part: &mut AnyFS, path: &str, absolute_path: bool, load: &F) -> (r:
    Option<SharedBytes>)
    requires
        old(part).wf(),
        forall|p: &str| load.requires((p,)),
    ensures
        part_read(*old(part), *final(part), path@, absolute_path, r, *load),
{
    match part {
        AnyFS::Null(fs) => fs.read(path, absolute_path),
        AnyFS::Archive(fs) => fs.read(path, absolute_path),
        AnyFS::Folder(fs) => fs.read(path, load),
    }
}

/// Filesystems searched in order: the first one that has a file gives it.
pub struct CombinedFS {
    inner: Vec<AnyFS>,
}

impl CombinedFS {
    /// Every part is well formed.
    pub closed spec fn wf(self) -> bool {
        forall|i: int| 0 <= i < self.inner@.len() ==> (#[trigger] self.inner@[i]).wf()
    }

    /// The parts, in search order.
    pub closed spec fn parts(self) -> Seq<AnyFS> {
        self.inner@
    }

    /// No parts.
    pub fn new() -> (r: CombinedFS)
        ensures
            r.wf(),
            r.parts() == Seq::<AnyFS>::empty(),
    {
        CombinedFS { inner: Vec::new() }
    }

    /// Adds a part, searched after the others.
    pub fn add_filesystem(&mut self, fs: AnyFS)
        requires
            old(self).wf(),
            fs.wf(),
        ensures
            final(self).wf(),
            final(self).parts() == old(self).parts().push(fs),
    {
        self.inner.push(fs);
    }

    /// Removes every part.
    pub fn clear_filesystems(&mut self)
        ensures
            final(self).wf(),
            final(self).parts() == Seq::<AnyFS>::empty(),
    {
        self.inner = Vec::new();
    }

    /// Reads `path` from the parts in order and stops at the first one that
    /// has it; the parts before it missed and the parts after it were not asked.
    pub fn read<F: Fn(&str) -> Option<Vec<u8>>>(&mut self, path: &str, absolute_path: bool, load: &F) -> (r:
        Option<SharedBytes>)
        requires
            old(self).wf(),
            forall|p: &str| load.requires((p,)),
        ensures
            final(self).wf(),
            final(self).parts().len() == old(self).parts().len(),
            r is None ==> forall|i: int| 0 <= i < old(self).parts().len() ==> part_read(
                #[trigger] old(self).parts()[i],
                final(self).parts()[i],
                path@,
                absolute_path,
                None,
                *load,
            ),
            r is Some ==> exists|i: int| 0 <= i < old(self).parts().len()
                && (forall|j: int| 0 <= j < i ==> part_read(
                    #[trigger] old(self).parts()[j],
                    final(self).parts()[j],
                    path@,
                    absolute_path,
                    None,
                    *load,
                ))
                && part_read(old(self).parts()[i], final(self).parts()[i], path@, absolute_path, r, *load)
                && (forall|j: int| i < j < old(self).parts().len() ==> #[trigger] final(self).parts()[j] == old(self).parts()[j]),
    {
        let mut rest: Vec<AnyFS> = Vec::new();
        std::mem::swap(&mut rest, &mut self.inner);
        let ghost olds = rest@;
        let mut done: Vec<AnyFS> = Vec::new();
        assert(rest@ =~= olds.skip(0));
        while rest.len() > 0
            invariant
                olds == old(self).inner@,
                done.len() + rest.len() == olds.len(),
                rest@ == olds.skip(done.len() as int),
                forall|i: int| 0 <= i < olds.len() ==> (#[trigger] olds[i]).wf(),
                forall|p: &str| load.requires((p,)),
                forall|j: int| 0 <= j < done.len() ==> part_read(
                    #[trigger] olds[j],
                    done@[j],
                    path@,
                    absolute_path,
                    None,
                    *load,
                ),
            decreases rest.len(),
        {
            let i = done.len();
            let mut part = rest.remove(0);
            assert(part == olds[i as int]);
            let got = read_part(&mut part, path, absolute_path, load);
            let ghost after = part;
            let ghost before_done = done@;
            done.push(part);
            if got.is_some() {
                let ghost tail = rest@;
                assert(tail =~= olds.skip(i + 1));
                done.append(&mut rest);
                self.inner = done;
                proof {
                    assert(self.inner@ =~= before_done.push(after) + tail);
                    assert forall|j: int| 0 <= j < self.inner@.len() implies (#[trigger] self.inner@[j]).wf() by {
                        if j < i {
                            assert(self.inner@[j] == before_done[j]);
                            assert(part_read(olds[j], before_done[j], path@, absolute_path, None, *load));
                        } else if j == i {
                            assert(self.inner@[j] == after);
                        } else {
                            assert(self.inner@[j] == tail[j - i - 1]);
                            assert(tail[j - i - 1] == olds[j]);
                        }
                    }
                    assert forall|j: int| 0 <= j < i implies part_read(
                        #[trigger] olds[j],
                        self.inner@[j],
                        path@,
                        absolute_path,
                        None,
                        *load,
                    ) by {
                        assert(self.inner@[j] == before_done[j]);
                    }
                    assert forall|j: int| i < j < olds.len() implies #[trigger] self.inner@[j] == olds[j] by {
                        assert(self.inner@[j] == tail[j - i - 1]);
                    }
                    assert(self.inner@[i as int] == after);
                    assert(part_read(olds[i as int], self.inner@[i as int], path@, absolute_path, got, *load));
                    let w = i as int;
                    assert(old(self).parts() == olds);
                    assert(self.parts() == self.inner@);
                    assert(part_read(old(self).parts()[w], self.parts()[w], path@, absolute_path, got, *load));
                    assert(forall|j: int| 0 <= j < w ==> part_read(
                        #[trigger] old(self).parts()[j],
                        self.parts()[j],
                        path@,
                        absolute_path,
                        None,
                        *load,
                    ));
                    assert(forall|j: int| w < j < old(self).parts().len() ==> #[trigger] self.parts()[j] == old(self).parts()[j]);
                }
                return got;
            }
            assert(rest@ =~= olds.skip(done.len() as int));
        }
        self.inner = done;
        proof {
            assert forall|j: int| 0 <= j < self.inner@.len() implies (#[trigger] self.inner@[j]).wf() by {
                assert(part_read(olds[j], self.inner@[j], path@, absolute_path, None, *load));
            }
        }
        None
    }

    /// Every path some part lists, each once.
    pub fn absolute_paths(&self) -> (r: Vec<String>)
        requires
            self.wf(),
        ensures
            string_views(r@).no_duplicates(),
            forall|k: Seq<char>| string_views(r@).contains(k) <==> exists|i: int| 0 <= i < self.parts().len()
                && (#[trigger] self.parts()[i]).listed().contains(k),
    {
        let mut out: Vec<String> = Vec::new();
        let mut seen: StringHashMap<bool> = StringHashMap::new();
        let mut i: usize = 0;
        while i < self.inner.len()
            invariant
                self.wf(),
                i <= self.inner.len(),
                string_views(out@).no_duplicates(),
                forall|k: Seq<char>| seen@.contains_key(k) <==> string_views(out@).contains(k),
                forall|k: Seq<char>| #[trigger] string_views(out@).contains(k) <==> exists|j: int| 0 <= j < i
                    && (#[trigger] self.inner@[j]).listed().contains(k),
            decreases self.inner.len() - i,
        {
            let part = &self.inner[i];
            assert(part.wf());
            let ghost before = string_views(out@);
            let listed = match part {
                AnyFS::Null(fs) => fs.absolute_paths(),
                AnyFS::Archive(fs) => fs.absolute_paths(),
                AnyFS::Folder(fs) => fs.absolute_paths(),
            };
            let ghost lv = string_views(listed@);
            assert(forall|k: Seq<char>| lv.contains(k) <==> part.listed().contains(k)) by {
                match part {
                    AnyFS::Null(_) => {
                        assert(lv.len() == 0);
                    },
                    _ => {},
                }
            }
            add_unseen(&mut out, &mut seen, listed);
            assert forall|k: Seq<char>| #[trigger] string_views(out@).contains(k) <==> exists|j: int| 0 <= j < i + 1
                && (#[trigger] self.inner@[j]).listed().contains(k) by {
                if string_views(out@).contains(k) {
                    if lv.contains(k) {
                        assert(self.inner@[i as int].listed().contains(k));
                    }
                }
                if exists|j: int| 0 <= j < i + 1 && (#[trigger] self.inner@[j]).listed().contains(k) {
                    let j = choose|j: int| 0 <= j < i + 1 && (#[trigger] self.inner@[j]).listed().contains(k);
                    if j == i {
                        assert(lv.contains(k));
                    } else {
                        assert(before.contains(k));
                    }
                }
            }
            i += 1;
        }
        assert forall|k: Seq<char>| string_views(out@).contains(k) <==> exists|j: int| 0 <= j < self.parts().len()
            && (#[trigger] self.parts()[j]).listed().contains(k) by {
            if string_views(out@).contains(k) {
                let j = choose|j: int| 0 <= j < self.inner.len() && (#[trigger] self.inner@[j]).listed().contains(k);
                assert(self.parts()[j] == self.inner@[j]);
            }
            if exists|j: int| 0 <= j < self.parts().len() && (#[trigger] self.parts()[j]).listed().contains(k) {
                let j = choose|j: int| 0 <= j < self.parts().len() && (#[trigger] self.parts()[j]).listed().contains(k);
                assert(self.inner@[j].listed().contains(k));
            }
        }
        out
    }
}
} // verus!

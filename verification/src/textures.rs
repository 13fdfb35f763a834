//! The textures a loaded NIF asks for: where each one was found, which image
//! each material shows, and which references could not be found anywhere.
use vstd::prelude::*;
use std::collections::HashMap;
use crate::assets::{lookup_paths, texture_lookup_paths};
use crate::files::{
    fs_misses, fsstate_read, lemma_fsstate_read_none, lemma_fsstate_read_same_files, same_files, string_views, FSState,
};
use crate::shared::SharedBytes;

verus! {

broadcast use vstd::std_specs::hash::group_hash_axioms;

/// Lexicographic order of character sequences, code point by code point:
/// the order of `str`.
pub open spec fn chars_le(a: Seq<char>, b: Seq<char>) -> bool
    decreases a.len(),
{
    if a.len() == 0 {
        true
    } else if b.len() == 0 {
        false
    } else if a[0] != b[0] {
        (a[0] as u32) < (b[0] as u32)
    } else {
        chars_le(a.drop_first(), b.drop_first())
    }
}

/// Whether strings are in ascending order.
pub open spec fn sorted_strings(v: Seq<Seq<char>>) -> bool {
    forall|i: int, j: int| 0 <= i < j < v.len() ==> chars_le(#[trigger] v[i], #[trigger] v[j])
}

/// Sorts strings in ascending order (`slice::sort_unstable`; `str` orders
/// strings by their code points). The strings are only reordered.
#[verifier::external_body]
fn sort_strings(v: &mut Vec<String>)
    ensures
        string_views(final(v)@).to_multiset() == string_views(old(v)@).to_multiset(),
        sorted_strings(string_views(final(v)@)),
{
    v.sort_unstable();
}

/// A copy of a list of strings.
fn copy_strings(v: &Vec<String>) -> (r: Vec<String>)
    ensures
        string_views(r@) == string_views(v@),
{
    let mut r: Vec<String> = Vec::new();
    let mut i: usize = 0;
    while i < v.len()
        invariant
            i <= v.len(),
            string_views(r@) == string_views(v@).take(i as int),
        decreases v.len() - i,
    {
        let s = v[i].clone();
        let ghost before = string_views(r@);
        r.push(s);
        assert(string_views(r@) =~= before.push(v@[i as int]@));
        assert(string_views(v@).take(i + 1) =~= string_views(v@).take(i as int).push(v@[i as int]@));
        i += 1;
    }
    assert(string_views(v@).take(v.len() as int) =~= string_views(v@));
    r
}

/// The names of a list, sorted: the same names, each as often, in ascending order.
pub fn sorted_names(names: &Vec<String>) -> (r: Vec<String>)
    ensures
        string_views(r@).to_multiset() == string_views(names@).to_multiset(),
        sorted_strings(string_views(r@)),
{
    let mut r = copy_strings(names);
    sort_strings(&mut r);
    r
}

/// A finished texture read: the path it was found under (the requested path
/// when it was found nowhere), its bytes, and the material waiting for it.
pub struct TextureLoadResult {
    pub path: String,
    pub bytes: Option<SharedBytes>,
    pub material: u64,
}

/// The texture reads of the loaded NIF and what came of them. Materials and
/// images are known by their ids.
pub struct PendingTextureLoads {
    completed: Vec<TextureLoadResult>,
    textures: HashMap<u64, u64>,
    texture_paths: HashMap<u64, String>,
    missing_paths: Vec<String>,
}

/// What a texture request left behind: the material, and where the texture
/// was found. The paths of `lookup_paths` are tried in order through the
/// viewer's files: a texture found under one of them was found nowhere under
/// the paths before it, and its bytes are what reading that path gave (see
/// `fsstate_read`); a texture found nowhere keeps the reference, every path
/// was found nowhere, and the files read alike as before.
pub open spec fn request_result<F: Fn(&str) -> Option<Vec<u8>>>(
    result: TextureLoadResult,
    path: Seq<char>,
    material: u64,
    before: FSState,
    after: FSState,
    load: F,
) -> bool {
    let tried = lookup_paths(path);
    &&& result.material == material
    &&& match result.bytes {
        Some(_) => exists|k: int| 0 <= k < tried.len() && tried[k] == result.path@
            && (forall|j: int| 0 <= j < k ==> fs_misses(before, #[trigger] tried[j], load))
            && fsstate_read(before, after, tried[k], false, result.bytes, load),
        None => {
            &&& result.path@ == path
            &&& forall|j: int| 0 <= j < tried.len() ==> fs_misses(before, #[trigger] tried[j], load)
            &&& same_files(before, after)
        },
    }
}

/// How applying a finished read changes the texture state: a read that
/// found nothing adds its reference to the missing ones; a found texture
/// that decoded to an image records that image and the found path for its
/// material; a texture that did not decode changes nothing.
pub open spec fn applied(
    before: PendingTextureLoads,
    after: PendingTextureLoads,
    result: TextureLoadResult,
    image: Option<u64>,
) -> bool {
    match result.bytes {
        None => {
            &&& after.missing() == before.missing().insert(result.path@)
            &&& after.textures() == before.textures()
            &&& after.texture_paths() == before.texture_paths()
        },
        Some(_) => {
            &&& after.missing() == before.missing()
            &&& match image {
                Some(id) => {
                    &&& after.textures() == before.textures().insert(result.material, id)
                    &&& after.texture_paths() == before.texture_paths().insert(result.material, result.path@)
                },
                None => {
                    &&& after.textures() == before.textures()
                    &&& after.texture_paths() == before.texture_paths()
                },
            }
        },
    }
}

/// A texture requested for a material and found under none of its lookup
/// paths is listed as missing under the requested reference once its read
/// is applied, and no material's image changes.
pub proof fn lemma_unfound_texture_missing<F: Fn(&str) -> Option<Vec<u8>>>(
    result: TextureLoadResult,
    path: Seq<char>,
    material: u64,
    files_before: FSState,
    files_after: FSState,
    load: F,
    before: PendingTextureLoads,
    after: PendingTextureLoads,
    image: Option<u64>,
)
    requires
        request_result(result, path, material, files_before, files_after, load),
        result.bytes is None,
        applied(before, after, result, image),
    ensures
        after.missing().contains(path),
        forall|j: int| 0 <= j < lookup_paths(path).len() ==> fs_misses(files_before, #[trigger] lookup_paths(path)[j], load),
        after.textures() == before.textures(),
        after.texture_paths() == before.texture_paths(),
{
}

/// A texture requested for a material, found under one of its lookup paths
/// and decoded to an image, becomes that material's image once its read is
/// applied, recorded under the path it was found at: the first lookup path
/// that reading found, whose bytes are the ones decoded.
pub proof fn lemma_found_texture_applied<F: Fn(&str) -> Option<Vec<u8>>>(
    result: TextureLoadResult,
    path: Seq<char>,
    material: u64,
    files_before: FSState,
    files_after: FSState,
    load: F,
    before: PendingTextureLoads,
    after: PendingTextureLoads,
    image: u64,
)
    requires
        request_result(result, path, material, files_before, files_after, load),
        result.bytes is Some,
        applied(before, after, result, Some(image)),
    ensures
        after.textures().contains_key(material) && after.textures()[material] == image,
        after.texture_paths().contains_key(material),
        exists|k: int| 0 <= k < lookup_paths(path).len() && lookup_paths(path)[k] == after.texture_paths()[material]
            && (forall|j: int| 0 <= j < k ==> fs_misses(files_before, #[trigger] lookup_paths(path)[j], load))
            && fsstate_read(files_before, files_after, lookup_paths(path)[k], false, result.bytes, load),
        after.missing() == before.missing(),
{
    let tried = lookup_paths(path);
    let k = choose|k: int| 0 <= k < tried.len() && tried[k] == result.path@
        && (forall|j: int| 0 <= j < k ==> fs_misses(files_before, #[trigger] tried[j], load))
        && fsstate_read(files_before, files_after, tried[k], false, result.bytes, load);
    assert(after.texture_paths()[material] == result.path@);
}

impl PendingTextureLoads {
    /// The missing list holds each path once.
    pub closed spec fn wf(self) -> bool {
        string_views(self.missing_paths@).no_duplicates()
    }

    /// The reads finished and not yet applied, in order.
    pub closed spec fn completed(self) -> Seq<TextureLoadResult> {
        self.completed@
    }

    /// The image applied to each material.
    pub closed spec fn textures(self) -> Map<u64, u64> {
        self.textures@
    }

    /// The path of the image applied to each material.
    pub closed spec fn texture_paths(self) -> Map<u64, Seq<char>> {
        self.texture_paths@.map_values(|s: String| s@)
    }

    /// The references found nowhere.
    pub closed spec fn missing(self) -> Set<Seq<char>> {
        string_views(self.missing_paths@).to_set()
    }

    /// Nothing requested, applied or missing.
    pub fn new() -> (r: PendingTextureLoads)
        ensures
            r.wf(),
            r.completed() == Seq::<TextureLoadResult>::empty(),
            r.textures() == Map::<u64, u64>::empty(),
            r.texture_paths() == Map::<u64, Seq<char>>::empty(),
            r.missing() == Set::<Seq<char>>::empty(),
    {
        let r = PendingTextureLoads {
            completed: Vec::new(),
            textures: HashMap::new(),
            texture_paths: HashMap::new(),
            missing_paths: Vec::new(),
        };
        assert(r.texture_paths() =~= Map::<u64, Seq<char>>::empty());
        assert(r.missing() =~= Set::<Seq<char>>::empty());
        r
    }

    /// Reads a referenced texture for a material: the paths of
    /// `texture_lookup_paths` are tried in order through the viewer's files,
    /// and the first one found is kept with its bytes; a texture found nowhere
    /// is kept under the reference, without bytes.
    pub fn request<F: Fn(&str) -> Option<Vec<u8>>>(
        &mut self,
        fsstate: &mut FSState,
        path: String,
        material: u64,
        load: &F,
    )
        requires
            old(fsstate).wf(),
            forall|p: &str| load.requires((p,)),
        ensures
            final(fsstate).wf(),
            final(fsstate).file_system == old(fsstate).file_system,
            final(self).completed().len() == old(self).completed().len() + 1,
            final(self).completed().drop_last() == old(self).completed(),
            request_result(final(self).completed().last(), path@, material, *old(fsstate), *final(fsstate), *load),
            final(self).textures() == old(self).textures(),
            final(self).texture_paths() == old(self).texture_paths(),
            final(self).missing() == old(self).missing(),
            final(self).wf() == old(self).wf(),
    {
        let lookups = texture_lookup_paths(path.as_str());
        let ghost tried = lookups@.map_values(|s: String| s@);
        let mut bytes: Option<SharedBytes> = None;
        let mut resolved = path.clone();
        let mut i: usize = 0;
        while i < lookups.len()
            invariant_except_break
                bytes is None,
                resolved@ == path@,
                same_files(*old(fsstate), *fsstate),
            invariant
                i <= lookups.len(),
                fsstate.wf(),
                fsstate.file_system == old(fsstate).file_system,
                forall|p: &str| load.requires((p,)),
                tried == lookups@.map_values(|s: String| s@),
                tried == lookup_paths(path@),
                forall|j: int| 0 <= j < i ==> fs_misses(*old(fsstate), #[trigger] tried[j], *load),
            ensures
                fsstate.wf(),
                fsstate.file_system == old(fsstate).file_system,
                match bytes {
                    Some(_) => exists|k: int| 0 <= k < tried.len() && tried[k] == resolved@
                        && (forall|j: int| 0 <= j < k ==> fs_misses(*old(fsstate), #[trigger] tried[j], *load))
                        && fsstate_read(*old(fsstate), *fsstate, tried[k], false, bytes, *load),
                    None => {
                        &&& resolved@ == path@
                        &&& forall|j: int| 0 <= j < tried.len() ==> fs_misses(*old(fsstate), #[trigger] tried[j], *load)
                        &&& same_files(*old(fsstate), *fsstate)
                    },
                },
            decreases lookups.len() - i,
        {
            let ghost current = *fsstate;
            let found = fsstate.read(lookups[i].as_str(), false, load);
            proof {
                lemma_fsstate_read_same_files(*old(fsstate), current, *fsstate, tried[i as int], false, found, *load);
            }
            if found.is_some() {
                bytes = found;
                resolved = lookups[i].clone();
                assert(tried[i as int] == resolved@);
                break;
            }
            proof {
                lemma_fsstate_read_none(*old(fsstate), *fsstate, tried[i as int], *load);
            }
            i += 1;
        }
        let ghost before = self.completed@;
        self.completed.push(TextureLoadResult { path: resolved, bytes, material });
        assert(self.completed@.drop_last() =~= before);
    }

    /// Hands over the finished reads, oldest first, and forgets them.
    pub fn take_completed(&mut self) -> (r: Vec<TextureLoadResult>)
        ensures
            r@ == old(self).completed(),
            final(self).completed() == Seq::<TextureLoadResult>::empty(),
            final(self).textures() == old(self).textures(),
            final(self).texture_paths() == old(self).texture_paths(),
            final(self).missing() == old(self).missing(),
            final(self).wf() == old(self).wf(),
    {
        let mut taken: Vec<TextureLoadResult> = Vec::new();
        std::mem::swap(&mut taken, &mut self.completed);
        taken
    }

    /// Records a reference that was found nowhere.
    pub fn record_missing(&mut self, path: String)
        requires
            old(self).wf(),
        ensures
            final(self).wf(),
            final(self).missing() == old(self).missing().insert(path@),
            final(self).completed() == old(self).completed(),
            final(self).textures() == old(self).textures(),
            final(self).texture_paths() == old(self).texture_paths(),
    {
        let ghost before = string_views(self.missing_paths@);
        let mut i: usize = 0;
        while i < self.missing_paths.len()
            invariant
                i <= self.missing_paths.len(),
                *self == *old(self),
                old(self).wf(),
                before == string_views(self.missing_paths@),
                forall|k: int| 0 <= k < i ==> before[k] != path@,
            decreases self.missing_paths.len() - i,
        {
            if self.missing_paths[i] == path {
                assert(before[i as int] == path@);
                assert(before.to_set().insert(path@) =~= before.to_set());
                return;
            }
            i += 1;
        }
        assert(!before.contains(path@));
        self.missing_paths.push(path);
        assert(string_views(self.missing_paths@) =~= before.push(path@));
        assert(before.push(path@).to_set() =~= before.to_set().insert(path@)) by {
            assert forall|x: Seq<char>| before.push(path@).contains(x) <==> before.to_set().insert(path@).contains(x) by {
                if before.push(path@).contains(x) {
                    let j = choose|j: int| 0 <= j < before.len() + 1 && before.push(path@)[j] == x;
                    if j < before.len() {
                        assert(before[j] == x);
                    }
                }
                if before.contains(x) {
                    let j = choose|j: int| 0 <= j < before.len() && before[j] == x;
                    assert(before.push(path@)[j] == x);
                }
                assert(before.push(path@)[before.len() as int] == path@);
            }
        }
    }

    /// Records the image decoded for a material and the path it came from.
    pub fn record_texture(&mut self, material: u64, image: u64, path: String)
        ensures
            final(self).textures() == old(self).textures().insert(material, image),
            final(self).texture_paths() == old(self).texture_paths().insert(material, path@),
            final(self).completed() == old(self).completed(),
            final(self).missing() == old(self).missing(),
            final(self).wf() == old(self).wf(),
    {
        let ghost before = self.texture_paths@;
        self.textures.insert(material, image);
        self.texture_paths.insert(material, path);
        assert(self.texture_paths@ == before.insert(material, path));
        assert(self.texture_paths@.map_values(|s: String| s@) =~= before.map_values(|s: String| s@).insert(material, path@));
    }

    /// Applies one finished read: a texture found nowhere is recorded as
    /// missing under its reference; a found texture that decoded to `image`
    /// becomes its material's image, under the path it was found at, and the
    /// image is handed back to be set on the material; a texture that did not
    /// decode changes nothing.
    pub fn apply_completed(&mut self, result: TextureLoadResult, image: Option<u64>) -> (r: Option<u64>)
        requires
            old(self).wf(),
        ensures
            final(self).wf(),
            final(self).completed() == old(self).completed(),
            applied(*old(self), *final(self), result, image),
            r == (if result.bytes is Some { image } else { None }),
    {
        match result.bytes {
            None => {
                self.record_missing(result.path);
                None
            },
            Some(_) => match image {
                Some(id) => {
                    self.record_texture(result.material, id, result.path);
                    Some(id)
                },
                None => None,
            },
        }
    }

    /// The image applied to a material, if any.
    pub fn texture_for(&self, material: u64) -> (r: Option<u64>)
        ensures
            r == (if self.textures().contains_key(material) {
                Some(self.textures()[material])
            } else {
                None
            }),
    {
        match self.textures.get(&material) {
            Some(image) => Some(*image),
            None => None,
        }
    }

    /// The path of the image applied to a material, if any.
    pub fn texture_path_for(&self, material: u64) -> (r: Option<String>)
        ensures
            match r {
                Some(p) => self.texture_paths().contains_key(material) && p@ == self.texture_paths()[material],
                None => !self.texture_paths().contains_key(material),
            },
    {
        match self.texture_paths.get(&material) {
            Some(path) => Some(path.clone()),
            None => None,
        }
    }

    /// Forgets the references that were missing for the previous NIF.
    pub fn clear_missing_paths(&mut self)
        ensures
            final(self).wf(),
            final(self).missing() == Set::<Seq<char>>::empty(),
            final(self).completed() == old(self).completed(),
            final(self).textures() == old(self).textures(),
            final(self).texture_paths() == old(self).texture_paths(),
    {
        self.missing_paths = Vec::new();
        assert(string_views(self.missing_paths@).to_set() =~= Set::<Seq<char>>::empty());
    }

    /// The references found nowhere, each once, in ascending order.
    pub fn missing_paths(&self) -> (r: Vec<String>)
        requires
            self.wf(),
        ensures
            string_views(r@).to_set() == self.missing(),
            string_views(r@).no_duplicates(),
            sorted_strings(string_views(r@)),
    {
        let r = sorted_names(&self.missing_paths);
        proof {
            let before = string_views(self.missing_paths@);
            let after = string_views(r@);
            before.lemma_multiset_has_no_duplicates();
            assert forall|x: Seq<char>| after.to_multiset().contains(x) implies after.to_multiset().count(x) == 1 by {
                assert(before.to_multiset().contains(x));
            }
            after.lemma_multiset_has_no_duplicates_conv();
            assert forall|x: Seq<char>| after.to_set().contains(x) <==> before.to_set().contains(x) by {
                vstd::seq_lib::to_multiset_contains(after, x);
                vstd::seq_lib::to_multiset_contains(before, x);
            }
            assert(after.to_set() =~= before.to_set());
        }
        r
    }
}

} // verus!

//! Names derived from asset paths: texture look-up order, image format,
//! export file names, and the list of references that could not be found.

use vstd::prelude::*;
use crate::text::{ascii_lower, chars_of, lower_seq, string_from_chars, to_ascii_lower};

verus! {

/// The last index of `c` in `s`, if it occurs.
pub open spec fn last_index_of(s: Seq<char>, c: char) -> Option<int>
    decreases s.len(),
{
    if s.len() == 0 {
        None
    } else if s.last() == c {
        Some(s.len() - 1)
    } else {
        last_index_of(s.drop_last(), c)
    }
}

/// The last index of either path separator in `s`, if one occurs.
pub open spec fn last_sep_index(s: Seq<char>) -> Option<int>
    decreases s.len(),
{
    if s.len() == 0 {
        None
    } else if s.last() == '/' || s.last() == '\\' {
        Some(s.len() - 1)
    } else {
        last_sep_index(s.drop_last())
    }
}

fn find_last(v: &Vec<char>, c: char) -> (r: Option<usize>)
    ensures
        match r {
            Some(i) => last_index_of(v@, c) == Some(i as int) && i < v.len(),
            None => last_index_of(v@, c) is None,
        },
{
    let mut i = v.len();
    assert(v@.take(i as int) =~= v@);
    while i > 0
        invariant
            i <= v.len(),
            last_index_of(v@, c) == last_index_of(v@.take(i as int), c),
        decreases i,
    {
        assert(v@.take(i as int).drop_last() =~= v@.take(i - 1));
        assert(v@.take(i as int).last() == v@[i - 1]);
        if v[i - 1] == c {
            return Some(i - 1);
        }
        i -= 1;
    }
    assert(v@.take(0) =~= Seq::<char>::empty());
    None
}

fn find_last_sep(v: &Vec<char>) -> (r: Option<usize>)
    ensures
        match r {
            Some(i) => last_sep_index(v@) == Some(i as int) && i < v.len(),
            None => last_sep_index(v@) is None,
        },
{
    let mut i = v.len();
    assert(v@.take(i as int) =~= v@);
    while i > 0
        invariant
            i <= v.len(),
            last_sep_index(v@) == last_sep_index(v@.take(i as int)),
        decreases i,
    {
        assert(v@.take(i as int).drop_last() =~= v@.take(i - 1));
        assert(v@.take(i as int).last() == v@[i - 1]);
        if v[i - 1] == '/' || v[i - 1] == '\\' {
            return Some(i - 1);
        }
        i -= 1;
    }
    assert(v@.take(0) =~= Seq::<char>::empty());
    None
}

fn char_range(v: &Vec<char>, from: usize, to: usize) -> (r: Vec<char>)
    requires
        from <= to <= v.len(),
    ensures
        r@ == v@.subrange(from as int, to as int),
{
    let mut r: Vec<char> = Vec::new();
    let mut k = from;
    while k < to
        invariant
            from <= k <= to,
            to <= v.len(),
            r@ == v@.subrange(from as int, k as int),
        decreases to - k,
    {
        r.push(v[k]);
        assert(v@.subrange(from as int, k + 1) =~= v@.subrange(from as int, k as int).push(v@[k as int]));
        k += 1;
    }
    r
}

fn lower_all(v: &Vec<char>) -> (r: Vec<char>)
    ensures
        r@ == lower_seq(v@),
{
    let mut r: Vec<char> = Vec::new();
    let mut k: usize = 0;
    while k < v.len()
        invariant
            k <= v.len(),
            r@ == lower_seq(v@.take(k as int)),
        decreases v.len() - k,
    {
        r.push(to_ascii_lower(v[k]));
        assert(lower_seq(v@.take(k + 1)) =~= lower_seq(v@.take(k as int)).push(ascii_lower(v@[k as int])));
        k += 1;
    }
    assert(v@.take(v.len() as int) =~= v@);
    r
}

/// The paths to try for a referenced texture, in order: a `.bmp` or `.tga`
/// reference (any case) is tried as `.dds` first, since packed assets are
/// usually converted; any other reference is tried as written.
pub open spec fn lookup_paths(path: Seq<char>) -> Seq<Seq<char>> {
    match last_index_of(path, '.') {
        None => seq![path],
        Some(i) => {
            let ext = lower_seq(path.skip(i + 1));
            if ext == seq!['b', 'm', 'p'] || ext == seq!['t', 'g', 'a'] {
                seq![path.take(i + 1) + seq!['d', 'd', 's'], path]
            } else {
                seq![path]
            }
        },
    }
}

/// Returns texture paths in lookup priority order (see `lookup_paths`).
pub fn texture_lookup_paths(path: &str) -> (r: Vec<String>)
    ensures
        r@.map_values(|s: String| s@) == lookup_paths(path@),
{
    let c = chars_of(path);
    let dot = match find_last(&c, '.') {
        Some(i) => i,
        None => {
            let r = vec![path.to_owned()];
            assert(r@.map_values(|s: String| s@) =~= seq![path@]);
            return r;
        },
    };
    let ext = lower_all(&char_range(&c, dot + 1, c.len()));
    assert(c@.subrange(dot + 1, c@.len() as int) =~= c@.skip(dot + 1));
    let is_bmp = ext.len() == 3 && ext[0] == 'b' && ext[1] == 'm' && ext[2] == 'p';
    let is_tga = ext.len() == 3 && ext[0] == 't' && ext[1] == 'g' && ext[2] == 'a';
    if is_bmp {
        assert(ext@ =~= seq!['b', 'm', 'p']);
    }
    if is_tga {
        assert(ext@ =~= seq!['t', 'g', 'a']);
    }
    if !is_bmp {
        assert(ext@ != seq!['b', 'm', 'p']) by {
            if ext@ == seq!['b', 'm', 'p'] {
                assert(ext@[0] == 'b' && ext@[1] == 'm' && ext@[2] == 'p');
            }
        }
    }
    if !is_tga {
        assert(ext@ != seq!['t', 'g', 'a']) by {
            if ext@ == seq!['t', 'g', 'a'] {
                assert(ext@[0] == 't' && ext@[1] == 'g' && ext@[2] == 'a');
            }
        }
    }
    if is_bmp || is_tga {
        let mut dds = char_range(&c, 0, dot + 1);
        dds.push('d');
        dds.push('d');
        dds.push('s');
        assert(dds@ =~= c@.take(dot + 1) + seq!['d', 'd', 's']);
        let r = vec![string_from_chars(&dds), path.to_owned()];
        assert(r@.map_values(|s: String| s@) =~= lookup_paths(path@));
        r
    } else {
        let r = vec![path.to_owned()];
        assert(r@.map_values(|s: String| s@) =~= seq![path@]);
        r
    }
}

/// The image format a texture is decoded as: the text after its last `.`
/// (the whole path when there is none), in lower case.
pub open spec fn texture_format(path: Seq<char>) -> Seq<char> {
    match last_index_of(path, '.') {
        Some(i) => lower_seq(path.skip(i + 1)),
        None => lower_seq(path),
    }
}

/// The image format of a texture path (see `texture_format`).
pub fn texture_extension(path: &str) -> (r: String)
    ensures
        r@ == texture_format(path@),
{
    let c = chars_of(path);
    let ext = match find_last(&c, '.') {
        Some(i) => {
            assert(c@.subrange(i + 1, c@.len() as int) =~= c@.skip(i + 1));
            char_range(&c, i + 1, c.len())
        },
        None => c,
    };
    string_from_chars(&lower_all(&ext))
}

/// The base of an export file name: the shown file's name without its
/// folders and its extension, or `mesh` when there is no file, no extension,
/// or nothing before the extension.
pub open spec fn export_base(file_name: Option<Seq<char>>) -> Seq<char> {
    let fallback = seq!['m', 'e', 's', 'h'];
    match file_name {
        None => fallback,
        Some(name) => {
            let last = match last_sep_index(name) {
                Some(i) => name.skip(i + 1),
                None => name,
            };
            match last_index_of(last, '.') {
                Some(d) => if d > 0 {
                    last.take(d)
                } else {
                    fallback
                },
                None => fallback,
            }
        },
    }
}

/// The name an export of the loaded meshes is saved under: `<base>.obj`
/// (see `export_base`).
pub fn export_file_name(file_name: Option<&str>) -> (r: String)
    ensures
        r@ == export_base(match file_name {
            Some(n) => Some(n@),
            None => None,
        }) + seq!['.', 'o', 'b', 'j'],
{
    let mut base: Vec<char> = vec!['m', 'e', 's', 'h'];
    assert(base@ =~= seq!['m', 'e', 's', 'h']);
    if let Some(name) = file_name {
        let c = chars_of(name);
        let last = match find_last_sep(&c) {
            Some(i) => {
                assert(c@.subrange(i + 1, c@.len() as int) =~= c@.skip(i + 1));
                char_range(&c, i + 1, c.len())
            },
            None => c,
        };
        if let Some(d) = find_last(&last, '.') {
            if d > 0 {
                base = char_range(&last, 0, d);
                assert(base@ =~= last@.take(d as int));
            }
        }
    }
    base.push('.');
    base.push('o');
    base.push('b');
    base.push('j');
    string_from_chars(&base)
}

/// The nodes that are neither roots nor anyone's child, in index order.
pub open spec fn is_unparented(children: Seq<Seq<usize>>, roots: Seq<usize>, i: usize) -> bool {
    !roots.contains(i) && !(exists|j: int| 0 <= j < children.len() && children[j].contains(i))
}

fn contains_index(v: &Vec<usize>, x: usize) -> (r: bool)
    ensures
        r == v@.contains(x),
{
    let mut i: usize = 0;
    while i < v.len()
        invariant
            i <= v.len(),
            forall|k: int| 0 <= k < i ==> v@[k] != x,
        decreases v.len() - i,
    {
        if v[i] == x {
            return true;
        }
        i += 1;
    }
    false
}

/// The positions `0..children.len()` that are neither a root nor a child of
/// any object, in increasing order (the inspector lists them separately).
pub fn unparented_nodes(children: &Vec<Vec<usize>>, roots: &Vec<usize>) -> (r: Vec<usize>)
    ensures
        r@ == Seq::new(children.len() as nat, |i: int| i as usize).filter(
            |i: usize| is_unparented(children@.map_values(|c: Vec<usize>| c@), roots@, i),
        ),
{
    let ghost kids = children@.map_values(|c: Vec<usize>| c@);
    let ghost pred = |i: usize| is_unparented(kids, roots@, i);
    let ghost all = Seq::new(children.len() as nat, |i: int| i as usize);
    let mut r: Vec<usize> = Vec::new();
    let mut i: usize = 0;
    while i < children.len()
        invariant
            i <= children.len(),
            kids == children@.map_values(|c: Vec<usize>| c@),
            all == Seq::new(children.len() as nat, |i: int| i as usize),
            pred == (|i: usize| is_unparented(kids, roots@, i)),
            r@ == all.take(i as int).filter(pred),
        decreases children.len() - i,
    {
        let mut referenced = false;
        let mut j: usize = 0;
        while j < children.len()
            invariant
                j <= children.len(),
                kids == children@.map_values(|c: Vec<usize>| c@),
                referenced == (exists|k: int| 0 <= k < j && kids[k].contains(i)),
            decreases children.len() - j,
        {
            if contains_index(&children[j], i) {
                referenced = true;
            }
            assert(kids[j as int] == children@[j as int]@);
            j += 1;
        }
        let keep = !contains_index(roots, i) && !referenced;
        assert(keep == pred(i));
        reveal_with_fuel(Seq::filter, 1);
        assert(all.take(i + 1).drop_last() =~= all.take(i as int));
        assert(all.take(i + 1).last() == i);
        if keep {
            r.push(i);
        }
        i += 1;
    }
    assert(all.take(children.len() as int) =~= all);
    r
}


proof fn lemma_last_dot(stem: Seq<char>, ext: Seq<char>)
    requires
        !ext.contains('.'),
    ensures
        last_index_of(stem.push('.') + ext, '.') == Some(stem.len() as int),
    decreases ext.len(),
{
    let p = stem.push('.') + ext;
    if ext.len() == 0 {
        assert(p =~= stem.push('.'));
    } else {
        assert(ext.last() != '.') by {
            assert(ext[ext.len() - 1] == ext.last());
        }
        assert(!ext.drop_last().contains('.')) by {
            if ext.drop_last().contains('.') {
                let k = choose|k: int| 0 <= k < ext.drop_last().len() && ext.drop_last()[k] == '.';
                assert(ext[k] == '.');
            }
        }
        lemma_last_dot(stem, ext.drop_last());
        assert(p.drop_last() =~= stem.push('.') + ext.drop_last());
        assert(p.last() == ext.last());
    }
}

/// Texture references are matched on their extension in any case: a
/// reference `stem.ext` whose extension is `bmp` or `tga` in any mix of upper
/// and lower case is tried as `stem.dds` first and then as written; with any
/// other extension it is tried only as written.
pub proof fn lemma_lookup_paths_any_case(stem: Seq<char>, ext: Seq<char>)
    requires
        !ext.contains('.'),
    ensures
        (lower_seq(ext) == seq!['b', 'm', 'p'] || lower_seq(ext) == seq!['t', 'g', 'a']) ==> lookup_paths(
            stem.push('.') + ext,
        ) == seq![stem.push('.') + seq!['d', 'd', 's'], stem.push('.') + ext],
        !(lower_seq(ext) == seq!['b', 'm', 'p'] || lower_seq(ext) == seq!['t', 'g', 'a']) ==> lookup_paths(
            stem.push('.') + ext,
        ) == seq![stem.push('.') + ext],
{
    let p = stem.push('.') + ext;
    lemma_last_dot(stem, ext);
    let i = stem.len() as int;
    assert(p.skip(i + 1) =~= ext);
    assert(p.take(i + 1) =~= stem.push('.'));
}

/// Two references that differ only in the case of their extension are
/// looked up alike: the same number of paths, and the same `.dds` path first
/// when one is tried.
pub proof fn lemma_lookup_paths_extension_case(stem: Seq<char>, ext1: Seq<char>, ext2: Seq<char>)
    requires
        !ext1.contains('.'),
        !ext2.contains('.'),
        lower_seq(ext1) == lower_seq(ext2),
    ensures
        lookup_paths(stem.push('.') + ext1).len() == lookup_paths(stem.push('.') + ext2).len(),
        lookup_paths(stem.push('.') + ext1).len() == 2 ==> lookup_paths(stem.push('.') + ext1)[0] == lookup_paths(
            stem.push('.') + ext2,
        )[0],
{
    lemma_lookup_paths_any_case(stem, ext1);
    lemma_lookup_paths_any_case(stem, ext2);
}

} // verus!

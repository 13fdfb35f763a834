//! The list of recently opened archives and its stored text form.

use vstd::prelude::*;
use crate::text::{chars_of, string_from_chars};

verus! {

/// Where a recent archive was opened from.
#[derive(Clone, Copy, Debug, PartialEq, Eq, Structural)]
pub enum RecentFileSource {
    Disk,
    Url,
}

impl Default for RecentFileSource {
    /// Archives come from a URL unless stated otherwise.
    fn default() -> (r: Self)
        ensures
            r == RecentFileSource::Url,
    {
        RecentFileSource::Url
    }
}

impl RecentFileSource {
    /// The label shown for this source in the UI.
    pub fn label(self) -> (r: &'static str)
        ensures
            r@ == (match self {
                RecentFileSource::Disk => "File"@,
                RecentFileSource::Url => "URL"@,
            }),
    {
        match self {
            RecentFileSource::Disk => "File",
            RecentFileSource::Url => "URL",
        }
    }
}

/// An archive that was opened, and the file inside it that was shown.
#[derive(Clone, Debug)]
pub struct RecentFile {
    /// The archive's path or URL.
    pub path: String,
    /// File name inside the archive.
    pub file_name: String,
    pub source: RecentFileSource,
}

/// The text of a recent-file entry: path, file name and source.
pub struct RecentView {
    pub path: Seq<char>,
    pub file_name: Seq<char>,
    pub source: RecentFileSource,
}

impl RecentFile {
    /// A copy of this entry.
    pub fn duplicate(&self) -> (r: RecentFile)
        ensures
            r@ == self@,
    {
        RecentFile { path: self.path.clone(), file_name: self.file_name.clone(), source: self.source }
    }
}

impl View for RecentFile {
    type V = RecentView;

    open spec fn view(&self) -> RecentView {
        RecentView { path: self.path@, file_name: self.file_name@, source: self.source }
    }
}

/// The recently opened archives, most recent first.
#[derive(Clone, Debug)]
pub struct RecentFiles {
    pub files: Vec<RecentFile>,
}

/// How many recent archives are kept.
pub const MAX_RECENT_FILES: usize = 10;

/// Views of a list of entries.
pub open spec fn recent_views(files: Seq<RecentFile>) -> Seq<RecentView> {
    files.map_values(|f: RecentFile| f@)
}

/// The entries whose path differs from `path`, in their order.
pub open spec fn without_path(files: Seq<RecentView>, path: Seq<char>) -> Seq<RecentView>
    decreases files.len(),
{
    if files.len() == 0 {
        Seq::empty()
    } else if files.last().path == path {
        without_path(files.drop_last(), path)
    } else {
        without_path(files.drop_last(), path).push(files.last())
    }
}

/// The list after recording `entry`: the entry first, then the older entries
/// for other archives, cut to `MAX_RECENT_FILES`. An entry with an empty path
/// is not recorded.
pub open spec fn recorded(files: Seq<RecentView>, entry: RecentView) -> Seq<RecentView> {
    if entry.path.len() == 0 {
        files
    } else {
        let all = seq![entry] + without_path(files, entry.path);
        if all.len() > MAX_RECENT_FILES {
            all.take(MAX_RECENT_FILES as int)
        } else {
            all
        }
    }
}

impl RecentFiles {
    /// Puts an archive/file pair at the front, drops older entries for the
    /// same archive and keeps at most `MAX_RECENT_FILES` entries; an empty
    /// archive path changes nothing.
    pub fn record(&mut self, source: RecentFileSource, path: &str, file_name: &str)
        ensures
            recent_views(final(self).files@) == recorded(
                recent_views(old(self).files@),
                RecentView { path: path@, file_name: file_name@, source },
            ),
    {
        if path.is_empty() {
            return;
        }
        let entry = RecentFile { path: path.to_owned(), file_name: file_name.to_owned(), source };
        let ghost olds = recent_views(self.files@);
        let mut kept: Vec<RecentFile> = Vec::new();
        kept.push(entry.duplicate());
        assert(recent_views(kept@) =~= seq![entry@]);
        assert(olds.take(0) =~= Seq::<RecentView>::empty());
        let mut i: usize = 0;
        while i < self.files.len()
            invariant
                i <= self.files.len(),
                olds == recent_views(self.files@),
                entry@ == (RecentView { path: path@, file_name: file_name@, source }),
                recent_views(kept@) == seq![entry@] + without_path(olds.take(i as int), path@),
            decreases self.files.len() - i,
        {
            assert(olds.take(i + 1).drop_last() =~= olds.take(i as int));
            let same = self.files[i].path == entry.path;
            assert(olds.take(i + 1).last() == olds[i as int]);
            assert(olds[i as int] == self.files@[i as int]@);
            if !same {
                let f = self.files[i].duplicate();
                assert(f@ == olds[i as int]);
                assert(olds[i as int].path != path@);
                let ghost oldk = recent_views(kept@);
                kept.push(f);
                assert(recent_views(kept@) =~= oldk.push(olds[i as int]));
                assert(without_path(olds.take(i + 1), path@) == without_path(olds.take(i as int), path@).push(olds[i as int]));
                assert(recent_views(kept@) =~= seq![entry@] + without_path(olds.take(i + 1), path@));
            } else {
                assert(recent_views(kept@) =~= seq![entry@] + without_path(olds.take(i + 1), path@));
            }
            i += 1;
        }
        assert(olds.take(self.files.len() as int) =~= olds);
        if kept.len() > MAX_RECENT_FILES {
            kept.truncate(MAX_RECENT_FILES);
            assert(recent_views(kept@) =~= recorded(olds, entry@));
        }
        self.files = kept;
    }
}


/// The pieces of `s` between occurrences of `sep` (as `str::split` gives them).
pub open spec fn split_on(s: Seq<char>, sep: char) -> Seq<Seq<char>>
    decreases s.len(),
{
    if s.len() == 0 {
        seq![Seq::<char>::empty()]
    } else {
        let rest = split_on(s.drop_last(), sep);
        if s.last() == sep {
            rest.push(Seq::<char>::empty())
        } else {
            rest.update(rest.len() - 1, rest.last().push(s.last()))
        }
    }
}

/// A line without the carriage return that ended it.
pub open spec fn strip_cr(line: Seq<char>) -> Seq<char> {
    if line.len() > 0 && line.last() == '\r' {
        line.drop_last()
    } else {
        line
    }
}

/// The lines of a text as `str::lines` gives them: split at `\n`, a `\r`
/// before a `\n` removed, and no empty line after a final `\n`.
pub open spec fn lines_of(s: Seq<char>) -> Seq<Seq<char>> {
    let pieces = split_on(s, '\n');
    let n = pieces.len();
    Seq::new((n - 1) as nat, |i: int| strip_cr(pieces[i])) + (if pieces[n - 1].len() > 0 {
        seq![pieces[n - 1]]
    } else {
        Seq::empty()
    })
}

/// The first index of `c` in `s`, if it occurs.
pub open spec fn index_of(s: Seq<char>, c: char) -> Option<int>
    decreases s.len(),
{
    if s.len() == 0 {
        None
    } else if s[0] == c {
        Some(0)
    } else {
        match index_of(s.drop_first(), c) {
            Some(i) => Some(i + 1),
            None => None,
        }
    }
}

/// The stored word for a source.
pub open spec fn source_word(source: RecentFileSource) -> Seq<char> {
    match source {
        RecentFileSource::Disk => seq!['d', 'i', 's', 'k'],
        RecentFileSource::Url => seq!['u', 'r', 'l'],
    }
}

/// The source a stored word denotes: `disk` is a disk file, anything else a URL.
pub open spec fn source_of(word: Seq<char>) -> RecentFileSource {
    if word == source_word(RecentFileSource::Disk) {
        RecentFileSource::Disk
    } else {
        RecentFileSource::Url
    }
}

/// An entry with a non-empty path and file name.
pub open spec fn entry_if_complete(source: RecentFileSource, path: Seq<char>, file_name: Seq<char>) -> Option<RecentView> {
    if path.len() > 0 && file_name.len() > 0 {
        Some(RecentView { path, file_name, source })
    } else {
        None
    }
}

/// One stored line: `source<TAB>path<TAB>file name` (the name keeps any
/// further tabs), or the older `path<TAB>file name` form, which is a URL.
pub open spec fn decode_line(line: Seq<char>) -> Option<RecentView> {
    match index_of(line, '\t') {
        None => None,
        Some(i) => {
            let first = line.take(i);
            let rest = line.skip(i + 1);
            match index_of(rest, '\t') {
                None => entry_if_complete(RecentFileSource::Url, first, rest),
                Some(j) => entry_if_complete(source_of(first), rest.take(j), rest.skip(j + 1)),
            }
        },
    }
}

/// The entries of the stored lines that decode, in order.
pub open spec fn decode_lines(lines: Seq<Seq<char>>) -> Seq<RecentView>
    decreases lines.len(),
{
    if lines.len() == 0 {
        Seq::empty()
    } else {
        match decode_line(lines.last()) {
            Some(e) => decode_lines(lines.drop_last()).push(e),
            None => decode_lines(lines.drop_last()),
        }
    }
}

/// The stored line of one entry.
pub open spec fn encode_line(entry: RecentView) -> Seq<char> {
    source_word(entry.source) + seq!['\t'] + entry.path + seq!['\t'] + entry.file_name
}

/// The stored text of a list: one line per entry, joined by `\n`.
pub open spec fn encode_entries(entries: Seq<RecentView>) -> Seq<char>
    decreases entries.len(),
{
    if entries.len() == 0 {
        Seq::empty()
    } else if entries.len() == 1 {
        encode_line(entries[0])
    } else {
        encode_entries(entries.drop_last()) + seq!['\n'] + encode_line(entries.last())
    }
}

fn push_all(out: &mut Vec<char>, s: &Vec<char>)
    ensures
        final(out)@ == old(out)@ + s@,
{
    let ghost start = out@;
    let mut i: usize = 0;
    while i < s.len()
        invariant
            i <= s.len(),
            out@ == start + s@.take(i as int),
        decreases s.len() - i,
    {
        out.push(s[i]);
        assert(s@.take(i + 1) =~= s@.take(i as int).push(s@[i as int]));
        i += 1;
    }
    assert(s@.take(s.len() as int) =~= s@);
}

impl RecentFiles {
    /// The stored text of the list: one `source<TAB>path<TAB>file name` line per entry.
    pub fn encode(&self) -> (r: String)
        ensures
            r@ == encode_entries(recent_views(self.files@)),
    {
        let ghost views = recent_views(self.files@);
        let mut out: Vec<char> = Vec::new();
        let mut i: usize = 0;
        assert(views.take(0) =~= Seq::<RecentView>::empty());
        while i < self.files.len()
            invariant
                i <= self.files.len(),
                views == recent_views(self.files@),
                out@ == encode_entries(views.take(i as int)),
            decreases self.files.len() - i,
        {
            let f = &self.files[i];
            assert(views[i as int] == f@);
            let ghost before = out@;
            if i > 0 {
                out.push('\n');
            }
            let word: Vec<char> = match f.source {
                RecentFileSource::Disk => vec!['d', 'i', 's', 'k'],
                RecentFileSource::Url => vec!['u', 'r', 'l'],
            };
            assert(word@ =~= source_word(f.source));
            let ghost mid = out@;
            push_all(&mut out, &word);
            out.push('\t');
            push_all(&mut out, &chars_of(f.path.as_str()));
            out.push('\t');
            push_all(&mut out, &chars_of(f.file_name.as_str()));
            assert(out@ =~= mid + encode_line(f@));
            let ghost next = views.take(i + 1);
            assert(next.drop_last() =~= views.take(i as int));
            assert(next.last() == f@);
            if i == 0 {
                assert(next.len() == 1);
                assert(encode_entries(next) == encode_line(next[0]));
            }
            i += 1;
        }
        assert(views.take(self.files.len() as int) =~= views);
        string_from_chars(&out)
    }
}

/// `index_of` finds the first occurrence, and only when there is one.
proof fn lemma_index_of(s: Seq<char>, c: char)
    ensures
        match index_of(s, c) {
            Some(i) => 0 <= i < s.len() && s[i] == c && forall|k: int| 0 <= k < i ==> s[k] != c,
            None => forall|k: int| 0 <= k < s.len() ==> s[k] != c,
        },
    decreases s.len(),
{
    if s.len() > 0 && s[0] != c {
        lemma_index_of(s.drop_first(), c);
        match index_of(s.drop_first(), c) {
            Some(i) => {
                assert forall|k: int| 0 <= k < i + 1 implies s[k] != c by {
                    if k > 0 {
                        assert(s[k] == s.drop_first()[k - 1]);
                    }
                }
            },
            None => {
                assert forall|k: int| 0 <= k < s.len() implies s[k] != c by {
                    if k > 0 {
                        assert(s[k] == s.drop_first()[k - 1]);
                    }
                }
            },
        }
    }
}

/// The first position at or after `start` that holds `c`, as an offset from `start`.
fn find_char(v: &Vec<char>, start: usize, c: char) -> (r: Option<usize>)
    requires
        start <= v.len(),
    ensures
        match r {
            Some(i) => index_of(v@.skip(start as int), c) == Some(i as int) && start + i < v.len(),
            None => index_of(v@.skip(start as int), c) is None,
        },
{
    let mut j = start;
    while j < v.len()
        invariant
            start <= j <= v.len(),
            forall|k: int| start <= k < j ==> v@[k] != c,
        decreases v.len() - j,
    {
        if v[j] == c {
            let r = j - start;
            proof {
                let s = v@.skip(start as int);
                lemma_index_of(s, c);
                assert(s[r as int] == c);
                assert forall|k: int| 0 <= k < r implies s[k] != c by {
                    assert(s[k] == v@[start + k]);
                }
                match index_of(s, c) {
                    Some(i) => {
                        if i < r {
                            assert(s[i] == v@[start + i]);
                        }
                    },
                    None => {},
                }
            }
            return Some(r);
        }
        j += 1;
    }
    proof {
        let s = v@.skip(start as int);
        lemma_index_of(s, c);
        match index_of(s, c) {
            Some(i) => {
                assert(s[i] == v@[start + i]);
            },
            None => {},
        }
    }
    None
}

/// The characters of `v` from `from` up to `to`.
fn slice_chars(v: &Vec<char>, from: usize, to: usize) -> (r: Vec<char>)
    requires
        from <= to <= v.len(),
    ensures
        r@ == v@.subrange(from as int, to as int),
{
    let mut r: Vec<char> = Vec::new();
    let mut k = from;
    while k < to
        invariant
            from <= k <= to,
            to <= v.len(),
            r@ == v@.subrange(from as int, k as int),
        decreases to - k,
    {
        r.push(v[k]);
        assert(v@.subrange(from as int, k + 1) =~= v@.subrange(from as int, k as int).push(v@[k as int]));
        k += 1;
    }
    r
}

fn decode_line_exec(line: &Vec<char>) -> (r: Option<RecentFile>)
    ensures
        match r {
            Some(f) => decode_line(line@) == Some(f@),
            None => decode_line(line@) is None,
        },
{
    assert(line@.skip(0) =~= line@);
    let i = match find_char(line, 0, '\t') {
        Some(i) => i,
        None => return None,
    };
    let ghost rest = line@.skip(i + 1);
    assert(line@.skip(i + 1) =~= rest);
    let first = slice_chars(line, 0, i);
    assert(first@ =~= line@.take(i as int));
    let (source, path, file_name) = match find_char(line, i + 1, '\t') {
        None => {
            let p = first;
            let n = slice_chars(line, i + 1, line.len());
            assert(n@ =~= rest);
            assert(index_of(line@, '\t') == Some(i as int));
            assert(index_of(rest, '\t') is None);
            assert(decode_line(line@) == entry_if_complete(RecentFileSource::Url, p@, n@));
            (RecentFileSource::Url, p, n)
        },
        Some(j) => {
            let disk: [char; 4] = ['d', 'i', 's', 'k'];
            assert(disk@ =~= source_word(RecentFileSource::Disk));
            let mut is_disk = first.len() == 4;
            let mut k: usize = 0;
            while k < 4 && is_disk
                invariant
                    k <= 4,
                    is_disk ==> first.len() == 4 && forall|m: int| 0 <= m < k ==> first@[m] == disk@[m],
                    !is_disk ==> first@ != disk@,
                decreases 4 - k,
            {
                if first[k] != disk[k] {
                    is_disk = false;
                }
                k += 1;
            }
            if is_disk {
                assert(first@ =~= disk@);
            }
            let source = if is_disk { RecentFileSource::Disk } else { RecentFileSource::Url };
            assert(source == source_of(first@));
            let p = slice_chars(line, i + 1, i + 1 + j);
            assert(p@ =~= rest.take(j as int));
            let n = slice_chars(line, i + 2 + j, line.len());
            assert(n@ =~= rest.skip(j + 1));
            assert(decode_line(line@) == entry_if_complete(source, p@, n@));
            (source, p, n)
        },
    };
    assert(decode_line(line@) == entry_if_complete(source, path@, file_name@));
    if path.len() > 0 && file_name.len() > 0 {
        Some(RecentFile { path: string_from_chars(&path), file_name: string_from_chars(&file_name), source })
    } else {
        None
    }
}

/// Every piece but the last, each without a final carriage return.
pub open spec fn stripped(pieces: Seq<Seq<char>>) -> Seq<Seq<char>> {
    Seq::new(pieces.len(), |k: int| strip_cr(pieces[k]))
}

fn strip_cr_exec(line: &mut Vec<char>)
    ensures
        final(line)@ == strip_cr(old(line)@),
{
    if line.len() > 0 && line[line.len() - 1] == '\r' {
        line.pop();
    }
}

impl RecentFiles {
    /// Reads the stored text back: one entry per line that decodes, in order.
    pub fn decode(value: &str) -> (r: RecentFiles)
        ensures
            recent_views(r.files@) == decode_lines(lines_of(value@)),
    {
        let chars = chars_of(value);
        let mut files: Vec<RecentFile> = Vec::new();
        let mut current: Vec<char> = Vec::new();
        let ghost mut done: Seq<Seq<char>> = Seq::empty();
        let mut i: usize = 0;
        assert(chars@.take(0) =~= Seq::<char>::empty());
        assert(stripped(done) =~= Seq::<Seq<char>>::empty());
        while i < chars.len()
            invariant
                i <= chars.len(),
                split_on(chars@.take(i as int), '\n') == done.push(current@),
                recent_views(files@) == decode_lines(stripped(done)),
            decreases chars.len() - i,
        {
            let c = chars[i];
            assert(chars@.take(i + 1).drop_last() =~= chars@.take(i as int));
            if c == '\n' {
                let mut line: Vec<char> = Vec::new();
                std::mem::swap(&mut line, &mut current);
                let ghost raw = line@;
                strip_cr_exec(&mut line);
                let ghost before = recent_views(files@);
                match decode_line_exec(&line) {
                    Some(f) => {
                        files.push(f);
                        assert(recent_views(files@) =~= before.push(f@));
                    },
                    None => {
                        assert(recent_views(files@) =~= before);
                    },
                }
                proof {
                    let nd = done.push(raw);
                    assert(stripped(nd).drop_last() =~= stripped(done));
                    assert(stripped(nd).last() == line@);
                    done = nd;
                    assert(split_on(chars@.take(i + 1), '\n') =~= done.push(current@));
                }
            } else {
                let ghost old_cur = current@;
                current.push(c);
                assert(split_on(chars@.take(i + 1), '\n') =~= done.push(current@)) by {
                    let rest = split_on(chars@.take(i as int), '\n');
                    assert(rest.update(rest.len() - 1, rest.last().push(c)) =~= done.push(old_cur.push(c)));
                }
            }
            i += 1;
        }
        assert(chars@.take(chars.len() as int) =~= chars@);
        let ghost pieces = done.push(current@);
        assert(Seq::new((pieces.len() - 1) as nat, |k: int| strip_cr(pieces[k])) =~= stripped(done));
        if current.len() > 0 {
            let ghost before = recent_views(files@);
            let ghost last = current@;
            assert(lines_of(value@) =~= stripped(done).push(last));
            assert(lines_of(value@).drop_last() =~= stripped(done));
            match decode_line_exec(&current) {
                Some(f) => {
                    files.push(f);
                    assert(recent_views(files@) =~= before.push(f@));
                },
                None => {
                    assert(recent_views(files@) =~= before);
                },
            }
        } else {
            assert(lines_of(value@) =~= stripped(done));
        }
        RecentFiles { files }
    }
}

/// An entry that its stored line gives back unchanged: non-empty path and
/// name, no tab or line break in the path, no line break in the name, and a
/// name that does not end in a carriage return.
pub open spec fn storable(e: RecentView) -> bool {
    &&& e.path.len() > 0
    &&& e.file_name.len() > 0
    &&& !e.path.contains('\t')
    &&& !e.path.contains('\n')
    &&& !e.file_name.contains('\n')
    &&& e.file_name.last() != '\r'
}

proof fn lemma_split_on_append(a: Seq<char>, b: Seq<char>, sep: char)
    requires
        !b.contains(sep),
    ensures
        split_on(a + b, sep) == split_on(a, sep).update(
            split_on(a, sep).len() - 1,
            split_on(a, sep).last() + b,
        ),
        split_on(a, sep).len() > 0,
    decreases b.len(),
{
    lemma_split_on_nonempty(a, sep);
    if b.len() == 0 {
        assert(a + b =~= a);
        let sa = split_on(a, sep);
        assert(sa.last() + b =~= sa.last());
        assert(sa.update(sa.len() - 1, sa.last()) =~= sa);
    } else {
        let b0 = b.drop_last();
        assert(!b0.contains(sep)) by {
            if b0.contains(sep) {
                let k = choose|k: int| 0 <= k < b0.len() && b0[k] == sep;
                assert(b[k] == sep);
            }
        }
        lemma_split_on_append(a, b0, sep);
        assert((a + b).drop_last() =~= a + b0);
        assert((a + b).last() == b.last());
        assert(b.last() != sep) by {
            assert(b[b.len() - 1] == b.last());
        }
        lemma_split_on_nonempty(a + b0, sep);
        let sa = split_on(a, sep);
        let r0 = split_on(a + b0, sep);
        assert(r0.update(r0.len() - 1, r0.last().push(b.last())) =~= sa.update(sa.len() - 1, sa.last() + b)) by {
            assert(b =~= b0.push(b.last()));
            assert((sa.last() + b0).push(b.last()) =~= sa.last() + b);
            assert(r0.len() == sa.len());
            assert(r0.last() == sa.last() + b0);
        }
    }
}

proof fn lemma_split_on_nonempty(a: Seq<char>, sep: char)
    ensures
        split_on(a, sep).len() > 0,
    decreases a.len(),
{
    if a.len() > 0 {
        lemma_split_on_nonempty(a.drop_last(), sep);
    }
}

proof fn lemma_split_on_sep(a: Seq<char>, sep: char)
    ensures
        split_on(a.push(sep), sep) == split_on(a, sep).push(Seq::empty()),
{
    assert(a.push(sep).drop_last() =~= a);
}

/// The stored lines of a list, one per entry.
pub open spec fn encoded_lines(entries: Seq<RecentView>) -> Seq<Seq<char>> {
    entries.map_values(|e: RecentView| encode_line(e))
}

proof fn lemma_line_has_no_newline(e: RecentView)
    requires
        storable(e),
    ensures
        !encode_line(e).contains('\n'),
        encode_line(e).len() > 0,
        encode_line(e).last() != '\r',
{
    let w = source_word(e.source);
    let line = encode_line(e);
    assert(line =~= w + seq!['\t'] + e.path + seq!['\t'] + e.file_name);
    assert(line.last() == e.file_name.last());
    if line.contains('\n') {
        let k = choose|k: int| 0 <= k < line.len() && line[k] == '\n';
        if k < w.len() {
            assert(line[k] == w[k]);
        } else if k == w.len() {
        } else if k < w.len() + 1 + e.path.len() {
            assert(line[k] == e.path[k - w.len() - 1]);
        } else if k == w.len() + 1 + e.path.len() {
        } else {
            assert(line[k] == e.file_name[k - w.len() - 2 - e.path.len()]);
        }
    }
}

proof fn lemma_split_encoded(entries: Seq<RecentView>)
    requires
        entries.len() > 0,
        forall|i: int| 0 <= i < entries.len() ==> storable(#[trigger] entries[i]),
    ensures
        split_on(encode_entries(entries), '\n') == encoded_lines(entries),
    decreases entries.len(),
{
    let last = entries.last();
    assert(storable(entries[entries.len() - 1]));
    lemma_line_has_no_newline(last);
    if entries.len() == 1 {
        lemma_split_on_append(Seq::empty(), encode_line(last), '\n');
        assert(Seq::<char>::empty() + encode_line(last) =~= encode_line(last));
        assert(split_on(Seq::<char>::empty(), '\n') =~= seq![Seq::<char>::empty()]);
        assert(Seq::<char>::empty() + encode_line(last) =~= encode_line(last));
        assert(encoded_lines(entries) =~= seq![encode_line(last)]);
    } else {
        let front = entries.drop_last();
        assert forall|i: int| 0 <= i < front.len() implies storable(#[trigger] front[i]) by {
            assert(front[i] == entries[i]);
        }
        lemma_split_encoded(front);
        let a = encode_entries(front);
        lemma_split_on_sep(a, '\n');
        lemma_split_on_append(a.push('\n'), encode_line(last), '\n');
        assert(a + seq!['\n'] + encode_line(last) =~= a.push('\n') + encode_line(last));
        let sp = split_on(a.push('\n'), '\n');
        assert(sp.last() + encode_line(last) =~= encode_line(last));
        assert(encoded_lines(entries) =~= encoded_lines(front).push(encode_line(last)));
    }
}

proof fn lemma_decode_encoded_line(e: RecentView)
    requires
        storable(e),
    ensures
        decode_line(encode_line(e)) == Some(e),
{
    let w = source_word(e.source);
    let line = encode_line(e);
    assert(line =~= w + seq!['\t'] + e.path + seq!['\t'] + e.file_name);
    assert(!w.contains('\t'));
    lemma_index_of(line, '\t');
    assert(line[w.len() as int] == '\t');
    let i = w.len() as int;
    match index_of(line, '\t') {
        Some(k) => {
            if k < i {
                assert(line[k] == w[k]);
            }
        },
        None => {},
    }
    assert(index_of(line, '\t') == Some(i));
    let rest = line.skip(i + 1);
    assert(rest =~= e.path + seq!['\t'] + e.file_name);
    assert(line.take(i) =~= w);
    lemma_index_of(rest, '\t');
    let j = e.path.len() as int;
    assert(rest[j] == '\t');
    match index_of(rest, '\t') {
        Some(k) => {
            if k < j {
                assert(rest[k] == e.path[k]);
            }
        },
        None => {},
    }
    assert(index_of(rest, '\t') == Some(j));
    assert(rest.take(j) =~= e.path);
    assert(rest.skip(j + 1) =~= e.file_name);
    assert(source_word(RecentFileSource::Url) != source_word(RecentFileSource::Disk)) by {
        assert(source_word(RecentFileSource::Url).len() == 3);
    }
    assert(source_of(w) == e.source);
}

proof fn lemma_decode_encoded_lines(entries: Seq<RecentView>)
    requires
        forall|i: int| 0 <= i < entries.len() ==> storable(#[trigger] entries[i]),
    ensures
        decode_lines(encoded_lines(entries)) == entries,
    decreases entries.len(),
{
    if entries.len() > 0 {
        let front = entries.drop_last();
        assert forall|i: int| 0 <= i < front.len() implies storable(#[trigger] front[i]) by {
            assert(front[i] == entries[i]);
        }
        lemma_decode_encoded_lines(front);
        assert(storable(entries[entries.len() - 1]));
        lemma_decode_encoded_line(entries.last());
        assert(encoded_lines(entries).drop_last() =~= encoded_lines(front));
        assert(entries =~= front.push(entries.last()));
    } else {
        assert(encoded_lines(entries) =~= Seq::<Seq<char>>::empty());
    }
}

/// Storing a list of recent files and reading the text back gives the same
/// list, for entries whose text the line format can hold (see `storable`).
pub proof fn lemma_encode_decode_round_trip(entries: Seq<RecentView>)
    requires
        forall|i: int| 0 <= i < entries.len() ==> storable(#[trigger] entries[i]),
    ensures
        decode_lines(lines_of(encode_entries(entries))) == entries,
{
    if entries.len() == 0 {
        assert(split_on(Seq::<char>::empty(), '\n') =~= seq![Seq::<char>::empty()]);
        assert(lines_of(encode_entries(entries)) =~= Seq::<Seq<char>>::empty());
    } else {
        lemma_split_encoded(entries);
        let pieces = encoded_lines(entries);
        let n = pieces.len();
        assert forall|k: int| 0 <= k < n implies strip_cr(#[trigger] pieces[k]) == pieces[k] by {
            assert(storable(entries[k]));
            lemma_line_has_no_newline(entries[k]);
        }
        assert(storable(entries[n - 1]));
        lemma_line_has_no_newline(entries[n - 1]);
        assert(lines_of(encode_entries(entries)) =~= pieces);
        lemma_decode_encoded_lines(entries);
    }
}

/// No archive is listed twice.
pub open spec fn unique_paths(files: Seq<RecentView>) -> bool {
    forall|i: int, j: int| 0 <= i < j < files.len() ==> (#[trigger] files[i]).path != (#[trigger] files[j]).path
}

proof fn lemma_without_path(files: Seq<RecentView>, path: Seq<char>)
    ensures
        without_path(files, path).len() <= files.len(),
        forall|j: int| 0 <= j < without_path(files, path).len() ==> (#[trigger] without_path(files, path)[j]).path != path,
        forall|j: int| 0 <= j < without_path(files, path).len() ==> files.contains(#[trigger] without_path(files, path)[j]),
        unique_paths(files) ==> unique_paths(without_path(files, path)),
    decreases files.len(),
{
    if files.len() > 0 {
        let front = files.drop_last();
        lemma_without_path(front, path);
        let rest = without_path(front, path);
        let all = without_path(files, path);
        assert forall|j: int| 0 <= j < all.len() implies files.contains(#[trigger] all[j]) by {
            if j < rest.len() {
                assert(all[j] == rest[j]);
                let k = choose|k: int| 0 <= k < front.len() && front[k] == rest[j];
                assert(files[k] == front[k]);
            } else {
                assert(all[j] == files[files.len() - 1]);
            }
        }
        assert forall|j: int| 0 <= j < all.len() implies (#[trigger] all[j]).path != path by {
            if j < rest.len() {
                assert(all[j] == rest[j]);
            }
        }
        if unique_paths(files) {
            assert(unique_paths(front)) by {
                assert forall|i: int, j: int| 0 <= i < j < front.len() implies (#[trigger] front[i]).path
                    != (#[trigger] front[j]).path by {
                    assert(front[i] == files[i] && front[j] == files[j]);
                }
            }
            assert forall|i: int, j: int| 0 <= i < j < all.len() implies (#[trigger] all[i]).path
                != (#[trigger] all[j]).path by {
                if j < rest.len() {
                    assert(all[i] == rest[i] && all[j] == rest[j]);
                } else {
                    assert(all[i] == rest[i]);
                    assert(all[j] == files.last());
                    let k = choose|k: int| 0 <= k < front.len() && front[k] == rest[i];
                    assert(files[k] == rest[i]);
                    assert(files[files.len() - 1] == files.last());
                }
            }
        }
    }
}

/// Recording an archive puts it first, lists no other entry for it, keeps
/// at most `MAX_RECENT_FILES` entries, and never lists an archive twice
/// when the list did not before.
pub proof fn lemma_recorded_front(files: Seq<RecentView>, entry: RecentView)
    requires
        entry.path.len() > 0,
    ensures
        recorded(files, entry).len() <= MAX_RECENT_FILES,
        recorded(files, entry)[0] == entry,
        forall|j: int| 0 < j < recorded(files, entry).len() ==> (#[trigger] recorded(files, entry)[j]).path != entry.path,
        unique_paths(files) ==> unique_paths(recorded(files, entry)),
{
    lemma_without_path(files, entry.path);
    let rest = without_path(files, entry.path);
    let all = seq![entry] + rest;
    let r = recorded(files, entry);
    assert(all[0] == entry);
    assert forall|j: int| 0 < j < all.len() implies (#[trigger] all[j]).path != entry.path by {
        assert(all[j] == rest[j - 1]);
    }
    assert forall|j: int| 0 <= j < r.len() implies #[trigger] r[j] == all[j] by {}
    assert forall|j: int| 0 < j < r.len() implies (#[trigger] r[j]).path != entry.path by {
        assert(r[j] == all[j]);
    }
    if unique_paths(files) {
        assert forall|i: int, j: int| 0 <= i < j < r.len() implies (#[trigger] r[i]).path != (#[trigger] r[j]).path by {
            assert(r[i] == all[i] && r[j] == all[j]);
            if i > 0 {
                assert(all[i] == rest[i - 1] && all[j] == rest[j - 1]);
            }
        }
    }
}

/// A recorded list is read back as it was stored: when the stored entries
/// and the recorded one fit the line format, recording an archive, storing
/// the list and decoding the text gives the recorded list.
pub proof fn lemma_record_store_load(files: Seq<RecentView>, entry: RecentView)
    requires
        forall|i: int| 0 <= i < files.len() ==> storable(#[trigger] files[i]),
        storable(entry),
    ensures
        decode_lines(lines_of(encode_entries(recorded(files, entry)))) == recorded(files, entry),
{
    lemma_recorded_front(files, entry);
    lemma_without_path(files, entry.path);
    let rest = without_path(files, entry.path);
    let all = seq![entry] + rest;
    let r = recorded(files, entry);
    assert forall|i: int| 0 <= i < r.len() implies storable(#[trigger] r[i]) by {
        assert(r[i] == all[i]);
        if i > 0 {
            assert(all[i] == rest[i - 1]);
            assert(files.contains(rest[i - 1]));
        }
    }
    lemma_encode_decode_round_trip(r);
}

proof fn lemma_split_on_pieces(s: Seq<char>, sep: char)
    ensures
        split_on(s, sep).len() > 0,
        forall|k: int| 0 <= k < split_on(s, sep).len() ==> !(#[trigger] split_on(s, sep)[k]).contains(sep),
    decreases s.len(),
{
    if s.len() > 0 {
        lemma_split_on_pieces(s.drop_last(), sep);
        let rest = split_on(s.drop_last(), sep);
        let all = split_on(s, sep);
        if s.last() == sep {
            assert forall|k: int| 0 <= k < all.len() implies !(#[trigger] all[k]).contains(sep) by {
                if k < rest.len() {
                    assert(all[k] == rest[k]);
                } else {
                    assert(all[k] =~= Seq::<char>::empty());
                }
            }
        } else {
            let grown = rest.last().push(s.last());
            assert(!rest[rest.len() - 1].contains(sep));
            assert(!grown.contains(sep)) by {
                if grown.contains(sep) {
                    let i = choose|i: int| 0 <= i < grown.len() && grown[i] == sep;
                    if i < rest.last().len() {
                        assert(rest.last()[i] == sep);
                    }
                }
            }
            assert forall|k: int| 0 <= k < all.len() implies !(#[trigger] all[k]).contains(sep) by {
                if k < rest.len() - 1 {
                    assert(all[k] == rest[k]);
                }
            }
        }
    }
}

proof fn lemma_lines_have_no_newline(text: Seq<char>)
    ensures
        forall|k: int| 0 <= k < lines_of(text).len() ==> !(#[trigger] lines_of(text)[k]).contains('\n'),
{
    let pieces = split_on(text, '\n');
    lemma_split_on_pieces(text, '\n');
    let lines = lines_of(text);
    assert forall|k: int| 0 <= k < lines.len() implies !(#[trigger] lines[k]).contains('\n') by {
        let n = pieces.len();
        if k < n - 1 {
            assert(lines[k] == strip_cr(pieces[k]));
            assert(!pieces[k].contains('\n'));
            if strip_cr(pieces[k]).contains('\n') {
                let i = choose|i: int| 0 <= i < strip_cr(pieces[k]).len() && strip_cr(pieces[k])[i] == '\n';
                assert(pieces[k][i] == '\n');
            }
        } else {
            assert(lines[k] == pieces[n - 1]);
        }
    }
}

proof fn lemma_subrange_lacks(s: Seq<char>, c: char, i: int, j: int)
    requires
        0 <= i <= j <= s.len(),
        !s.contains(c),
    ensures
        !s.subrange(i, j).contains(c),
{
    if s.subrange(i, j).contains(c) {
        let k = choose|k: int| 0 <= k < s.subrange(i, j).len() && s.subrange(i, j)[k] == c;
        assert(s[i + k] == c);
    }
}

proof fn lemma_decode_line_shape(line: Seq<char>)
    requires
        !line.contains('\n'),
    ensures
        decode_line(line) matches Some(e) ==> {
            &&& e.path.len() > 0
            &&& e.file_name.len() > 0
            &&& !e.path.contains('\t')
            &&& !e.path.contains('\n')
            &&& !e.file_name.contains('\n')
        },
{
    lemma_index_of(line, '\t');
    match index_of(line, '\t') {
        None => {},
        Some(i) => {
            let first = line.take(i);
            let rest = line.skip(i + 1);
            assert(first =~= line.subrange(0, i));
            assert(rest =~= line.subrange(i + 1, line.len() as int));
            lemma_subrange_lacks(line, '\n', 0, i);
            lemma_subrange_lacks(line, '\n', i + 1, line.len() as int);
            if first.contains('\t') {
                let k = choose|k: int| 0 <= k < first.len() && first[k] == '\t';
                assert(line[k] == '\t');
            }
            lemma_index_of(rest, '\t');
            match index_of(rest, '\t') {
                None => {
                    if rest.contains('\t') {
                        let k = choose|k: int| 0 <= k < rest.len() && rest[k] == '\t';
                    }
                },
                Some(j) => {
                    assert(rest.take(j) =~= rest.subrange(0, j));
                    assert(rest.skip(j + 1) =~= rest.subrange(j + 1, rest.len() as int));
                    lemma_subrange_lacks(rest, '\n', 0, j);
                    lemma_subrange_lacks(rest, '\n', j + 1, rest.len() as int);
                    if rest.take(j).contains('\t') {
                        let k = choose|k: int| 0 <= k < rest.take(j).len() && rest.take(j)[k] == '\t';
                        assert(rest[k] == '\t');
                    }
                },
            }
        },
    }
}

proof fn lemma_decode_lines_shape(lines: Seq<Seq<char>>)
    requires
        forall|k: int| 0 <= k < lines.len() ==> !(#[trigger] lines[k]).contains('\n'),
    ensures
        forall|i: int| 0 <= i < decode_lines(lines).len() ==> {
            let e = #[trigger] decode_lines(lines)[i];
            &&& e.path.len() > 0
            &&& e.file_name.len() > 0
            &&& !e.path.contains('\t')
            &&& !e.path.contains('\n')
            &&& !e.file_name.contains('\n')
        },
    decreases lines.len(),
{
    if lines.len() > 0 {
        let front = lines.drop_last();
        assert forall|k: int| 0 <= k < front.len() implies !(#[trigger] front[k]).contains('\n') by {
            assert(front[k] == lines[k]);
        }
        lemma_decode_lines_shape(front);
        assert(!lines[lines.len() - 1].contains('\n'));
        lemma_decode_line_shape(lines.last());
        let rest = decode_lines(front);
        assert forall|i: int| 0 <= i < decode_lines(lines).len() && i < rest.len() implies #[trigger] decode_lines(
            lines,
        )[i] == rest[i] by {}
    }
}

/// Recording a file in a stored list and storing the result reads back as
/// the recorded list: for any stored text, its entries with the new entry
/// recorded (first, no other entry for its archive, at most
/// `MAX_RECENT_FILES` entries; nothing changes for an empty archive path)
/// decode from their stored text unchanged. The archive path holds no tab or
/// line break and the file name is not empty and holds no line break; a file
/// name that ends in a carriage return, stored or new, loses it when read.
pub proof fn lemma_record_stored_text(text: Seq<char>, entry: RecentView)
    requires
        entry.file_name.len() > 0,
        !entry.path.contains('\t'),
        !entry.path.contains('\n'),
        !entry.file_name.contains('\n'),
        entry.file_name.last() != '\r',
        forall|i: int| 0 <= i < decode_lines(lines_of(text)).len() ==> (#[trigger] decode_lines(
            lines_of(text),
        )[i]).file_name.last() != '\r',
    ensures
        decode_lines(lines_of(encode_entries(recorded(decode_lines(lines_of(text)), entry)))) == recorded(
            decode_lines(lines_of(text)),
            entry,
        ),
{
    let files = decode_lines(lines_of(text));
    lemma_lines_have_no_newline(text);
    lemma_decode_lines_shape(lines_of(text));
    assert forall|i: int| 0 <= i < files.len() implies storable(#[trigger] files[i]) by {
        assert(files[i].file_name.last() != '\r');
    }
    if entry.path.len() == 0 {
        lemma_encode_decode_round_trip(files);
    } else {
        lemma_record_store_load(files, entry);
    }
}

proof fn lemma_without_path_filter(files: Seq<RecentView>, path: Seq<char>)
    ensures
        without_path(files, path) == files.filter(|f: RecentView| f.path != path),
    decreases files.len(),
{
    reveal(Seq::filter);
    if files.len() > 0 {
        lemma_without_path_filter(files.drop_last(), path);
    }
}

proof fn lemma_without_path_shorter(files: Seq<RecentView>, path: Seq<char>, j: int)
    requires
        0 <= j < files.len(),
        files[j].path == path,
    ensures
        without_path(files, path).len() < files.len(),
    decreases files.len(),
{
    lemma_without_path(files.drop_last(), path);
    if j < files.len() - 1 {
        assert(files.drop_last()[j] == files[j]);
        lemma_without_path_shorter(files.drop_last(), path, j);
    }
}

/// Recording a file keeps the other archives in their order: the recorded
/// entry comes first, then the listed entries for other archives, in their
/// order, as many as fit in `MAX_RECENT_FILES`; so when the archive was
/// already listed in a list of at most `MAX_RECENT_FILES` entries, no other
/// archive is lost.
pub proof fn lemma_record_keeps_others(files: Seq<RecentView>, entry: RecentView)
    requires
        entry.path.len() > 0,
    ensures
        recorded(files, entry).len() > 0,
        recorded(files, entry)[0] == entry,
        ({
            let others = files.filter(|f: RecentView| f.path != entry.path);
            &&& recorded(files, entry).len() == if 1 + others.len() > MAX_RECENT_FILES {
                MAX_RECENT_FILES as int
            } else {
                1 + others.len() as int
            }
            &&& forall|i: int| 0 < i < recorded(files, entry).len() ==> #[trigger] recorded(files, entry)[i]
                == others[i - 1]
        }),
        files.len() <= MAX_RECENT_FILES && (exists|j: int| 0 <= j < files.len() && #[trigger] files[j].path
            == entry.path) ==> forall|i: int| 0 <= i < files.len() && files[i].path != entry.path
            ==> recorded(files, entry).contains(#[trigger] files[i]),
{
    let pred = |f: RecentView| f.path != entry.path;
    lemma_without_path_filter(files, entry.path);
    let others = files.filter(pred);
    let all = seq![entry] + others;
    let r = recorded(files, entry);
    assert(all[0] == entry);
    assert forall|i: int| 0 < i < r.len() implies #[trigger] r[i] == others[i - 1] by {
        assert(r[i] == all[i]);
    }
    if files.len() <= MAX_RECENT_FILES && (exists|j: int| 0 <= j < files.len() && #[trigger] files[j].path
        == entry.path) {
        let j = choose|j: int| 0 <= j < files.len() && #[trigger] files[j].path == entry.path;
        lemma_without_path_shorter(files, entry.path, j);
        assert(r == all);
        assert forall|i: int| 0 <= i < files.len() && files[i].path != entry.path implies r.contains(
            #[trigger] files[i],
        ) by {
            files.lemma_filter_contains(pred, i);
            let k = choose|k: int| 0 <= k < others.len() && others[k] == files[i];
            assert(r[k + 1] == others[k]);
        }
    }
}
} // verus!

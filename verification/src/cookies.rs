//! The browser cookie that keeps the recent files on the web build.
use vstd::prelude::*;
use crate::paths::seg_views;
use crate::recent::split_on;
use crate::text::{chars_of, string_from_chars};

verus! {

/// Unicode white space, the characters `char::is_whitespace` accepts.
pub open spec fn is_white(c: char) -> bool {
    ||| c == '\t' || c == '\n' || c == '\u{0B}' || c == '\u{0C}' || c == '\r' || c == ' '
    ||| c == '\u{85}' || c == '\u{A0}' || c == '\u{1680}'
    ||| ('\u{2000}' <= c && c <= '\u{200A}')
    ||| c == '\u{2028}' || c == '\u{2029}' || c == '\u{202F}' || c == '\u{205F}' || c == '\u{3000}'
}

/// A text without its leading white space.
pub open spec fn trim_start(s: Seq<char>) -> Seq<char>
    decreases s.len(),
{
    if s.len() > 0 && is_white(s[0]) {
        trim_start(s.drop_first())
    } else {
        s
    }
}

/// A text without its trailing white space.
pub open spec fn trim_end(s: Seq<char>) -> Seq<char>
    decreases s.len(),
{
    if s.len() > 0 && is_white(s.last()) {
        trim_end(s.drop_last())
    } else {
        s
    }
}

/// A text without leading and trailing white space (`str::trim`).
pub open spec fn trimmed(s: Seq<char>) -> Seq<char> {
    trim_end(trim_start(s))
}

/// The value of one `name=value` cookie text, when it starts with `prefix`
/// once trimmed.
pub open spec fn cookie_match(piece: Seq<char>, prefix: Seq<char>) -> Option<Seq<char>> {
    let t = trimmed(piece);
    if t.len() >= prefix.len() && t.take(prefix.len() as int) == prefix {
        Some(t.skip(prefix.len() as int))
    } else {
        None
    }
}

/// The value of the first cookie text that matches `prefix`.
pub open spec fn first_cookie(pieces: Seq<Seq<char>>, prefix: Seq<char>) -> Option<Seq<char>>
    decreases pieces.len(),
{
    if pieces.len() == 0 {
        None
    } else {
        match cookie_match(pieces[0], prefix) {
            Some(v) => Some(v),
            None => first_cookie(pieces.drop_first(), prefix),
        }
    }
}

/// The text before a cookie's value: its name and `=`.
pub open spec fn recent_cookie_prefix() -> Seq<char> {
    "esp_viewer_recent_files="@
}

fn is_white_char(c: char) -> (r: bool)
    ensures
        r == is_white(c),
{
    c == '\t' || c == '\n' || c == '\u{0B}' || c == '\u{0C}' || c == '\r' || c == ' ' || c == '\u{85}'
        || c == '\u{A0}' || c == '\u{1680}' || ('\u{2000}' <= c && c <= '\u{200A}') || c == '\u{2028}'
        || c == '\u{2029}' || c == '\u{202F}' || c == '\u{205F}' || c == '\u{3000}'
}

proof fn lemma_trim_start_skip(s: Seq<char>, i: int)
    requires
        0 <= i <= s.len(),
        forall|k: int| 0 <= k < i ==> is_white(#[trigger] s[k]),
    ensures
        trim_start(s) == trim_start(s.skip(i)),
    decreases i,
{
    if i > 0 {
        assert(s.skip(1).skip(i - 1) =~= s.skip(i));
        assert(s.drop_first() =~= s.skip(1));
        assert forall|k: int| 0 <= k < i - 1 implies is_white(#[trigger] s.skip(1)[k]) by {
            assert(s.skip(1)[k] == s[k + 1]);
        }
        lemma_trim_start_skip(s.skip(1), i - 1);
    } else {
        assert(s.skip(0) =~= s);
    }
}

proof fn lemma_trim_end_take(s: Seq<char>, j: int)
    requires
        0 <= j <= s.len(),
        forall|k: int| j <= k < s.len() ==> is_white(#[trigger] s[k]),
    ensures
        trim_end(s) == trim_end(s.take(j)),
    decreases s.len() - j,
{
    if j < s.len() {
        assert(is_white(s[s.len() - 1]));
        assert(s.drop_last().take(j) =~= s.take(j));
        assert forall|k: int| j <= k < s.drop_last().len() implies is_white(#[trigger] s.drop_last()[k]) by {
            assert(s.drop_last()[k] == s[k]);
        }
        lemma_trim_end_take(s.drop_last(), j);
    } else {
        assert(s.take(j) =~= s);
    }
}

/// The characters of a text without leading and trailing white space.
pub(crate) fn trim_chars(v: &Vec<char>) -> (r: Vec<char>)
    ensures
        r@ == trimmed(v@),
{
    let mut start: usize = 0;
    while start < v.len() && is_white_char(v[start])
        invariant
            start <= v.len(),
            forall|k: int| 0 <= k < start ==> is_white(#[trigger] v@[k]),
        decreases v.len() - start,
    {
        start += 1;
    }
    proof {
        lemma_trim_start_skip(v@, start as int);
    }
    let ghost rest = v@.skip(start as int);
    assert(trim_start(rest) == rest);
    let mut end: usize = v.len();
    while end > start && is_white_char(v[end - 1])
        invariant
            start <= end <= v.len(),
            forall|k: int| end <= k < v.len() ==> is_white(#[trigger] v@[k]),
        decreases end,
    {
        end -= 1;
    }
    let mut r: Vec<char> = Vec::new();
    let mut k = start;
    while k < end
        invariant
            start <= k <= end,
            end <= v.len(),
            r@ == v@.subrange(start as int, k as int),
        decreases end - k,
    {
        r.push(v[k]);
        assert(v@.subrange(start as int, k + 1) =~= v@.subrange(start as int, k as int).push(v@[k as int]));
        k += 1;
    }
    proof {
        let cut = (end - start) as int;
        assert forall|k: int| cut <= k < rest.len() implies is_white(#[trigger] rest[k]) by {
            assert(rest[k] == v@[start + k]);
        }
        lemma_trim_end_take(rest, cut);
        assert(rest.take(cut) =~= v@.subrange(start as int, end as int));
        if cut > 0 {
            assert(rest.take(cut).last() == v@[end - 1]);
        }
    }
    r
}

/// The pieces of a text between occurrences of `sep`.
fn split_chars(v: &Vec<char>, sep: char) -> (r: Vec<Vec<char>>)
    ensures
        seg_views(r@) == split_on(v@, sep),
{
    let mut pieces: Vec<Vec<char>> = Vec::new();
    let mut current: Vec<char> = Vec::new();
    let mut i: usize = 0;
    assert(v@.take(0) =~= Seq::<char>::empty());
    while i < v.len()
        invariant
            i <= v.len(),
            split_on(v@.take(i as int), sep) == seg_views(pieces@).push(current@),
        decreases v.len() - i,
    {
        let c = v[i];
        assert(v@.take(i + 1).drop_last() =~= v@.take(i as int));
        if c == sep {
            let ghost before = seg_views(pieces@);
            let mut piece: Vec<char> = Vec::new();
            std::mem::swap(&mut piece, &mut current);
            pieces.push(piece);
            assert(seg_views(pieces@) =~= before.push(pieces@.last()@));
            assert(split_on(v@.take(i + 1), sep) =~= seg_views(pieces@).push(current@));
        } else {
            let ghost old_cur = current@;
            current.push(c);
            assert(split_on(v@.take(i + 1), sep) =~= seg_views(pieces@).push(current@)) by {
                let rest = split_on(v@.take(i as int), sep);
                assert(rest.update(rest.len() - 1, rest.last().push(c)) =~= seg_views(pieces@).push(old_cur.push(c)));
            }
        }
        i += 1;
    }
    let ghost before = seg_views(pieces@);
    pieces.push(current);
    assert(seg_views(pieces@) =~= before.push(pieces@.last()@));
    assert(v@.take(v.len() as int) =~= v@);
    pieces
}

/// Whether `v` starts with `prefix`.
fn starts_with(v: &Vec<char>, prefix: &Vec<char>) -> (r: bool)
    ensures
        r == (v@.len() >= prefix@.len() && v@.take(prefix@.len() as int) == prefix@),
{
    if v.len() < prefix.len() {
        return false;
    }
    let mut i: usize = 0;
    while i < prefix.len()
        invariant
            prefix.len() <= v.len(),
            i <= prefix.len(),
            forall|k: int| 0 <= k < i ==> v@[k] == prefix@[k],
        decreases prefix.len() - i,
    {
        if v[i] != prefix[i] {
            assert(v@.take(prefix@.len() as int)[i as int] != prefix@[i as int]);
            return false;
        }
        i += 1;
    }
    assert(v@.take(prefix@.len() as int) =~= prefix@);
    true
}

/// The value of the recent-files cookie in a page's cookie text
/// (`name=value` pairs separated by `;`), still URI-encoded: the first pair,
/// trimmed, that starts with the cookie's name and `=`.
pub fn recent_cookie_value(cookies: &str) -> (r: Option<String>)
    ensures
        match r {
            Some(v) => first_cookie(split_on(cookies@, ';'), recent_cookie_prefix()) == Some(v@),
            None => first_cookie(split_on(cookies@, ';'), recent_cookie_prefix()) is None,
        },
{
    let prefix = chars_of("esp_viewer_recent_files=");
    let pieces = split_chars(&chars_of(cookies), ';');
    let ghost all = seg_views(pieces@);
    let mut i: usize = 0;
    assert(all.skip(0) =~= all);
    while i < pieces.len()
        invariant
            i <= pieces.len(),
            all == seg_views(pieces@),
            all == split_on(cookies@, ';'),
            prefix@ == recent_cookie_prefix(),
            first_cookie(all, recent_cookie_prefix()) == first_cookie(all.skip(i as int), recent_cookie_prefix()),
        decreases pieces.len() - i,
    {
        let piece = trim_chars(&pieces[i]);
        assert(all.skip(i as int)[0] == pieces@[i as int]@);
        assert(all.skip(i as int).drop_first() =~= all.skip(i + 1));
        if starts_with(&piece, &prefix) {
            let mut value: Vec<char> = Vec::new();
            let mut k = prefix.len();
            while k < piece.len()
                invariant
                    prefix.len() <= k <= piece.len(),
                    value@ == piece@.subrange(prefix.len() as int, k as int),
                decreases piece.len() - k,
            {
                value.push(piece[k]);
                assert(piece@.subrange(prefix.len() as int, k + 1) =~= piece@.subrange(prefix.len() as int, k as int).push(
                    piece@[k as int],
                ));
                k += 1;
            }
            assert(value@ =~= piece@.skip(prefix@.len() as int));
            assert(piece@ == trimmed(pieces@[i as int]@));
            assert(cookie_match(pieces@[i as int]@, recent_cookie_prefix()) == Some(value@));
            assert(first_cookie(all.skip(i as int), recent_cookie_prefix()) == Some(value@));
            return Some(string_from_chars(&value));
        }
        i += 1;
    }
    None
}

/// The cookie text that stores an encoded recent-files value for a year
/// on the whole site.
pub fn recent_files_cookie(encoded_value: &str) -> (r: String)
    ensures
        r@ == recent_cookie_prefix() + encoded_value@ + "; Max-Age=31536000; Path=/; SameSite=Lax"@,
{
    let mut cookie = String::from_str("esp_viewer_recent_files=");
    cookie.append(encoded_value);
    cookie.append("; Max-Age=31536000; Path=/; SameSite=Lax");
    cookie
}

} // verus!

//! What the operations on texts and paths come to, whatever the text.

use vstd::prelude::*;

use crate::paths::{
    display_path, extension, file_name, is_absolute, is_below, join_path, joined_length, last_kept,
    lemma_split_concat, parent, parts, significant_pieces, stem, Platform,
};
use crate::text::{
    ascii_lower, forward_slashes, is_whitespace, join, lemma_first_index, lines, split_on, trim,
    trim_end, trim_start, wide_bytes, wide_char,
};

verus! {

/// Every character of the text is white space.
pub open spec fn is_blank(s: Seq<char>) -> bool {
    forall|i: int| 0 <= i < s.len() ==> is_whitespace(#[trigger] s[i])
}

/// The text stands between white space, and has none at its own ends.
pub open spec fn stands_between(s: Seq<char>, a: Seq<char>, t: Seq<char>, b: Seq<char>) -> bool {
    s == a + t + b && is_blank(a) && is_blank(b) && (t.len() > 0 ==> !is_whitespace(t[0])
        && !is_whitespace(t.last()))
}

proof fn lemma_trim_start(s: Seq<char>) -> (a: Seq<char>)
    ensures
        s == a + trim_start(s),
        is_blank(a),
        trim_start(s).len() > 0 ==> !is_whitespace(trim_start(s)[0]),
    decreases s.len(),
{
    if s.len() > 0 && is_whitespace(s[0]) {
        let rest = lemma_trim_start(s.drop_first());
        let a = seq![s[0]] + rest;
        assert(s =~= seq![s[0]] + s.drop_first());
        assert(s =~= a + trim_start(s.drop_first()));
        assert forall|i: int| 0 <= i < a.len() implies is_whitespace(#[trigger] a[i]) by {
            if i > 0 {
                assert(a[i] == rest[i - 1]);
            }
        }
        a
    } else {
        assert(s =~= Seq::<char>::empty() + s);
        Seq::empty()
    }
}

proof fn lemma_trim_end(s: Seq<char>) -> (b: Seq<char>)
    ensures
        s == trim_end(s) + b,
        is_blank(b),
        trim_end(s).len() > 0 ==> !is_whitespace(trim_end(s).last()),
    decreases s.len(),
{
    if s.len() > 0 && is_whitespace(s.last()) {
        let rest = lemma_trim_end(s.drop_last());
        let b = rest + seq![s.last()];
        assert(s =~= s.drop_last() + seq![s.last()]);
        assert(s =~= trim_end(s.drop_last()) + b);
        assert forall|i: int| 0 <= i < b.len() implies is_whitespace(#[trigger] b[i]) by {
            if i < rest.len() {
                assert(b[i] == rest[i]);
            }
        }
        b
    } else {
        assert(s =~= s + Seq::<char>::empty());
        Seq::empty()
    }
}

/// What is trimmed off a text is the white space at its ends, all of it, and nothing else.
pub proof fn trimming_takes_the_white_space(s: Seq<char>)
    ensures
        exists|a: Seq<char>, b: Seq<char>| #[trigger] stands_between(s, a, trim(s), b),
{
    let a = lemma_trim_start(s);
    let u = trim_start(s);
    let b = lemma_trim_end(u);
    let t = trim_end(u);
    assert(s =~= a + t + b);
    if t.len() > 0 {
        assert(t[0] == u[0]);
    }
    assert(stands_between(s, a, trim(s), b));
}

/// Texts are folded character by character: a capital becomes its small letter, and everything
/// else stays.
pub proof fn letters_are_folded_one_by_one(s: Seq<char>, i: int)
    requires
        0 <= i < s.len(),
    ensures
        ascii_lower(s).len() == s.len(),
        'A' <= s[i] <= 'Z' ==> ascii_lower(s)[i] as int == s[i] as int + ('a' as int - 'A' as int),
        !('A' <= s[i] <= 'Z') ==> ascii_lower(s)[i] == s[i],
{
    let c = s[i];
    if 'A' <= c <= 'Z' {
        assert((c as u8) as int == c as int);
    }
}

/// Slashes are turned one by one, and everything else stays.
pub proof fn slashes_are_turned_one_by_one(s: Seq<char>, i: int)
    requires
        0 <= i < s.len(),
    ensures
        forward_slashes(s).len() == s.len(),
        s[i] == '\\' ==> forward_slashes(s)[i] == '/',
        s[i] != '\\' ==> forward_slashes(s)[i] == s[i],
{
}

proof fn lemma_join_front(first: Seq<char>, rest: Seq<Seq<char>>, sep: Seq<char>)
    requires
        rest.len() > 0,
    ensures
        join(seq![first] + rest, sep) == first + sep + join(rest, sep),
    decreases rest.len(),
{
    let all = seq![first] + rest;
    if rest.len() == 1 {
        assert(all.drop_last() =~= seq![first]);
        assert(join(seq![first], sep) == first);
        assert(all.last() == rest[0]);
    } else {
        lemma_join_front(first, rest.drop_last(), sep);
        assert(all.drop_last() =~= seq![first] + rest.drop_last());
        assert(all.last() == rest.last());
        let inner = join(rest.drop_last(), sep);
        assert((first + sep + inner) + sep + rest.last() =~= first + sep + (inner + sep
            + rest.last()));
    }
}

/// A text is split at each of its separators: no piece has one, and the pieces with the
/// separator between them are the text again.
pub proof fn splitting_is_undone_by_joining(s: Seq<char>, c: char)
    ensures
        split_on(s, c).len() > 0,
        forall|i: int| 0 <= i < split_on(s, c).len() ==> !(#[trigger] split_on(s, c)[i]).contains(c),
        join(split_on(s, c), seq![c]) == s,
    decreases s.len(),
{
    lemma_first_index(s, c);
    let n = crate::text::first_index(s, c);
    let all = split_on(s, c);
    if n < s.len() {
        let rest = s.skip(n + 1);
        splitting_is_undone_by_joining(rest, c);
        let tail = split_on(rest, c);
        assert(all == seq![s.take(n)] + tail);
        lemma_join_front(s.take(n), tail, seq![c]);
        assert(s =~= s.take(n) + seq![c] + rest);
        assert forall|i: int| 0 <= i < all.len() implies !(#[trigger] all[i]).contains(c) by {
            if i == 0 {
                assert forall|k: int| 0 <= k < n implies s.take(n)[k] != c by {}
            } else {
                assert(all[i] == tail[i - 1]);
            }
        }
    } else {
        assert(all == seq![s]);
        assert(!s.contains(c));
    }
}

/// A text is read line by line: a line goes up to the next line feed, without a carriage return
/// before it, and what follows is read in the same way.
pub proof fn texts_are_read_line_by_line(a: Seq<char>, b: Seq<char>)
    requires
        !a.contains('\n'),
    ensures
        lines(Seq::empty()).len() == 0,
        a.len() > 0 ==> lines(a) == seq![a],
        lines(a + seq!['\n'] + b) == seq![
            if a.len() > 0 && a.last() == '\r' {
                a.drop_last()
            } else {
                a
            },
        ] + lines(b),
{
    let s = a + seq!['\n'] + b;
    assert forall|i: int| 0 <= i < a.len() implies s[i] != '\n' by {
        assert(a.contains(a[i]));
    }
    assert(s[a.len() as int] == '\n');
    crate::text::lemma_first_index_unique(s, '\n', a.len() as int);
    assert(s.take(a.len() as int) =~= a);
    assert(s.skip(a.len() as int + 1) =~= b);
    if a.len() > 0 {
        assert forall|i: int| 0 <= i < a.len() implies a[i] != '\n' by {
            assert(a.contains(a[i]));
        }
        crate::text::lemma_first_index_unique(a, '\n', a.len() as int);
    }
}

/// Wide text is written character by character, two bytes for each in the basic plane and four
/// for any other, the low byte of a word first.
pub proof fn wide_texts_are_written_character_by_character(a: Seq<char>, b: Seq<char>, c: char)
    ensures
        wide_bytes(a + b) == wide_bytes(a) + wide_bytes(b),
        wide_bytes(seq![c]) == wide_char(c),
        (c as u32) < 0x10000 ==> wide_char(c).len() == 2 && wide_char(c)[0] + 256 * wide_char(c)[1]
            == c as u32,
        (c as u32) >= 0x10000 ==> wide_char(c).len() == 4,
    decreases b.len(),
{
    let one = seq![c];
    assert(one.drop_last() =~= Seq::<char>::empty());
    assert(wide_bytes(one.drop_last()) + wide_char(c) =~= wide_char(c));
    if b.len() == 0 {
        assert(a + b =~= a);
        assert(wide_bytes(a) + wide_bytes(b) =~= wide_bytes(a));
    } else {
        let rest = b.drop_last();
        wide_texts_are_written_character_by_character(a, rest, c);
        assert((a + b).drop_last() =~= a + rest);
        assert(wide_bytes(a + b) =~= wide_bytes(a) + wide_bytes(b));
    }
}

proof fn lemma_last_index(s: Seq<char>, c: char)
    ensures
        -1 <= crate::paths::last_index(s, c) < s.len(),
        crate::paths::last_index(s, c) >= 0 ==> s[crate::paths::last_index(s, c)] == c,
        forall|i: int| crate::paths::last_index(s, c) < i < s.len() ==> s[i] != c,
    decreases s.len(),
{
    if s.len() > 0 && s.last() != c {
        let rest = s.drop_last();
        lemma_last_index(rest, c);
        let n = crate::paths::last_index(rest, c);
        assert forall|i: int| n < i < s.len() implies s[i] != c by {
            if i < rest.len() {
                assert(rest[i] == s[i]);
            }
        }
    }
}

/// A name with an extension is its stem, a dot and the extension, which has no dot. A dot that
/// stands first makes none.
pub proof fn names_have_a_stem_and_an_extension(platform: Platform, p: Seq<char>)
    ensures
        stem(platform, p) is Some <==> file_name(platform, p) is Some,
        extension(platform, p) is Some ==> file_name(platform, p) is Some,
        extension(platform, p) matches Some(ext) ==> {
            let name = file_name(platform, p)->0;
            &&& stem(platform, p)->0.len() > 0
            &&& name == stem(platform, p)->0 + seq!['.'] + ext
            &&& !ext.contains('.')
        },
        extension(platform, p) is None ==> (file_name(platform, p) matches Some(name) ==> stem(
            platform,
            p,
        ) == Some(name) && forall|i: int| 0 < i < name.len() ==> #[trigger] name[i] != '.'),
{
    if let Some(name) = file_name(platform, p) {
        lemma_last_index(name, '.');
        let n = crate::paths::last_index(name, '.');
        if n > 0 {
            assert(name =~= name.take(n) + seq!['.'] + name.skip(n + 1));
            let ext = name.skip(n + 1);
            assert forall|i: int| 0 <= i < ext.len() implies ext[i] != '.' by {
                assert(ext[i] == name[n + 1 + i]);
            }
        }
    }
}

/// On POSIX a path is absolute exactly where it starts with a slash. Joining keeps an absolute
/// path as it is, and puts any other behind the base and one slash.
pub proof fn posix_paths_are_joined_with_a_slash(base: Seq<char>, rel: Seq<char>)
    ensures
        is_absolute(Platform::Posix, rel) <==> rel.len() > 0 && rel[0] == '/',
        is_absolute(Platform::Posix, rel) ==> join_path(Platform::Posix, base, rel) == rel,
        !is_absolute(Platform::Posix, rel) && base.len() > 0 && base.last() != '/' ==> join_path(
            Platform::Posix,
            base,
            rel,
        ) == base + seq!['/'] + rel,
        !is_absolute(Platform::Posix, rel) && base.len() > 0 && base.last() == '/' ==> join_path(
            Platform::Posix,
            base,
            rel,
        ) == base + rel,
        base.len() == 0 ==> join_path(Platform::Posix, base, rel) == rel,
{
}

/// The name is one that a POSIX directory can hold.
pub open spec fn is_posix_name(name: Seq<char>) -> bool {
    name.len() > 0 && name != seq!['.'] && name != seq!['.', '.'] && !name.contains('/')
}

/// The path ends in a name: neither in a slash nor in a dot that stands for the directory.
pub open spec fn ends_in_name(dir: Seq<char>) -> bool {
    split_on(dir, '/').last().len() > 0 && split_on(dir, '/').last() != seq!['.']
}

/// On POSIX the directory and the name of a joined path are those that were joined.
pub proof fn posix_paths_are_taken_apart(dir: Seq<char>, name: Seq<char>)
    requires
        ends_in_name(dir),
        is_posix_name(name),
    ensures
        parent(Platform::Posix, join_path(Platform::Posix, dir, name)) == Some(dir),
        file_name(Platform::Posix, join_path(Platform::Posix, dir, name)) == Some(name),
{
    splitting_is_undone_by_joining(dir, '/');
    let pieces = split_on(dir, '/');
    assert(dir.len() > 0 && dir.last() != '/') by {
        if pieces.len() == 1 {
            assert(join(pieces, seq!['/']) == pieces[0]);
            assert(dir == pieces[0]);
        } else {
            assert(dir.last() == pieces.last().last());
        }
        let last = pieces.last();
        assert(!last.contains('/'));
        assert(last.contains(last.last()));
    }
    assert(name.contains(name[0]));
    let p = join_path(Platform::Posix, dir, name);
    assert(p == dir + seq!['/'] + name);
    lemma_split_concat(dir, name, '/');
    assert forall|i: int| 0 <= i < name.len() implies name[i] != '/' by {
        assert(name.contains(name[i]));
    }
    crate::text::lemma_first_index_unique(name, '/', name.len() as int);
    assert(split_on(name, '/') == seq![name]);
    let ps = split_on(p, '/');
    assert(ps == pieces + seq![name]);
    assert(ps.last() == name);
    assert(ps.drop_last() =~= pieces);
    assert(significant_pieces(ps) == significant_pieces(pieces).push(name));
    assert(parts(Platform::Posix, p).last() == name);
    let n = pieces.len() as int;
    assert(ps.take(n) =~= pieces);
    assert(last_kept(false, ps) == n);
    assert(last_kept(false, pieces) == n - 1);
    assert(ps.skip(n) =~= seq![name]);
    assert(joined_length(seq![name]) == name.len());
    assert(p.take(dir.len() as int) =~= dir);
}

/// On POSIX a path is shown as it is unless it is below the home directory; then it starts at
/// the sign for it.
pub proof fn posix_paths_are_shown_from_home(p: Seq<char>, home: Seq<char>)
    ensures
        !is_below(Platform::Posix, p, home) ==> display_path(Platform::Posix, p, home) == p,
        is_below(Platform::Posix, p, home) ==> display_path(Platform::Posix, p, home).len() > 0
            && (display_path(Platform::Posix, p, home)[0] == '~' || is_absolute(
            Platform::Posix,
            display_path(Platform::Posix, p, home),
        )),
        is_below(Platform::Posix, p, home) <==> parts(Platform::Posix, home).len() <= parts(
            Platform::Posix,
            p,
        ).len() && forall|i: int|
            0 <= i < parts(Platform::Posix, home).len() ==> #[trigger] parts(
                Platform::Posix,
                home,
            )[i] == parts(Platform::Posix, p)[i],
{
    reveal_strlit("~");
    let a = parts(Platform::Posix, home);
    let b = parts(Platform::Posix, p);
    if a.len() <= b.len() && forall|i: int| 0 <= i < a.len() ==> #[trigger] a[i] == b[i] {
        assert(b.take(a.len() as int) =~= a);
    }
    if is_below(Platform::Posix, p, home) {
        assert forall|i: int| 0 <= i < a.len() implies #[trigger] a[i] == b[i] by {
            assert(b.take(a.len() as int)[i] == b[i]);
        }
    }
}

} // verus!

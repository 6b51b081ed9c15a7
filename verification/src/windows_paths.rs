//! How Windows takes paths apart.
//!
//! A path may start with a prefix: a drive, `C:`; a share, `\\server\share`; a device,
//! `\\.\name`; or, in the extended form that `\\?\` marks, a drive, a share behind `UNC\`, or
//! any other name. Elsewhere `/` separates as `\` does, but in the extended form only `\`
//! separates, and a `.` is a part like any other. The letter of a drive counts in either case.

use vstd::prelude::*;

use crate::paths::{
    dot, is_rooted, joined_length, lemma_significant_concat, lemma_skipped_length,
    lemma_split_concat, lemma_split_length, lemma_split_nonempty, plain_join, significant, significant_pieces, two_dots,
};
use crate::text::{
    chars_of, first_index, forward_slashes, is_ascii_letter, is_letter_char, join, join_texts,
    lemma_first_index, lemma_first_index_unique, lemma_texts_push, same, split_on, split_text,
    text_between, texts, with_forward_slashes,
};

verus! {

/// What a Windows path starts with.
#[derive(Debug, Clone, Copy, PartialEq, Eq, Structural)]
pub enum Prefix {
    Nothing,
    Drive,
    Device,
    Share,
    Extended,
    ExtendedDrive,
    ExtendedShare,
}

pub open spec fn back() -> Seq<char> {
    seq!['\\']
}

/// A text starts with a drive, as in `C:`.
pub open spec fn has_drive(q: Seq<char>) -> bool {
    q.len() >= 2 && is_ascii_letter(q[0]) && q[1] == ':'
}

/// A piece of an extended path that is a drive, and nothing but a root may follow it.
pub open spec fn is_exact_drive(piece: Seq<char>) -> bool {
    has_drive(piece) && (piece.len() == 2 || piece[2] == '/')
}

/// The path has the extended form: it starts with `\\?\`.
pub open spec fn is_extended(p: Seq<char>) -> bool {
    p.len() >= 4 && p[0] == '\\' && p[1] == '\\' && p[2] == '?' && p[3] == '\\'
}

/// The pieces between the separators, those of the prefix first.
pub open spec fn all_pieces(p: Seq<char>) -> Seq<Seq<char>> {
    if is_extended(p) {
        split_on(p, '\\')
    } else {
        split_on(forward_slashes(p), '/')
    }
}

/// The first two pieces are empty: the path starts with two separators.
pub open spec fn starts_double(ps: Seq<Seq<char>>) -> bool {
    ps.len() >= 3 && ps[0].len() == 0 && ps[1].len() == 0
}

pub open spec fn prefix_kind(p: Seq<char>) -> Prefix {
    let ps = all_pieces(p);
    if is_extended(p) {
        if ps.len() >= 5 && ps[3] == seq!['U', 'N', 'C'] {
            Prefix::ExtendedShare
        } else if is_exact_drive(ps[3]) {
            Prefix::ExtendedDrive
        } else {
            Prefix::Extended
        }
    } else if starts_double(ps) && ps.len() >= 4 && ps[2] == dot() {
        Prefix::Device
    } else if starts_double(ps) && ps.len() >= 4 && ps[2].len() > 0 && ps[3].len() > 0 {
        Prefix::Share
    } else if has_drive(p) {
        Prefix::Drive
    } else {
        Prefix::Nothing
    }
}

/// How many pieces the prefix takes; a drive takes none.
pub open spec fn prefix_count(p: Seq<char>) -> int {
    let ps = all_pieces(p);
    match prefix_kind(p) {
        Prefix::Nothing | Prefix::Drive => 0,
        Prefix::ExtendedShare => if ps.len() >= 6 && ps[5].len() > 0 {
            6
        } else {
            5
        },
        _ => 4,
    }
}

pub open spec fn drive_letter(c: char) -> char {
    if 'a' <= c <= 'z' {
        ((c as u8) - 32) as u8 as char
    } else {
        c
    }
}

/// The part that stands for the prefix. No name is like it, because it holds a `\`.
pub open spec fn prefix_part(p: Seq<char>) -> Seq<char> {
    let ps = all_pieces(p);
    match prefix_kind(p) {
        Prefix::Nothing => Seq::empty(),
        Prefix::Drive => seq![drive_letter(p[0]), ':', '\\'],
        Prefix::Share => join(ps.take(4), back()) + back(),
        Prefix::ExtendedDrive => join(
            ps.take(3).push(seq![drive_letter(ps[3][0]), ':']),
            back(),
        ),
        _ => join(ps.take(prefix_count(p)), back()),
    }
}

/// The prefix as it is written.
pub open spec fn prefix_text(p: Seq<char>) -> Seq<char> {
    let ps = all_pieces(p);
    match prefix_kind(p) {
        Prefix::Nothing => Seq::empty(),
        Prefix::Drive => p.take(2),
        Prefix::Device | Prefix::Share => p.take((3 + ps[2].len() + ps[3].len()) as int),
        Prefix::ExtendedDrive => join(ps.take(3).push(ps[3].take(2)), back()),
        _ => join(ps.take(prefix_count(p)), back()),
    }
}

/// The pieces behind the prefix.
pub open spec fn body(p: Seq<char>) -> Seq<Seq<char>> {
    let ps = all_pieces(p);
    match prefix_kind(p) {
        Prefix::Nothing => ps,
        Prefix::Drive => split_on(forward_slashes(p).skip(2), '/'),
        Prefix::ExtendedDrive => if ps[3].len() == 2 {
            ps.skip(4)
        } else {
            seq![ps[3].skip(3)] + ps.skip(4)
        },
        _ => ps.skip(prefix_count(p)),
    }
}

/// A root follows the prefix. A share and a device always have one.
pub open spec fn has_root(p: Seq<char>) -> bool {
    let ps = all_pieces(p);
    match prefix_kind(p) {
        Prefix::Nothing => is_rooted(forward_slashes(p)),
        Prefix::Drive => is_rooted(forward_slashes(p).skip(2)),
        Prefix::Device | Prefix::Share => true,
        Prefix::ExtendedDrive => ps[3].len() > 2 || ps.len() > 4,
        _ => ps.len() > prefix_count(p),
    }
}

/// The pieces that are not empty.
pub open spec fn solid_pieces(pieces: Seq<Seq<char>>) -> Seq<Seq<char>>
    decreases pieces.len(),
{
    if pieces.len() == 0 {
        Seq::empty()
    } else if pieces.last().len() > 0 {
        solid_pieces(pieces.drop_last()).push(pieces.last())
    } else {
        solid_pieces(pieces.drop_last())
    }
}

pub open spec fn windows_absolute(p: Seq<char>) -> bool {
    prefix_kind(p) != Prefix::Nothing && (prefix_kind(p) != Prefix::Drive || has_root(p))
}

/// Where a path starts from: its prefix, then its root or its leading `.`.
pub open spec fn windows_anchor(p: Seq<char>) -> Seq<Seq<char>> {
    let start = if prefix_kind(p) == Prefix::Nothing {
        Seq::empty()
    } else {
        seq![prefix_part(p)]
    };
    if has_root(p) {
        start.push(back())
    } else if prefix_kind(p) == Prefix::Nothing && body(p)[0] == dot() {
        start.push(dot())
    } else {
        start
    }
}

pub open spec fn windows_parts(p: Seq<char>) -> Seq<Seq<char>> {
    windows_anchor(p) + (if is_extended(p) {
        solid_pieces(body(p))
    } else {
        significant_pieces(body(p))
    })
}

/// A part that names an entry of a directory.
pub open spec fn windows_name(part: Seq<char>) -> bool {
    part != dot() && part != two_dots() && !part.contains('\\')
}

/// The parts that lead from `start` along `steps`.
pub open spec fn walked(start: Seq<Seq<char>>, steps: Seq<Seq<char>>) -> Seq<Seq<char>>
    decreases steps.len(),
{
    if steps.len() == 0 {
        start
    } else {
        let here = walked(start, steps.drop_last());
        let step = steps.last();
        if step == back() {
            here.take(1).push(step)
        } else if step == dot() {
            here
        } else if step == two_dots() {
            if here.len() > 0 && windows_name(here.last()) {
                here.drop_last()
            } else {
                here
            }
        } else {
            here.push(step)
        }
    }
}

/// What is written behind an extended prefix for these parts.
pub open spec fn extended_tail(names: Seq<Seq<char>>) -> Seq<char> {
    if names.len() == 0 {
        Seq::empty()
    } else if names[0] == back() {
        back() + join(names.drop_first(), back())
    } else {
        back() + join(names, back())
    }
}

pub open spec fn is_separator(c: char) -> bool {
    c == '/' || c == '\\'
}

/// The path `rel` seen from `base`. A path with a prefix replaces the base, and a rooted one
/// all of it but its prefix. A base in the extended form is walked along, so that no `.` and
/// `..` of `rel` are left.
pub open spec fn windows_join(base: Seq<char>, rel: Seq<char>) -> Seq<char> {
    if prefix_kind(rel) != Prefix::Nothing || base.len() == 0 {
        rel
    } else if is_extended(base) && rel.len() > 0 {
        prefix_text(base) + extended_tail(
            walked(windows_parts(base), windows_parts(rel)).skip(1),
        )
    } else if has_root(rel) {
        prefix_text(base) + rel
    } else if is_separator(base.last()) || (base.len() == 2 && has_drive(base)) {
        base + rel
    } else {
        base + back() + rel
    }
}

/// Where the root or the leading `.` is written among the pieces behind the prefix.
pub open spec fn leads_in_body(p: Seq<char>) -> bool {
    match prefix_kind(p) {
        Prefix::Nothing => windows_anchor(p).len() > 0,
        Prefix::Drive => has_root(p),
        _ => false,
    }
}

/// A prefix of the path is not still to come: joining a name to the path cannot make one.
pub open spec fn windows_settled(p: Seq<char>) -> bool {
    let ps = all_pieces(p);
    match prefix_kind(p) {
        Prefix::ExtendedShare => prefix_count(p) == 6,
        Prefix::ExtendedDrive => true,
        Prefix::Extended => ps[3] != seq!['U', 'N', 'C'],
        _ => !(starts_double(ps) && (ps.len() == 3 || (ps.len() == 4 && ps[2].len() > 0
            && ps[3].len() == 0))),
    }
}

/// Joining a name writes the root that the path has not.
pub open spec fn lacks_root(p: Seq<char>) -> bool {
    is_extended(p) && !has_root(p)
}

/// The parts that come before those of a joined name.
pub open spec fn windows_base_parts(p: Seq<char>) -> Seq<Seq<char>> {
    if lacks_root(p) {
        windows_parts(p).push(back())
    } else {
        windows_parts(p)
    }
}

fn drive_at(chars: &Vec<char>) -> (r: bool)
    ensures
        r == has_drive(chars@),
{
    chars.len() >= 2 && is_letter_char(chars[0]) && chars[1] == ':'
}

fn extended_form(chars: &Vec<char>) -> (r: bool)
    ensures
        r == is_extended(chars@),
{
    chars.len() >= 4 && chars[0] == '\\' && chars[1] == '\\' && chars[2] == '?' && chars[3] == '\\'
}

proof fn lemma_extended_pieces(p: Seq<char>)
    requires
        is_extended(p),
    ensures
        split_on(p, '\\').len() >= 4,
        split_on(p, '\\')[0].len() == 0,
        split_on(p, '\\')[1].len() == 0,
        split_on(p, '\\')[2] == seq!['?'],
{
    let e = Seq::<char>::empty();
    let rest = p.skip(4);
    assert(p =~= e + seq!['\\'] + p.skip(1));
    lemma_split_concat(e, p.skip(1), '\\');
    assert(p.skip(1) =~= e + seq!['\\'] + p.skip(2));
    lemma_split_concat(e, p.skip(2), '\\');
    assert(p.skip(2) =~= seq!['?'] + seq!['\\'] + rest);
    lemma_split_concat(seq!['?'], rest, '\\');
    lemma_split_nonempty(rest, '\\');
    assert(first_index(e, '\\') == 0);
    assert(split_on(e, '\\') =~= seq![e]);
    lemma_first_index_unique(seq!['?'], '\\', 1);
    assert(split_on(seq!['?'], '\\') =~= seq![seq!['?']]);
}

/// What a path starts with, and all its pieces.
pub(crate) fn taken_apart(p: &str) -> (r: (Prefix, Vec<String>))
    ensures
        r.0 == prefix_kind(p@),
        texts(r.1@) == all_pieces(p@),
{
    let chars = chars_of(p);
    if extended_form(&chars) {
        let list = split_text(p, '\\');
        proof {
            lemma_extended_pieces(p@);
            assert(texts(list@).len() == list@.len());
            assert(texts(list@)[3] == list@[3]@);
        }
        let third = chars_of(list[3].as_str());
        let unc = third.len() == 3 && third[0] == 'U' && third[1] == 'N' && third[2] == 'C';
        proof {
            if unc {
                assert(third@ =~= seq!['U', 'N', 'C']);
            }
        }
        if list.len() >= 5 && unc {
            return (Prefix::ExtendedShare, list);
        }
        if drive_at(&third) && (third.len() == 2 || third[2] == '/') {
            return (Prefix::ExtendedDrive, list);
        }
        return (Prefix::Extended, list);
    }
    let list = split_text(with_forward_slashes(p).as_str(), '/');
    proof {
        assert(texts(list@).len() == list@.len());
    }
    if list.len() >= 4 {
        proof {
            assert(texts(list@)[0] == list@[0]@ && texts(list@)[1] == list@[1]@);
            assert(texts(list@)[2] == list@[2]@ && texts(list@)[3] == list@[3]@);
        }
        if chars_of(list[0].as_str()).len() == 0 && chars_of(list[1].as_str()).len() == 0 {
            let second = chars_of(list[2].as_str());
            let lone_dot = second.len() == 1 && second[0] == '.';
            proof {
                if lone_dot {
                    assert(second@ =~= dot());
                }
            }
            if lone_dot {
                return (Prefix::Device, list);
            }
            if second.len() > 0 && chars_of(list[3].as_str()).len() > 0 {
                return (Prefix::Share, list);
            }
        }
    }
    if drive_at(&chars) {
        (Prefix::Drive, list)
    } else {
        (Prefix::Nothing, list)
    }
}

fn count_of(kind: Prefix, list: &Vec<String>, Ghost(p): Ghost<Seq<char>>) -> (r: usize)
    requires
        kind == prefix_kind(p),
        texts(list@) == all_pieces(p),
    ensures
        r == prefix_count(p),
{
    proof {
        assert(texts(list@).len() == list@.len());
    }
    match kind {
        Prefix::Nothing | Prefix::Drive => 0,
        Prefix::ExtendedShare => {
            if list.len() >= 6 {
                proof {
                    assert(texts(list@)[5] == list@[5]@);
                }
                if chars_of(list[5].as_str()).len() > 0 {
                    return 6;
                }
            }
            5
        },
        _ => 4,
    }
}

fn upper_letter(c: char) -> (r: char)
    ensures
        r == drive_letter(c),
{
    if 'a' <= c && c <= 'z' {
        let v: u8 = c as u8;
        (v - 32) as char
    } else {
        c
    }
}

fn back_text() -> (r: String)
    ensures
        r@ == back(),
{
    let mut r = String::new();
    r.push('\\');
    proof {
        assert(r@ =~= back());
    }
    r
}

/// The pieces from `from` up to `to`.
fn some_pieces(list: &Vec<String>, from: usize, to: usize) -> (r: Vec<String>)
    requires
        from <= to <= list@.len(),
    ensures
        texts(r@) == texts(list@).subrange(from as int, to as int),
{
    let mut out: Vec<String> = Vec::new();
    let mut i: usize = from;
    proof {
        assert(texts(out@) =~= texts(list@).subrange(from as int, from as int));
    }
    while i < to
        invariant
            from <= i <= to <= list@.len(),
            texts(out@) == texts(list@).subrange(from as int, i as int),
        decreases to - i,
    {
        proof {
            lemma_texts_push(out@, list@[i as int]);
            assert(texts(list@).subrange(from as int, i as int + 1) =~= texts(list@).subrange(
                from as int,
                i as int,
            ).push(list@[i as int]@));
        }
        out.push(list[i].clone());
        i = i + 1;
    }
    out
}

proof fn lemma_counts(p: Seq<char>)
    ensures
        0 <= prefix_count(p) <= all_pieces(p).len(),
        all_pieces(p).len() >= 1,
        prefix_kind(p) == Prefix::ExtendedDrive ==> all_pieces(p).len() >= 4,
{
    if is_extended(p) {
        lemma_extended_pieces(p);
    } else {
        lemma_split_nonempty(forward_slashes(p), '/');
    }
}

proof fn lemma_written_prefix_fits(q: Seq<char>)
    requires
        split_on(q, '/').len() >= 4,
        split_on(q, '/')[0].len() == 0,
        split_on(q, '/')[1].len() == 0,
    ensures
        3 + split_on(q, '/')[2].len() + split_on(q, '/')[3].len() <= q.len(),
{
    let all = split_on(q, '/');
    lemma_first_index(q, '/');
    let q1 = q.skip(first_index(q, '/') + 1);
    assert(all.drop_first() =~= split_on(q1, '/'));
    assert(all[1] == split_on(q1, '/')[0]);
    lemma_first_index(q1, '/');
    let q2 = q1.skip(first_index(q1, '/') + 1);
    assert(split_on(q1, '/').drop_first() =~= split_on(q2, '/'));
    assert(all[2] == split_on(q2, '/')[0] && all[3] == split_on(q2, '/')[1]);
    lemma_first_index(q2, '/');
    let q3 = q2.skip(first_index(q2, '/') + 1);
    assert(split_on(q2, '/').drop_first() =~= split_on(q3, '/'));
    assert(all[3] == split_on(q3, '/')[0]);
    lemma_first_index(q3, '/');
}

/// The prefix of a path as it is written.
pub(crate) fn written_prefix(p: &str) -> (r: String)
    ensures
        r@ == prefix_text(p@),
{
    let (kind, list) = taken_apart(p);
    let n: usize = count_of(kind, &list, Ghost(p@));
    let chars = chars_of(p);
    proof {
        lemma_counts(p@);
        assert(texts(list@).len() == list@.len());
    }
    match kind {
        Prefix::Nothing => {
            let r = String::new();
            proof {
                assert(r@ =~= Seq::empty());
            }
            r
        },
        Prefix::Drive => {
            proof {
                assert(p@.subrange(0, 2) =~= p@.take(2));
            }
            text_between(&chars, 0, 2)
        },
        Prefix::Device | Prefix::Share => {
            let total: usize = chars.len();
            proof {
                lemma_written_prefix_fits(forward_slashes(p@));
                assert(texts(list@)[2] == list@[2]@ && texts(list@)[3] == list@[3]@);
                assert(forward_slashes(p@).len() == total);
            }
            let end: usize = 3 + chars_of(list[2].as_str()).len() + chars_of(
                list[3].as_str(),
            ).len();
            proof {
                assert(p@.subrange(0, end as int) =~= p@.take(end as int));
            }
            text_between(&chars, 0, end)
        },
        Prefix::ExtendedDrive => {
            let mut head = some_pieces(&list, 0, 3);
            proof {
                assert(texts(list@)[3] == list@[3]@);
            }
            let third = chars_of(list[3].as_str());
            let drive = text_between(&third, 0, 2);
            proof {
                assert(drive@ =~= all_pieces(p@)[3].take(2));
                lemma_texts_push(head@, drive);
                assert(texts(list@).subrange(0, 3) =~= all_pieces(p@).take(3));
            }
            head.push(drive);
            join_texts(&head, back_text().as_str())
        },
        _ => {
            let head = some_pieces(&list, 0, n);
            proof {
                assert(texts(list@).subrange(0, n as int) =~= all_pieces(p@).take(n as int));
            }
            join_texts(&head, back_text().as_str())
        },
    }
}

fn part_of_prefix(p: &str, kind: Prefix, list: &Vec<String>) -> (r: String)
    requires
        kind == prefix_kind(p@),
        kind != Prefix::Nothing,
        texts(list@) == all_pieces(p@),
    ensures
        r@ == prefix_part(p@),
{
    let n: usize = count_of(kind, list, Ghost(p@));
    let chars = chars_of(p);
    proof {
        lemma_counts(p@);
        assert(texts(list@).len() == list@.len());
    }
    match kind {
        Prefix::Nothing => String::new(),
        Prefix::Drive => {
            let mut r = String::new();
            r.push(upper_letter(chars[0]));
            r.push(':');
            r.push('\\');
            proof {
                assert(r@ =~= prefix_part(p@));
            }
            r
        },
        Prefix::ExtendedDrive => {
            let mut head = some_pieces(list, 0, 3);
            proof {
                assert(texts(list@)[3] == list@[3]@);
            }
            let third = chars_of(list[3].as_str());
            let mut drive = String::new();
            drive.push(upper_letter(third[0]));
            drive.push(':');
            proof {
                assert(drive@ =~= seq![drive_letter(all_pieces(p@)[3][0]), ':']);
                lemma_texts_push(head@, drive);
                assert(texts(list@).subrange(0, 3) =~= all_pieces(p@).take(3));
            }
            head.push(drive);
            join_texts(&head, back_text().as_str())
        },
        _ => {
            let head = some_pieces(list, 0, n);
            proof {
                assert(texts(list@).subrange(0, n as int) =~= all_pieces(p@).take(n as int));
            }
            let mut r = join_texts(&head, back_text().as_str());
            if kind == Prefix::Share {
                r.append(back_text().as_str());
            }
            r
        },
    }
}

fn rooted(p: &str, kind: Prefix, list: &Vec<String>) -> (r: bool)
    requires
        kind == prefix_kind(p@),
        texts(list@) == all_pieces(p@),
    ensures
        r == has_root(p@),
{
    let n: usize = count_of(kind, list, Ghost(p@));
    let chars = chars_of(p);
    proof {
        lemma_counts(p@);
        assert(texts(list@).len() == list@.len());
    }
    match kind {
        Prefix::Nothing => chars.len() > 0 && (chars[0] == '/' || chars[0] == '\\'),
        Prefix::Drive => chars.len() > 2 && (chars[2] == '/' || chars[2] == '\\'),
        Prefix::Device | Prefix::Share => true,
        Prefix::ExtendedDrive => {
            proof {
                assert(texts(list@)[3] == list@[3]@);
            }
            chars_of(list[3].as_str()).len() > 2 || list.len() > 4
        },
        _ => list.len() > n,
    }
}

fn body_of(p: &str, kind: Prefix, list: &Vec<String>) -> (r: Vec<String>)
    requires
        kind == prefix_kind(p@),
        texts(list@) == all_pieces(p@),
    ensures
        texts(r@) == body(p@),
{
    let n: usize = count_of(kind, list, Ghost(p@));
    proof {
        lemma_counts(p@);
        assert(texts(list@).len() == list@.len());
    }
    match kind {
        Prefix::Drive => {
            let q = with_forward_slashes(p);
            let chars = chars_of(q.as_str());
            let tail = text_between(&chars, 2, chars.len());
            proof {
                assert(tail@ =~= forward_slashes(p@).skip(2));
            }
            split_text(tail.as_str(), '/')
        },
        Prefix::ExtendedDrive => {
            proof {
                assert(texts(list@)[3] == list@[3]@);
            }
            let third = chars_of(list[3].as_str());
            let rest = some_pieces(list, 4, list.len());
            proof {
                assert(texts(list@).subrange(4, list@.len() as int) =~= all_pieces(p@).skip(4));
            }
            if third.len() == 2 {
                return rest;
            }
            let first = text_between(&third, 3, third.len());
            let mut out = rest;
            let ghost before = out@;
            out.insert(0, first);
            proof {
                assert(first@ =~= all_pieces(p@)[3].skip(3));
                assert(texts(out@) =~= seq![first@] + texts(before));
            }
            out
        },
        _ => {
            let rest = some_pieces(list, n, list.len());
            proof {
                assert(texts(list@).subrange(n as int, list@.len() as int) =~= all_pieces(
                    p@,
                ).skip(n as int));
                assert(all_pieces(p@).skip(0) =~= all_pieces(p@));
            }
            rest
        },
    }
}

/// Whether a Windows path names its place without a current directory.
pub(crate) fn is_windows_absolute(p: &str) -> (r: bool)
    ensures
        r == windows_absolute(p@),
{
    let (kind, list) = taken_apart(p);
    kind != Prefix::Nothing && (kind != Prefix::Drive || rooted(p, kind, &list))
}

fn counts_as_part(piece: &str, extended: bool) -> (r: bool)
    ensures
        r == (if extended {
            piece@.len() > 0
        } else {
            significant(piece@)
        }),
{
    let chars = chars_of(piece);
    let lone_dot = chars.len() == 1 && chars[0] == '.';
    proof {
        if lone_dot {
            assert(piece@ =~= dot());
        }
    }
    chars.len() > 0 && (extended || !lone_dot)
}

/// The parts of a Windows path.
pub(crate) fn windows_parts_of(p: &str) -> (r: Vec<String>)
    ensures
        texts(r@) == windows_parts(p@),
{
    let (kind, list) = taken_apart(p);
    let rest = body_of(p, kind, &list);
    let extended = extended_form(&chars_of(p));
    let mut out: Vec<String> = Vec::new();
    proof {
        assert(texts(out@) =~= Seq::empty());
        assert(texts(rest@).len() == rest@.len());
    }
    if kind != Prefix::Nothing {
        let part = part_of_prefix(p, kind, &list);
        proof {
            lemma_texts_push(out@, part);
            assert(Seq::<Seq<char>>::empty().push(part@) =~= seq![prefix_part(p@)]);
        }
        out.push(part);
    }
    let ghost start = texts(out@);
    if rooted(p, kind, &list) {
        let root = back_text();
        proof {
            lemma_texts_push(out@, root);
        }
        out.push(root);
    } else if kind == Prefix::Nothing {
        proof {
            lemma_counts(p@);
            assert(texts(rest@)[0] == rest@[0]@);
        }
        let first = chars_of(rest[0].as_str());
        if first.len() == 1 && first[0] == '.' {
            let here = rest[0].clone();
            proof {
                assert(here@ =~= dot());
                lemma_texts_push(out@, here);
            }
            out.push(here);
        }
    }
    let ghost head = windows_anchor(p@);
    proof {
        assert(texts(out@) == head);
        assert(texts(rest@.take(0)) =~= Seq::empty());
        assert(head + Seq::<Seq<char>>::empty() =~= head);
    }
    let mut i: usize = 0;
    while i < rest.len()
        invariant
            i <= rest@.len(),
            texts(out@) == head + (if extended {
                solid_pieces(texts(rest@.take(i as int)))
            } else {
                significant_pieces(texts(rest@.take(i as int)))
            }),
        decreases rest@.len() - i,
    {
        let ghost before = out@;
        proof {
            let more = texts(rest@.take(i as int + 1));
            assert(more.drop_last() =~= texts(rest@.take(i as int)));
            assert(more.last() == rest@[i as int]@);
        }
        if counts_as_part(rest[i].as_str(), extended) {
            proof {
                lemma_texts_push(out@, rest@[i as int]);
            }
            out.push(rest[i].clone());
            proof {
                assert(texts(out@) =~= texts(before).push(rest@[i as int]@));
                if extended {
                    assert(texts(out@) =~= head + solid_pieces(texts(rest@.take(i as int + 1))));
                } else {
                    assert(texts(out@) =~= head + significant_pieces(
                        texts(rest@.take(i as int + 1)),
                    ));
                }
            }
        }
        i = i + 1;
    }
    proof {
        assert(rest@.take(rest@.len() as int) =~= rest@);
    }
    out
}

fn holds_back(part: &str) -> (r: bool)
    ensures
        r == part@.contains('\\'),
{
    let chars = chars_of(part);
    let mut i: usize = 0;
    while i < chars.len()
        invariant
            i <= chars@.len(),
            chars@ == part@,
            forall|j: int| 0 <= j < i ==> chars@[j] != '\\',
        decreases chars@.len() - i,
    {
        if chars[i] == '\\' {
            proof {
                assert(part@[i as int] == '\\');
            }
            return true;
        }
        i = i + 1;
    }
    false
}

fn is_dots(part: &str) -> (r: (bool, bool))
    ensures
        r.0 == (part@ == dot()),
        r.1 == (part@ == two_dots()),
{
    let chars = chars_of(part);
    let one = chars.len() == 1 && chars[0] == '.';
    let two = chars.len() == 2 && chars[0] == '.' && chars[1] == '.';
    proof {
        if one {
            assert(part@ =~= dot());
        }
        if two {
            assert(part@ =~= two_dots());
        }
    }
    (one, two)
}

pub(crate) fn is_windows_name(part: &str) -> (r: bool)
    ensures
        r == windows_name(part@),
{
    let (one, two) = is_dots(part);
    !one && !two && !holds_back(part)
}

/// Whether a part is a root or a prefix.
pub(crate) fn is_windows_anchor(part: &str) -> (r: bool)
    ensures
        r == part@.contains('\\'),
{
    holds_back(part)
}

fn walk(start: Vec<String>, steps: &Vec<String>) -> (r: Vec<String>)
    requires
        texts(start@).len() > 0,
        texts(start@)[0].contains('\\'),
    ensures
        texts(r@) == walked(texts(start@), texts(steps@)),
{
    let mut here = start;
    let ghost first = texts(here@);
    let ghost all = texts(steps@);
    let mut i: usize = 0;
    proof {
        assert(all.take(0) =~= Seq::empty());
    }
    while i < steps.len()
        invariant
            i <= steps@.len(),
            all == texts(steps@),
            all.len() == steps@.len(),
            first.len() > 0,
            first[0].contains('\\'),
            texts(here@) == walked(first, all.take(i as int)),
        decreases steps@.len() - i,
    {
        proof {
            assert(all.take(i as int + 1).drop_last() =~= all.take(i as int));
            assert(all.take(i as int + 1).last() == steps@[i as int]@);
            assert(texts(here@).len() == here@.len());
            lemma_walk_keeps_start(first, all.take(i as int));
        }
        let step = steps[i].as_str();
        let (one, two) = is_dots(step);
        let ghost before = here@;
        if same(step, back_text().as_str()) {
            here = some_pieces(&here, 0, 1);
            let root = back_text();
            proof {
                lemma_texts_push(here@, root);
                assert(texts(before).subrange(0, 1) =~= texts(before).take(1));
            }
            here.push(root);
        } else if one {
        } else if two {
            if here.len() > 0 {
                proof {
                    assert(texts(here@).last() == here@.last()@);
                }
                if is_windows_name(here[here.len() - 1].as_str()) {
                    let _ = here.pop();
                    proof {
                        assert(texts(here@) =~= texts(before).drop_last());
                    }
                }
            }
        } else {
            let name = steps[i].clone();
            proof {
                lemma_texts_push(here@, name);
            }
            here.push(name);
        }
        i = i + 1;
    }
    proof {
        assert(all.take(steps@.len() as int) =~= all);
    }
    here
}

fn extended_tail_of(list: Vec<String>) -> (r: String)
    ensures
        r@ == extended_tail(texts(list@)),
{
    let mut list = list;
    let sep = back_text();
    proof {
        assert(texts(list@).len() == list@.len());
    }
    if list.len() == 0 {
        let r = String::new();
        proof {
            assert(r@ =~= Seq::empty());
        }
        return r;
    }
    proof {
        assert(texts(list@)[0] == list@[0]@);
    }
    if same(list[0].as_str(), sep.as_str()) {
        let ghost before = list@;
        let _ = list.remove(0);
        proof {
            assert(texts(list@) =~= texts(before).drop_first());
        }
    }
    let mut out = back_text();
    out.append(join_texts(&list, sep.as_str()).as_str());
    out
}

/// `rel` seen from `base`.
pub(crate) fn windows_joined(base: &str, rel: &str) -> (r: String)
    ensures
        r@ == windows_join(base@, rel@),
{
    let left = chars_of(base);
    let right = chars_of(rel);
    let (rel_kind, rel_list) = taken_apart(rel);
    if rel_kind != Prefix::Nothing || left.len() == 0 {
        return rel.to_owned();
    }
    if extended_form(&left) && right.len() > 0 {
        let start = windows_parts_of(base);
        proof {
            lemma_extended_kind(base@);
            lemma_prefix_leads(base@);
            assert(texts(start@).len() == start@.len());
        }
        let here = walk(start, &windows_parts_of(rel));
        proof {
            lemma_walk_keeps_start(windows_parts(base@), windows_parts(rel@));
            assert(texts(here@).len() == here@.len());
        }
        let rest = some_pieces(&here, 1, here.len());
        proof {
            assert(texts(here@).subrange(1, here@.len() as int) =~= texts(here@).skip(1));
        }
        let mut out = written_prefix(base);
        out.append(extended_tail_of(rest).as_str());
        return out;
    }
    if rooted(rel, rel_kind, &rel_list) {
        let mut out = written_prefix(base);
        out.append(rel);
        return out;
    }
    let last: char = left[left.len() - 1];
    let mut out = base.to_owned();
    if last != '/' && last != '\\' && !(left.len() == 2 && drive_at(&left)) {
        out.push('\\');
        proof {
            assert(out@ =~= base@ + back());
        }
    }
    out.append(rel);
    out
}

/// A path that has a prefix has it as its first part.
pub(crate) proof fn lemma_prefix_leads(p: Seq<char>)
    requires
        prefix_kind(p) != Prefix::Nothing,
    ensures
        windows_parts(p).len() > 0,
        windows_parts(p)[0] == prefix_part(p),
        prefix_part(p).contains('\\'),
{
    lemma_counts(p);
    if is_extended(p) {
        lemma_extended_pieces(p);
    }
    let ps = all_pieces(p);
    let part = prefix_part(p);
    if prefix_kind(p) == Prefix::Drive {
        assert(part[2] == '\\');
    } else {
        let list = if prefix_kind(p) == Prefix::ExtendedDrive {
            ps.take(3).push(seq![drive_letter(ps[3][0]), ':'])
        } else {
            ps.take(prefix_count(p))
        };
        let text = join(list, back());
        let head = join(list.drop_last(), back());
        assert(text == head + back() + list.last());
        assert(text[head.len() as int] == '\\');
        assert(part[head.len() as int] == '\\');
    }
}

proof fn lemma_walk_keeps_start(start: Seq<Seq<char>>, steps: Seq<Seq<char>>)
    requires
        start.len() > 0,
        start[0].contains('\\'),
    ensures
        walked(start, steps).len() > 0,
        walked(start, steps)[0] == start[0],
    decreases steps.len(),
{
    if steps.len() > 0 {
        lemma_walk_keeps_start(start, steps.drop_last());
    }
}

proof fn lemma_body_fits(p: Seq<char>)
    ensures
        joined_length(body(p)) <= p.len(),
        leads_in_body(p) ==> joined_length(body(p)) > 0,
{
    lemma_counts(p);
    let ps = all_pieces(p);
    if is_extended(p) {
        lemma_split_length(p, '\\');
        lemma_extended_pieces(p);
    } else {
        lemma_split_length(forward_slashes(p), '/');
    }
    match prefix_kind(p) {
        Prefix::Nothing => {
            if leads_in_body(p) && !has_root(p) {
                lemma_first_piece(forward_slashes(p));
            }
        },
        Prefix::Drive => {
            lemma_split_length(forward_slashes(p).skip(2), '/');
        },
        Prefix::ExtendedDrive => {
            lemma_skipped_length(ps, 3);
            lemma_skipped_length(ps, 4);
            let rest = ps.skip(3);
            assert(rest[0] == ps[3]);
            assert(rest.drop_first() =~= ps.skip(4));
            if ps[3].len() != 2 {
                let first = seq![ps[3].skip(3)];
                assert((first + ps.skip(4)).drop_first() =~= ps.skip(4));
                assert(body(p)[0] == ps[3].skip(3));
            }
        },
        _ => {
            lemma_skipped_length(ps, prefix_count(p));
        },
    }
}

/// Whether a Windows path is in the extended form, its pieces behind the prefix, and whether
/// its root or leading `.` is written among them.
pub(crate) fn windows_body_of(p: &str) -> (r: (bool, Vec<String>, bool))
    ensures
        r.0 == is_extended(p@),
        texts(r.1@) == body(p@),
        r.2 == leads_in_body(p@),
        joined_length(body(p@)) <= p@.len(),
        r.2 ==> joined_length(body(p@)) > 0,
{
    proof {
        lemma_body_fits(p@);
    }
    let (kind, list) = taken_apart(p);
    let rest = body_of(p, kind, &list);
    let extended = extended_form(&chars_of(p));
    let leads = match kind {
        Prefix::Nothing => {
            proof {
                lemma_counts(p@);
                assert(texts(rest@).len() == rest@.len());
                assert(texts(rest@)[0] == rest@[0]@);
            }
            let (one, _) = is_dots(rest[0].as_str());
            one || rooted(p, kind, &list)
        },
        Prefix::Drive => rooted(p, kind, &list),
        _ => false,
    };
    (extended, rest, leads)
}

proof fn lemma_extended_kind(p: Seq<char>)
    requires
        is_extended(p),
    ensures
        prefix_kind(p) == Prefix::Extended || prefix_kind(p) == Prefix::ExtendedDrive
            || prefix_kind(p) == Prefix::ExtendedShare,
{
}

pub open spec fn lacks(ps: Seq<Seq<char>>, c: char) -> bool {
    forall|i: int| 0 <= i < ps.len() ==> !(#[trigger] ps[i]).contains(c)
}

pub open spec fn none_empty(ps: Seq<Seq<char>>) -> bool {
    forall|i: int| 0 <= i < ps.len() ==> (#[trigger] ps[i]).len() > 0
}

/// Pieces hold neither what they were split at nor what the text does not hold.
proof fn lemma_pieces_lack(s: Seq<char>, c: char, d: char)
    requires
        d == c || !s.contains(d),
    ensures
        lacks(split_on(s, c), d),
    decreases s.len(),
{
    lemma_first_index(s, c);
    let n = first_index(s, c);
    let ps = split_on(s, c);
    if n < s.len() {
        let rest = s.skip(n + 1);
        assert(d == c || !rest.contains(d)) by {
            if d != c && rest.contains(d) {
                let j = choose|j: int| 0 <= j < rest.len() && rest[j] == d;
                assert(s[n + 1 + j] == d);
            }
        }
        lemma_pieces_lack(rest, c, d);
        assert forall|i: int| 0 <= i < ps.len() implies !(#[trigger] ps[i]).contains(d) by {
            if i == 0 {
                let head = s.take(n);
                if head.contains(d) {
                    let j = choose|j: int| 0 <= j < head.len() && head[j] == d;
                    assert(s[j] == d);
                }
            } else {
                assert(ps[i] == split_on(rest, c)[i - 1]);
            }
        }
    } else {
        if s.contains(d) {
            let j = choose|j: int| 0 <= j < s.len() && s[j] == d;
            assert(s[j] == d);
        }
    }
}

/// Joined pieces are split into the same pieces again.
proof fn lemma_split_join(ps: Seq<Seq<char>>, c: char)
    requires
        ps.len() > 0,
        lacks(ps, c),
    ensures
        split_on(join(ps, seq![c]), c) == ps,
    decreases ps.len(),
{
    let last = ps.last();
    assert(!ps[ps.len() - 1].contains(c));
    assert forall|i: int| 0 <= i < last.len() implies last[i] != c by {
        if last[i] == c {
            assert(last.contains(c));
        }
    }
    lemma_first_index_unique(last, c, last.len() as int);
    assert(split_on(last, c) =~= seq![last]);
    if ps.len() == 1 {
        assert(ps =~= seq![last]);
    } else {
        let init = ps.drop_last();
        assert forall|i: int| 0 <= i < init.len() implies !(#[trigger] init[i]).contains(c) by {
            assert(init[i] == ps[i]);
        }
        lemma_split_join(init, c);
        lemma_split_concat(join(init, seq![c]), last, c);
        assert(ps =~= init + seq![last]);
    }
}

proof fn lemma_solid_names(ps: Seq<Seq<char>>)
    requires
        none_empty(ps),
    ensures
        solid_pieces(ps) == ps,
    decreases ps.len(),
{
    if ps.len() > 0 {
        let init = ps.drop_last();
        assert forall|i: int| 0 <= i < init.len() implies (#[trigger] init[i]).len() > 0 by {
            assert(init[i] == ps[i]);
        }
        lemma_solid_names(init);
        assert(ps[ps.len() - 1].len() > 0);
        assert(ps =~= init.push(ps.last()));
    }
}

proof fn lemma_kept_pieces(ps: Seq<Seq<char>>, c: char)
    requires
        lacks(ps, c),
    ensures
        lacks(solid_pieces(ps), c),
        none_empty(solid_pieces(ps)),
        lacks(significant_pieces(ps), c),
        none_empty(significant_pieces(ps)),
        forall|i: int|
            0 <= i < significant_pieces(ps).len() ==> #[trigger] significant_pieces(ps)[i] != dot(),
    decreases ps.len(),
{
    if ps.len() > 0 {
        let init = ps.drop_last();
        assert forall|i: int| 0 <= i < init.len() implies !(#[trigger] init[i]).contains(c) by {
            assert(init[i] == ps[i]);
        }
        lemma_kept_pieces(init, c);
        assert(!ps[ps.len() - 1].contains(c));
    }
}

proof fn lemma_slashes_hold_no_back(s: Seq<char>)
    ensures
        !forward_slashes(s).contains('\\'),
{
}

proof fn lemma_walked_names(start: Seq<Seq<char>>, names: Seq<Seq<char>>)
    requires
        forall|i: int| 0 <= i < names.len() ==> windows_name(#[trigger] names[i]),
    ensures
        walked(start, names) == start + names,
    decreases names.len(),
{
    if names.len() == 0 {
        assert(start + names =~= start);
    } else {
        let init = names.drop_last();
        assert forall|i: int| 0 <= i < init.len() implies windows_name(#[trigger] init[i]) by {
            assert(init[i] == names[i]);
        }
        lemma_walked_names(start, init);
        assert(windows_name(names[names.len() - 1]));
        assert(names.last() != back()) by {
            assert(back()[0] == '\\');
            assert(back().contains('\\'));
        }
        assert(start + names =~= (start + init).push(names.last()));
    }
}

proof fn lemma_first_piece(q: Seq<char>)
    ensures
        split_on(q, '/').len() >= 1,
        q.len() > 0 && q[0] != '/' ==> split_on(q, '/')[0].len() > 0,
        q.len() > 0 && q[0] == '/' ==> split_on(q, '/')[0].len() == 0,
        q.len() == 0 ==> split_on(q, '/') == seq![q],
{
    lemma_first_index(q, '/');
    if q.len() == 0 {
        assert(first_index(q, '/') == 0);
        assert(split_on(q, '/') =~= seq![q]);
    }
}

proof fn lemma_last_piece(q: Seq<char>)
    requires
        q.len() > 0,
        q.last() != '/',
    ensures
        split_on(q, '/').last().len() > 0,
    decreases q.len(),
{
    lemma_first_index(q, '/');
    let n = first_index(q, '/');
    if n < q.len() {
        let rest = q.skip(n + 1);
        assert(rest.len() > 0) by {
            if n + 1 == q.len() {
                assert(q[n] == '/');
            }
        }
        assert(rest.last() == q.last());
        lemma_last_piece(rest);
        lemma_split_nonempty(rest, '/');
        assert(split_on(q, '/').last() == split_on(rest, '/').last());
    }
}

proof fn lemma_trailing_slash(a: Seq<char>)
    ensures
        split_on(a + seq!['/'], '/') == split_on(a, '/').push(Seq::empty()),
{
    let e = Seq::<char>::empty();
    assert(a + seq!['/'] =~= a + seq!['/'] + e);
    lemma_split_concat(a, e, '/');
    lemma_first_piece(e);
    assert(split_on(a, '/') + seq![e] =~= split_on(a, '/').push(e));
}

/// `a` is the slashed base without a final separator.
spec fn bare(b: Seq<char>) -> Seq<char> {
    if b.last() == '/' {
        b.drop_last()
    } else {
        b
    }
}

/// The pieces of a base and a path that is joined to it.
proof fn lemma_joined_pieces(b: Seq<char>, r: Seq<char>)
    requires
        b.len() > 0,
        !is_rooted(r),
    ensures
        plain_join(b, r) == bare(b) + seq!['/'] + r,
        split_on(plain_join(b, r), '/') == split_on(bare(b), '/') + split_on(r, '/'),
        b.last() == '/' ==> split_on(b, '/') == split_on(bare(b), '/').push(Seq::empty()),
        b.last() != '/' ==> bare(b) == b && split_on(b, '/').last().len() > 0,
        split_on(bare(b), '/').len() >= 1,
        split_on(r, '/').len() >= 1,
{
    let a = bare(b);
    assert(plain_join(b, r) =~= a + seq!['/'] + r);
    lemma_split_concat(a, r, '/');
    lemma_split_nonempty(a, '/');
    lemma_split_nonempty(r, '/');
    if b.last() == '/' {
        assert(b =~= a + seq!['/']);
        lemma_trailing_slash(a);
    } else {
        lemma_last_piece(b);
    }
}

proof fn lemma_unprefixed(p: Seq<char>)
    requires
        windows_anchor(p).len() == 0,
    ensures
        prefix_kind(p) == Prefix::Nothing,
        !is_extended(p),
        !is_rooted(forward_slashes(p)),
        all_pieces(p) == split_on(forward_slashes(p), '/'),
        windows_parts(p) == significant_pieces(split_on(forward_slashes(p), '/')),
{
    assert(windows_parts(p) =~= significant_pieces(split_on(forward_slashes(p), '/')));
}

proof fn lemma_join_from_nothing(base: Seq<char>, rel: Seq<char>)
    requires
        windows_anchor(rel).len() == 0,
        base.len() > 0,
        prefix_kind(base) == Prefix::Nothing,
        windows_settled(base),
    ensures
        windows_parts(windows_join(base, rel)) == windows_parts(base) + windows_parts(rel),
        windows_settled(windows_join(base, rel)),
        !is_extended(windows_join(base, rel)),
{
    lemma_unprefixed(rel);
    let whole = windows_join(base, rel);
    let b = forward_slashes(base);
    let r = forward_slashes(rel);
    let w = forward_slashes(whole);
    let ps = split_on(b, '/');
    assert(is_separator(base.last()) == (b.last() == '/'));
    assert(w =~= plain_join(b, r));
    crate::paths::lemma_plain_joined(b, r);
    lemma_joined_pieces(b, r);
    let a = split_on(bare(b), '/');
    let rs = split_on(r, '/');
    let ws = split_on(w, '/');
    lemma_first_piece(r);
    assert(!is_extended(base));
    assert(!has_drive(base));
    // What joining makes has no prefix either.
    if starts_double(ws) {
        if a.len() == 1 {
            assert(ws[1] == rs[0]);
            assert(false);
        } else if a.len() == 2 {
            assert(ws[0] == a[0] && ws[1] == a[1]);
            if b.last() == '/' {
                assert(ps[0] == a[0] && ps[1] == a[1]);
            }
            assert(false);
        } else {
            assert(ws[0] == a[0] && ws[1] == a[1] && ws[2] == a[2]);
            assert(ps[0] == a[0] && ps[1] == a[1] && ps[2] == a[2]);
            assert(starts_double(ps));
            if a.len() >= 4 {
                assert(ws[3] == a[3] && ps[3] == a[3]);
            } else {
                assert(ps.len() == 4 && ps[3].len() == 0 && ps[2].len() == 0);
            }
        }
    }
    if has_drive(whole) {
        if base.len() == 1 {
            if is_separator(base[0]) {
                assert(whole[0] == base[0]);
            } else {
                assert(whole[1] == '\\');
            }
        } else {
            assert(whole[0] == base[0] && whole[1] == base[1]);
        }
        assert(false);
    }
    if is_extended(whole) {
        assert(whole[0] == base[0]);
        if base.len() == 1 {
            assert(whole[1] == rel[0]);
            assert(r[0] == '/');
        } else {
            assert(whole[1] == base[1]);
            lemma_two_slashes(b);
            if base.len() == 2 {
                assert(b =~= seq!['/', '/']);
            } else if base.len() == 3 {
                assert(whole[2] == base[2]);
            } else {
                assert(whole[2] == base[2] && whole[3] == base[3]);
            }
        }
        assert(false);
    }
    assert(prefix_kind(whole) == Prefix::Nothing);
    assert(windows_anchor(whole) == windows_anchor(base));
    assert(windows_parts(whole) =~= windows_parts(base) + windows_parts(rel));
}

/// A short path of two separators is still open.
proof fn lemma_two_slashes(b: Seq<char>)
    requires
        b.len() >= 2,
        b[0] == '/',
        b[1] == '/',
    ensures
        starts_double(split_on(b, '/')),
        b.len() == 2 ==> split_on(b, '/').len() == 3,
        b.len() == 3 && b[2] != '/' ==> split_on(b, '/').len() == 3,
{
    let e = Seq::<char>::empty();
    let rest = b.skip(2);
    lemma_first_piece(e);
    assert(b =~= e + seq!['/'] + b.skip(1));
    lemma_split_concat(e, b.skip(1), '/');
    assert(b.skip(1) =~= e + seq!['/'] + rest);
    lemma_split_concat(e, rest, '/');
    lemma_split_nonempty(rest, '/');
    if b.len() == 2 {
        assert(rest =~= e);
    } else if b.len() == 3 && b[2] != '/' {
        lemma_first_index_unique(rest, '/', 1);
        assert(split_on(rest, '/') =~= seq![rest]);
    }
}

proof fn lemma_join_from_share(base: Seq<char>, rel: Seq<char>)
    requires
        windows_anchor(rel).len() == 0,
        prefix_kind(base) == Prefix::Device || prefix_kind(base) == Prefix::Share,
        windows_settled(base),
    ensures
        windows_parts(windows_join(base, rel)) == windows_parts(base) + windows_parts(rel),
        windows_settled(windows_join(base, rel)),
        !is_extended(windows_join(base, rel)),
{
    lemma_unprefixed(rel);
    let whole = windows_join(base, rel);
    let b = forward_slashes(base);
    let r = forward_slashes(rel);
    let w = forward_slashes(whole);
    let ps = split_on(b, '/');
    lemma_written_prefix_fits(b);
    assert(!is_extended(base));
    assert(base.len() >= 4);
    assert(is_separator(base.last()) == (b.last() == '/'));
    assert(w =~= plain_join(b, r));
    lemma_joined_pieces(b, r);
    let a = split_on(bare(b), '/');
    let rs = split_on(r, '/');
    let ws = split_on(w, '/');
    assert(a.len() >= 4) by {
        if b.last() == '/' && ps.len() == 4 {
            assert(ps[3] == ps.last());
        }
    }
    assert(ws[0] == a[0] && ws[1] == a[1] && ws[2] == a[2] && ws[3] == a[3]);
    assert(ps[0] == a[0] && ps[1] == a[1] && ps[2] == a[2] && ps[3] == a[3]);
    assert(whole[0] == base[0] && whole[1] == base[1] && whole[2] == base[2] && whole[3]
        == base[3]);
    assert(!is_extended(whole));
    assert(prefix_kind(whole) == prefix_kind(base));
    assert(ws.take(4) =~= ps.take(4));
    assert(ws.skip(4) =~= a.skip(4) + rs);
    lemma_significant_concat(a.skip(4), rs);
    assert(significant_pieces(ps.skip(4)) == significant_pieces(a.skip(4))) by {
        if b.last() == '/' {
            let e = Seq::<char>::empty();
            assert(ps.skip(4) =~= a.skip(4).push(e));
            assert(a.skip(4).push(e).drop_last() =~= a.skip(4));
        } else {
            assert(ps == a);
        }
    }
    assert(windows_anchor(whole) == windows_anchor(base));
    assert(windows_parts(whole) =~= windows_parts(base) + windows_parts(rel));
}

proof fn lemma_join_from_drive(base: Seq<char>, rel: Seq<char>)
    requires
        windows_anchor(rel).len() == 0,
        prefix_kind(base) == Prefix::Drive,
    ensures
        windows_parts(windows_join(base, rel)) == windows_parts(base) + windows_parts(rel),
        windows_settled(windows_join(base, rel)),
        !is_extended(windows_join(base, rel)),
{
    lemma_unprefixed(rel);
    let whole = windows_join(base, rel);
    let b = forward_slashes(base);
    let r = forward_slashes(rel);
    let w = forward_slashes(whole);
    let rest = b.skip(2);
    assert(!is_extended(base));
    assert(is_separator(base.last()) == (b.last() == '/'));
    assert(whole[0] == base[0] && whole[1] == base[1]);
    assert(w[0] == base[0]);
    lemma_first_piece(w);
    assert(!starts_double(split_on(w, '/')));
    assert(prefix_kind(whole) == Prefix::Drive);
    crate::paths::lemma_plain_joined(rest, r);
    if base.len() == 2 {
        assert(w.skip(2) =~= r);
        assert(plain_join(rest, r) == r);
    } else {
        assert(rest.last() == b.last());
        assert(w.skip(2) =~= plain_join(rest, r));
    }
    assert(has_root(whole) == has_root(base));
    assert(windows_anchor(whole) =~= windows_anchor(base));
    assert(windows_parts(whole) =~= windows_parts(base) + windows_parts(rel));
}

/// The pieces of an extended prefix, as they are written.
spec fn written_pieces(p: Seq<char>) -> Seq<Seq<char>> {
    let ps = all_pieces(p);
    if prefix_kind(p) == Prefix::ExtendedDrive {
        ps.take(3).push(ps[3].take(2))
    } else {
        ps.take(prefix_count(p))
    }
}

/// The path that an extended prefix, a root and names make.
proof fn lemma_extended_built(base: Seq<char>, names: Seq<Seq<char>>)
    requires
        is_extended(base),
        windows_settled(base),
        names.len() > 0,
        none_empty(names),
        lacks(names, '\\'),
    ensures
        ({
            let whole = prefix_text(base) + back() + join(names, back());
            &&& windows_parts(whole) == seq![prefix_part(base), back()] + names
            &&& windows_settled(whole)
            &&& is_extended(whole) && has_root(whole)
        }),
{
    let whole = prefix_text(base) + back() + join(names, back());
    let ps = all_pieces(base);
    let pp = written_pieces(base);
    lemma_extended_pieces(base);
    lemma_counts(base);
    lemma_pieces_lack(base, '\\', '\\');
    assert(lacks(pp, '\\')) by {
        assert forall|i: int| 0 <= i < pp.len() implies !(#[trigger] pp[i]).contains('\\') by {
            assert(!ps[i].contains('\\'));
            if prefix_kind(base) == Prefix::ExtendedDrive && i == 3 {
                let t = ps[3].take(2);
                if t.contains('\\') {
                    let j = choose|j: int| 0 <= j < t.len() && t[j] == '\\';
                    assert(ps[3][j] == '\\');
                    assert(ps[3].contains('\\'));
                }
            }
        }
    }
    assert(prefix_text(base) == join(pp, back()));
    lemma_split_join(pp, '\\');
    lemma_split_join(names, '\\');
    lemma_split_concat(join(pp, back()), join(names, back()), '\\');
    let ws = split_on(whole, '\\');
    assert(ws == pp + names);
    assert(pp.len() >= 4 && pp[0] == ps[0] && pp[1] == ps[1] && pp[2] == ps[2]);
    lemma_extended_from_pieces(whole);
    assert(all_pieces(whole) == ws);
    assert(ws[3] == pp[3]);
    assert(prefix_kind(whole) == prefix_kind(base)) by {
        if prefix_kind(base) == Prefix::ExtendedShare {
            assert(ws[3] == ps[3]);
        } else if prefix_kind(base) == Prefix::ExtendedDrive {
            assert(ws[3].len() == 2);
            assert(ws[3][0] == ps[3][0] && ws[3][1] == ps[3][1]);
        } else {
            assert(ws[3] == ps[3]);
        }
    }
    if prefix_kind(base) == Prefix::ExtendedShare {
        assert(ws[5] == ps[5]);
    }
    assert(prefix_count(whole) == prefix_count(base));
    assert(prefix_count(whole) == pp.len());
    assert(ws.take(pp.len() as int) =~= pp);
    assert(ws.take(3) =~= ps.take(3));
    assert(prefix_part(whole) == prefix_part(base));
    assert(ws.skip(pp.len() as int) =~= names);
    assert(body(whole) == names);
    assert(has_root(whole));
    lemma_solid_names(names);
    assert(windows_parts(whole) =~= seq![prefix_part(base), back()] + names);
}

/// Pieces that start like those of an extended path are those of one.
proof fn lemma_extended_from_pieces(p: Seq<char>)
    requires
        split_on(p, '\\').len() >= 4,
        split_on(p, '\\')[0].len() == 0,
        split_on(p, '\\')[1].len() == 0,
        split_on(p, '\\')[2] == seq!['?'],
    ensures
        is_extended(p),
{
    let ps = split_on(p, '\\');
    lemma_first_index(p, '\\');
    let p1 = p.skip(first_index(p, '\\') + 1);
    assert(ps.drop_first() =~= split_on(p1, '\\'));
    assert(ps[0] == p.take(first_index(p, '\\')));
    assert(ps[1] == split_on(p1, '\\')[0]);
    lemma_first_index(p1, '\\');
    let p2 = p1.skip(first_index(p1, '\\') + 1);
    assert(split_on(p1, '\\').drop_first() =~= split_on(p2, '\\'));
    assert(split_on(p1, '\\')[0] == p1.take(first_index(p1, '\\')));
    assert(ps[2] == split_on(p1, '\\')[1]);
    assert(ps[2] == split_on(p2, '\\')[0]);
    lemma_first_index(p2, '\\');
    let n = first_index(p2, '\\');
    assert(split_on(p2, '\\').len() >= 2);
    assert(split_on(p2, '\\')[0] == p2.take(n));
    assert(p2.take(n)[0] == '?');
    assert(p[0] == '\\');
    assert(p1[0] == '\\');
    assert(p2[0] == '?' && p2[1] == '\\');
}

proof fn lemma_join_from_extended(base: Seq<char>, rel: Seq<char>)
    requires
        windows_anchor(rel).len() == 0,
        is_extended(base),
        windows_settled(base),
        !windows_parts(rel).contains(two_dots()),
    ensures
        rel.len() > 0 || has_root(base) ==> windows_parts(windows_join(base, rel))
            == windows_base_parts(base) + windows_parts(rel),
        windows_parts(base).is_prefix_of(windows_parts(windows_join(base, rel))),
        rel.len() > 0 ==> !lacks_root(windows_join(base, rel)),
        windows_settled(windows_join(base, rel)),
{
    lemma_unprefixed(rel);
    lemma_extended_kind(base);
    lemma_extended_pieces(base);
    lemma_counts(base);
    lemma_prefix_leads(base);
    let whole = windows_join(base, rel);
    let ps = all_pieces(base);
    let old_names = solid_pieces(body(base));
    let r = forward_slashes(rel);
    let new_names = significant_pieces(split_on(r, '/'));
    if !has_root(base) {
        assert(body(base) =~= Seq::empty());
        assert(windows_parts(base) =~= seq![prefix_part(base)]);
    }
    assert(windows_base_parts(base) =~= seq![prefix_part(base), back()] + old_names);
    lemma_pieces_lack(base, '\\', '\\');
    assert(lacks(body(base), '\\')) by {
        assert forall|i: int| 0 <= i < body(base).len() implies !(#[trigger] body(
            base,
        )[i]).contains('\\') by {
            if prefix_kind(base) == Prefix::ExtendedDrive && ps[3].len() != 2 {
                if i == 0 {
                    assert(!ps[3].contains('\\'));
                    let t = ps[3].skip(3);
                    if t.contains('\\') {
                        let j = choose|j: int| 0 <= j < t.len() && t[j] == '\\';
                        assert(ps[3][j + 3] == '\\');
                        assert(ps[3].contains('\\'));
                    }
                } else {
                    assert(body(base)[i] == ps[i + 3]);
                }
            } else {
                assert(body(base)[i] == ps[i + prefix_count(base)]);
            }
        }
    }
    lemma_kept_pieces(body(base), '\\');
    if rel.len() == 0 {
        lemma_first_piece(r);
        reveal_with_fuel(significant_pieces, 2);
        assert(split_on(r, '/').drop_last() =~= Seq::empty());
        assert(new_names =~= Seq::empty());
        assert(windows_base_parts(base) + windows_parts(rel) =~= windows_base_parts(base));
        if is_separator(base.last()) {
            assert(whole =~= base);
        } else {
            lemma_extended_closed(base);
            assert(whole =~= base + back());
        }
        assert(windows_parts(whole).take(windows_parts(base).len() as int) =~= windows_parts(base));
    } else {
        lemma_slashes_hold_no_back(rel);
        lemma_pieces_lack(r, '/', '\\');
        lemma_kept_pieces(split_on(r, '/'), '\\');
        assert forall|i: int| 0 <= i < new_names.len() implies windows_name(
            #[trigger] new_names[i],
        ) by {
            assert(windows_parts(rel)[i] == new_names[i]);
            assert(new_names[i] != dot());
            if new_names[i] == two_dots() {
                assert(windows_parts(rel).contains(two_dots()));
            }
        }
        lemma_walked_names(windows_parts(base), new_names);
        let names = old_names + new_names;
        let steps = (windows_parts(base) + new_names).skip(1);
        if has_root(base) {
            assert(steps =~= seq![back()] + names);
            assert(steps.drop_first() =~= names);
        } else {
            assert(steps =~= names);
        }
        assert(new_names.len() > 0) by {
            lemma_first_piece(r);
            lemma_leading_piece(split_on(r, '/'));
        }
        assert(lacks(names, '\\')) by {
            assert forall|i: int| 0 <= i < names.len() implies !(#[trigger] names[i]).contains(
                '\\',
            ) by {
                if i < old_names.len() {
                    assert(names[i] == old_names[i]);
                } else {
                    assert(names[i] == new_names[i - old_names.len()]);
                }
            }
        }
        assert(none_empty(names)) by {
            assert forall|i: int| 0 <= i < names.len() implies (#[trigger] names[i]).len() > 0 by {
                if i < old_names.len() {
                    assert(names[i] == old_names[i]);
                } else {
                    assert(names[i] == new_names[i - old_names.len()]);
                }
            }
        }
        lemma_extended_built(base, names);
        assert(names[0] != back()) by {
            assert(!names[0].contains('\\'));
            assert(back()[0] == '\\');
            assert(back().contains('\\'));
        }
        assert(whole =~= prefix_text(base) + back() + join(names, back()));
        assert(windows_parts(whole) =~= windows_base_parts(base) + windows_parts(rel));
        assert(windows_parts(whole).take(windows_parts(base).len() as int) =~= windows_parts(base));
    }
}

proof fn lemma_leading_piece(ps: Seq<Seq<char>>)
    requires
        ps.len() > 0,
        significant(ps[0]),
    ensures
        significant_pieces(ps).len() > 0,
    decreases ps.len(),
{
    if ps.len() == 1 {
        assert(ps.last() == ps[0]);
    } else {
        assert(ps.drop_last()[0] == ps[0]);
        lemma_leading_piece(ps.drop_last());
    }
}

/// A final separator behind an extended path changes nothing.
proof fn lemma_extended_closed(base: Seq<char>)
    requires
        is_extended(base),
        windows_settled(base),
    ensures
        windows_parts(base + back()) == windows_base_parts(base),
        windows_settled(base + back()),
{
    let whole = base + back();
    let e = Seq::<char>::empty();
    let ps = all_pieces(base);
    lemma_extended_kind(base);
    lemma_extended_pieces(base);
    lemma_counts(base);
    assert(whole =~= base + seq!['\\'] + e);
    lemma_split_concat(base, e, '\\');
    assert(first_index(e, '\\') == 0);
    assert(split_on(e, '\\') =~= seq![e]);
    let ws = split_on(whole, '\\');
    assert(ws =~= ps.push(e));
    assert(is_extended(whole));
    assert(ws[3] == ps[3]);
    assert(prefix_kind(whole) == prefix_kind(base));
    if prefix_kind(base) == Prefix::ExtendedShare {
        assert(ws[5] == ps[5]);
    }
    let n = prefix_count(base);
    assert(prefix_count(whole) == n);
    assert(ws.take(n) =~= ps.take(n));
    assert(ws.take(3) =~= ps.take(3));
    assert(body(whole) =~= body(base).push(e));
    assert(body(base).push(e).drop_last() =~= body(base));
    assert(solid_pieces(body(whole)) == solid_pieces(body(base)));
    assert(has_root(whole));
    assert(windows_parts(whole) =~= windows_base_parts(base));
}

pub(crate) proof fn lemma_windows_joined(base: Seq<char>, rel: Seq<char>)
    requires
        windows_anchor(rel).len() == 0,
        windows_settled(base),
        is_extended(base) ==> !windows_parts(rel).contains(two_dots()),
    ensures
        rel.len() > 0 || !lacks_root(base) ==> windows_parts(windows_join(base, rel))
            == windows_base_parts(base) + windows_parts(rel),
        windows_parts(base).is_prefix_of(windows_parts(windows_join(base, rel))),
        rel.len() > 0 ==> !lacks_root(windows_join(base, rel)),
        windows_settled(windows_join(base, rel)),
{
    if base.len() == 0 {
        lemma_unprefixed(rel);
        let r = forward_slashes(rel);
        lemma_first_piece(r);
        lemma_first_piece(forward_slashes(base));
        reveal_with_fuel(significant_pieces, 2);
        assert(all_pieces(base).drop_last() =~= Seq::empty());
        assert(windows_parts(base) =~= Seq::empty());
        assert(windows_parts(base) + windows_parts(rel) =~= windows_parts(rel));
    } else if is_extended(base) {
        lemma_join_from_extended(base, rel);
    } else {
        match prefix_kind(base) {
            Prefix::Nothing => lemma_join_from_nothing(base, rel),
            Prefix::Drive => lemma_join_from_drive(base, rel),
            _ => lemma_join_from_share(base, rel),
        }
    }
    let whole = windows_join(base, rel);
    if !is_extended(base) {
        assert(windows_parts(whole).take(windows_parts(base).len() as int) =~= windows_parts(base));
    }
}

} // verus!

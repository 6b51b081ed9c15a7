//! Which files of a directory are a patch stack, and in which order.

use vstd::prelude::*;
use vstd::utf8::{decode_utf8, valid_utf8};

use crate::patchset::{
    casefold, confusable, found_patches, left_out, loaded, named_patch, patch_named, patch_paths,
    path_order, portable, series_lines, series_order, take_entry, EntryKind, PatchView, RootKind,
    SeriesFile, WalkView,
};
use crate::paths::{extension, parts, Platform};
use crate::replacement_laws::is_plain_part;
use crate::text::{join, lines, trim};

verus! {

/// A path is portable exactly where each of its parts is a plain name. It is then written with
/// its parts between slashes.
pub proof fn portable_paths_have_plain_parts(platform: Platform, path: Seq<char>)
    ensures
        portable(platform, path) is Ok <==> forall|i: int|
            0 <= i < parts(platform, path).len() ==> is_plain_part(
                platform,
                #[trigger] parts(platform, path)[i],
            ),
        portable(platform, path) matches Ok(p) ==> p == join(parts(platform, path), "/"@),
{
    lemma_first_unportable(platform, parts(platform, path));
    let list = parts(platform, path);
    let n = crate::patchset::first_unportable(platform, list);
    if n < list.len() {
        assert(!is_plain_part(platform, list[n]));
    }
}

proof fn lemma_first_unportable(platform: Platform, list: Seq<Seq<char>>)
    ensures
        ({
            let n = crate::patchset::first_unportable(platform, list);
            &&& 0 <= n <= list.len()
            &&& forall|i: int| 0 <= i < n ==> is_plain_part(platform, #[trigger] list[i])
            &&& n < list.len() ==> !is_plain_part(platform, list[n])
        }),
    decreases list.len(),
{
    if list.len() > 0 && !crate::patchset::unportable(platform, list[0]) {
        let rest = list.drop_first();
        lemma_first_unportable(platform, rest);
        let n = crate::patchset::first_unportable(platform, rest);
        assert forall|i: int| 0 <= i < n + 1 implies is_plain_part(
            platform,
            #[trigger] list[i],
        ) by {
            if i > 0 {
                assert(rest[i - 1] == list[i]);
            }
        }
    }
}

/// The entry may stand in a patch directory: it is no link, its path is portable, and it cannot
/// be confused with the series.
pub open spec fn may_stand(platform: Platform, e: WalkView) -> bool {
    e.kind != EntryKind::Symlink && (portable(platform, e.path) matches Ok(path) && (casefold(path)
        == "series"@ ==> path == "series"@))
}

/// The entry is that patch.
pub open spec fn is_patch(platform: Platform, e: WalkView, p: PatchView) -> bool {
    e.kind == EntryKind::File && portable(platform, e.path) == Ok::<Seq<char>, Seq<char>>(p.path)
        && extension(platform, p.path) == Some("patch"@) && p.bytes == e.contents
}

/// One of the entries is that patch.
pub open spec fn holds_patch(platform: Platform, entries: Seq<WalkView>, p: PatchView) -> bool {
    exists|i: int| 0 <= i < entries.len() && is_patch(platform, #[trigger] entries[i], p)
}

proof fn lemma_confusable(found: Seq<PatchView>, path: Seq<char>)
    ensures
        confusable(found, path) is None <==> forall|i: int|
            0 <= i < found.len() ==> casefold((#[trigger] found[i]).path) != casefold(path),
    decreases found.len(),
{
    if found.len() > 0 {
        let rest = found.drop_first();
        lemma_confusable(rest, path);
        assert forall|i: int| 0 <= i < rest.len() implies #[trigger] rest[i] == found[i + 1] by {}
        if confusable(found, path) is None {
            assert forall|i: int| 0 <= i < found.len() implies casefold(
                (#[trigger] found[i]).path,
            ) != casefold(path) by {
                if i > 0 {
                    assert(rest[i - 1] == found[i]);
                }
            }
        }
    }
}

/// One more entry is taken exactly where it may stand there and, if it is a patch, cannot be
/// confused with one that was found. A patch is added with its bytes, and nothing else is.
pub proof fn entries_are_taken_one_by_one(
    platform: Platform,
    root: Seq<char>,
    found: Seq<PatchView>,
    e: WalkView,
    p: PatchView,
)
    ensures
        ({
            let r = take_entry(platform, root, found, e);
            let named = e.kind == EntryKind::File && (portable(platform, e.path) matches Ok(path)
                && extension(platform, path) == Some("patch"@));
            let path = portable(platform, e.path)->Ok_0;
            &&& r is Ok <==> may_stand(platform, e) && (named ==> forall|i: int|
                0 <= i < found.len() ==> casefold((#[trigger] found[i]).path) != casefold(path))
            &&& r is Ok && !named ==> r->Ok_0 == found
            &&& r is Ok && named ==> r->Ok_0 == found.push(PatchView { path, bytes: e.contents })
        }),
{
    if portable(platform, e.path) is Ok {
        lemma_confusable(found, portable(platform, e.path)->Ok_0);
    }
}

/// The patches that are found are exactly the files of the directory that are named as patches,
/// with their bytes; and every entry may stand there.
pub proof fn every_patch_is_found(
    platform: Platform,
    root: Seq<char>,
    entries: Seq<WalkView>,
    p: PatchView,
)
    requires
        found_patches(platform, root, entries) is Ok,
    ensures
        found_patches(platform, root, entries)->Ok_0.contains(p) <==> holds_patch(
            platform,
            entries,
            p,
        ),
        forall|i: int| 0 <= i < entries.len() ==> may_stand(platform, #[trigger] entries[i]),
    decreases entries.len(),
{
    if entries.len() > 0 {
        let rest = entries.drop_last();
        let last = entries.last();
        every_patch_is_found(platform, root, rest, p);
        let before = found_patches(platform, root, rest)->Ok_0;
        let after = found_patches(platform, root, entries)->Ok_0;
        entries_are_taken_one_by_one(platform, root, before, last, p);
        assert(entries[entries.len() - 1] == last);
        assert forall|i: int| 0 <= i < entries.len() implies may_stand(
            platform,
            #[trigger] entries[i],
        ) by {
            if i < rest.len() {
                assert(rest[i] == entries[i]);
            }
        }
        if holds_patch(platform, rest, p) {
            let i = choose|i: int| 0 <= i < rest.len() && is_patch(platform, #[trigger] rest[i], p);
            assert(entries[i] == rest[i]);
        }
        if holds_patch(platform, entries, p) {
            let i = choose|i: int|
                0 <= i < entries.len() && is_patch(platform, #[trigger] entries[i], p);
            if i < rest.len() {
                assert(rest[i] == entries[i]);
            }
        }
        if after != before {
            let new = after.last();
            assert(after == before.push(new));
            assert(after[before.len() as int] == new);
            if before.contains(p) {
                let k = choose|k: int| 0 <= k < before.len() && before[k] == p;
                assert(after[k] == p);
            }
            if after.contains(p) && p != new {
                let k = choose|k: int| 0 <= k < after.len() && after[k] == p;
                assert(before[k] == p);
            }
        }
    }
}

/// The line names a patch: it is neither blank nor a comment.
pub open spec fn names_patch(raw: Seq<char>) -> bool {
    trim(raw).len() > 0 && trim(raw)[0] != '#'
}

/// The line can be taken into the order: it is written as it is read, names a patch that is
/// there, and none that could be confused with an earlier one.
pub open spec fn can_be_listed(
    platform: Platform,
    known: Seq<Seq<char>>,
    order: Seq<Seq<char>>,
    raw: Seq<char>,
) -> bool {
    trim(raw) == raw && crate::patchset::safe_series_entry(platform, raw) && known.contains(raw)
        && forall|i: int| 0 <= i < order.len() ==> casefold(#[trigger] order[i]) != casefold(raw)
}

/// A series is read line by line: blank lines and comments are passed over, and each other line
/// is the next patch or an error.
pub proof fn series_are_read_line_by_line(
    platform: Platform,
    known: Seq<Seq<char>>,
    raw: Seq<Seq<char>>,
    line: Seq<char>,
)
    ensures
        series_lines(platform, known, Seq::empty()) == Ok::<Seq<Seq<char>>, Seq<char>>(
            Seq::empty(),
        ),
        ({
            let before = series_lines(platform, known, raw);
            let after = series_lines(platform, known, raw.push(line));
            &&& before is Err ==> after == before
            &&& before is Ok && !names_patch(line) ==> after == before
            &&& before is Ok && names_patch(line) ==> (after is Ok <==> can_be_listed(
                platform,
                known,
                before->Ok_0,
                line,
            ))
            &&& before is Ok && names_patch(line) && after is Ok ==> after->Ok_0
                == before->Ok_0.push(line)
        }),
{
    let longer = raw.push(line);
    assert(longer.drop_last() =~= raw);
    assert(longer.last() == line);
    if let Ok(order) = series_lines(platform, known, raw) {
        let folds = crate::patchset::folds(order);
        if folds.contains(casefold(line)) {
            let i = choose|i: int| 0 <= i < folds.len() && folds[i] == casefold(line);
            assert(casefold(order[i]) == casefold(line));
        } else {
            assert forall|i: int| 0 <= i < order.len() implies casefold(#[trigger] order[i])
                != casefold(line) by {
                assert(folds[i] == casefold(order[i]));
            }
        }
    }
}

proof fn lemma_left_out(known: Seq<Seq<char>>, order: Seq<Seq<char>>)
    ensures
        left_out(known, order).len() == 0 <==> forall|i: int|
            0 <= i < known.len() ==> order.contains(#[trigger] known[i]),
    decreases known.len(),
{
    if known.len() > 0 {
        let rest = known.drop_last();
        lemma_left_out(rest, order);
        assert(known[known.len() - 1] == known.last());
        assert forall|i: int| 0 <= i < rest.len() implies #[trigger] rest[i] == known[i] by {}
        if forall|i: int| 0 <= i < known.len() ==> order.contains(#[trigger] known[i]) {
            assert forall|i: int| 0 <= i < rest.len() implies order.contains(
                #[trigger] rest[i],
            ) by {
                assert(rest[i] == known[i]);
            }
        }
        if left_out(known, order).len() == 0 {
            assert forall|i: int| 0 <= i < known.len() implies order.contains(
                #[trigger] known[i],
            ) by {
                if i < rest.len() {
                    assert(rest[i] == known[i]);
                }
            }
        }
    }
}

/// A series is accepted exactly where each of its lines is and no patch is left out. The order
/// is that of its lines.
pub proof fn series_order_every_patch(
    platform: Platform,
    known: Seq<Seq<char>>,
    series: Seq<char>,
)
    ensures
        ({
            let read = series_lines(platform, known, lines(series));
            let r = series_order(platform, known, series);
            &&& r is Ok <==> read is Ok && forall|i: int|
                0 <= i < known.len() ==> read->Ok_0.contains(#[trigger] known[i])
            &&& r is Ok ==> r->Ok_0 == read->Ok_0
        }),
{
    if let Ok(order) = series_lines(platform, known, lines(series)) {
        lemma_left_out(known, order);
    }
}

/// A stack is loaded only from a directory that is no link. Without a series its patches stand
/// in the order of their paths; with one, in the order of the series, which must be a regular
/// file of text.
pub proof fn stacks_are_loaded_in_order(
    platform: Platform,
    given: Seq<char>,
    kind: RootKind,
    root: Seq<char>,
    entries: Seq<WalkView>,
    series: SeriesFile,
)
    ensures
        ({
            let r = loaded(platform, given, kind, root, entries, series);
            let found = found_patches(platform, root, entries);
            let sorted = path_order(found->Ok_0);
            let usable = kind is Directory && found is Ok;
            &&& !usable ==> r is Err
            &&& usable && series is Absent ==> r == Ok::<Seq<PatchView>, Seq<char>>(sorted)
            &&& usable && series is Irregular ==> r is Err
            &&& usable ==> (series matches SeriesFile::Text(bytes) ==> {
                let order = series_order(platform, patch_paths(sorted), decode_utf8(bytes@));
                &&& r is Ok <==> valid_utf8(bytes@) && order is Ok
                &&& r matches Ok(stack) ==> stack.len() == order->Ok_0.len() && forall|i: int|
                    0 <= i < stack.len() ==> (#[trigger] stack[i]).path == order->Ok_0[i]
            })
        }),
{
    let found = found_patches(platform, root, entries);
    let sorted = path_order(found->Ok_0);
    if let Ok(stack) = loaded(platform, given, kind, root, entries, series) {
        assert forall|i: int|
            0 <= i < stack.len() && series is Text implies (#[trigger] stack[i]).path
            == series_order(
            platform,
            patch_paths(sorted),
            decode_utf8(series->Text_0@),
        )->Ok_0[i] by {
            lemma_named(
                sorted,
                series_order(
                    platform,
                    patch_paths(sorted),
                    decode_utf8(series->Text_0@),
                )->Ok_0[i],
            );
        }
    }
}

proof fn lemma_named(v: Seq<PatchView>, path: Seq<char>)
    ensures
        patch_named(v, path).path == path,
    decreases v.len(),
{
    if v.len() > 0 && v[0].path != path {
        lemma_named(v.drop_first(), path);
    }
}

/// A patch is one by its extension alone.
pub proof fn patches_are_named_by_extension(platform: Platform, path: Seq<char>)
    ensures
        named_patch(platform, path) <==> extension(platform, path) == Some("patch"@),
{
}

} // verus!

//! The patch stack: which files belong to it, in which order they apply, and the
//! fingerprints that name it.

use vstd::prelude::*;
use vstd::utf8::{decode_utf8, encode_utf8, valid_utf8};

use crate::outside::{
    hex_encode, hex_text, lowercase_mapping, lowercase_of, nfkc, nfkc_text, quoted, quoted_text,
    sha256, sha256_digest, utf8_error, utf8_text,
};
use crate::paths::{
    extension, extension_of, is_name, is_name_text, join_path, joined, parts, parts_of, Platform,
};
use crate::text::{
    chars_of, decimal, decimal_text, expand, join, join_texts, lemma_texts_push, lines, lines_of,
    same, texts, trim, trimmed,
};
use crate::types::{ResolvedSource, SourceView};

verus! {

/// Changes whenever the way a generation is built changes.
pub const BUILD_RECIPE_VERSION: u32 = 2;

#[derive(Debug, PartialEq, Eq)]
pub struct Patch {
    pub path: String,
    pub bytes: Vec<u8>,
}

pub struct PatchView {
    pub path: Seq<char>,
    pub bytes: Seq<u8>,
}

impl View for Patch {
    type V = PatchView;

    open spec fn view(&self) -> PatchView {
        PatchView { path: self.path@, bytes: self.bytes@ }
    }
}

impl Clone for Patch {
    fn clone(&self) -> (r: Self)
        ensures
            r@ == self@,
    {
        Patch { path: self.path.clone(), bytes: vstd::slice::slice_to_vec(self.bytes.as_slice()) }
    }
}

pub open spec fn patches_view(v: Seq<Patch>) -> Seq<PatchView> {
    v.map_values(|p: Patch| p@)
}

pub open spec fn patch_paths(v: Seq<PatchView>) -> Seq<Seq<char>> {
    v.map_values(|p: PatchView| p.path)
}

#[derive(Debug, Clone, Copy, PartialEq, Eq, Structural)]
pub enum EntryKind {
    Symlink,
    File,
    Other,
}

/// One entry of a walked patch directory: its path below the root, what it is, and the
/// bytes of a patch file.
#[derive(Debug)]
pub struct WalkEntry {
    pub path: String,
    pub kind: EntryKind,
    pub contents: Vec<u8>,
}

pub struct WalkView {
    pub path: Seq<char>,
    pub kind: EntryKind,
    pub contents: Seq<u8>,
}

impl View for WalkEntry {
    type V = WalkView;

    open spec fn view(&self) -> WalkView {
        WalkView { path: self.path@, kind: self.kind, contents: self.contents@ }
    }
}

pub open spec fn walk_view(v: Seq<WalkEntry>) -> Seq<WalkView> {
    v.map_values(|e: WalkEntry| e@)
}

/// The file `series` of a patch directory.
#[derive(Debug)]
pub enum SeriesFile {
    Absent,
    /// Present, but a symlink or not a regular file.
    Irregular,
    Text(Vec<u8>),
}

/// Equal for two paths that a file system without case or normalization would confuse.
pub open spec fn casefold(path: Seq<char>) -> Seq<char> {
    nfkc(expand(nfkc(path), |c: char| lowercase_mapping(c)))
}

/// A patch file's name ends in `.patch`.
pub open spec fn named_patch(platform: Platform, path: Seq<char>) -> bool {
    extension(platform, path) == Some("patch"@)
}

pub open spec fn unportable(platform: Platform, part: Seq<char>) -> bool {
    !is_name(platform, part) || part.contains('\\') || part.contains('\0')
}

/// The position of the first part that a portable path cannot have, or the length.
pub open spec fn first_unportable(platform: Platform, list: Seq<Seq<char>>) -> int
    decreases list.len(),
{
    if list.len() == 0 || unportable(platform, list[0]) {
        0
    } else {
        1 + first_unportable(platform, list.drop_first())
    }
}

/// The parts of a relative path joined by `/`, when every part is portable.
pub open spec fn portable(platform: Platform, path: Seq<char>) -> Result<Seq<char>, Seq<char>> {
    let list = parts(platform, path);
    let bad = first_unportable(platform, list);
    if bad >= list.len() {
        Ok(join(list, "/"@))
    } else if !is_name(platform, list[bad]) {
        Err("unsafe relative path "@ + path)
    } else {
        Err("unsafe patch path "@ + path)
    }
}

/// The first accepted patch that `path` would be confused with.
pub open spec fn confusable(found: Seq<PatchView>, path: Seq<char>) -> Option<Seq<char>>
    decreases found.len(),
{
    if found.len() == 0 {
        None
    } else if casefold(found[0].path) == casefold(path) {
        Some(found[0].path)
    } else {
        confusable(found.drop_first(), path)
    }
}

/// What one more entry of the walk does to the patches found so far.
pub open spec fn take_entry(
    platform: Platform,
    root: Seq<char>,
    found: Seq<PatchView>,
    e: WalkView,
) -> Result<Seq<PatchView>, Seq<char>> {
    if e.kind == EntryKind::Symlink {
        Err("symlinks are not allowed in patch directories: "@ + join_path(platform, root, e.path))
    } else {
        match portable(platform, e.path) {
            Err(message) => Err(message),
            Ok(path) => if casefold(path) == "series"@ && path != "series"@ {
                Err("path "@ + quoted(path) + " conflicts with reserved series file"@)
            } else if e.kind != EntryKind::File || !named_patch(platform, path) {
                Ok(found)
            } else {
                match confusable(found, path) {
                    Some(other) => Err(
                        "patch paths collide under case folding: "@ + quoted(other) + " and "@
                            + quoted(path),
                    ),
                    None => Ok(found.push(PatchView { path, bytes: e.contents })),
                }
            },
        }
    }
}

/// The patches that a walk finds, in the order of the walk.
pub open spec fn found_patches(
    platform: Platform,
    root: Seq<char>,
    entries: Seq<WalkView>,
) -> Result<
    Seq<PatchView>,
    Seq<char>,
>
    decreases entries.len(),
{
    if entries.len() == 0 {
        Ok(Seq::empty())
    } else {
        match found_patches(platform, root, entries.drop_last()) {
            Err(message) => Err(message),
            Ok(found) => take_entry(platform, root, found, entries.last()),
        }
    }
}

/// Texts in the order of their code points, which is the order of their bytes.
pub open spec fn text_less(a: Seq<char>, b: Seq<char>) -> bool
    decreases a.len(),
{
    if b.len() == 0 {
        false
    } else if a.len() == 0 {
        true
    } else if a[0] != b[0] {
        a[0] < b[0]
    } else {
        text_less(a.drop_first(), b.drop_first())
    }
}

pub open spec fn sorted_by_path(v: Seq<PatchView>) -> bool {
    forall|i: int, j: int| 0 <= i < j < v.len() ==> !text_less(v[j].path, v[i].path)
}

/// `x` put behind every patch of `v` whose path is not greater.
pub open spec fn insert_by_path(v: Seq<PatchView>, x: PatchView) -> Seq<PatchView>
    decreases v.len(),
{
    if v.len() == 0 || !text_less(x.path, v.last().path) {
        v.push(x)
    } else {
        insert_by_path(v.drop_last(), x).push(v.last())
    }
}

/// The patches in the order of their paths.
pub open spec fn path_order(v: Seq<PatchView>) -> Seq<PatchView>
    decreases v.len(),
{
    if v.len() == 0 {
        v
    } else {
        insert_by_path(path_order(v.drop_last()), v.last())
    }
}

pub open spec fn safe_series_entry(platform: Platform, entry: Seq<char>) -> bool {
    &&& !entry.contains('\\')
    &&& !entry.contains('\0')
    &&& named_patch(platform, entry)
    &&& forall|i: int| 0 <= i < parts(platform, entry).len() ==> is_name(
        platform,
        #[trigger] parts(platform, entry)[i],
    )
}

pub open spec fn folds(list: Seq<Seq<char>>) -> Seq<Seq<char>> {
    list.map_values(|p: Seq<char>| casefold(p))
}

/// What line `n` of the series file, counted from one, adds to the order.
pub open spec fn take_series_line(
    platform: Platform,
    known: Seq<Seq<char>>,
    order: Seq<Seq<char>>,
    raw: Seq<char>,
    n: nat,
) -> Result<Seq<Seq<char>>, Seq<char>> {
    let line = trim(raw);
    if line.len() == 0 || line[0] == '#' {
        Ok(order)
    } else if line != raw {
        Err("series line "@ + decimal(n) + " has leading or trailing whitespace"@)
    } else if !safe_series_entry(platform, line) {
        Err(
            "invalid series entry on line "@ + decimal(n) + ": unsafe patch path "@ + quoted(
                line,
            ),
        )
    } else if folds(order).contains(casefold(line)) {
        Err("duplicate or case-colliding series entry "@ + quoted(line))
    } else if !known.contains(line) {
        Err("series entry does not name a regular patch file: "@ + quoted(line))
    } else {
        Ok(order.push(line))
    }
}

pub open spec fn series_lines(
    platform: Platform,
    known: Seq<Seq<char>>,
    raw: Seq<Seq<char>>,
) -> Result<
    Seq<Seq<char>>,
    Seq<char>,
>
    decreases raw.len(),
{
    if raw.len() == 0 {
        Ok(Seq::empty())
    } else {
        match series_lines(platform, known, raw.drop_last()) {
            Err(message) => Err(message),
            Ok(order) => take_series_line(platform, known, order, raw.last(), raw.len()),
        }
    }
}

/// The known paths that the order leaves out, as they stand in `known`.
pub open spec fn left_out(known: Seq<Seq<char>>, order: Seq<Seq<char>>) -> Seq<Seq<char>>
    decreases known.len(),
{
    if known.len() == 0 {
        Seq::empty()
    } else if order.contains(known.last()) {
        left_out(known.drop_last(), order)
    } else {
        left_out(known.drop_last(), order).push(known.last())
    }
}

/// The order that a series text gives to the known patch paths.
pub open spec fn series_order(
    platform: Platform,
    known: Seq<Seq<char>>,
    series: Seq<char>,
) -> Result<Seq<Seq<char>>, Seq<char>> {
    match series_lines(platform, known, lines(series)) {
        Err(message) => Err(message),
        Ok(order) => if left_out(known, order).len() > 0 {
            Err("series does not list every patch file: "@ + join(left_out(known, order), ", "@))
        } else {
            Ok(order)
        },
    }
}

/// `n` in `width` bytes, the most significant first.
pub open spec fn be_bytes(n: nat, width: nat) -> Seq<u8>
    decreases width,
{
    if width == 0 {
        Seq::empty()
    } else {
        be_bytes(n / 256, (width - 1) as nat).push((n % 256) as u8)
    }
}

/// A byte string after its length in eight bytes.
pub open spec fn field(bytes: Seq<u8>) -> Seq<u8> {
    be_bytes(bytes.len(), 8) + bytes
}

pub open spec fn patch_fields(v: Seq<PatchView>) -> Seq<u8>
    decreases v.len(),
{
    if v.len() == 0 {
        Seq::empty()
    } else {
        patch_fields(v.drop_last()) + field(encode_utf8(v.last().path)) + field(v.last().bytes)
    }
}

/// The bytes that the fingerprint of a patch stack is the digest of.
pub open spec fn fingerprint_input(v: Seq<PatchView>) -> Seq<u8> {
    encode_utf8("codex-patcher-patchset-v1\0"@) + patch_fields(v)
}

pub open spec fn fingerprint_of(v: Seq<PatchView>) -> Seq<char> {
    hex_text(sha256(fingerprint_input(v)))
}

/// The fields that tell one build from another.
pub open spec fn source_key_fields(
    source: SourceView,
    fingerprint: Seq<char>,
    target: Seq<char>,
) -> Seq<Seq<u8>> {
    seq![
        be_bytes(BUILD_RECIPE_VERSION as nat, 4),
        encode_utf8(source.channel),
        encode_utf8(source.ref_name),
        encode_utf8(source.ref_object_oid),
        encode_utf8(source.commit_oid),
        encode_utf8(source.version),
        encode_utf8(fingerprint),
        encode_utf8(target),
    ]
}

pub open spec fn fields(list: Seq<Seq<u8>>) -> Seq<u8>
    decreases list.len(),
{
    if list.len() == 0 {
        Seq::empty()
    } else {
        fields(list.drop_last()) + field(list.last())
    }
}

pub open spec fn source_key_input(
    source: SourceView,
    fingerprint: Seq<char>,
    target: Seq<char>,
) -> Seq<u8> {
    encode_utf8("codex-patcher-source-key-v1\0"@) + fields(
        source_key_fields(source, fingerprint, target),
    )
}

pub open spec fn source_key_of(
    source: SourceView,
    fingerprint: Seq<char>,
    target: Seq<char>,
) -> Seq<char> {
    hex_text(sha256(source_key_input(source, fingerprint, target)))
}

proof fn lemma_less_irreflexive(a: Seq<char>)
    ensures
        !text_less(a, a),
    decreases a.len(),
{
    if a.len() > 0 {
        lemma_less_irreflexive(a.drop_first());
    }
}

pub proof fn lemma_less_transitive(a: Seq<char>, b: Seq<char>, c: Seq<char>)
    requires
        !text_less(b, a),
        !text_less(c, b),
    ensures
        !text_less(c, a),
    decreases a.len(),
{
    if a.len() > 0 && b.len() > 0 && c.len() > 0 && a[0] == b[0] && b[0] == c[0] {
        lemma_less_transitive(a.drop_first(), b.drop_first(), c.drop_first());
    }
}

pub proof fn lemma_less_asymmetric(a: Seq<char>, b: Seq<char>)
    requires
        text_less(a, b),
    ensures
        !text_less(b, a),
    decreases a.len(),
{
    if a.len() > 0 && b.len() > 0 && a[0] == b[0] {
        lemma_less_asymmetric(a.drop_first(), b.drop_first());
    }
}

pub fn text_is_less(a: &str, b: &str) -> (r: bool)
    ensures
        r == text_less(a@, b@),
{
    let left = chars_of(a);
    let right = chars_of(b);
    let mut i: usize = 0;
    proof {
        assert(left@.skip(0) =~= a@);
        assert(right@.skip(0) =~= b@);
    }
    while i < left.len() && i < right.len() && left[i] == right[i]
        invariant
            i <= left@.len(),
            i <= right@.len(),
            text_less(a@, b@) == text_less(left@.skip(i as int), right@.skip(i as int)),
        decreases left@.len() - i,
    {
        proof {
            assert(left@.skip(i as int).drop_first() =~= left@.skip(i as int + 1));
            assert(right@.skip(i as int).drop_first() =~= right@.skip(i as int + 1));
        }
        i = i + 1;
    }
    if i >= right.len() {
        false
    } else if i >= left.len() {
        true
    } else {
        left[i] < right[i]
    }
}

/// The casefolded form of a path.
pub fn casefold_path(path: &str) -> (r: String)
    ensures
        r@ == casefold(path@),
{
    let composed = nfkc_text(path);
    let chars = chars_of(composed.as_str());
    let mut lowered = String::new();
    let mut i: usize = 0;
    let ghost f = |c: char| lowercase_mapping(c);
    while i < chars.len()
        invariant
            i <= chars@.len(),
            f == (|c: char| lowercase_mapping(c)),
            lowered@ == expand(chars@.take(i as int), f),
        decreases chars@.len() - i,
    {
        lowered.append(lowercase_of(chars[i]).as_str());
        proof {
            assert(chars@.take(i as int + 1).drop_last() =~= chars@.take(i as int));
        }
        i = i + 1;
    }
    proof {
        assert(chars@.take(chars@.len() as int) =~= chars@);
    }
    nfkc_text(lowered.as_str())
}

pub fn is_patch_name(platform: Platform, path: &str) -> (r: bool)
    ensures
        r == named_patch(platform, path@),
{
    match extension_of(platform, path) {
        Some(ext) => same(ext.as_str(), "patch"),
        None => false,
    }
}

fn holds_char(s: &str, c: char) -> (r: bool)
    ensures
        r == s@.contains(c),
{
    let chars = chars_of(s);
    let mut i: usize = 0;
    while i < chars.len()
        invariant
            i <= chars@.len(),
            chars@ == s@,
            forall|j: int| 0 <= j < i ==> chars@[j] != c,
        decreases chars@.len() - i,
    {
        if chars[i] == c {
            return true;
        }
        i = i + 1;
    }
    false
}

pub fn portable_relative_path(platform: Platform, path: &str) -> (r: Result<String, String>)
    ensures
        crate::text::result_text(r) == portable(platform, path@),
{
    let list = parts_of(platform, path);
    let ghost all = texts(list@);
    let mut i: usize = 0;
    proof {
        assert(all.skip(0) =~= all);
        assert(all.len() == list@.len());
    }
    while i < list.len()
        invariant
            i <= list@.len(),
            all == texts(list@),
            all == parts(platform, path@),
            all.len() == list@.len(),
            first_unportable(platform, all) == i + first_unportable(platform, all.skip(i as int)),
        decreases list@.len() - i,
    {
        let part = list[i].as_str();
        proof {
            assert(all.skip(i as int)[0] == part@);
            assert(all[i as int] == part@);
            assert(all.skip(i as int).drop_first() =~= all.skip(i as int + 1));
        }
        if !is_name_text(platform, part) {
            let mut message = "unsafe relative path ".to_owned();
            message.append(path);
            return Err(message);
        }
        if holds_char(part, '\\') || holds_char(part, '\0') {
            let mut message = "unsafe patch path ".to_owned();
            message.append(path);
            return Err(message);
        }
        i = i + 1;
    }
    Ok(join_texts(&list, "/"))
}

/// The path of the first patch in `found` that folds to `fold`.
fn find_confusable(found: &Vec<Patch>, path: &str) -> (r: Option<String>)
    ensures
        crate::text::opt_text(r) == confusable(patches_view(found@), path@),
{
    let fold = casefold_path(path);
    let ghost all = patches_view(found@);
    let mut i: usize = 0;
    proof {
        assert(all.skip(0) =~= all);
    }
    while i < found.len()
        invariant
            i <= found@.len(),
            all == patches_view(found@),
            fold@ == casefold(path@),
            confusable(all, path@) == confusable(all.skip(i as int), path@),
        decreases found@.len() - i,
    {
        proof {
            assert(all.skip(i as int)[0].path == found@[i as int].path@);
            assert(all.skip(i as int).drop_first() =~= all.skip(i as int + 1));
        }
        let other = casefold_path(found[i].path.as_str());
        if same(other.as_str(), fold.as_str()) {
            return Some(found[i].path.clone());
        }
        i = i + 1;
    }
    None
}

pub open spec fn result_patches(r: Result<Vec<Patch>, String>) -> Result<
    Seq<PatchView>,
    Seq<char>,
> {
    match r {
        Ok(v) => Ok(patches_view(v@)),
        Err(message) => Err(message@),
    }
}

/// The patch files among the entries of a walk.
fn collect_patches(
    platform: Platform,
    root: &str,
    entries: &Vec<WalkEntry>,
) -> (r: Result<Vec<Patch>, String>)
    ensures
        result_patches(r) == found_patches(platform, root@, walk_view(entries@)),
{
    let mut found: Vec<Patch> = Vec::new();
    let ghost all = walk_view(entries@);
    let mut i: usize = 0;
    proof {
        assert(all.take(0) =~= Seq::empty());
        assert(patches_view(found@) =~= Seq::empty());
    }
    while i < entries.len()
        invariant
            i <= entries@.len(),
            all == walk_view(entries@),
            found_patches(platform, root@, all.take(i as int)) == Ok::<Seq<PatchView>, Seq<char>>(
                patches_view(found@),
            ),
        decreases entries@.len() - i,
    {
        let ghost here = all.take(i as int + 1);
        proof {
            assert(here.drop_last() =~= all.take(i as int));
            assert(here.last() == entries@[i as int]@);
        }
        let entry = &entries[i];
        let outcome: Result<(), String> = match entry.kind {
            EntryKind::Symlink => {
                let mut message = "symlinks are not allowed in patch directories: ".to_owned();
                message.append(joined(platform, root, entry.path.as_str()).as_str());
                Err(message)
            },
            _ => match portable_relative_path(platform, entry.path.as_str()) {
                Err(message) => Err(message),
                Ok(path) => {
                    let fold = casefold_path(path.as_str());
                    if same(fold.as_str(), "series") && !same(path.as_str(), "series") {
                        let mut message = "path ".to_owned();
                        message.append(quoted_text(path.as_str()).as_str());
                        message.append(" conflicts with reserved series file");
                        Err(message)
                    } else if entry.kind != EntryKind::File || !is_patch_name(platform, path.as_str()) {
                        Ok(())
                    } else {
                        match find_confusable(&found, path.as_str()) {
                            Some(other) => {
                                let mut message =
                                    "patch paths collide under case folding: ".to_owned();
                                message.append(quoted_text(other.as_str()).as_str());
                                message.append(" and ");
                                message.append(quoted_text(path.as_str()).as_str());
                                Err(message)
                            },
                            None => {
                                let patch = Patch {
                                    path,
                                    bytes: vstd::slice::slice_to_vec(entry.contents.as_slice()),
                                };
                                proof {
                                    assert(patches_view(found@.push(patch)) =~= patches_view(
                                        found@,
                                    ).push(patch@));
                                }
                                found.push(patch);
                                Ok(())
                            },
                        }
                    }
                },
            },
        };
        match outcome {
            Ok(()) => {},
            Err(message) => {
                proof {
                    lemma_found_stops(platform, root@, all, i as int + 1);
                }
                return Err(message);
            },
        }
        i = i + 1;
    }
    proof {
        assert(all.take(entries@.len() as int) =~= all);
    }
    Ok(found)
}

/// A walk fails with the first error that it meets.
proof fn lemma_found_stops(platform: Platform, root: Seq<char>, entries: Seq<WalkView>, n: int)
    requires
        0 <= n <= entries.len(),
        found_patches(platform, root, entries.take(n)) is Err,
    ensures
        found_patches(platform, root, entries) == found_patches(platform, root, entries.take(n)),
    decreases entries.len() - n,
{
    if n == entries.len() {
        assert(entries.take(n) =~= entries);
    } else {
        assert(entries.take(n + 1).drop_last() =~= entries.take(n));
        lemma_found_stops(platform, root, entries, n + 1);
    }
}

proof fn lemma_insert_sorts(v: Seq<PatchView>, x: PatchView)
    requires
        sorted_by_path(v),
    ensures
        sorted_by_path(insert_by_path(v, x)),
        insert_by_path(v, x).to_multiset() == v.to_multiset().insert(x),
    decreases v.len(),
{
    broadcast use vstd::seq_lib::group_to_multiset_ensures;

    let w = insert_by_path(v, x);
    if v.len() == 0 || !text_less(x.path, v.last().path) {
        assert forall|a: int, b: int| 0 <= a < b < w.len() implies !text_less(
            w[b].path,
            w[a].path,
        ) by {
            if b == v.len() && a < v.len() - 1 {
                lemma_less_transitive(v[a].path, v.last().path, x.path);
            }
        }
    } else {
        let u = v.drop_last();
        lemma_insert_sorts(u, x);
        let z = insert_by_path(u, x);
        assert(v =~= u.push(v.last()));
        assert forall|k: int| 0 <= k < z.len() implies !text_less(v.last().path, z[k].path) by {
            assert(z.to_multiset().count(z[k]) > 0);
            if z[k] == x {
                lemma_less_asymmetric(x.path, v.last().path);
            } else {
                assert(u.to_multiset().count(z[k]) > 0);
                assert(u.contains(z[k]));
                let m = choose|m: int| 0 <= m < u.len() && u[m] == z[k];
                assert(v[m] == z[k]);
                assert(!text_less(v[v.len() - 1].path, v[m].path));
            }
        }
        assert(w.to_multiset() =~= v.to_multiset().insert(x));
    }
}

/// Putting patches in the order of their paths sorts them and keeps each of them.
pub proof fn path_order_is_sorted(v: Seq<PatchView>)
    ensures
        sorted_by_path(path_order(v)),
        path_order(v).to_multiset() == v.to_multiset(),
    decreases v.len(),
{
    broadcast use vstd::seq_lib::group_to_multiset_ensures;

    if v.len() > 0 {
        path_order_is_sorted(v.drop_last());
        lemma_insert_sorts(path_order(v.drop_last()), v.last());
        assert(v =~= v.drop_last().push(v.last()));
    }
}

fn sort_patches(list: Vec<Patch>) -> (r: Vec<Patch>)
    ensures
        patches_view(r@) == path_order(patches_view(list@)),
{
    let mut out: Vec<Patch> = Vec::new();
    let ghost all = patches_view(list@);
    let mut i: usize = 0;
    proof {
        assert(patches_view(out@) =~= all.take(0));
    }
    while i < list.len()
        invariant
            i <= list@.len(),
            all == patches_view(list@),
            patches_view(out@) == path_order(all.take(i as int)),
        decreases list@.len() - i,
    {
        let mut at: usize = out.len();
        let ghost x = list@[i as int]@;
        let ghost v = patches_view(out@);
        proof {
            assert(v.take(at as int) =~= v);
            assert(insert_by_path(v, x) =~= insert_by_path(v.take(at as int), x) + v.skip(
                at as int,
            ));
        }
        while at > 0 && text_is_less(list[i].path.as_str(), out[at - 1].path.as_str())
            invariant
                at <= out@.len(),
                i < list@.len(),
                v == patches_view(out@),
                x == list@[i as int]@,
                insert_by_path(v, x) == insert_by_path(v.take(at as int), x) + v.skip(at as int),
            decreases at,
        {
            proof {
                assert(v.take(at as int).drop_last() =~= v.take(at as int - 1));
                assert(v.take(at as int).last() == v[at as int - 1]);
                assert(insert_by_path(v.take(at as int - 1), x).push(v[at as int - 1]) + v.skip(
                    at as int,
                ) =~= insert_by_path(v.take(at as int - 1), x) + v.skip(at as int - 1));
            }
            at = at - 1;
        }
        let patch = list[i].clone();
        proof {
            if at > 0 {
                assert(v.take(at as int).last() == v[at as int - 1]);
            }
        }
        out.insert(at, patch);
        proof {
            assert(insert_by_path(v.take(at as int), x) == v.take(at as int).push(x));
            assert(patches_view(out@) =~= v.take(at as int).push(x) + v.skip(at as int));
            assert(all.take(i as int + 1).drop_last() =~= all.take(i as int));
            assert(all.take(i as int + 1).last() == x);
        }
        i = i + 1;
    }
    proof {
        assert(all.take(list@.len() as int) =~= all);
    }
    out
}

pub fn validate_series_entry(platform: Platform, entry: &str) -> (r: Result<(), String>)
    ensures
        crate::text::result_unit(r) == (if safe_series_entry(platform, entry@) {
            Ok(())
        } else {
            Err("unsafe patch path "@ + quoted(entry@))
        }),
{
    let list = parts_of(platform, entry);
    let ghost all = texts(list@);
    let mut names = true;
    let mut i: usize = 0;
    while i < list.len()
        invariant
            i <= list@.len(),
            all == texts(list@),
            names == (forall|j: int| 0 <= j < i ==> is_name(platform, #[trigger] all[j])),
        decreases list@.len() - i,
    {
        proof {
            assert(all[i as int] == list@[i as int]@);
        }
        if !is_name_text(platform, list[i].as_str()) {
            names = false;
        }
        i = i + 1;
    }
    if holds_char(entry, '\\') || holds_char(entry, '\0') || !is_patch_name(platform, entry) || !names {
        let mut message = "unsafe patch path ".to_owned();
        message.append(quoted_text(entry).as_str());
        Err(message)
    } else {
        Ok(())
    }
}

fn holds_fold(order: &Vec<String>, path: &str) -> (r: bool)
    ensures
        r == folds(texts(order@)).contains(casefold(path@)),
{
    let fold = casefold_path(path);
    let ghost all = folds(texts(order@));
    let mut i: usize = 0;
    while i < order.len()
        invariant
            i <= order@.len(),
            all == folds(texts(order@)),
            fold@ == casefold(path@),
            forall|j: int| 0 <= j < i ==> #[trigger] all[j] != fold@,
        decreases order@.len() - i,
    {
        let other = casefold_path(order[i].as_str());
        proof {
            assert(all[i as int] == other@);
        }
        if same(other.as_str(), fold.as_str()) {
            return true;
        }
        i = i + 1;
    }
    false
}

pub open spec fn result_texts(r: Result<Vec<String>, String>) -> Result<
    Seq<Seq<char>>,
    Seq<char>,
> {
    match r {
        Ok(v) => Ok(texts(v@)),
        Err(message) => Err(message@),
    }
}

proof fn lemma_series_stops(platform: Platform, known: Seq<Seq<char>>, raw: Seq<Seq<char>>, n: int)
    requires
        0 <= n <= raw.len(),
        series_lines(platform, known, raw.take(n)) is Err,
    ensures
        series_lines(platform, known, raw) == series_lines(platform, known, raw.take(n)),
    decreases raw.len() - n,
{
    if n == raw.len() {
        assert(raw.take(n) =~= raw);
    } else {
        assert(raw.take(n + 1).drop_last() =~= raw.take(n));
        lemma_series_stops(platform, known, raw, n + 1);
    }
}

/// The order of the known patch paths that a series text gives.
#[verifier::rlimit(40)]
pub fn load_series(
    platform: Platform,
    known: &Vec<String>,
    series: &str,
) -> (r: Result<Vec<String>, String>)
    ensures
        result_texts(r) == series_order(platform, texts(known@), series@),
{
    let raw = lines_of(series);
    let ghost all = texts(raw@);
    let ghost names = texts(known@);
    let mut order: Vec<String> = Vec::new();
    let mut i: usize = 0;
    proof {
        assert(all.take(0) =~= Seq::empty());
        assert(texts(order@) =~= Seq::empty());
    }
    while i < raw.len()
        invariant
            i <= raw@.len(),
            all == texts(raw@),
            all == lines(series@),
            names == texts(known@),
            series_lines(platform, names, all.take(i as int)) == Ok::<Seq<Seq<char>>, Seq<char>>(
                texts(order@),
            ),
        decreases raw@.len() - i,
    {
        let ghost here = all.take(i as int + 1);
        proof {
            assert(here.drop_last() =~= all.take(i as int));
            assert(here.last() == raw@[i as int]@);
            assert(here.len() == i + 1);
        }
        let line = trimmed(raw[i].as_str());
        let chars = chars_of(line.as_str());
        let outcome: Result<(), String> = if chars.len() == 0 || chars[0] == '#' {
            Ok(())
        } else if !same(line.as_str(), raw[i].as_str()) {
            let mut message = "series line ".to_owned();
            message.append(decimal_text(i as u64 + 1).as_str());
            message.append(" has leading or trailing whitespace");
            Err(message)
        } else {
            match validate_series_entry(platform, line.as_str()) {
                Err(inner) => {
                    let mut message = "invalid series entry on line ".to_owned();
                    message.append(decimal_text(i as u64 + 1).as_str());
                    message.append(": ");
                    message.append(inner.as_str());
                    proof {
                        reveal_strlit(": ");
                        reveal_strlit("unsafe patch path ");
                        reveal_strlit(": unsafe patch path ");
                        assert(": "@ + "unsafe patch path "@ =~= ": unsafe patch path "@);
                        assert(message@ =~= "invalid series entry on line "@ + decimal(
                            (i + 1) as nat,
                        ) + ": unsafe patch path "@ + quoted(line@));
                    }
                    Err(message)
                },
                Ok(()) => {
                    if holds_fold(&order, line.as_str()) {
                        let mut message = "duplicate or case-colliding series entry ".to_owned();
                        message.append(quoted_text(line.as_str()).as_str());
                        Err(message)
                    } else if !crate::text::holds(known, line.as_str()) {
                        let mut message =
                            "series entry does not name a regular patch file: ".to_owned();
                        message.append(quoted_text(line.as_str()).as_str());
                        Err(message)
                    } else {
                        proof {
                            lemma_texts_push(order@, line);
                        }
                        order.push(line);
                        Ok(())
                    }
                },
            }
        };
        match outcome {
            Ok(()) => {},
            Err(message) => {
                proof {
                    lemma_series_stops(platform, names, all, i as int + 1);
                }
                return Err(message);
            },
        }
        i = i + 1;
    }
    proof {
        assert(all.take(raw@.len() as int) =~= all);
    }
    let mut unlisted: Vec<String> = Vec::new();
    let mut k: usize = 0;
    proof {
        assert(names.take(0) =~= Seq::empty());
        assert(texts(unlisted@) =~= Seq::empty());
    }
    while k < known.len()
        invariant
            k <= known@.len(),
            names == texts(known@),
            texts(unlisted@) == left_out(names.take(k as int), texts(order@)),
        decreases known@.len() - k,
    {
        proof {
            assert(names.take(k as int + 1).drop_last() =~= names.take(k as int));
            assert(names.take(k as int + 1).last() == known@[k as int]@);
        }
        if !crate::text::holds(&order, known[k].as_str()) {
            let name = known[k].clone();
            proof {
                lemma_texts_push(unlisted@, name);
            }
            unlisted.push(name);
        }
        k = k + 1;
    }
    proof {
        assert(names.take(known@.len() as int) =~= names);
        assert(texts(unlisted@).len() == unlisted@.len());
    }
    if unlisted.len() > 0 {
        let mut message = "series does not list every patch file: ".to_owned();
        message.append(join_texts(&unlisted, ", ").as_str());
        return Err(message);
    }
    Ok(order)
}

#[derive(Debug, Clone, Copy, PartialEq, Eq, Structural)]
pub enum RootKind {
    Symlink,
    Directory,
    Other,
}

#[derive(Debug, PartialEq, Eq)]
pub struct PatchSet {
    pub root: String,
    pub patches: Vec<Patch>,
    pub fingerprint: String,
}

/// The first patch of that path.
pub open spec fn patch_named(v: Seq<PatchView>, path: Seq<char>) -> PatchView
    decreases v.len(),
{
    if v.len() == 0 {
        PatchView { path, bytes: Seq::empty() }
    } else if v[0].path == path {
        v[0]
    } else {
        patch_named(v.drop_first(), path)
    }
}

pub open spec fn in_given_order(v: Seq<PatchView>, order: Seq<Seq<char>>) -> Seq<PatchView> {
    order.map_values(|path: Seq<char>| patch_named(v, path))
}

/// The patch stack that a directory holds: its patch files in the order of the series
/// file, or in the order of their paths when there is none.
pub open spec fn loaded(
    platform: Platform,
    given: Seq<char>,
    kind: RootKind,
    root: Seq<char>,
    entries: Seq<WalkView>,
    series: SeriesFile,
) -> Result<Seq<PatchView>, Seq<char>> {
    match kind {
        RootKind::Symlink => Err("patch directory must not be a symlink: "@ + given),
        RootKind::Other => Err("patch path is not a directory: "@ + given),
        RootKind::Directory => match found_patches(platform, root, entries) {
            Err(message) => Err(message),
            Ok(found) => {
                let known = path_order(found);
                match series {
                    SeriesFile::Absent => Ok(known),
                    SeriesFile::Irregular => Err(
                        "series must be a regular file: "@ + join_path(platform, root, "series"@),
                    ),
                    SeriesFile::Text(bytes) => if !valid_utf8(bytes@) {
                        Err("series is not valid UTF-8: "@ + utf8_error(bytes@))
                    } else {
                        match series_order(platform, patch_paths(known), decode_utf8(bytes@)) {
                            Err(message) => Err(message),
                            Ok(order) => Ok(in_given_order(known, order)),
                        }
                    },
                }
            },
        },
    }
}

fn push_bytes(out: &mut Vec<u8>, bytes: &[u8])
    ensures
        final(out)@ == old(out)@ + bytes@,
{
    let mut i: usize = 0;
    let ghost start = out@;
    while i < bytes.len()
        invariant
            i <= bytes@.len(),
            out@ == start + bytes@.take(i as int),
        decreases bytes@.len() - i,
    {
        out.push(bytes[i]);
        proof {
            assert(bytes@.take(i as int + 1) =~= bytes@.take(i as int).push(bytes@[i as int]));
        }
        i = i + 1;
    }
    proof {
        assert(bytes@.take(bytes@.len() as int) =~= bytes@);
    }
}

fn push_be_bytes(out: &mut Vec<u8>, n: u64, width: u32)
    ensures
        final(out)@ == old(out)@ + be_bytes(n as nat, width as nat),
    decreases width,
{
    if width > 0 {
        push_be_bytes(out, n / 256, width - 1);
        out.push((n % 256) as u8);
        proof {
            assert(out@ =~= old(out)@ + be_bytes(n as nat, width as nat));
        }
    } else {
        proof {
            assert(out@ =~= old(out)@ + be_bytes(n as nat, 0));
        }
    }
}

fn push_field(out: &mut Vec<u8>, bytes: &[u8])
    ensures
        final(out)@ == old(out)@ + field(bytes@),
{
    push_be_bytes(out, bytes.len() as u64, 8);
    push_bytes(out, bytes);
    proof {
        assert(out@ =~= old(out)@ + field(bytes@));
    }
}

/// The SHA-256 of `bytes` in hexadecimal.
pub fn sha256_hex(bytes: &[u8]) -> (r: String)
    ensures
        r@ == hex_text(sha256(bytes@)),
        r@.len() == 64,
{
    let digest = sha256_digest(bytes);
    hex_encode(digest.as_slice())
}

pub fn fingerprint(patches: &Vec<Patch>) -> (r: String)
    ensures
        r@ == fingerprint_of(patches_view(patches@)),
{
    let mut input: Vec<u8> = Vec::new();
    push_bytes(&mut input, "codex-patcher-patchset-v1\0".as_bytes());
    let ghost domain = encode_utf8("codex-patcher-patchset-v1\0"@);
    let ghost all = patches_view(patches@);
    let mut i: usize = 0;
    proof {
        assert(all.take(0) =~= Seq::empty());
        assert(input@ =~= domain + patch_fields(all.take(0)));
    }
    while i < patches.len()
        invariant
            i <= patches@.len(),
            all == patches_view(patches@),
            input@ == domain + patch_fields(all.take(i as int)),
        decreases patches@.len() - i,
    {
        push_field(&mut input, patches[i].path.as_str().as_bytes());
        push_field(&mut input, patches[i].bytes.as_slice());
        proof {
            assert(all.take(i as int + 1).drop_last() =~= all.take(i as int));
            assert(all.take(i as int + 1).last() == patches@[i as int]@);
            assert(input@ =~= domain + patch_fields(all.take(i as int + 1)));
        }
        i = i + 1;
    }
    proof {
        assert(all.take(patches@.len() as int) =~= all);
    }
    sha256_hex(input.as_slice())
}

/// The paths of `list`.
fn paths_of(list: &Vec<Patch>) -> (r: Vec<String>)
    ensures
        texts(r@) == patch_paths(patches_view(list@)),
{
    let mut out: Vec<String> = Vec::new();
    let mut i: usize = 0;
    let ghost all = patch_paths(patches_view(list@));
    while i < list.len()
        invariant
            i <= list@.len(),
            all == patch_paths(patches_view(list@)),
            texts(out@) == all.take(i as int),
        decreases list@.len() - i,
    {
        let path = list[i].path.clone();
        proof {
            lemma_texts_push(out@, path);
            assert(all.take(i as int + 1) =~= all.take(i as int).push(path@));
        }
        out.push(path);
        i = i + 1;
    }
    proof {
        assert(all.take(list@.len() as int) =~= all);
    }
    out
}

/// The patch of that path.
fn find_patch(list: &Vec<Patch>, path: &str) -> (r: Patch)
    ensures
        r@ == patch_named(patches_view(list@), path@),
{
    let ghost all = patches_view(list@);
    let mut i: usize = 0;
    proof {
        assert(all.skip(0) =~= all);
    }
    while i < list.len()
        invariant
            i <= list@.len(),
            all == patches_view(list@),
            patch_named(all, path@) == patch_named(all.skip(i as int), path@),
        decreases list@.len() - i,
    {
        proof {
            assert(all.skip(i as int)[0] == list@[i as int]@);
            assert(all.skip(i as int).drop_first() =~= all.skip(i as int + 1));
        }
        if same(list[i].path.as_str(), path) {
            return list[i].clone();
        }
        i = i + 1;
    }
    let bytes: Vec<u8> = Vec::new();
    Patch { path: path.to_owned(), bytes }
}

impl PatchSet {
    /// The patch stack of the directory `root`, which was given as `given`.
    pub fn load(
        platform: Platform,
        given: &str,
        kind: RootKind,
        root: &str,
        entries: &Vec<WalkEntry>,
        series: &SeriesFile,
    ) -> (r: Result<PatchSet, String>)
        ensures
            match r {
                Ok(set) => {
                    &&& set.root@ == root@
                    &&& loaded(platform, given@, kind, root@, walk_view(entries@), *series) == Ok::<
                        Seq<PatchView>,
                        Seq<char>,
                    >(patches_view(set.patches@))
                    &&& set.fingerprint@ == fingerprint_of(patches_view(set.patches@))
                },
                Err(e) => loaded(
                    platform,
                    given@,
                    kind,
                    root@,
                    walk_view(entries@),
                    *series,
                ) == Err::<
                    Seq<PatchView>,
                    Seq<char>,
                >(e@),
            },
    {
        match kind {
            RootKind::Symlink => {
                let mut message = "patch directory must not be a symlink: ".to_owned();
                message.append(given);
                return Err(message);
            },
            RootKind::Other => {
                let mut message = "patch path is not a directory: ".to_owned();
                message.append(given);
                return Err(message);
            },
            RootKind::Directory => {},
        }
        let found = match collect_patches(platform, root, entries) {
            Ok(found) => found,
            Err(message) => return Err(message),
        };
        let known = sort_patches(found);
        let patches = match series {
            SeriesFile::Absent => known,
            SeriesFile::Irregular => {
                let mut message = "series must be a regular file: ".to_owned();
                message.append(joined(platform, root, "series").as_str());
                return Err(message);
            },
            SeriesFile::Text(bytes) => {
                let text = match utf8_text(bytes.as_slice()) {
                    Ok(text) => text,
                    Err(cause) => {
                        let mut message = "series is not valid UTF-8: ".to_owned();
                        message.append(cause.as_str());
                        return Err(message);
                    },
                };
                let names = paths_of(&known);
                let order = match load_series(platform, &names, text.as_str()) {
                    Ok(order) => order,
                    Err(message) => return Err(message),
                };
                let mut list: Vec<Patch> = Vec::new();
                let ghost kv = patches_view(known@);
                let ghost wanted = in_given_order(kv, texts(order@));
                let mut i: usize = 0;
                while i < order.len()
                    invariant
                        i <= order@.len(),
                        kv == patches_view(known@),
                        wanted == in_given_order(kv, texts(order@)),
                        patches_view(list@) == wanted.take(i as int),
                    decreases order@.len() - i,
                {
                    let patch = find_patch(&known, order[i].as_str());
                    proof {
                        assert(patches_view(list@.push(patch)) =~= patches_view(list@).push(
                            patch@,
                        ));
                        assert(wanted[i as int] == patch@);
                        assert(wanted.take(i as int + 1) =~= wanted.take(i as int).push(patch@));
                    }
                    list.push(patch);
                    i = i + 1;
                }
                proof {
                    assert(wanted.take(order@.len() as int) =~= wanted);
                }
                list
            },
        };
        let fingerprint = fingerprint(&patches);
        Ok(PatchSet { root: root.to_owned(), patches, fingerprint })
    }

    /// The key under which the build of `source` with this stack for `target` is kept.
    #[verifier::rlimit(40)]
    pub fn source_key(&self, source: &ResolvedSource, target: &str) -> (r: String)
        ensures
            r@ == source_key_of(source@, self.fingerprint@, target@),
    {
        let mut input: Vec<u8> = Vec::new();
        push_bytes(&mut input, "codex-patcher-source-key-v1\0".as_bytes());
        let ghost domain = encode_utf8("codex-patcher-source-key-v1\0"@);
        let ghost list = source_key_fields(source@, self.fingerprint@, target@);
        let mut recipe: Vec<u8> = Vec::new();
        push_be_bytes(&mut recipe, BUILD_RECIPE_VERSION as u64, 4);
        proof {
            reveal_with_fuel(fields, 9);
            assert(recipe@ =~= list[0]);
            assert(list.take(0) =~= Seq::empty());
            assert(input@ =~= domain + fields(list.take(0)));
        }
        push_field(&mut input, recipe.as_slice());
        proof {
            lemma_fields_step(list, 0);
            assert(input@ =~= domain + fields(list.take(1)));
        }
        push_field(&mut input, source.channel.as_str().as_bytes());
        proof {
            lemma_fields_step(list, 1);
            assert(input@ =~= domain + fields(list.take(2)));
        }
        push_field(&mut input, source.ref_name.as_str().as_bytes());
        proof {
            lemma_fields_step(list, 2);
            assert(input@ =~= domain + fields(list.take(3)));
        }
        push_field(&mut input, source.ref_object_oid.as_str().as_bytes());
        proof {
            lemma_fields_step(list, 3);
            assert(input@ =~= domain + fields(list.take(4)));
        }
        push_field(&mut input, source.commit_oid.as_str().as_bytes());
        proof {
            lemma_fields_step(list, 4);
            assert(input@ =~= domain + fields(list.take(5)));
        }
        push_field(&mut input, source.version.as_str().as_bytes());
        proof {
            lemma_fields_step(list, 5);
            assert(input@ =~= domain + fields(list.take(6)));
        }
        push_field(&mut input, self.fingerprint.as_str().as_bytes());
        proof {
            lemma_fields_step(list, 6);
            assert(input@ =~= domain + fields(list.take(7)));
        }
        push_field(&mut input, target.as_bytes());
        proof {
            lemma_fields_step(list, 7);
            assert(list.take(8) =~= list);
            assert(input@ =~= source_key_input(source@, self.fingerprint@, target@));
        }
        sha256_hex(input.as_slice())
    }

    pub fn is_empty(&self) -> (r: bool)
        ensures
            r == (self.patches@.len() == 0),
    {
        self.patches.len() == 0
    }
}

proof fn lemma_fields_step(list: Seq<Seq<u8>>, i: int)
    requires
        0 <= i < list.len(),
    ensures
        fields(list.take(i + 1)) == fields(list.take(i)) + field(list[i]),
{
    assert(list.take(i + 1).drop_last() =~= list.take(i));
    assert(list.take(i + 1).last() == list[i]);
}

} // verus!

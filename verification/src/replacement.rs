//! Replacing the live patch stack as one transaction.
//!
//! Every file is staged and every original is backed up before the first file
//! is touched; a journal says how far the replacement has come, so that an
//! interrupted one is undone.

use vstd::prelude::*;
use vstd::utf8::encode_utf8;

use crate::outside::{hex_text, sha256};
use crate::patchset::{
    casefold, casefold_path, folds, left_out, patch_paths, patches_view, safe_series_entry,
    series_lines, series_order, sha256_hex, Patch, PatchView,
};
use crate::paths::{
    is_absolute, is_name, is_name_text, join_path, joined, lemma_plain_name, parts, parts_of,
    path_is_absolute, Platform,
};
use crate::shim::opt_bytes;
use crate::text::{
    chars_of, decimal, decimal_text, first_index, forward_slashes, is_whitespace, join, join_texts,
    lemma_decimal_digits, lemma_first_index, lemma_first_index_unique, lemma_texts_push, lines,
    opt_text, result_text, result_unit, same, texts, trim, trim_end, trim_start,
    with_forward_slashes, without_carriage_return,
};
use crate::types::copy_opt;

verus! {

pub const JOURNAL_SCHEMA: u32 = 1;

pub const JOURNAL_NAME: &'static str = ".codex-patcher-repair-journal.json";

/// One file to write, or to delete when there are no contents.
#[derive(Debug)]
pub struct FileReplacement {
    pub relative_path: String,
    pub contents: Option<Vec<u8>>,
}

pub struct ReplacementView {
    pub relative_path: Seq<char>,
    pub contents: Option<Seq<u8>>,
}

impl View for FileReplacement {
    type V = ReplacementView;

    open spec fn view(&self) -> ReplacementView {
        ReplacementView { relative_path: self.relative_path@, contents: opt_bytes(self.contents) }
    }
}

impl FileReplacement {
    pub fn write(path: &str, contents: Vec<u8>) -> (r: Self)
        ensures
            r@ == (ReplacementView { relative_path: path@, contents: Some(contents@) }),
    {
        FileReplacement { relative_path: path.to_owned(), contents: Some(contents) }
    }

    pub fn delete(path: &str) -> (r: Self)
        ensures
            r@ == (ReplacementView { relative_path: path@, contents: None }),
    {
        FileReplacement { relative_path: path.to_owned(), contents: None }
    }
}

pub open spec fn replacements_view(v: Seq<FileReplacement>) -> Seq<ReplacementView> {
    v.map_values(|f: FileReplacement| f@)
}

/// A patch that was exported from a repaired worktree.
#[derive(Debug)]
pub struct ExportedPatch {
    pub name: String,
    pub bytes: Vec<u8>,
}

pub open spec fn exported_names(v: Seq<ExportedPatch>) -> Seq<Seq<char>> {
    v.map_values(|p: ExportedPatch| p.name@)
}

/// The series file that lists the names.
pub open spec fn series_text(names: Seq<Seq<char>>) -> Seq<char> {
    join(names, "\n"@) + "\n"@
}

pub open spec fn stack_files(v: Seq<ExportedPatch>) -> Seq<ReplacementView> {
    v.map_values(
        |p: ExportedPatch|
            ReplacementView { relative_path: p.name@, contents: Some(p.bytes@) },
    ).push(
        ReplacementView {
            relative_path: "series"@,
            contents: Some(encode_utf8(series_text(exported_names(v)))),
        },
    )
}

/// The files of an exported patch stack: its patches, and the series that orders them.
pub fn patch_stack_replacements(exported: &Vec<ExportedPatch>) -> (r: Vec<FileReplacement>)
    ensures
        replacements_view(r@) == stack_files(exported@),
{
    let mut out: Vec<FileReplacement> = Vec::new();
    let mut names: Vec<String> = Vec::new();
    let ghost all = exported@.map_values(
        |p: ExportedPatch|
            ReplacementView { relative_path: p.name@, contents: Some(p.bytes@) },
    );
    let mut i: usize = 0;
    while i < exported.len()
        invariant
            i <= exported@.len(),
            all == exported@.map_values(
                |p: ExportedPatch|
                    ReplacementView { relative_path: p.name@, contents: Some(p.bytes@) },
            ),
            replacements_view(out@) == all.take(i as int),
            texts(names@) == exported_names(exported@).take(i as int),
        decreases exported@.len() - i,
    {
        let item = FileReplacement::write(
            exported[i].name.as_str(),
            vstd::slice::slice_to_vec(exported[i].bytes.as_slice()),
        );
        let name = exported[i].name.clone();
        proof {
            assert(replacements_view(out@.push(item)) =~= replacements_view(out@).push(item@));
            assert(all[i as int] == item@);
            assert(all.take(i as int + 1) =~= all.take(i as int).push(item@));
            lemma_texts_push(names@, name);
            assert(exported_names(exported@).take(i as int + 1) =~= exported_names(
                exported@,
            ).take(i as int).push(name@));
        }
        out.push(item);
        names.push(name);
        i = i + 1;
    }
    proof {
        assert(all.take(exported@.len() as int) =~= all);
        assert(exported_names(exported@).take(exported@.len() as int) =~= exported_names(
            exported@,
        ));
    }
    let mut series = join_texts(&names, "\n");
    series.append("\n");
    let item = FileReplacement::write(
        "series",
        vstd::slice::slice_to_vec(series.as_str().as_bytes()),
    );
    proof {
        assert(replacements_view(out@.push(item)) =~= replacements_view(out@).push(item@));
    }
    out.push(item);
    out
}

/// The originals that an exported stack no longer has, in their order.
pub open spec fn dropped(
    platform: Platform,
    original: Seq<Seq<char>>,
    names: Seq<Seq<char>>,
) -> Seq<ReplacementView>
    decreases original.len(),
{
    if original.len() == 0 {
        Seq::empty()
    } else if names_path(platform, names, original.last()) {
        dropped(platform, original.drop_last(), names)
    } else {
        dropped(platform, original.drop_last(), names).push(
            ReplacementView { relative_path: original.last(), contents: None },
        )
    }
}

/// One of the names is that path.
pub open spec fn names_path(platform: Platform, names: Seq<Seq<char>>, path: Seq<char>) -> bool {
    exists|i: int| 0 <= i < names.len() && parts(
        platform,
        #[trigger] names[i],
    ) == parts(platform, path)
}

fn has_path(platform: Platform, exported: &Vec<ExportedPatch>, path: &str) -> (r: bool)
    ensures
        r == names_path(platform, exported_names(exported@), path@),
{
    let ghost names = exported_names(exported@);
    let mut i: usize = 0;
    while i < exported.len()
        invariant
            i <= exported@.len(),
            names == exported_names(exported@),
            forall|k: int| 0 <= k < i ==> parts(
                platform,
                #[trigger] names[k],
            ) != parts(platform, path@),
        decreases exported@.len() - i,
    {
        proof {
            assert(names[i as int] == exported@[i as int].name@);
        }
        if crate::paths::same_path(platform, exported[i].name.as_str(), path) {
            proof {
                assert(parts(platform, names[i as int]) == parts(platform, path@));
            }
            return true;
        }
        i = i + 1;
    }
    false
}

/// The files of an exported stack, and the deletion of every original that it no longer
/// has.
pub fn complete_patch_stack_replacements(
    platform: Platform,
    original: &Vec<String>,
    exported: &Vec<ExportedPatch>,
) -> (r: Vec<FileReplacement>)
    ensures
        replacements_view(r@) == stack_files(exported@) + dropped(
            platform,
            texts(original@),
            exported_names(exported@),
        ),
{
    let mut out = patch_stack_replacements(exported);
    let ghost head = replacements_view(out@);
    let ghost all = texts(original@);
    let ghost names = exported_names(exported@);
    let mut i: usize = 0;
    proof {
        assert(all.take(0) =~= Seq::empty());
        assert(replacements_view(out@) =~= head + dropped(platform, all.take(0), names));
    }
    while i < original.len()
        invariant
            i <= original@.len(),
            all == texts(original@),
            names == exported_names(exported@),
            replacements_view(out@) == head + dropped(platform, all.take(i as int), names),
        decreases original@.len() - i,
    {
        proof {
            assert(all.take(i as int + 1).drop_last() =~= all.take(i as int));
            assert(all.take(i as int + 1).last() == original@[i as int]@);
        }
        if !has_path(platform, exported, original[i].as_str()) {
            let item = FileReplacement::delete(original[i].as_str());
            let ghost before = replacements_view(out@);
            proof {
                assert(replacements_view(out@.push(item)) =~= before.push(item@));
            }
            out.push(item);
            proof {
                assert(replacements_view(out@) =~= head + dropped(
                    platform,
                    all.take(i as int + 1),
                    names,
                ));
            }
        }
        i = i + 1;
    }
    proof {
        assert(all.take(original@.len() as int) =~= all);
    }
    out
}

pub open spec fn unsafe_part(platform: Platform, part: Seq<char>) -> bool {
    !is_name(platform, part) || part.contains('\\') || part.contains('\0')
}

/// What is wrong with a path that must lie below the patch directory.
pub open spec fn path_problem(platform: Platform, path: Seq<char>) -> Option<Seq<char>> {
    if path.len() == 0 {
        Some("path is empty"@)
    } else if is_absolute(platform, path) {
        Some("path must be relative: "@ + path)
    } else if exists|i: int| 0 <= i < parts(platform, path).len() && unsafe_part(
        platform,
        #[trigger] parts(platform, path)[i],
    ) {
        Some("unsafe relative path: "@ + path)
    } else {
        None
    }
}

pub fn validate_relative_path(platform: Platform, path: &str) -> (r: Result<(), String>)
    ensures
        result_unit(r) == crate::journal::as_result(path_problem(platform, path@)),
{
    if chars_of(path).len() == 0 {
        return Err("path is empty".to_owned());
    }
    if path_is_absolute(platform, path) {
        let mut message = "path must be relative: ".to_owned();
        message.append(path);
        return Err(message);
    }
    let list = parts_of(platform, path);
    let ghost all = parts(platform, path@);
    let mut i: usize = 0;
    proof {
        assert(all.len() == list@.len());
    }
    while i < list.len()
        invariant
            i <= list@.len(),
            all == parts(platform, path@),
            all == texts(list@),
            all.len() == list@.len(),
            path@.len() > 0,
            !is_absolute(platform, path@),
            forall|k: int| 0 <= k < i ==> !unsafe_part(platform, #[trigger] all[k]),
        decreases list@.len() - i,
    {
        proof {
            assert(all[i as int] == list@[i as int]@);
        }
        if part_is_unsafe(platform, list[i].as_str()) {
            let mut message = "unsafe relative path: ".to_owned();
            message.append(path);
            proof {
                assert(unsafe_part(platform, parts(platform, path@)[i as int]));
            }
            return Err(message);
        }
        i = i + 1;
    }
    Ok(())
}

fn part_is_unsafe(platform: Platform, part: &str) -> (r: bool)
    ensures
        r == unsafe_part(platform, part@),
{
    if !is_name_text(platform, part) {
        return true;
    }
    let chars = chars_of(part);
    let mut i: usize = 0;
    while i < chars.len()
        invariant
            i <= chars@.len(),
            chars@ == part@,
            forall|k: int| 0 <= k < i ==> chars@[k] != '\\' && chars@[k] != '\0',
        decreases chars@.len() - i,
    {
        if chars[i] == '\\' || chars[i] == '\0' {
            return true;
        }
        i = i + 1;
    }
    false
}

/// The path that the parts lead to from `root`.
pub open spec fn pushed(platform: Platform, root: Seq<char>, parts: Seq<Seq<char>>) -> Seq<char>
    decreases parts.len(),
{
    if parts.len() == 0 {
        root
    } else {
        join_path(platform, pushed(platform, root, parts.drop_last()), parts.last())
    }
}

pub open spec fn target_path(
    platform: Platform,
    root: Seq<char>,
    relative: Seq<char>,
) -> Seq<char> {
    pushed(platform, root, parts(platform, relative))
}

/// What stands on the way to a file.
#[derive(Debug)]
pub enum Way {
    Missing,
    Directory,
    Other,
    Unreadable { message: String },
}

/// What is wrong with the first `n` directories on the way along `parts`.
pub open spec fn way_problem(
    platform: Platform,
    root: Seq<char>,
    parts: Seq<Seq<char>>,
    ways: Seq<Way>,
    n: int,
) -> Option<Seq<char>>
    decreases n,
{
    if n <= 0 {
        None
    } else if way_problem(platform, root, parts, ways, n - 1) is Some {
        way_problem(platform, root, parts, ways, n - 1)
    } else {
        match ways[n - 1] {
            Way::Other => Some(
                "replacement path traverses a non-directory or symlink: "@ + pushed(
                    platform,
                    root,
                    parts.take(n),
                ),
            ),
            Way::Unreadable { message } => Some(message@),
            _ => None,
        }
    }
}

proof fn lemma_way_stops(
    platform: Platform,
    root: Seq<char>,
    parts: Seq<Seq<char>>,
    ways: Seq<Way>,
    n: int,
    m: int,
)
    requires
        n <= m,
        way_problem(platform, root, parts, ways, n) is Some,
    ensures
        way_problem(platform, root, parts, ways, m) == way_problem(platform, root, parts, ways, n),
    decreases m,
{
    if n < m && m > 0 {
        lemma_way_stops(platform, root, parts, ways, n, m - 1);
    }
}

/// Where a file below `root` stands. `ways` are what stands at each directory that leads
/// there; none of them may be a link or another file.
pub fn checked_target(
    platform: Platform,
    root: &str,
    relative: &str,
    ways: &Vec<Way>,
) -> (r: Result<String, String>)
    requires
        path_problem(platform, relative@) is None ==> ways@.len() + 1 == parts(platform, relative@).len(),
    ensures
        result_text(r) == (match path_problem(platform, relative@) {
            Some(message) => Err(message),
            None => match way_problem(
                platform,
                root@,
                parts(platform, relative@),
                ways@,
                ways@.len() as int,
            ) {
                Some(message) => Err(message),
                None => Ok(target_path(platform, root@, relative@)),
            },
        }),
{
    match validate_relative_path(platform, relative) {
        Ok(()) => {},
        Err(message) => return Err(message),
    }
    let list = parts_of(platform, relative);
    let ghost all = parts(platform, relative@);
    let mut current = root.to_owned();
    let mut i: usize = 0;
    proof {
        assert(all.len() == list@.len());
        assert(all.take(0) =~= Seq::empty());
    }
    while i < list.len()
        invariant
            i <= list@.len(),
            list@.len() == ways@.len() + 1,
            all == parts(platform, relative@),
            all == texts(list@),
            path_problem(platform, relative@) is None,
            current@ == pushed(platform, root@, all.take(i as int)),
            i <= ways@.len() ==> way_problem(platform, root@, all, ways@, i as int) is None,
            i > ways@.len() ==> way_problem(
                platform,
                root@,
                all,
                ways@,
                ways@.len() as int,
            ) is None,
        decreases list@.len() - i,
    {
        proof {
            assert(all.take(i as int + 1).drop_last() =~= all.take(i as int));
            assert(all.take(i as int + 1).last() == list@[i as int]@);
        }
        current = joined(platform, current.as_str(), list[i].as_str());
        if i < ways.len() {
            match &ways[i] {
                Way::Missing => {},
                Way::Directory => {},
                Way::Other => {
                    let mut message =
                        "replacement path traverses a non-directory or symlink: ".to_owned();
                    message.append(current.as_str());
                    proof {
                        lemma_way_stops(
                            platform,
                            root@,
                            all,
                            ways@,
                            i as int + 1,
                            ways@.len() as int,
                        );
                    }
                    return Err(message);
                },
                Way::Unreadable { message } => {
                    proof {
                        lemma_way_stops(
                            platform,
                            root@,
                            all,
                            ways@,
                            i as int + 1,
                            ways@.len() as int,
                        );
                    }
                    return Err(message.clone());
                },
            }
        }
        i = i + 1;
    }
    proof {
        assert(all.take(list@.len() as int) =~= all);
    }
    Ok(current)
}

fn target_of(platform: Platform, root: &str, relative: &str) -> (r: String)
    ensures
        r@ == target_path(platform, root@, relative@),
{
    let list = parts_of(platform, relative);
    let ghost all = parts(platform, relative@);
    let mut current = root.to_owned();
    let mut i: usize = 0;
    proof {
        assert(all.take(0) =~= Seq::empty());
    }
    while i < list.len()
        invariant
            i <= list@.len(),
            all == texts(list@),
            current@ == pushed(platform, root@, all.take(i as int)),
        decreases list@.len() - i,
    {
        proof {
            assert(all.take(i as int + 1).drop_last() =~= all.take(i as int));
            assert(all.take(i as int + 1).last() == list@[i as int]@);
        }
        current = joined(platform, current.as_str(), list[i].as_str());
        i = i + 1;
    }
    proof {
        assert(all.take(list@.len() as int) =~= all);
    }
    current
}

/// Equal for two paths that a file system could confuse.
pub open spec fn fold(path: Seq<char>) -> Seq<char> {
    casefold(forward_slashes(path))
}

pub fn fold_path(path: &str) -> (r: String)
    ensures
        r@ == fold(path@),
{
    casefold_path(with_forward_slashes(path).as_str())
}

#[derive(Debug, Clone, Copy, PartialEq, Eq, Structural)]
pub enum ReplacementAction {
    Create,
    Update,
    Delete,
}

#[derive(Debug)]
pub struct ReplacementPreview {
    pub relative_path: String,
    pub action: ReplacementAction,
    pub old_sha256: Option<String>,
    pub new_sha256: Option<String>,
}

pub struct PreviewView {
    pub relative_path: Seq<char>,
    pub action: ReplacementAction,
    pub old_sha256: Option<Seq<char>>,
    pub new_sha256: Option<Seq<char>>,
}

impl View for ReplacementPreview {
    type V = PreviewView;

    open spec fn view(&self) -> PreviewView {
        PreviewView {
            relative_path: self.relative_path@,
            action: self.action,
            old_sha256: opt_text(self.old_sha256),
            new_sha256: opt_text(self.new_sha256),
        }
    }
}

/// What stands where a file is to be replaced.
#[derive(Debug)]
pub enum Target {
    Missing,
    File { bytes: Vec<u8>, mode: Option<u32> },
    /// Neither missing nor a regular file.
    Irregular,
    /// The way there leads through something that is not a directory.
    Blocked { message: String },
}

pub open spec fn original_of(t: Target) -> Option<Seq<u8>> {
    match t {
        Target::File { bytes, mode } => Some(bytes@),
        _ => None,
    }
}

pub open spec fn mode_of(t: Target) -> Option<u32> {
    match t {
        Target::File { bytes, mode } => mode,
        _ => None,
    }
}

pub open spec fn opt_sha256(o: Option<Seq<u8>>) -> Option<Seq<char>> {
    match o {
        Some(bytes) => Some(hex_text(sha256(bytes))),
        None => None,
    }
}

pub open spec fn folds_of(list: Seq<ReplacementView>) -> Seq<Seq<char>> {
    list.map_values(|f: ReplacementView| fold(f.relative_path))
}

/// What keeps the replacement at position `i` from being prepared, once those before it
/// have been.
pub open spec fn preparation_problem(
    platform: Platform,
    patch_dir: Seq<char>,
    list: Seq<ReplacementView>,
    targets: Seq<Target>,
    i: int,
) -> Option<Seq<char>> {
    let f = list[i];
    let target = target_path(platform, patch_dir, f.relative_path);
    if path_problem(platform, f.relative_path) is Some {
        path_problem(platform, f.relative_path)
    } else if folds_of(list.take(i)).contains(fold(f.relative_path)) {
        Some("duplicate or case-colliding replacement: "@ + f.relative_path)
    } else {
        match targets[i] {
            Target::Blocked { message } => Some(message@),
            Target::Irregular => Some("replacement target is not a regular file: "@ + target),
            Target::Missing => if f.contents is None {
                Some("cannot delete missing file "@ + target)
            } else {
                None
            },
            Target::File { .. } => None,
        }
    }
}

/// The first problem at or after position `i`.
pub open spec fn first_problem(
    platform: Platform,
    patch_dir: Seq<char>,
    list: Seq<ReplacementView>,
    targets: Seq<Target>,
    i: int,
) -> Option<Seq<char>>
    decreases list.len() - i,
{
    if i >= list.len() {
        None
    } else if preparation_problem(platform, patch_dir, list, targets, i) is Some {
        preparation_problem(platform, patch_dir, list, targets, i)
    } else {
        first_problem(platform, patch_dir, list, targets, i + 1)
    }
}

pub open spec fn action_of(f: ReplacementView, t: Target) -> ReplacementAction {
    match (original_of(t), f.contents) {
        (None, _) => ReplacementAction::Create,
        (Some(_), Some(_)) => ReplacementAction::Update,
        (Some(_), None) => ReplacementAction::Delete,
    }
}

pub open spec fn preview_of(f: ReplacementView, t: Target) -> PreviewView {
    PreviewView {
        relative_path: f.relative_path,
        action: action_of(f, t),
        old_sha256: opt_sha256(original_of(t)),
        new_sha256: opt_sha256(f.contents),
    }
}

/// A file that is ready to be replaced.
#[derive(Debug)]
pub struct PreparedReplacement {
    pub relative_path: String,
    pub contents: Option<Vec<u8>>,
    pub original: Option<Vec<u8>>,
    pub original_mode: Option<u32>,
}

pub struct PreparedView {
    pub relative_path: Seq<char>,
    pub contents: Option<Seq<u8>>,
    pub original: Option<Seq<u8>>,
    pub original_mode: Option<u32>,
}

impl View for PreparedReplacement {
    type V = PreparedView;

    open spec fn view(&self) -> PreparedView {
        PreparedView {
            relative_path: self.relative_path@,
            contents: opt_bytes(self.contents),
            original: opt_bytes(self.original),
            original_mode: self.original_mode,
        }
    }
}

pub open spec fn prepared_of(f: ReplacementView, t: Target) -> PreparedView {
    PreparedView {
        relative_path: f.relative_path,
        contents: f.contents,
        original: original_of(t),
        original_mode: mode_of(t),
    }
}

#[derive(Debug)]
pub struct PreparedSet {
    pub previews: Vec<ReplacementPreview>,
    pub entries: Vec<PreparedReplacement>,
}

fn holds_fold(list: &Vec<FileReplacement>, n: usize, path: &str) -> (r: bool)
    requires
        n <= list@.len(),
    ensures
        r == folds_of(replacements_view(list@).take(n as int)).contains(fold(path@)),
{
    let wanted = fold_path(path);
    let ghost all = folds_of(replacements_view(list@).take(n as int));
    let mut i: usize = 0;
    while i < n
        invariant
            i <= n <= list@.len(),
            all == folds_of(replacements_view(list@).take(n as int)),
            wanted@ == fold(path@),
            forall|k: int| 0 <= k < i ==> #[trigger] all[k] != wanted@,
        decreases n - i,
    {
        let other = fold_path(list[i].relative_path.as_str());
        proof {
            assert(all[i as int] == other@);
        }
        if same(other.as_str(), wanted.as_str()) {
            return true;
        }
        i = i + 1;
    }
    false
}

fn sha256_of(o: &Option<Vec<u8>>) -> (r: Option<String>)
    ensures
        opt_text(r) == opt_sha256(opt_bytes(*o)),
{
    match o {
        Some(bytes) => Some(sha256_hex(bytes.as_slice())),
        None => None,
    }
}

fn copy_opt_bytes(o: &Option<Vec<u8>>) -> (r: Option<Vec<u8>>)
    ensures
        opt_bytes(r) == opt_bytes(*o),
{
    match o {
        Some(v) => Some(vstd::slice::slice_to_vec(v.as_slice())),
        None => None,
    }
}

/// What is about to be replaced. `targets` are what stands at each path.
pub fn prepare_replacements(
    platform: Platform,
    patch_dir: &str,
    replacements: &Vec<FileReplacement>,
    targets: &Vec<Target>,
) -> (r: Result<PreparedSet, String>)
    requires
        targets@.len() == replacements@.len(),
    ensures
        ({
            let list = replacements_view(replacements@);
            match set_problem(platform, patch_dir@, list, targets@) {
                Some(message) => r matches Err(e) && e@ == message,
                None => r matches Ok(set) && is_prepared(set, list, targets@),
            }
        }),
{
    let ghost list = replacements_view(replacements@);
    if replacements.len() == 0 {
        return Err("replacement set is empty".to_owned());
    }
    let mut previews: Vec<ReplacementPreview> = Vec::new();
    let mut entries: Vec<PreparedReplacement> = Vec::new();
    let mut i: usize = 0;
    while i < replacements.len()
        invariant
            i <= replacements@.len(),
            targets@.len() == replacements@.len(),
            list == replacements_view(replacements@),
            list.len() > 0,
            previews@.len() == i,
            entries@.len() == i,
            first_problem(platform, patch_dir@, list, targets@, 0) == first_problem(
                platform,
                patch_dir@,
                list,
                targets@,
                i as int,
            ),
            forall|k: int|
                #![trigger list[k]]
                0 <= k < i ==> previews@[k]@ == preview_of(list[k], targets@[k])
                    && entries@[k]@ == prepared_of(list[k], targets@[k]),
        decreases replacements@.len() - i,
    {
        let f = &replacements[i];
        proof {
            assert(list[i as int] == f@);
        }
        let path = f.relative_path.as_str();
        match validate_relative_path(platform, path) {
            Ok(()) => {},
            Err(message) => return Err(message),
        }
        if holds_fold(replacements, i, path) {
            let mut message = "duplicate or case-colliding replacement: ".to_owned();
            message.append(path);
            return Err(message);
        }
        let (original, original_mode) = match &targets[i] {
            Target::Blocked { message } => return Err(message.clone()),
            Target::Irregular => {
                let mut message = "replacement target is not a regular file: ".to_owned();
                message.append(target_of(platform, patch_dir, path).as_str());
                return Err(message);
            },
            Target::Missing => {
                if f.contents.is_none() {
                    let mut message = "cannot delete missing file ".to_owned();
                    message.append(target_of(platform, patch_dir, path).as_str());
                    return Err(message);
                }
                (None, None)
            },
            Target::File { bytes, mode } => (
                Some(vstd::slice::slice_to_vec(bytes.as_slice())),
                *mode,
            ),
        };
        let action = match (&original, &f.contents) {
            (None, _) => ReplacementAction::Create,
            (Some(_), Some(_)) => ReplacementAction::Update,
            (Some(_), None) => ReplacementAction::Delete,
        };
        let preview = ReplacementPreview {
            relative_path: f.relative_path.clone(),
            action,
            old_sha256: sha256_of(&original),
            new_sha256: sha256_of(&f.contents),
        };
        let entry = PreparedReplacement {
            relative_path: f.relative_path.clone(),
            contents: copy_opt_bytes(&f.contents),
            original,
            original_mode,
        };
        proof {
            assert(preview@ == preview_of(list[i as int], targets@[i as int]));
            assert(entry@ == prepared_of(list[i as int], targets@[i as int]));
        }
        previews.push(preview);
        entries.push(entry);
        i = i + 1;
    }
    Ok(PreparedSet { previews, entries })
}

#[derive(Debug, Clone, Copy, PartialEq, Eq, Structural)]
pub enum JournalPhase {
    Applying,
    Complete,
}

#[derive(Debug, Clone, Copy, PartialEq, Eq, Structural)]
pub enum EntryState {
    Prepared,
    Applying,
    Applied,
}

#[derive(Debug)]
pub struct JournalEntry {
    pub relative_path: String,
    pub original_exists: bool,
    pub original_mode: Option<u32>,
    pub staged: Option<String>,
    pub backup: Option<String>,
    pub state: EntryState,
}

pub struct EntryView {
    pub relative_path: Seq<char>,
    pub original_exists: bool,
    pub original_mode: Option<u32>,
    pub staged: Option<Seq<char>>,
    pub backup: Option<Seq<char>>,
    pub state: EntryState,
}

impl View for JournalEntry {
    type V = EntryView;

    open spec fn view(&self) -> EntryView {
        EntryView {
            relative_path: self.relative_path@,
            original_exists: self.original_exists,
            original_mode: self.original_mode,
            staged: opt_text(self.staged),
            backup: opt_text(self.backup),
            state: self.state,
        }
    }
}

#[derive(Debug)]
pub struct ReplacementJournal {
    pub schema: u32,
    pub transaction_dir: String,
    pub phase: JournalPhase,
    pub entries: Vec<JournalEntry>,
}

pub open spec fn entries_view(v: Seq<JournalEntry>) -> Seq<EntryView> {
    v.map_values(|e: JournalEntry| e@)
}

/// The journal entry of a prepared file: where its new contents are staged and where its
/// original is kept.
pub open spec fn journal_entry(p: PreparedView, index: nat) -> EntryView {
    EntryView {
        relative_path: p.relative_path,
        original_exists: p.original is Some,
        original_mode: p.original_mode,
        staged: if p.contents is Some {
            Some("staged-"@ + decimal(index))
        } else {
            None
        },
        backup: if p.original is Some {
            Some("backup-"@ + decimal(index))
        } else {
            None
        },
        state: EntryState::Prepared,
    }
}

fn numbered(word: &str, index: usize) -> (r: String)
    ensures
        r@ == word@ + decimal(index as nat),
{
    let mut out = word.to_owned();
    out.append(decimal_text(index as u64).as_str());
    out
}

/// The journal that is written once everything is staged and backed up.
pub fn begin_journal(transaction_dir: &str, prepared: &PreparedSet) -> (r: ReplacementJournal)
    ensures
        r.schema == JOURNAL_SCHEMA,
        r.transaction_dir@ == transaction_dir@,
        r.phase == JournalPhase::Applying,
        r.entries@.len() == prepared.entries@.len(),
        forall|i: int|
            0 <= i < prepared.entries@.len() ==> (#[trigger] r.entries@[i])@ == journal_entry(
                prepared.entries@[i]@,
                i as nat,
            ),
{
    let mut entries: Vec<JournalEntry> = Vec::new();
    let mut i: usize = 0;
    while i < prepared.entries.len()
        invariant
            i <= prepared.entries@.len(),
            entries@.len() == i,
            forall|k: int|
                0 <= k < i ==> (#[trigger] entries@[k])@ == journal_entry(
                    prepared.entries@[k]@,
                    k as nat,
                ),
        decreases prepared.entries@.len() - i,
    {
        let p = &prepared.entries[i];
        let entry = JournalEntry {
            relative_path: p.relative_path.clone(),
            original_exists: p.original.is_some(),
            original_mode: p.original_mode,
            staged: if p.contents.is_some() { Some(numbered("staged-", i)) } else { None },
            backup: if p.original.is_some() { Some(numbered("backup-", i)) } else { None },
            state: EntryState::Prepared,
        };
        entries.push(entry);
        i = i + 1;
    }
    ReplacementJournal {
        schema: JOURNAL_SCHEMA,
        transaction_dir: transaction_dir.to_owned(),
        phase: JournalPhase::Applying,
        entries,
    }
}

/// What the replacement does next.
#[derive(Debug, Clone, Copy, PartialEq, Eq, Structural)]
pub enum ApplyStep {
    /// Mark the entry as being applied and save the journal.
    Begin(usize),
    /// Write or delete the entry's file, then mark it as applied and save the journal.
    Apply(usize),
    /// Every entry is applied: mark the journal complete and save it.
    Finish,
    /// Remove the transaction directory and the journal.
    CleanUp,
}

pub open spec fn first_unapplied(entries: Seq<EntryView>) -> int
    decreases entries.len(),
{
    if entries.len() == 0 || entries[0].state != EntryState::Applied {
        0
    } else {
        1 + first_unapplied(entries.drop_first())
    }
}

pub open spec fn next_apply(phase: JournalPhase, entries: Seq<EntryView>) -> ApplyStep {
    let n = first_unapplied(entries);
    if phase == JournalPhase::Complete {
        ApplyStep::CleanUp
    } else if n >= entries.len() {
        ApplyStep::Finish
    } else if entries[n].state == EntryState::Prepared {
        ApplyStep::Begin(n as usize)
    } else {
        ApplyStep::Apply(n as usize)
    }
}

/// The next step of a replacement.
pub fn next_apply_step(journal: &ReplacementJournal) -> (r: ApplyStep)
    ensures
        r == next_apply(journal.phase, entries_view(journal.entries@)),
{
    if journal.phase == JournalPhase::Complete {
        return ApplyStep::CleanUp;
    }
    let ghost all = entries_view(journal.entries@);
    let mut i: usize = 0;
    proof {
        assert(all.skip(0) =~= all);
    }
    while i < journal.entries.len() && journal.entries[i].state == EntryState::Applied
        invariant
            i <= journal.entries@.len(),
            all == entries_view(journal.entries@),
            first_unapplied(all) == i + first_unapplied(all.skip(i as int)),
        decreases journal.entries@.len() - i,
    {
        proof {
            assert(all.skip(i as int)[0] == journal.entries@[i as int]@);
            assert(all.skip(i as int).drop_first() =~= all.skip(i as int + 1));
        }
        i = i + 1;
    }
    if i >= journal.entries.len() {
        return ApplyStep::Finish;
    }
    proof {
        assert(all.skip(i as int)[0] == journal.entries@[i as int]@);
        assert(all[i as int] == journal.entries@[i as int]@);
    }
    match journal.entries[i].state {
        EntryState::Prepared => ApplyStep::Begin(i),
        _ => ApplyStep::Apply(i),
    }
}

/// The entries once entry `i` has come to `state`.
pub open spec fn marked(entries: Seq<EntryView>, i: int, state: EntryState) -> Seq<EntryView> {
    entries.update(i, EntryView { state, ..entries[i] })
}

pub fn mark_entry(journal: &mut ReplacementJournal, i: usize, state: EntryState)
    requires
        i < old(journal).entries@.len(),
    ensures
        entries_view(final(journal).entries@) == marked(
            entries_view(old(journal).entries@),
            i as int,
            state,
        ),
        final(journal).schema == old(journal).schema,
        final(journal).phase == old(journal).phase,
        final(journal).transaction_dir@ == old(journal).transaction_dir@,
{
    let e = &journal.entries[i];
    let entry = JournalEntry {
        relative_path: e.relative_path.clone(),
        original_exists: e.original_exists,
        original_mode: e.original_mode,
        staged: copy_opt(&e.staged),
        backup: copy_opt(&e.backup),
        state,
    };
    let ghost before = entries_view(journal.entries@);
    journal.entries.set(i, entry);
    proof {
        assert(entries_view(journal.entries@) =~= marked(before, i as int, state));
    }
}

/// How one file is brought back.
#[derive(Debug)]
pub enum Undo {
    /// Put the backup back.
    Restore { relative_path: String, backup: String, mode: Option<u32> },
    /// Remove what was created.
    Remove { relative_path: String },
}

pub enum UndoView {
    Restore { relative_path: Seq<char>, backup: Seq<char>, mode: Option<u32> },
    Remove { relative_path: Seq<char> },
}

impl View for Undo {
    type V = UndoView;

    open spec fn view(&self) -> UndoView {
        match self {
            Undo::Restore { relative_path, backup, mode } => UndoView::Restore {
                relative_path: relative_path@,
                backup: backup@,
                mode: *mode,
            },
            Undo::Remove { relative_path } => UndoView::Remove { relative_path: relative_path@ },
        }
    }
}

pub open spec fn undos_view(v: Seq<Undo>) -> Seq<UndoView> {
    v.map_values(|u: Undo| u@)
}

/// What keeps an entry from being undone.
pub open spec fn undo_problem(platform: Platform, e: EntryView) -> Option<Seq<char>> {
    if path_problem(platform, e.relative_path) is Some {
        path_problem(platform, e.relative_path)
    } else if !e.original_exists {
        None
    } else {
        match e.backup {
            None => Some("journal is missing an original-file backup"@),
            Some(backup) => path_problem(platform, backup),
        }
    }
}

pub open spec fn undo_of(e: EntryView) -> UndoView {
    if e.original_exists {
        UndoView::Restore {
            relative_path: e.relative_path,
            backup: e.backup->0,
            mode: e.original_mode,
        }
    } else {
        UndoView::Remove { relative_path: e.relative_path }
    }
}

/// The steps that undo an interrupted replacement, and what stops them.
#[derive(Debug)]
pub struct Rollback {
    pub steps: Vec<Undo>,
    pub problem: Option<String>,
}

pub struct RollbackView {
    pub steps: Seq<UndoView>,
    pub problem: Option<Seq<char>>,
}

impl View for Rollback {
    type V = RollbackView;

    open spec fn view(&self) -> RollbackView {
        RollbackView { steps: undos_view(self.steps@), problem: opt_text(self.problem) }
    }
}

pub open spec fn prefixed(done: Seq<UndoView>, rest: RollbackView) -> RollbackView {
    RollbackView { steps: done + rest.steps, ..rest }
}

/// What undoes the entries that were touched, the last one first, up to one that cannot
/// be undone.
pub open spec fn undo_plan(platform: Platform, entries: Seq<EntryView>) -> RollbackView
    decreases entries.len(),
{
    if entries.len() == 0 {
        RollbackView { steps: Seq::empty(), problem: None }
    } else {
        let e = entries.last();
        if e.state == EntryState::Prepared {
            undo_plan(platform, entries.drop_last())
        } else if undo_problem(platform, e) is Some {
            RollbackView { steps: Seq::empty(), problem: undo_problem(platform, e) }
        } else {
            prefixed(seq![undo_of(e)], undo_plan(platform, entries.drop_last()))
        }
    }
}

/// What undoes an interrupted replacement.
pub fn rollback_journal(platform: Platform, journal: &ReplacementJournal) -> (r: Rollback)
    ensures
        r@ == undo_plan(platform, entries_view(journal.entries@)),
{
    let ghost all = entries_view(journal.entries@);
    let mut steps: Vec<Undo> = Vec::new();
    let mut n: usize = journal.entries.len();
    proof {
        assert(all.take(n as int) =~= all);
        assert(prefixed(
            undos_view(steps@),
            undo_plan(platform, all),
        ).steps =~= undo_plan(platform, all).steps);
    }
    while n > 0
        invariant
            n <= journal.entries@.len(),
            all == entries_view(journal.entries@),
            undo_plan(platform, all) == prefixed(
                undos_view(steps@),
                undo_plan(platform, all.take(n as int)),
            ),
        decreases n,
    {
        let e = &journal.entries[n - 1];
        let ghost here = all.take(n as int);
        proof {
            assert(here.last() == e@);
            assert(here.drop_last() =~= all.take(n as int - 1));
            assert(undos_view(steps@) + Seq::<UndoView>::empty() =~= undos_view(steps@));
        }
        if e.state != EntryState::Prepared {
            match validate_relative_path(platform, e.relative_path.as_str()) {
                Ok(()) => {},
                Err(message) => return Rollback { steps, problem: Some(message) },
            }
            let step = if e.original_exists {
                let backup = match &e.backup {
                    Some(backup) => backup,
                    None => return Rollback {
                        steps,
                        problem: Some("journal is missing an original-file backup".to_owned()),
                    },
                };
                match validate_relative_path(platform, backup.as_str()) {
                    Ok(()) => {},
                    Err(message) => return Rollback { steps, problem: Some(message) },
                }
                Undo::Restore {
                    relative_path: e.relative_path.clone(),
                    backup: backup.clone(),
                    mode: e.original_mode,
                }
            } else {
                Undo::Remove { relative_path: e.relative_path.clone() }
            };
            proof {
                assert(step@ == undo_of(e@));
                let rest = undo_plan(platform, all.take(n as int - 1));
                assert(undos_view(steps@.push(step)) + rest.steps =~= undos_view(steps@) + (
                seq![step@] + rest.steps));
            }
            steps.push(step);
        }
        n = n - 1;
    }
    proof {
        assert(all.take(0) =~= Seq::empty());
        assert(undos_view(steps@) + Seq::<UndoView>::empty() =~= undos_view(steps@));
    }
    Rollback { steps, problem: None }
}

/// What is done about a journal that was left behind: a complete one is only cleaned up,
/// any other is undone first.
pub fn recover_replacement_journal(
    platform: Platform,
    journal: &ReplacementJournal,
) -> (r: Rollback)
    ensures
        r@ == (if journal.schema != JOURNAL_SCHEMA {
            RollbackView {
                steps: Seq::empty(),
                problem: Some(
                    "unsupported repair journal schema "@ + decimal(journal.schema as nat),
                ),
            }
        } else if path_problem(platform, journal.transaction_dir@) is Some {
            RollbackView { steps: Seq::empty(), problem: path_problem(
                platform,
                journal.transaction_dir@,
            ) }
        } else if journal.phase == JournalPhase::Complete {
            RollbackView { steps: Seq::empty(), problem: None }
        } else {
            undo_plan(platform, entries_view(journal.entries@))
        }),
{
    let none: Vec<Undo> = Vec::new();
    proof {
        assert(undos_view(none@) =~= Seq::empty());
    }
    if journal.schema != JOURNAL_SCHEMA {
        let mut message = "unsupported repair journal schema ".to_owned();
        message.append(decimal_text(journal.schema as u64).as_str());
        return Rollback { steps: none, problem: Some(message) };
    }
    match validate_relative_path(platform, journal.transaction_dir.as_str()) {
        Ok(()) => {},
        Err(message) => return Rollback { steps: none, problem: Some(message) },
    }
    if journal.phase == JournalPhase::Complete {
        return Rollback { steps: none, problem: None };
    }
    rollback_journal(platform, journal)
}

/// How far a replacement has come.
#[derive(Debug)]
pub struct ReplaceFacts {
    pub patch_dir_exists: bool,
    /// How undoing an earlier replacement went.
    pub recovered: Result<(), String>,
    /// What stands at each path.
    pub targets: Vec<Target>,
    /// The answer to whether the files may be replaced, once it was asked for.
    pub confirmed: Option<Result<bool, String>>,
    /// Whether the live inputs are still those that were repaired, once it was looked up.
    pub precheck: Option<Result<(), String>>,
}

/// What a replacement does next.
#[derive(Debug)]
pub enum ReplaceStep {
    /// Show the changes and ask whether to go on.
    Confirm(PreparedSet),
    /// Look whether the live inputs have changed.
    Precheck,
    /// Stage, back up and replace the files.
    Apply(PreparedSet),
    /// Leave everything as it is.
    Declined,
}

/// The set holds the replacements, with what they replace.
pub open spec fn is_prepared(
    set: PreparedSet,
    list: Seq<ReplacementView>,
    targets: Seq<Target>,
) -> bool {
    &&& set.previews@.len() == list.len()
    &&& set.entries@.len() == list.len()
    &&& forall|i: int|
        #![trigger list[i]]
        0 <= i < list.len() ==> set.previews@[i]@ == preview_of(list[i], targets[i])
            && set.entries@[i]@ == prepared_of(list[i], targets[i])
}

/// What keeps a set of replacements from being prepared.
pub open spec fn set_problem(
    platform: Platform,
    patch_dir: Seq<char>,
    list: Seq<ReplacementView>,
    targets: Seq<Target>,
) -> Option<Seq<char>> {
    if list.len() == 0 {
        Some("replacement set is empty"@)
    } else {
        first_problem(platform, patch_dir, list, targets, 0)
    }
}

/// What keeps a replacement from being asked for.
pub open spec fn replace_problem(
    platform: Platform,
    patch_dir: Seq<char>,
    list: Seq<ReplacementView>,
    facts: ReplaceFacts,
) -> Option<Seq<char>> {
    if !facts.patch_dir_exists {
        Some("patch directory does not exist: "@ + patch_dir)
    } else if facts.recovered is Err {
        Some(facts.recovered->Err_0@)
    } else {
        set_problem(platform, patch_dir, list, facts.targets@)
    }
}

/// The next step of replacing the files of a patch directory: they are prepared, then
/// confirmed, then the live inputs are looked at once more, and only then is any of them
/// touched.
pub fn journaled_replace(
    platform: Platform,
    patch_dir: &str,
    replacements: &Vec<FileReplacement>,
    facts: &ReplaceFacts,
) -> (r: Result<ReplaceStep, String>)
    requires
        facts.targets@.len() == replacements@.len(),
    ensures
        ({
            let list = replacements_view(replacements@);
            match replace_problem(platform, patch_dir@, list, *facts) {
                Some(message) => r matches Err(e) && e@ == message,
                None => match facts.confirmed {
                    None => r matches Ok(ReplaceStep::Confirm(set)) && is_prepared(
                        set,
                        list,
                        facts.targets@,
                    ),
                    Some(Err(message)) => r matches Err(e) && e@ == message@,
                    Some(Ok(yes)) => if !yes {
                        r matches Ok(ReplaceStep::Declined)
                    } else {
                        match facts.precheck {
                            None => r matches Ok(ReplaceStep::Precheck),
                            Some(Err(message)) => r matches Err(e) && e@ == message@,
                            Some(Ok(_)) => r matches Ok(ReplaceStep::Apply(set)) && is_prepared(
                                set,
                                list,
                                facts.targets@,
                            ),
                        }
                    },
                },
            }
        }),
{
    if !facts.patch_dir_exists {
        let mut message = "patch directory does not exist: ".to_owned();
        message.append(patch_dir);
        return Err(message);
    }
    match &facts.recovered {
        Ok(()) => {},
        Err(message) => return Err(message.clone()),
    }
    let set = match prepare_replacements(platform, patch_dir, replacements, &facts.targets) {
        Ok(set) => set,
        Err(message) => return Err(message),
    };
    let confirmed = match &facts.confirmed {
        None => return Ok(ReplaceStep::Confirm(set)),
        Some(Err(message)) => return Err(message.clone()),
        Some(Ok(yes)) => *yes,
    };
    if !confirmed {
        return Ok(ReplaceStep::Declined);
    }
    match &facts.precheck {
        None => Ok(ReplaceStep::Precheck),
        Some(Err(message)) => Err(message.clone()),
        Some(Ok(())) => Ok(ReplaceStep::Apply(set)),
    }
}

/// The files of a directory, by their parts.
pub type Files = Map<Seq<Seq<char>>, (Seq<u8>, Option<u32>)>;

/// The files after an entry has been applied.
pub open spec fn applied(platform: Platform, files: Files, p: PreparedView) -> Files {
    match p.contents {
        Some(bytes) => files.insert(parts(platform, p.relative_path), (bytes, p.original_mode)),
        None => files.remove(parts(platform, p.relative_path)),
    }
}

pub open spec fn all_applied(platform: Platform, files: Files, prepared: Seq<PreparedView>) -> Files
    decreases prepared.len(),
{
    if prepared.len() == 0 {
        files
    } else {
        applied(platform, all_applied(platform, files, prepared.drop_last()), prepared.last())
    }
}

/// The files after a step has been undone, where `backups` holds the originals.
pub open spec fn undone(
    platform: Platform,
    files: Files,
    backups: Map<Seq<char>, Seq<u8>>,
    step: UndoView,
) -> Files {
    match step {
        UndoView::Restore { relative_path, backup, mode } => files.insert(
            parts(platform, relative_path),
            (backups[backup], mode),
        ),
        UndoView::Remove { relative_path } => files.remove(parts(platform, relative_path)),
    }
}

pub open spec fn all_undone(
    platform: Platform,
    files: Files,
    backups: Map<Seq<char>, Seq<u8>>,
    steps: Seq<UndoView>,
) -> Files
    decreases steps.len(),
{
    if steps.len() == 0 {
        files
    } else {
        all_undone(
            platform,
            undone(platform, files, backups, steps[0]),
            backups,
            steps.drop_first(),
        )
    }
}

/// The journal's entries when the first `n` have been touched, the last of them being in
/// `state`.
pub open spec fn reached(prepared: Seq<PreparedView>, n: int, state: EntryState) -> Seq<
    EntryView,
> {
    Seq::new(
        prepared.len(),
        |i: int|
            EntryView {
                state: if i < n - 1 {
                    EntryState::Applied
                } else if i == n - 1 {
                    state
                } else {
                    EntryState::Prepared
                },
                ..journal_entry(prepared[i], i as nat)
            },
    )
}

/// The backups hold every original.
pub open spec fn backed_up(backups: Map<Seq<char>, Seq<u8>>, prepared: Seq<PreparedView>) -> bool {
    forall|i: int|
        #![trigger prepared[i]]
        0 <= i < prepared.len() && prepared[i].original is Some
            ==> backups["backup-"@ + decimal(i as nat)] == prepared[i].original->0
}

/// The originals are what the files held.
pub open spec fn faithful(platform: Platform, files: Files, prepared: Seq<PreparedView>) -> bool {
    &&& forall|i: int|
        #![trigger prepared[i]]
        0 <= i < prepared.len() ==> match prepared[i].original {
            Some(bytes) => files.dom().contains(parts(platform, prepared[i].relative_path))
                && files[parts(
                    platform,
                    prepared[i].relative_path,
                )] == (bytes, prepared[i].original_mode),
            None => !files.dom().contains(parts(platform, prepared[i].relative_path)),
        }
    &&& forall|i: int, j: int|
        #![trigger prepared[i], prepared[j]]
        0 <= i < j < prepared.len() ==> parts(platform, prepared[i].relative_path) != parts(
            platform,
            prepared[j].relative_path,
        )
}

proof fn lemma_untouched_by_others(
    platform: Platform,
    files: Files,
    prepared: Seq<PreparedView>,
    key: Seq<Seq<char>>,
)
    requires
        forall|i: int|
            0 <= i < prepared.len() ==> parts(
                platform,
                (#[trigger] prepared[i]).relative_path,
            ) != key,
    ensures
        all_applied(platform, files, prepared).dom().contains(key) == files.dom().contains(key),
        files.dom().contains(key) ==> all_applied(platform, files, prepared)[key] == files[key],
    decreases prepared.len(),
{
    if prepared.len() > 0 {
        let rest = prepared.drop_last();
        assert forall|i: int| 0 <= i < rest.len() implies parts(
            platform,
            (#[trigger] rest[i]).relative_path,
        ) != key by {
            assert(rest[i] == prepared[i]);
        }
        lemma_untouched_by_others(platform, files, rest, key);
        assert(prepared[prepared.len() - 1] == prepared.last());
    }
}

proof fn lemma_backup_name(platform: Platform, n: nat)
    ensures
        path_problem(platform, "backup-"@ + decimal(n)) is None,
{
    let name = "backup-"@ + decimal(n);
    reveal_strlit("backup-");
    lemma_decimal_digits(n);
    assert forall|i: int| 0 <= i < name.len() implies name[i] != '/' && name[i] != '\\' && name[i]
        != '\0' by {
        if i >= 7 {
            assert(name[i] == decimal(n)[i - 7]);
        }
    }
    lemma_plain_name(platform, name);
    assert(name[0] == 'b');
    assert(!unsafe_part(platform, name));
}

proof fn lemma_untouched_entries(
    platform: Platform,
    prepared: Seq<PreparedView>,
    n: int,
    m: int,
    state: EntryState,
)
    requires
        0 <= n <= m <= prepared.len(),
    ensures
        undo_plan(platform, reached(prepared, n, state).take(m)) == undo_plan(
            platform,
            reached(prepared, n, state).take(n),
        ),
    decreases m - n,
{
    if n < m {
        let all = reached(prepared, n, state);
        assert(all.take(m).last() == all[m - 1]);
        assert(all.take(m).drop_last() =~= all.take(m - 1));
        lemma_untouched_entries(platform, prepared, n, m - 1, state);
    }
}

proof fn lemma_touched_entries(
    platform: Platform,
    files: Files,
    backups: Map<Seq<char>, Seq<u8>>,
    prepared: Seq<PreparedView>,
    n: int,
    state: EntryState,
    last_applied: bool,
)
    requires
        faithful(platform, files, prepared),
        backed_up(backups, prepared),
        forall|i: int|
            0 <= i < prepared.len() ==> path_problem(
                platform,
                (#[trigger] prepared[i]).relative_path,
            ) is None,
        0 <= n <= prepared.len(),
        state != EntryState::Prepared,
    ensures
        ({
            let plan = undo_plan(platform, reached(prepared, n, state).take(n));
            let now = all_applied(
                platform,
                files,
                prepared.take(if last_applied || n == 0 { n } else { n - 1 }),
            );
            plan.problem is None && all_undone(platform, now, backups, plan.steps) == files
        }),
    decreases n,
{
    if n == 0 {
        assert(prepared.take(0) =~= Seq::empty());
        assert(reached(prepared, n, state).take(0) =~= Seq::empty());
        reveal_with_fuel(undo_plan, 2);
        reveal_with_fuel(all_undone, 2);
        reveal_with_fuel(all_applied, 2);
    } else {
        let all = reached(prepared, n, state);
        let head = prepared.take(n);
        let rest = prepared.take(n - 1);
        let p = prepared[n - 1];
        assert(head.last() == p);
        assert(head.drop_last() =~= rest);
        let before = all_applied(platform, files, rest);
        let now = if last_applied {
            all_applied(platform, files, head)
        } else {
            before
        };
        let key = parts(platform, p.relative_path);
        assert forall|i: int| 0 <= i < rest.len() implies parts(
            platform,
            (#[trigger] rest[i]).relative_path,
        ) != key by {
            assert(rest[i] == prepared[i]);
            assert(prepared[n - 1] == p);
        }
        lemma_untouched_by_others(platform, files, rest, key);
        let e = all[n - 1];
        assert(all.take(n).last() == e);
        assert(all.take(n).drop_last() =~= reached(prepared, n - 1, EntryState::Applied).take(
            n - 1,
        ));
        lemma_backup_name(platform, (n - 1) as nat);
        assert(undo_problem(platform, e) is None);
        assert(undone(platform, now, backups, undo_of(e)) =~= before);
        lemma_touched_entries(platform, files, backups, prepared, n - 1, EntryState::Applied, true);
        let tail = undo_plan(platform, all.take(n).drop_last());
        let plan = undo_plan(platform, all.take(n));
        assert(plan.steps[0] == undo_of(e));
        assert(plan.steps.drop_first() =~= tail.steps);
    }
}

/// An interrupted replacement is undone completely, however far it had come: whether the
/// file at which it stopped had been replaced or not, every file is again what it was.
pub proof fn interrupted_replacements_are_undone(
    platform: Platform,
    files: Files,
    backups: Map<Seq<char>, Seq<u8>>,
    prepared: Seq<PreparedView>,
    n: int,
    state: EntryState,
    last_applied: bool,
)
    requires
        faithful(platform, files, prepared),
        backed_up(backups, prepared),
        forall|i: int|
            0 <= i < prepared.len() ==> path_problem(
                platform,
                (#[trigger] prepared[i]).relative_path,
            ) is None,
        0 < n <= prepared.len(),
        state != EntryState::Prepared,
    ensures
        ({
            let plan = undo_plan(platform, reached(prepared, n, state));
            let now = all_applied(
                platform,
                files,
                prepared.take(if last_applied { n } else { n - 1 }),
            );
            plan.problem is None && all_undone(platform, now, backups, plan.steps) == files
        }),
{
    let all = reached(prepared, n, state);
    assert(all.take(prepared.len() as int) =~= all);
    lemma_untouched_entries(platform, prepared, n, prepared.len() as int, state);
    lemma_touched_entries(platform, files, backups, prepared, n, state, last_applied);
}

proof fn lemma_first_unapplied(entries: Seq<EntryView>, n: int)
    requires
        0 <= n <= entries.len(),
        forall|i: int| 0 <= i < n ==> (#[trigger] entries[i]).state == EntryState::Applied,
        n < entries.len() ==> entries[n].state != EntryState::Applied,
    ensures
        first_unapplied(entries) == n,
    decreases n,
{
    if n > 0 {
        let rest = entries.drop_first();
        assert forall|i: int| 0 <= i < n - 1 implies (#[trigger] rest[i]).state
            == EntryState::Applied by {
            assert(rest[i] == entries[i + 1]);
        }
        lemma_first_unapplied(rest, n - 1);
        assert(entries[0].state == EntryState::Applied);
    }
}

/// Files are replaced one after the other in their order, each marked before it is touched
/// and again once it is done, so that the journal always says how far it has come.
pub proof fn replacements_apply_in_order(prepared: Seq<PreparedView>, n: int)
    requires
        0 <= n < prepared.len() <= usize::MAX,
    ensures
        ({
            let before = reached(prepared, n, EntryState::Applied);
            let begun = reached(prepared, n + 1, EntryState::Applying);
            let done = reached(prepared, n + 1, EntryState::Applied);
            &&& next_apply(JournalPhase::Applying, before) == ApplyStep::Begin(n as usize)
            &&& marked(before, n, EntryState::Applying) == begun
            &&& next_apply(JournalPhase::Applying, begun) == ApplyStep::Apply(n as usize)
            &&& marked(begun, n, EntryState::Applied) == done
            &&& n + 1 == prepared.len() ==> next_apply(JournalPhase::Applying, done)
                == ApplyStep::Finish
        }),
{
    let before = reached(prepared, n, EntryState::Applied);
    let begun = reached(prepared, n + 1, EntryState::Applying);
    let done = reached(prepared, n + 1, EntryState::Applied);
    lemma_first_unapplied(before, n);
    lemma_first_unapplied(begun, n);
    if n + 1 == prepared.len() {
        lemma_first_unapplied(done, n + 1);
    }
    assert(marked(before, n, EntryState::Applying) =~= begun);
    assert(marked(begun, n, EntryState::Applied) =~= done);
}

/// A replacement that is complete has replaced every file, and no other.
pub proof fn complete_replacements_replace_every_file(
    platform: Platform,
    files: Files,
    prepared: Seq<PreparedView>,
    i: int,
)
    requires
        faithful(platform, files, prepared),
        0 <= i < prepared.len(),
    ensures
        ({
            let done = all_applied(platform, files, prepared);
            let key = parts(platform, prepared[i].relative_path);
            match prepared[i].contents {
                Some(bytes) => done.dom().contains(key) && done[key] == (
                    bytes,
                    prepared[i].original_mode,
                ),
                None => !done.dom().contains(key),
            }
        }),
    decreases prepared.len(),
{
    let rest = prepared.drop_last();
    let last = prepared.len() - 1;
    assert(prepared[last] == prepared.last());
    if i < last {
        assert(faithful(platform, files, rest)) by {
            assert forall|k: int|
                #![trigger rest[k]]
                0 <= k < rest.len() implies match rest[k].original {
                Some(bytes) => files.dom().contains(
                    parts(platform, rest[k].relative_path),
                ) && files[parts(
                    platform,
                    rest[k].relative_path,
                )] == (bytes, rest[k].original_mode),
                None => !files.dom().contains(parts(platform, rest[k].relative_path)),
            } by {
                assert(rest[k] == prepared[k]);
            }
            assert forall|k: int, m: int|
                #![trigger rest[k], rest[m]]
                0 <= k < m < rest.len() implies parts(platform, rest[k].relative_path) != parts(
                platform,
                rest[m].relative_path,
            ) by {
                assert(rest[k] == prepared[k] && rest[m] == prepared[m]);
            }
        }
        assert(rest[i] == prepared[i]);
        complete_replacements_replace_every_file(platform, files, rest, i);
        assert(parts(platform, prepared[i].relative_path) != parts(
            platform,
            prepared[last].relative_path,
        ));
    }
}

/// The files of the snapshot that a repair works from: the configuration, the patches, and
/// the series that orders them.
pub open spec fn snapshot_views(v: Seq<PatchView>, config: Seq<u8>) -> Seq<ReplacementView> {
    seq![ReplacementView { relative_path: "codex-patcher.toml"@, contents: Some(config) }]
        + v.map_values(
        |p: PatchView| ReplacementView { relative_path: p.path, contents: Some(p.bytes) },
    ) + seq![
        ReplacementView {
            relative_path: "series"@,
            contents: Some(encode_utf8(series_text(patch_paths(v)))),
        },
    ]
}

/// The first thing that is wrong with a path, in the order of the list.
pub open spec fn first_path_problem(platform: Platform, list: Seq<Seq<char>>) -> Option<Seq<char>>
    decreases list.len(),
{
    if list.len() == 0 {
        None
    } else if path_problem(platform, list[0]) is Some {
        path_problem(platform, list[0])
    } else {
        first_path_problem(platform, list.drop_first())
    }
}

pub fn snapshot_files(platform: Platform, patches: &Vec<Patch>, config: &[u8]) -> (r: Result<
    Vec<FileReplacement>,
    String,
>)
    ensures
        ({
            let list = patches_view(patches@);
            match first_path_problem(platform, patch_paths(list)) {
                Some(message) => r matches Err(e) && e@ == message,
                None => r matches Ok(files) && replacements_view(files@) == snapshot_views(
                    list,
                    config@,
                ),
            }
        }),
{
    let ghost list = patches_view(patches@);
    let ghost all = patch_paths(list);
    let ghost middle = list.map_values(
        |p: PatchView| ReplacementView { relative_path: p.path, contents: Some(p.bytes) },
    );
    let mut files: Vec<FileReplacement> = Vec::new();
    files.push(
        FileReplacement::write("codex-patcher.toml", vstd::slice::slice_to_vec(config)),
    );
    let ghost head = replacements_view(files@);
    let mut names: Vec<String> = Vec::new();
    let mut i: usize = 0;
    proof {
        assert(all.skip(0) =~= all);
        assert(head =~= seq![
            ReplacementView { relative_path: "codex-patcher.toml"@, contents: Some(config@) },
        ]);
        assert(replacements_view(files@) =~= head + middle.take(0));
        assert(texts(names@) =~= all.take(0));
    }
    while i < patches.len()
        invariant
            i <= patches@.len(),
            list == patches_view(patches@),
            all == patch_paths(list),
            middle == list.map_values(
                |p: PatchView| ReplacementView { relative_path: p.path, contents: Some(p.bytes) },
            ),
            first_path_problem(platform, all) == first_path_problem(platform, all.skip(i as int)),
            replacements_view(files@) == head + middle.take(i as int),
            texts(names@) == all.take(i as int),
        decreases patches@.len() - i,
    {
        proof {
            assert(all.skip(i as int)[0] == patches@[i as int].path@);
            assert(all.skip(i as int).drop_first() =~= all.skip(i as int + 1));
        }
        match validate_relative_path(platform, patches[i].path.as_str()) {
            Ok(()) => {},
            Err(message) => return Err(message),
        }
        let item = FileReplacement::write(
            patches[i].path.as_str(),
            vstd::slice::slice_to_vec(patches[i].bytes.as_slice()),
        );
        let name = patches[i].path.clone();
        proof {
            assert(middle[i as int] == item@);
            assert(replacements_view(files@.push(item)) =~= replacements_view(files@).push(item@));
            assert(middle.take(i as int + 1) =~= middle.take(i as int).push(item@));
            assert(head + middle.take(i as int + 1) =~= (head + middle.take(i as int)).push(
                item@,
            ));
            lemma_texts_push(names@, name);
            assert(all.take(i as int + 1) =~= all.take(i as int).push(name@));
        }
        files.push(item);
        names.push(name);
        i = i + 1;
    }
    let mut series = join_texts(&names, "\n");
    series.append("\n");
    let item = FileReplacement::write(
        "series",
        vstd::slice::slice_to_vec(series.as_str().as_bytes()),
    );
    proof {
        assert(middle.take(patches@.len() as int) =~= middle);
        assert(all.take(patches@.len() as int) =~= all);
        assert(replacements_view(files@.push(item)) =~= snapshot_views(list, config@));
    }
    files.push(item);
    Ok(files)
}

/// Whether the written snapshot holds the patches it was made from.
pub fn check_snapshot(found: &Result<String, String>, fingerprint: &str) -> (r: Result<(), String>)
    ensures
        result_unit(r) == (match result_text(*found) {
            Err(message) => Err(message),
            Ok(text) => if text == fingerprint@ {
                Ok(())
            } else {
                Err("repair snapshot fingerprint changed while writing"@)
            },
        }),
{
    match found {
        Err(message) => Err(message.clone()),
        Ok(text) => {
            if same(text.as_str(), fingerprint) {
                return Ok(());
            }
            Err("repair snapshot fingerprint changed while writing".to_owned())
        },
    }
}

/// A name that a series can list: it is on one line, is no comment, and has no white space
/// at its ends.
pub open spec fn listable(platform: Platform, name: Seq<char>) -> bool {
    &&& name.len() > 0
    &&& name[0] != '#'
    &&& !name.contains('\n')
    &&& trim(name) == name
    &&& safe_series_entry(platform, name)
}

proof fn lemma_trim_end(s: Seq<char>)
    ensures
        trim_end(s).len() <= s.len(),
        trim_end(s).len() > 0 ==> !is_whitespace(trim_end(s).last()),
    decreases s.len(),
{
    if s.len() > 0 && is_whitespace(s.last()) {
        lemma_trim_end(s.drop_last());
    }
}

proof fn lemma_lines_concat(x: Seq<char>, y: Seq<char>)
    requires
        x.len() > 0,
        x.last() == '\n',
    ensures
        lines(x + y) == lines(x) + lines(y),
    decreases x.len(),
{
    let n = first_index(x, '\n');
    lemma_first_index(x, '\n');
    assert(n < x.len()) by {
        assert(x[x.len() - 1] == '\n');
    }
    lemma_first_index_unique(x + y, '\n', n);
    assert((x + y).take(n) =~= x.take(n));
    assert((x + y).skip(n + 1) =~= x.skip(n + 1) + y);
    let rest = x.skip(n + 1);
    if rest.len() > 0 {
        assert(rest.last() == x.last());
        lemma_lines_concat(rest, y);
    } else {
        assert(rest + y =~= y);
        assert(rest =~= Seq::empty());
        reveal_with_fuel(lines, 2);
    }
    let first = seq![without_carriage_return(x.take(n))];
    assert(first + (lines(rest) + lines(y)) =~= (first + lines(rest)) + lines(y));
}

proof fn lemma_one_line(platform: Platform, name: Seq<char>)
    requires
        listable(platform, name),
    ensures
        lines(name + "\n"@) == seq![name],
{
    reveal_strlit("\n");
    let s = name + "\n"@;
    assert forall|i: int| 0 <= i < name.len() implies s[i] != '\n' by {
        if s[i] == '\n' {
            assert(name.contains(name[i]));
        }
    }
    lemma_first_index_unique(s, '\n', name.len() as int);
    assert(s.take(name.len() as int) =~= name);
    lemma_trim_end(trim_start(name));
    assert(name.last() != '\r');
    assert(s.skip(name.len() as int + 1) =~= Seq::empty());
    reveal_with_fuel(lines, 2);
    assert(seq![name] + Seq::<Seq<char>>::empty() =~= seq![name]);
}

proof fn lemma_series_text_lines(platform: Platform, names: Seq<Seq<char>>)
    requires
        names.len() > 0,
        forall|i: int| 0 <= i < names.len() ==> listable(platform, #[trigger] names[i]),
    ensures
        lines(series_text(names)) == names,
    decreases names.len(),
{
    reveal_strlit("\n");
    let last = names.last();
    assert(last == names[names.len() - 1]);
    lemma_one_line(platform, last);
    if names.len() == 1 {
        assert(names =~= seq![last]);
    } else {
        let rest = names.drop_last();
        assert forall|i: int| 0 <= i < rest.len() implies listable(platform, #[trigger] rest[i]) by {
            assert(rest[i] == names[i]);
        }
        lemma_series_text_lines(platform, rest);
        let x = series_text(rest);
        assert(series_text(names) =~= x + (last + "\n"@));
        assert(x.last() == '\n');
        lemma_lines_concat(x, last + "\n"@);
        assert(names =~= rest + seq![last]);
    }
}

proof fn lemma_series_accepts(platform: Platform, known: Seq<Seq<char>>, names: Seq<Seq<char>>)
    requires
        forall|i: int|
            0 <= i < names.len() ==> listable(
                platform,
                #[trigger] names[i],
            ) && known.contains(names[i]),
        forall|i: int, j: int|
            #![trigger names[i], names[j]]
            0 <= i < j < names.len() ==> casefold(names[i]) != casefold(names[j]),
    ensures
        series_lines(platform, known, names) == Ok::<Seq<Seq<char>>, Seq<char>>(names),
    decreases names.len(),
{
    if names.len() == 0 {
        assert(names =~= Seq::empty());
    } else {
        let rest = names.drop_last();
        assert forall|i: int| 0 <= i < rest.len() implies listable(platform, #[trigger] rest[i])
            && known.contains(rest[i]) by {
            assert(rest[i] == names[i]);
        }
        assert forall|i: int, j: int|
            #![trigger rest[i], rest[j]]
            0 <= i < j < rest.len() implies casefold(rest[i]) != casefold(rest[j]) by {
            assert(rest[i] == names[i] && rest[j] == names[j]);
        }
        lemma_series_accepts(platform, known, rest);
        let last = names[names.len() - 1];
        assert(!folds(rest).contains(casefold(last))) by {
            if folds(rest).contains(casefold(last)) {
                let k = choose|k: int|
                    0 <= k < folds(rest).len() && folds(rest)[k] == casefold(last);
                assert(casefold(names[k]) == casefold(last));
            }
        }
        assert(rest.push(last) =~= names);
    }
}

proof fn lemma_nothing_left_out(known: Seq<Seq<char>>, names: Seq<Seq<char>>)
    requires
        forall|i: int| 0 <= i < known.len() ==> names.contains(#[trigger] known[i]),
    ensures
        left_out(known, names).len() == 0,
    decreases known.len(),
{
    if known.len() > 0 {
        assert(names.contains(known[known.len() - 1]));
        assert forall|i: int| 0 <= i < known.drop_last().len() implies names.contains(
            #[trigger] known.drop_last()[i],
        ) by {
            assert(known.drop_last()[i] == known[i]);
        }
        lemma_nothing_left_out(known.drop_last(), names);
    }
}

/// The series that is written for a stack is read back as the same order.
pub proof fn written_series_read_back(
    platform: Platform,
    known: Seq<Seq<char>>,
    names: Seq<Seq<char>>,
)
    requires
        forall|i: int|
            0 <= i < names.len() ==> listable(
                platform,
                #[trigger] names[i],
            ) && known.contains(names[i]),
        forall|i: int| 0 <= i < known.len() ==> names.contains(#[trigger] known[i]),
        forall|i: int, j: int|
            #![trigger names[i], names[j]]
            0 <= i < j < names.len() ==> casefold(names[i]) != casefold(names[j]),
    ensures
        series_order(platform, known, series_text(names)) == Ok::<Seq<Seq<char>>, Seq<char>>(names),
{
    lemma_nothing_left_out(known, names);
    if names.len() > 0 {
        lemma_series_text_lines(platform, names);
        lemma_series_accepts(platform, known, names);
    } else {
        reveal_strlit("\n");
        let s = series_text(names);
        assert(s =~= seq!['\n']);
        lemma_first_index_unique(s, '\n', 0);
        assert(s.take(0) =~= Seq::empty());
        assert(s.skip(1) =~= Seq::empty());
        reveal_with_fuel(lines, 2);
        let one = lines(s);
        assert(one =~= seq![Seq::<char>::empty()]);
        reveal_with_fuel(series_lines, 2);
        assert(one.drop_last() =~= Seq::empty());
        assert(names =~= Seq::empty());
    }
}

} // verus!

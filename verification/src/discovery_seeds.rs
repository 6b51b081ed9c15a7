//! Where Codex is looked for, and what is made of what is found.

use vstd::prelude::*;

use crate::discovery::{bare, compact, compact_display_text, is_bare_command, SurfaceOwner};
use crate::paths::{extension, extension_of, file_name, file_name_of, join_path, joined, Platform};
use crate::text::{
    ascii_lower, chars_of, contains, contains_text, decimal, decimal_text, holds, lemma_texts_push,
    lines, lines_of, occurs_at, matches_at, opt_text, same, slices, split_on, split_text,
    starts_with, text_between, texts, to_ascii_lower, trim, trimmed,
};
use crate::types::copy_opt;

verus! {

pub const MAX_PACKAGE_EXECUTABLES: usize = 32;

pub const MAX_PACKAGE_SCAN_ENTRIES: usize = 4_096;

pub const MAX_SHELL_RESOLUTIONS: usize = 16;

pub const MAX_POWERSHELL_RESOLUTIONS: usize = 64;

pub const POWERSHELL_JSON_BEGIN: &'static str = "__CODEX_PATCHER_GET_COMMAND_BEGIN__";

pub const POWERSHELL_JSON_END: &'static str = "__CODEX_PATCHER_GET_COMMAND_END__";

/// A place to look at, before anything is known of it.
#[derive(Debug)]
pub struct SurfaceSeed {
    pub origin: String,
    pub raw: String,
    pub owner: SurfaceOwner,
    pub current: bool,
    pub package_leaf: bool,
    pub probeable: bool,
    pub read_only_reason: Option<String>,
}

pub struct SeedView {
    pub origin: Seq<char>,
    pub raw: Seq<char>,
    pub owner: SurfaceOwner,
    pub current: bool,
    pub package_leaf: bool,
    pub probeable: bool,
    pub read_only_reason: Option<Seq<char>>,
}

impl View for SurfaceSeed {
    type V = SeedView;

    open spec fn view(&self) -> SeedView {
        SeedView {
            origin: self.origin@,
            raw: self.raw@,
            owner: self.owner,
            current: self.current,
            package_leaf: self.package_leaf,
            probeable: self.probeable,
            read_only_reason: opt_text(self.read_only_reason),
        }
    }
}

impl Clone for SurfaceSeed {
    fn clone(&self) -> (r: Self)
        ensures
            r@ == self@,
    {
        SurfaceSeed {
            origin: self.origin.clone(),
            raw: self.raw.clone(),
            owner: self.owner,
            current: self.current,
            package_leaf: self.package_leaf,
            probeable: self.probeable,
            read_only_reason: copy_opt(&self.read_only_reason),
        }
    }
}

pub open spec fn seeds_view(v: Seq<SurfaceSeed>) -> Seq<SeedView> {
    v.map_values(|s: SurfaceSeed| s@)
}

proof fn lemma_seeds_push(v: Seq<SurfaceSeed>, s: SurfaceSeed)
    ensures
        seeds_view(v.push(s)) == seeds_view(v).push(s@),
{
    assert(seeds_view(v.push(s)) =~= seeds_view(v).push(s@));
}

/// A file that may start Codex.
pub open spec fn file_seed(
    origin: Seq<char>,
    raw: Seq<char>,
    owner: SurfaceOwner,
    package_leaf: bool,
) -> SeedView {
    SeedView {
        origin,
        raw,
        owner,
        current: false,
        package_leaf,
        probeable: true,
        read_only_reason: None,
    }
}

/// Something that starts Codex without being a file.
pub open spec fn virtual_seed(
    origin: Seq<char>,
    display: Seq<char>,
    owner: SurfaceOwner,
    current: bool,
    reason: Seq<char>,
) -> SeedView {
    SeedView {
        origin,
        raw: display,
        owner,
        current,
        package_leaf: false,
        probeable: false,
        read_only_reason: Some(reason),
    }
}

impl SurfaceSeed {
    pub fn physical(origin: &str, raw: String, owner: SurfaceOwner, package_leaf: bool) -> (r: Self)
        ensures
            r@ == file_seed(origin@, raw@, owner, package_leaf),
    {
        SurfaceSeed {
            origin: origin.to_owned(),
            raw,
            owner,
            current: false,
            package_leaf,
            probeable: true,
            read_only_reason: None,
        }
    }
}

/// The files of one directory.
pub open spec fn dir_seeds(
    platform: Platform,
    origin: Seq<char>,
    dir: Seq<char>,
    names: Seq<Seq<char>>,
    owner: SurfaceOwner,
) -> Seq<SeedView> {
    names.map_values(
        |name: Seq<char>| file_seed(origin, join_path(platform, dir, name), owner, false),
    )
}

pub fn push_dir_seeds(
    platform: Platform,
    out: &mut Vec<SurfaceSeed>,
    origin: &str,
    dir: &str,
    names: &Vec<String>,
    owner: SurfaceOwner,
)
    ensures
        seeds_view(final(out)@) == seeds_view(old(out)@) + dir_seeds(
            platform,
            origin@,
            dir@,
            texts(names@),
            owner,
        ),
{
    let ghost before = seeds_view(out@);
    let ghost all = dir_seeds(platform, origin@, dir@, texts(names@), owner);
    let mut i: usize = 0;
    proof {
        assert(before + all.take(0) =~= before);
    }
    while i < names.len()
        invariant
            i <= names@.len(),
            all == dir_seeds(platform, origin@, dir@, texts(names@), owner),
            seeds_view(out@) == before + all.take(i as int),
        decreases names@.len() - i,
    {
        let item = SurfaceSeed::physical(
            origin,
            joined(platform, dir, names[i].as_str()),
            owner,
            false,
        );
        proof {
            lemma_seeds_push(out@, item);
            assert(all[i as int] == item@);
            assert(before + all.take(i as int + 1) =~= (before + all.take(i as int)).push(item@));
        }
        out.push(item);
        i = i + 1;
    }
    proof {
        assert(all.take(names@.len() as int) =~= all);
    }
}

pub open spec fn path_origin(index: nat) -> Seq<char> {
    "PATH["@ + decimal(index) + "]"@
}

/// The files that the search path leads to, in its order.
pub open spec fn path_seeds(
    platform: Platform,
    dirs: Seq<Seq<char>>,
    names: Seq<Seq<char>>,
) -> Seq<SeedView>
    decreases dirs.len(),
{
    if dirs.len() == 0 {
        Seq::empty()
    } else {
        path_seeds(platform, dirs.drop_last(), names) + dir_seeds(
            platform,
            path_origin((dirs.len() - 1) as nat),
            dirs.last(),
            names,
            SurfaceOwner::Unknown,
        )
    }
}

pub fn path_surfaces(
    platform: Platform,
    dirs: &Vec<String>,
    names: &Vec<String>,
) -> (r: Vec<SurfaceSeed>)
    ensures
        seeds_view(r@) == path_seeds(platform, texts(dirs@), texts(names@)),
{
    let ghost all = texts(dirs@);
    let mut out: Vec<SurfaceSeed> = Vec::new();
    let mut i: usize = 0;
    proof {
        assert(all.take(0) =~= Seq::empty());
        assert(seeds_view(out@) =~= Seq::empty());
    }
    while i < dirs.len()
        invariant
            i <= dirs@.len(),
            all == texts(dirs@),
            seeds_view(out@) == path_seeds(platform, all.take(i as int), texts(names@)),
        decreases dirs@.len() - i,
    {
        let mut origin = "PATH[".to_owned();
        origin.append(decimal_text(i as u64).as_str());
        origin.append("]");
        proof {
            assert(all.take(i as int + 1).drop_last() =~= all.take(i as int));
            assert(all.take(i as int + 1).last() == dirs@[i as int]@);
        }
        push_dir_seeds(
            platform,
            &mut out,
            origin.as_str(),
            dirs[i].as_str(),
            names,
            SurfaceOwner::Unknown,
        );
        i = i + 1;
    }
    proof {
        assert(all.take(dirs@.len() as int) =~= all);
    }
    out
}

/// Those of the seeds that are marked.
pub open spec fn marked_seeds(seeds: Seq<SeedView>, marks: Seq<bool>) -> Seq<SeedView>
    decreases seeds.len(),
{
    if seeds.len() == 0 {
        Seq::empty()
    } else if marks[seeds.len() - 1] {
        marked_seeds(seeds.drop_last(), marks).push(seeds.last())
    } else {
        marked_seeds(seeds.drop_last(), marks)
    }
}

/// The seeds whose files are there.
pub fn present_seeds(seeds: &Vec<SurfaceSeed>, present: &Vec<bool>) -> (r: Vec<SurfaceSeed>)
    requires
        present@.len() == seeds@.len(),
    ensures
        seeds_view(r@) == marked_seeds(seeds_view(seeds@), present@),
{
    let ghost all = seeds_view(seeds@);
    let mut out: Vec<SurfaceSeed> = Vec::new();
    let mut i: usize = 0;
    proof {
        assert(all.take(0) =~= Seq::empty());
        assert(seeds_view(out@) =~= Seq::empty());
    }
    while i < seeds.len()
        invariant
            i <= seeds@.len(),
            present@.len() == seeds@.len(),
            all == seeds_view(seeds@),
            seeds_view(out@) == marked_seeds(all.take(i as int), present@),
        decreases seeds@.len() - i,
    {
        proof {
            assert(all.take(i as int + 1).drop_last() =~= all.take(i as int));
            assert(all.take(i as int + 1).last() == seeds@[i as int]@);
        }
        if present[i] {
            let item = seeds[i].clone();
            proof {
                lemma_seeds_push(out@, item);
            }
            out.push(item);
        }
        i = i + 1;
    }
    proof {
        assert(all.take(seeds@.len() as int) =~= all);
    }
    out
}

/// The paths at which a command may be found, in the order of the search path.
pub open spec fn lookup_list(
    platform: Platform,
    dirs: Seq<Seq<char>>,
    names: Seq<Seq<char>>,
) -> Seq<Seq<char>>
    decreases dirs.len(),
{
    if dirs.len() == 0 {
        Seq::empty()
    } else {
        lookup_list(platform, dirs.drop_last(), names) + names.map_values(
            |name: Seq<char>| join_path(platform, dirs.last(), name),
        )
    }
}

pub fn lookup_paths(platform: Platform, dirs: &Vec<String>, names: &Vec<String>) -> (r: Vec<String>)
    ensures
        texts(r@) == lookup_list(platform, texts(dirs@), texts(names@)),
{
    let ghost all = texts(dirs@);
    let ghost words = texts(names@);
    let mut out: Vec<String> = Vec::new();
    let mut i: usize = 0;
    proof {
        assert(all.take(0) =~= Seq::empty());
        assert(texts(out@) =~= Seq::empty());
    }
    while i < dirs.len()
        invariant
            i <= dirs@.len(),
            all == texts(dirs@),
            words == texts(names@),
            texts(out@) == lookup_list(platform, all.take(i as int), words),
        decreases dirs@.len() - i,
    {
        let ghost before = texts(out@);
        let ghost here = words.map_values(
            |name: Seq<char>| join_path(platform, dirs@[i as int]@, name),
        );
        let mut j: usize = 0;
        proof {
            assert(before + here.take(0) =~= before);
        }
        while j < names.len()
            invariant
                i < dirs@.len(),
                j <= names@.len(),
                words == texts(names@),
                here == words.map_values(
                    |name: Seq<char>| join_path(platform, dirs@[i as int]@, name),
                ),
                texts(out@) == before + here.take(j as int),
            decreases names@.len() - j,
        {
            let path = joined(platform, dirs[i].as_str(), names[j].as_str());
            proof {
                lemma_texts_push(out@, path);
                assert(here[j as int] == path@);
                assert(before + here.take(j as int + 1) =~= (before + here.take(j as int)).push(
                    path@,
                ));
            }
            out.push(path);
            j = j + 1;
        }
        proof {
            assert(here.take(names@.len() as int) =~= here);
            let next = all.take(i as int + 1);
            assert(next.drop_last() =~= all.take(i as int));
            assert(next.last() == dirs@[i as int]@);
            assert(here =~= words.map_values(
                |name: Seq<char>| join_path(platform, next.last(), name),
            ));
        }
        i = i + 1;
    }
    proof {
        assert(all.take(dirs@.len() as int) =~= all);
    }
    out
}

/// The first of the texts that is marked.
pub open spec fn first_marked(list: Seq<Seq<char>>, marks: Seq<bool>, from: int) -> Option<
    Seq<char>,
>
    decreases list.len() - from,
{
    if from >= list.len() {
        None
    } else if marks[from] {
        Some(list[from])
    } else {
        first_marked(list, marks, from + 1)
    }
}

/// The command that the search path leads to: the first of its places that is launchable.
pub fn find_on_path(places: &Vec<String>, launchable: &Vec<bool>) -> (r: Option<String>)
    requires
        launchable@.len() == places@.len(),
    ensures
        opt_text(r) == first_marked(texts(places@), launchable@, 0),
{
    let ghost all = texts(places@);
    let mut i: usize = 0;
    while i < places.len()
        invariant
            i <= places@.len(),
            launchable@.len() == places@.len(),
            all == texts(places@),
            first_marked(all, launchable@, 0) == first_marked(all, launchable@, i as int),
        decreases places@.len() - i,
    {
        if launchable[i] {
            return Some(places[i].clone());
        }
        i = i + 1;
    }
    None
}

pub open spec fn with_name(names: Seq<Seq<char>>, name: Seq<char>) -> Seq<Seq<char>> {
    if names.contains(name) {
        names
    } else {
        names.push(name)
    }
}

/// The stem with each of the extensions, in lower case and without repetition.
pub open spec fn with_extensions(stem: Seq<char>, extensions: Seq<Seq<char>>) -> Seq<Seq<char>>
    decreases extensions.len(),
{
    if extensions.len() == 0 {
        Seq::empty()
    } else {
        let before = with_extensions(stem, extensions.drop_last());
        if extensions.last().len() == 0 {
            before
        } else {
            with_name(before, stem + ascii_lower(extensions.last()))
        }
    }
}

/// The file names under which a command is looked up.
pub open spec fn names_for(stem: Seq<char>, platform: Platform, pathext: Seq<char>) -> Seq<
    Seq<char>,
> {
    if platform is Posix || extension(platform, stem) is Some {
        seq![stem]
    } else {
        with_name(with_extensions(stem, split_on(pathext, ';')), stem)
    }
}

fn push_name(names: &mut Vec<String>, name: String)
    ensures
        texts(final(names)@) == with_name(texts(old(names)@), name@),
{
    if !holds(names, name.as_str()) {
        proof {
            lemma_texts_push(names@, name);
        }
        names.push(name);
    }
}

/// `pathext` lists the extensions that Windows tries.
pub fn command_names_for(stem: &str, platform: Platform, pathext: &str) -> (r: Vec<String>)
    ensures
        texts(r@) == names_for(stem@, platform, pathext@),
{
    let plain = match platform {
        Platform::Posix => true,
        Platform::Windows => extension_of(platform, stem).is_some(),
    };
    if plain {
        let names = vec![stem.to_owned()];
        proof {
            assert(texts(names@) =~= seq![stem@]);
        }
        return names;
    }
    let list = split_text(pathext, ';');
    let ghost all = split_on(pathext@, ';');
    let mut names: Vec<String> = Vec::new();
    let mut i: usize = 0;
    proof {
        assert(all.take(0) =~= Seq::empty());
        assert(texts(names@) =~= Seq::empty());
    }
    while i < list.len()
        invariant
            i <= list@.len(),
            all == texts(list@),
            texts(names@) == with_extensions(stem@, all.take(i as int)),
        decreases list@.len() - i,
    {
        proof {
            assert(all.take(i as int + 1).drop_last() =~= all.take(i as int));
            assert(all.take(i as int + 1).last() == list@[i as int]@);
        }
        if chars_of(list[i].as_str()).len() > 0 {
            let mut name = stem.to_owned();
            name.append(to_ascii_lower(list[i].as_str()).as_str());
            push_name(&mut names, name);
        }
        i = i + 1;
    }
    proof {
        assert(all.take(list@.len() as int) =~= all);
    }
    push_name(&mut names, stem.to_owned());
    names
}

pub open spec fn primary_name(platform: Platform) -> Seq<char> {
    match platform {
        Platform::Posix => "codex"@,
        Platform::Windows => "codex.exe"@,
    }
}

pub fn primary_command_file_name(platform: Platform) -> (r: &'static str)
    ensures
        r@ == primary_name(platform),
{
    match platform {
        Platform::Posix => "codex",
        Platform::Windows => "codex.exe",
    }
}

/// Where the configured override leads: into a directory, by a bare name along the search
/// path, or to the file itself.
pub open spec fn override_path(
    configured: Seq<char>,
    is_dir: bool,
    names: Seq<Seq<char>>,
    present: Seq<bool>,
    found: Option<Seq<char>>,
    platform: Platform,
) -> Seq<char> {
    if is_dir {
        match first_marked(names, present, 0) {
            Some(name) => join_path(platform, configured, name),
            None => join_path(platform, configured, primary_name(platform)),
        }
    } else if bare(platform, configured) && found is Some {
        found->0
    } else {
        configured
    }
}

/// The surface that `CODEX_CLI_PATH` configures. It stays visible when it leads nowhere.
/// `present` says which of the names the configured directory holds, and `found` what the
/// search path leads to.
pub fn cli_override(
    configured: &str,
    is_dir: bool,
    names: &Vec<String>,
    present: &Vec<bool>,
    found: &Option<String>,
    platform: Platform,
) -> (r: Option<SurfaceSeed>)
    requires
        present@.len() == names@.len(),
    ensures
        configured@.len() == 0 ==> r is None,
        configured@.len() > 0 ==> (r matches Some(seed) && seed@ == (SeedView {
            current: true,
            ..file_seed(
                "CODEX_CLI_PATH"@,
                override_path(
                    configured@,
                    is_dir,
                    texts(names@),
                    present@,
                    opt_text(*found),
                    platform,
                ),
                SurfaceOwner::Unknown,
                false,
            )
        })),
{
    if chars_of(configured).len() == 0 {
        return None;
    }
    let path = if is_dir {
        match find_on_path(names, present) {
            Some(name) => joined(platform, configured, name.as_str()),
            None => joined(platform, configured, primary_command_file_name(platform)),
        }
    } else if is_bare_command(platform, configured) {
        match found {
            Some(path) => path.clone(),
            None => configured.to_owned(),
        }
    } else {
        configured.to_owned()
    };
    let mut seed = SurfaceSeed::physical("CODEX_CLI_PATH", path, SurfaceOwner::Unknown, false);
    seed.current = true;
    Some(seed)
}

/// The arguments with which an interactive shell says what `codex` means to it.
pub open spec fn shell_words(shell: Seq<char>) -> Option<Seq<Seq<char>>> {
    if shell == "bash"@ {
        Some(seq!["-i"@, "-c"@, "type -a -- codex"@])
    } else if shell == "zsh"@ {
        Some(seq!["-i"@, "-c"@, "whence -va -- codex"@])
    } else if shell == "fish"@ {
        Some(seq!["--interactive"@, "--command"@, "type -a codex"@])
    } else if shell == "ksh"@ || shell == "ksh93"@ {
        Some(seq!["-i"@, "-c"@, "whence -va codex"@])
    } else {
        None
    }
}

pub open spec fn opt_texts(o: Option<Vec<String>>) -> Option<Seq<Seq<char>>> {
    match o {
        Some(v) => Some(texts(v@)),
        None => None,
    }
}

pub fn shell_arguments(shell: &str) -> (r: Option<Vec<String>>)
    ensures
        opt_texts(r) == shell_words(shell@),
{
    let (first, second, third) = if same(shell, "bash") {
        ("-i", "-c", "type -a -- codex")
    } else if same(shell, "zsh") {
        ("-i", "-c", "whence -va -- codex")
    } else if same(shell, "fish") {
        ("--interactive", "--command", "type -a codex")
    } else if same(shell, "ksh") || same(shell, "ksh93") {
        ("-i", "-c", "whence -va codex")
    } else {
        return None;
    };
    let words = vec![first.to_owned(), second.to_owned(), third.to_owned()];
    proof {
        assert(texts(words@) =~= seq![first@, second@, third@]);
    }
    Some(words)
}

/// What a line of a shell's answer says `codex` is, when it is no file.
pub open spec fn shell_kind(detail: Seq<char>) -> Option<Seq<char>> {
    let lower = ascii_lower(detail);
    if !"codex "@.is_prefix_of(lower) && !"codex:"@.is_prefix_of(lower) {
        None
    } else if contains_text(lower, "alias"@) {
        Some("alias"@)
    } else if contains_text(lower, "function"@) {
        Some("function"@)
    } else {
        None
    }
}

pub open spec fn shell_seed(
    shell: Seq<char>,
    n: nat,
    kind: Seq<char>,
    detail: Seq<char>,
) -> SeedView {
    virtual_seed(
        "shell-"@ + shell + "["@ + decimal(n) + "]-"@ + kind,
        shell + " "@ + kind + ": "@ + detail,
        SurfaceOwner::Manual,
        n == 0,
        shell + " "@ + kind + "s are shell state and cannot be replaced as files"@,
    )
}

/// The aliases and functions that the lines of a shell's answer tell of, up to a limit.
pub open spec fn shell_seeds(shell: Seq<char>, list: Seq<Seq<char>>) -> Seq<SeedView>
    decreases list.len(),
{
    if list.len() == 0 {
        Seq::empty()
    } else {
        let before = shell_seeds(shell, list.drop_last());
        let detail = compact(list.last(), 512);
        if before.len() >= MAX_SHELL_RESOLUTIONS || shell_kind(detail) is None {
            before
        } else {
            before.push(shell_seed(shell, before.len(), shell_kind(detail)->0, detail))
        }
    }
}

fn kind_of_line(detail: &str) -> (r: Option<&'static str>)
    ensures
        match r {
            Some(kind) => shell_kind(detail@) == Some(kind@),
            None => shell_kind(detail@) is None,
        },
{
    let form = to_ascii_lower(detail);
    let lower = form.as_str();
    if !starts_with(lower, "codex ") && !starts_with(lower, "codex:") {
        None
    } else if contains(lower, "alias") {
        Some("alias")
    } else if contains(lower, "function") {
        Some("function")
    } else {
        None
    }
}

fn shell_surface(shell: &str, n: usize, kind: &str, detail: &str) -> (r: SurfaceSeed)
    ensures
        r@ == shell_seed(shell@, n as nat, kind@, detail@),
{
    let mut origin = "shell-".to_owned();
    origin.append(shell);
    origin.append("[");
    origin.append(decimal_text(n as u64).as_str());
    origin.append("]-");
    origin.append(kind);
    let mut display = shell.to_owned();
    display.append(" ");
    display.append(kind);
    display.append(": ");
    display.append(detail);
    let mut reason = shell.to_owned();
    reason.append(" ");
    reason.append(kind);
    reason.append("s are shell state and cannot be replaced as files");
    SurfaceSeed {
        origin,
        raw: display,
        owner: SurfaceOwner::Manual,
        current: n == 0,
        package_leaf: false,
        probeable: false,
        read_only_reason: Some(reason),
    }
}

/// The shell state that starts Codex. Files that the shell finds are known from the search
/// path already.
pub fn parsed_shell_resolutions(shell: &str, output: &str) -> (r: Vec<SurfaceSeed>)
    ensures
        seeds_view(r@) == shell_seeds(shell@, lines(output@)),
        r@.len() <= MAX_SHELL_RESOLUTIONS,
{
    let list = lines_of(output);
    let ghost all = lines(output@);
    let mut out: Vec<SurfaceSeed> = Vec::new();
    let mut i: usize = 0;
    proof {
        assert(all.take(0) =~= Seq::empty());
        assert(seeds_view(out@) =~= Seq::empty());
    }
    while i < list.len()
        invariant
            i <= list@.len(),
            all == texts(list@),
            out@.len() <= MAX_SHELL_RESOLUTIONS,
            seeds_view(out@) == shell_seeds(shell@, all.take(i as int)),
        decreases list@.len() - i,
    {
        let detail = compact_display_text(list[i].as_str(), 512);
        proof {
            assert(all.take(i as int + 1).drop_last() =~= all.take(i as int));
            assert(all.take(i as int + 1).last() == list@[i as int]@);
            assert(seeds_view(out@).len() == out@.len());
        }
        if out.len() < MAX_SHELL_RESOLUTIONS {
            if let Some(kind) = kind_of_line(detail.as_str()) {
                let item = shell_surface(shell, out.len(), kind, detail.as_str());
                proof {
                    lemma_seeds_push(out@, item);
                }
                out.push(item);
            }
        }
        i = i + 1;
    }
    proof {
        assert(all.take(list@.len() as int) =~= all);
    }
    out
}

/// The first place, at or after `from`, at which `needle` occurs.
pub open spec fn first_at(s: Seq<char>, needle: Seq<char>, from: int) -> Option<int>
    decreases s.len() - from,
{
    if from >= s.len() {
        None
    } else if occurs_at(s, needle, from) {
        Some(from)
    } else {
        first_at(s, needle, from + 1)
    }
}

/// The last place, at or before `from`, at which `needle` occurs.
pub open spec fn last_at(s: Seq<char>, needle: Seq<char>, from: int) -> Option<int>
    decreases from + 1,
{
    if from < 0 {
        None
    } else if occurs_at(s, needle, from) {
        Some(from)
    } else {
        last_at(s, needle, from - 1)
    }
}

/// What stands between the first opening mark and the last closing mark behind it, or the
/// whole text when the marks are not there.
pub open spec fn between_marks(s: Seq<char>, open: Seq<char>, close: Seq<char>) -> Seq<char> {
    match first_at(s, open, 0) {
        None => s,
        Some(i) => {
            let rest = s.skip(i + open.len());
            match last_at(rest, close, rest.len() as int) {
                None => s,
                Some(j) => rest.take(j),
            }
        },
    }
}

/// The JSON text in what PowerShell printed.
pub fn powershell_payload(output: &str) -> (r: String)
    ensures
        r@ == trim(between_marks(output@, POWERSHELL_JSON_BEGIN@, POWERSHELL_JSON_END@)),
{
    let chars = chars_of(output);
    let open = chars_of(POWERSHELL_JSON_BEGIN);
    let close = chars_of(POWERSHELL_JSON_END);
    let mut i: usize = 0;
    while i < chars.len() && !matches_at(&chars, &open, i)
        invariant
            i <= chars@.len(),
            first_at(chars@, open@, 0) == first_at(chars@, open@, i as int),
        decreases chars@.len() - i,
    {
        i = i + 1;
    }
    if i >= chars.len() {
        return trimmed(output);
    }
    proof {
        assert(occurs_at(chars@, open@, i as int));
        assert(i + open@.len() <= chars@.len());
    }
    let start: usize = i + open.len();
    let rest = chars_of(text_between(&chars, start, chars.len()).as_str());
    proof {
        assert(rest@ =~= chars@.skip(start as int));
    }
    let mut j: usize = rest.len();
    while j > 0 && !matches_at(&rest, &close, j)
        invariant
            j <= rest@.len(),
            last_at(rest@, close@, rest@.len() as int) == last_at(rest@, close@, j as int),
        decreases j,
    {
        j = j - 1;
    }
    if !matches_at(&rest, &close, j) {
        proof {
            assert(j == 0);
            assert(last_at(rest@, close@, -1) is None);
        }
        return trimmed(output);
    }
    proof {
        assert(rest@.subrange(0, j as int) =~= rest@.take(j as int));
    }
    trimmed(text_between(&rest, 0, j).as_str())
}

/// One thing that PowerShell finds under the name `codex`.
#[derive(Debug)]
pub struct PowerShellResolution {
    pub name: String,
    pub command_type: String,
    pub path: String,
    pub source: String,
    pub definition: String,
}

/// What is found of the file that a resolution may name.
#[derive(Debug, Clone, Copy, PartialEq, Eq, Structural)]
pub struct ResolutionFacts {
    /// The definition is the absolute path of something that is there.
    pub definition_found: bool,
    /// The file that the resolution names is there.
    pub file_present: bool,
}

/// The file that a resolution names.
pub open spec fn resolution_file(
    r: PowerShellResolution,
    facts: ResolutionFacts,
) -> Option<Seq<char>> {
    if trim(r.path@).len() > 0 {
        Some(trim(r.path@))
    } else if facts.definition_found {
        Some(trim(r.definition@))
    } else {
        None
    }
}

pub open spec fn resolution_origin(program: Seq<char>, index: nat, kind: Seq<char>) -> Seq<char> {
    "powershell-"@ + program + "["@ + decimal(index) + "]-"@ + kind
}

/// The surface that a resolution stands for. An application or a script whose file is gone
/// stands for none.
pub open spec fn resolution_seed(
    program: Seq<char>,
    index: nat,
    r: PowerShellResolution,
    facts: ResolutionFacts,
) -> Option<SeedView> {
    let kind = ascii_lower(r.command_type@);
    let origin = resolution_origin(program, index, kind);
    let file = resolution_file(r, facts);
    if (kind == "application"@ || kind == "externalscript"@) && file is Some {
        if facts.file_present {
            Some(
                SeedView {
                    current: index == 0,
                    ..file_seed(origin, file->0, SurfaceOwner::Unknown, false)
                },
            )
        } else {
            None
        }
    } else {
        let definition = if trim(r.definition@).len() == 0 {
            trim(r.source@)
        } else {
            trim(r.definition@)
        };
        let detail = compact(definition, 512);
        Some(
            virtual_seed(
                origin,
                "PowerShell "@ + r.command_type@ + " "@ + r.name@ + (if detail.len() > 0 {
                    " -> "@ + detail
                } else {
                    Seq::empty()
                }),
                SurfaceOwner::Manual,
                index == 0,
                "PowerShell "@ + r.command_type@
                    + " resolution is session state and cannot be replaced as a file"@,
            ),
        )
    }
}

pub open spec fn opt_seed(o: Option<SurfaceSeed>) -> Option<SeedView> {
    match o {
        Some(s) => Some(s@),
        None => None,
    }
}

/// The file to look for before `file_present` can be said.
pub fn named_file(resolution: &PowerShellResolution, definition_found: bool) -> (r: Option<String>)
    ensures
        forall|present: bool|
            opt_text(r) == #[trigger] resolution_file(
                *resolution,
                ResolutionFacts { definition_found, file_present: present },
            ),
{
    let path = trimmed(resolution.path.as_str());
    if chars_of(path.as_str()).len() > 0 {
        Some(path)
    } else if definition_found {
        Some(trimmed(resolution.definition.as_str()))
    } else {
        None
    }
}

pub fn resolution_surface(
    program: &str,
    index: usize,
    resolution: &PowerShellResolution,
    facts: ResolutionFacts,
) -> (r: Option<SurfaceSeed>)
    ensures
        opt_seed(r) == resolution_seed(program@, index as nat, *resolution, facts),
{
    let kind = to_ascii_lower(resolution.command_type.as_str());
    let mut origin = "powershell-".to_owned();
    origin.append(program);
    origin.append("[");
    origin.append(decimal_text(index as u64).as_str());
    origin.append("]-");
    origin.append(kind.as_str());
    let file = named_file(resolution, facts.definition_found);
    proof {
        assert(facts == (ResolutionFacts {
            definition_found: facts.definition_found,
            file_present: facts.file_present,
        }));
    }
    if same(kind.as_str(), "application") || same(kind.as_str(), "externalscript") {
        if let Some(path) = file {
            if !facts.file_present {
                return None;
            }
            let mut seed = SurfaceSeed::physical(
                origin.as_str(),
                path,
                SurfaceOwner::Unknown,
                false,
            );
            seed.current = index == 0;
            return Some(seed);
        }
    }
    let given = trimmed(resolution.definition.as_str());
    let definition = if chars_of(given.as_str()).len() == 0 {
        trimmed(resolution.source.as_str())
    } else {
        given
    };
    let detail = compact_display_text(definition.as_str(), 512);
    let mut display = "PowerShell ".to_owned();
    display.append(resolution.command_type.as_str());
    display.append(" ");
    display.append(resolution.name.as_str());
    let ghost head = display@;
    if chars_of(detail.as_str()).len() > 0 {
        display.append(" -> ");
        display.append(detail.as_str());
        proof {
            assert(display@ =~= head + (" -> "@ + detail@));
        }
    } else {
        proof {
            assert(display@ =~= head + Seq::<char>::empty());
        }
    }
    let mut reason = "PowerShell ".to_owned();
    reason.append(resolution.command_type.as_str());
    reason.append(" resolution is session state and cannot be replaced as a file");
    Some(
        SurfaceSeed {
            origin,
            raw: display,
            owner: SurfaceOwner::Manual,
            current: index == 0,
            package_leaf: false,
            probeable: false,
            read_only_reason: Some(reason),
        },
    )
}

/// The surfaces that PowerShell's answer stands for, up to a limit.
pub open spec fn resolution_seeds(
    program: Seq<char>,
    list: Seq<PowerShellResolution>,
    facts: Seq<ResolutionFacts>,
) -> Seq<SeedView>
    decreases list.len(),
{
    if list.len() == 0 {
        Seq::empty()
    } else {
        let n = (list.len() - 1) as nat;
        let before = resolution_seeds(program, list.drop_last(), facts);
        if n >= MAX_POWERSHELL_RESOLUTIONS {
            before
        } else {
            match resolution_seed(program, n, list.last(), facts[n as int]) {
                Some(seed) => before.push(seed),
                None => before,
            }
        }
    }
}

/// `facts` are what is found of the file that each resolution names.
pub fn powershell_surfaces(
    program: &str,
    list: &Vec<PowerShellResolution>,
    facts: &Vec<ResolutionFacts>,
) -> (r: Vec<SurfaceSeed>)
    requires
        facts@.len() == list@.len(),
    ensures
        seeds_view(r@) == resolution_seeds(program@, list@, facts@),
{
    let mut out: Vec<SurfaceSeed> = Vec::new();
    let mut i: usize = 0;
    proof {
        assert(list@.take(0) =~= Seq::empty());
        assert(seeds_view(out@) =~= Seq::empty());
    }
    while i < list.len()
        invariant
            i <= list@.len(),
            facts@.len() == list@.len(),
            seeds_view(out@) == resolution_seeds(program@, list@.take(i as int), facts@),
        decreases list@.len() - i,
    {
        proof {
            assert(list@.take(i as int + 1).drop_last() =~= list@.take(i as int));
            assert(list@.take(i as int + 1).last() == list@[i as int]);
        }
        if i < MAX_POWERSHELL_RESOLUTIONS {
            if let Some(seed) = resolution_surface(program, i, &list[i], facts[i]) {
                proof {
                    lemma_seeds_push(out@, seed);
                }
                out.push(seed);
            }
        }
        i = i + 1;
    }
    proof {
        assert(list@.take(list@.len() as int) =~= list@);
    }
    out
}

/// Where the official standalone installation puts its files.
pub open spec fn standalone_seeds(
    codex_home: Seq<char>,
    install_dir: Option<Seq<char>>,
    visible_default: Option<Seq<char>>,
    names: Seq<Seq<char>>,
    platform: Platform,
) -> Seq<SeedView> {
    let current = join_path(
        platform,
        join_path(platform, join_path(platform, codex_home, "packages"@), "standalone"@),
        "current"@,
    );
    seq![
        file_seed(
            "standalone-package"@,
            join_path(platform, join_path(platform, current, "bin"@), primary_name(platform)),
            SurfaceOwner::Standalone,
            true,
        ),
        file_seed(
            "standalone-daemon"@,
            join_path(platform, current, primary_name(platform)),
            SurfaceOwner::Daemon,
            false,
        ),
    ] + (match install_dir {
        Some(dir) => dir_seeds(
            platform,
            "CODEX_INSTALL_DIR"@,
            dir,
            names,
            SurfaceOwner::Standalone,
        ),
        None => match visible_default {
            Some(base) => seq![
                file_seed(
                    "standalone-visible-default"@,
                    join_path(
                        platform,
                        base,
                        match platform {
                            Platform::Posix => ".local/bin/codex"@,
                            Platform::Windows => "Programs/OpenAI/Codex/bin/codex.exe"@,
                        },
                    ),
                    SurfaceOwner::Standalone,
                    false,
                ),
            ],
            None => Seq::empty(),
        },
    })
}

/// `visible_default` is the directory below which the visible launcher stands by default:
/// the home directory, or on Windows the local application data.
pub fn standalone_surfaces(
    codex_home: &str,
    install_dir: &Option<String>,
    visible_default: &Option<String>,
    names: &Vec<String>,
    platform: Platform,
) -> (r: Vec<SurfaceSeed>)
    ensures
        seeds_view(r@) == standalone_seeds(
            codex_home@,
            opt_text(*install_dir),
            opt_text(*visible_default),
            texts(names@),
            platform,
        ),
{
    let current = joined(
        platform,
        joined(platform, joined(platform, codex_home, "packages").as_str(), "standalone").as_str(),
        "current",
    );
    let primary = primary_command_file_name(platform);
    let mut out = vec![
        SurfaceSeed::physical(
            "standalone-package",
            joined(platform, joined(platform, current.as_str(), "bin").as_str(), primary),
            SurfaceOwner::Standalone,
            true,
        ),
        SurfaceSeed::physical(
            "standalone-daemon",
            joined(platform, current.as_str(), primary),
            SurfaceOwner::Daemon,
            false,
        ),
    ];
    let ghost head = seeds_view(out@);
    match install_dir {
        Some(dir) => {
            push_dir_seeds(
                platform,
                &mut out,
                "CODEX_INSTALL_DIR",
                dir.as_str(),
                names,
                SurfaceOwner::Standalone,
            );
        },
        None => {
            if let Some(base) = visible_default {
                let relative = match platform {
                    Platform::Posix => ".local/bin/codex",
                    Platform::Windows => "Programs/OpenAI/Codex/bin/codex.exe",
                };
                let item = SurfaceSeed::physical(
                    "standalone-visible-default",
                    joined(platform, base.as_str(), relative),
                    SurfaceOwner::Standalone,
                    false,
                );
                proof {
                    lemma_seeds_push(out@, item);
                }
                out.push(item);
            }
        },
    }
    proof {
        assert(seeds_view(out@) =~= standalone_seeds(
            codex_home@,
            opt_text(*install_dir),
            opt_text(*visible_default),
            texts(names@),
            platform,
        ));
    }
    out
}

/// The launchers that a package manager keeps where it says that it does.
pub open spec fn manager_seeds(
    program: Seq<char>,
    output: Seq<char>,
    owner: SurfaceOwner,
    names: Seq<Seq<char>>,
    platform: Platform,
) -> Seq<SeedView> {
    if trim(output).len() == 0 {
        Seq::empty()
    } else {
        dir_seeds(
            platform,
            program + "-global"@,
            if platform is Posix && program == "npm"@ {
                join_path(platform, trim(output), "bin"@)
            } else {
                trim(output)
            },
            names,
            owner,
        )
    }
}

pub fn manager_surfaces(
    program: &str,
    output: &str,
    owner: SurfaceOwner,
    names: &Vec<String>,
    platform: Platform,
) -> (r: Vec<SurfaceSeed>)
    ensures
        seeds_view(r@) == manager_seeds(program@, output@, owner, texts(names@), platform),
{
    let mut out: Vec<SurfaceSeed> = Vec::new();
    let given = trimmed(output);
    if chars_of(given.as_str()).len() == 0 {
        proof {
            assert(seeds_view(out@) =~= Seq::empty());
        }
        return out;
    }
    let posix = match platform {
        Platform::Posix => true,
        Platform::Windows => false,
    };
    let dir = if posix && same(program, "npm") {
        joined(platform, given.as_str(), "bin")
    } else {
        given
    };
    let mut origin = program.to_owned();
    origin.append("-global");
    push_dir_seeds(platform, &mut out, origin.as_str(), dir.as_str(), names, owner);
    proof {
        assert(seeds_view(out@) =~= manager_seeds(
            program@,
            output@,
            owner,
            texts(names@),
            platform,
        ));
    }
    out
}

/// A question to a package manager: the program, its arguments, and whose launchers the
/// answer leads to.
#[derive(Debug)]
pub struct ManagerQuery {
    pub program: &'static str,
    pub args: Vec<&'static str>,
    pub owner: SurfaceOwner,
}

pub open spec fn is_query(
    q: ManagerQuery,
    program: Seq<char>,
    args: Seq<Seq<char>>,
    owner: SurfaceOwner,
) -> bool {
    q.program@ == program && slices(q.args@) == args && q.owner == owner
}

/// The questions for the directories of global launchers.
pub fn launcher_queries() -> (r: Vec<ManagerQuery>)
    ensures
        r@.len() == 3,
        is_query(r@[0], "npm"@, seq!["prefix"@, "-g"@], SurfaceOwner::Npm),
        is_query(r@[1], "pnpm"@, seq!["bin"@, "-g"@], SurfaceOwner::Pnpm),
        is_query(r@[2], "bun"@, seq!["pm"@, "bin"@, "-g"@], SurfaceOwner::Bun),
{
    let list = vec![
        ManagerQuery { program: "npm", args: vec!["prefix", "-g"], owner: SurfaceOwner::Npm },
        ManagerQuery { program: "pnpm", args: vec!["bin", "-g"], owner: SurfaceOwner::Pnpm },
        ManagerQuery { program: "bun", args: vec!["pm", "bin", "-g"], owner: SurfaceOwner::Bun },
    ];
    proof {
        assert(slices(list@[0].args@) =~= seq!["prefix"@, "-g"@]);
        assert(slices(list@[1].args@) =~= seq!["bin"@, "-g"@]);
        assert(slices(list@[2].args@) =~= seq!["pm"@, "bin"@, "-g"@]);
    }
    list
}

/// The questions for the directories of installed packages, which hold the executables that
/// the launchers run.
pub fn package_queries() -> (r: Vec<ManagerQuery>)
    ensures
        r@.len() == 2,
        is_query(r@[0], "npm"@, seq!["root"@, "-g"@], SurfaceOwner::Npm),
        is_query(r@[1], "pnpm"@, seq!["root"@, "-g"@], SurfaceOwner::Pnpm),
{
    let list = vec![
        ManagerQuery { program: "npm", args: vec!["root", "-g"], owner: SurfaceOwner::Npm },
        ManagerQuery { program: "pnpm", args: vec!["root", "-g"], owner: SurfaceOwner::Pnpm },
    ];
    proof {
        assert(slices(list@[0].args@) =~= seq!["root"@, "-g"@]);
        assert(slices(list@[1].args@) =~= seq!["root"@, "-g"@]);
    }
    list
}

/// Bun's launchers, where it keeps them by default.
pub fn bun_default_surfaces(
    platform: Platform,
    home: &str,
    names: &Vec<String>,
) -> (r: Vec<SurfaceSeed>)
    ensures
        seeds_view(r@) == dir_seeds(
            platform,
            "bun-default"@,
            join_path(platform, home@, ".bun/bin"@),
            texts(names@),
            SurfaceOwner::Bun,
        ),
{
    let mut out: Vec<SurfaceSeed> = Vec::new();
    push_dir_seeds(
        platform,
        &mut out,
        "bun-default",
        joined(platform, home, ".bun/bin").as_str(),
        names,
        SurfaceOwner::Bun,
    );
    proof {
        assert(seeds_view(out@) =~= dir_seeds(
            platform,
            "bun-default"@,
            join_path(platform, home@, ".bun/bin"@),
            texts(names@),
            SurfaceOwner::Bun,
        ));
    }
    out
}

/// Something found in a package manager's tree.
#[derive(Debug)]
pub struct PackageEntry {
    pub path: String,
    pub is_file: bool,
}

/// An executable of the Codex package.
pub open spec fn is_codex_leaf(e: PackageEntry, platform: Platform) -> bool {
    &&& e.is_file
    &&& file_name(platform, e.path@) == Some(primary_name(platform))
    &&& contains_text(ascii_lower(e.path@), "@openai"@)
    &&& contains_text(ascii_lower(e.path@), "codex"@)
}

/// The executables among the first entries of a tree, up to a limit.
pub open spec fn leaf_seeds(
    entries: Seq<PackageEntry>,
    owner: SurfaceOwner,
    manager: Seq<char>,
    platform: Platform,
) -> Seq<SeedView>
    decreases entries.len(),
{
    if entries.len() == 0 {
        Seq::empty()
    } else {
        let before = leaf_seeds(entries.drop_last(), owner, manager, platform);
        if before.len() >= MAX_PACKAGE_EXECUTABLES || entries.len() > MAX_PACKAGE_SCAN_ENTRIES
            || !is_codex_leaf(entries.last(), platform) {
            before
        } else {
            before.push(
                file_seed(
                    manager + "-native-package"@,
                    entries.last().path@,
                    owner,
                    true,
                ),
            )
        }
    }
}

pub fn package_leaves(
    entries: &Vec<PackageEntry>,
    owner: SurfaceOwner,
    manager: &str,
    platform: Platform,
) -> (r: Vec<SurfaceSeed>)
    ensures
        seeds_view(r@) == leaf_seeds(entries@, owner, manager@, platform),
        r@.len() <= MAX_PACKAGE_EXECUTABLES,
{
    let mut origin = manager.to_owned();
    origin.append("-native-package");
    let mut out: Vec<SurfaceSeed> = Vec::new();
    let mut i: usize = 0;
    proof {
        assert(entries@.take(0) =~= Seq::empty());
        assert(seeds_view(out@) =~= Seq::empty());
    }
    while i < entries.len()
        invariant
            i <= entries@.len(),
            origin@ == manager@ + "-native-package"@,
            out@.len() <= MAX_PACKAGE_EXECUTABLES,
            seeds_view(out@) == leaf_seeds(entries@.take(i as int), owner, manager@, platform),
        decreases entries@.len() - i,
    {
        let e = &entries[i];
        proof {
            assert(entries@.take(i as int + 1).drop_last() =~= entries@.take(i as int));
            assert(entries@.take(i as int + 1).last() == entries@[i as int]);
            assert(seeds_view(out@).len() == out@.len());
        }
        if out.len() < MAX_PACKAGE_EXECUTABLES && i < MAX_PACKAGE_SCAN_ENTRIES && e.is_file {
            let named = match file_name_of(platform, e.path.as_str()) {
                Some(name) => same(name.as_str(), primary_command_file_name(platform)),
                None => false,
            };
            let lower = to_ascii_lower(e.path.as_str());
            if named && contains(lower.as_str(), "@openai") && contains(lower.as_str(), "codex") {
                let item = SurfaceSeed::physical(origin.as_str(), e.path.clone(), owner, true);
                proof {
                    lemma_seeds_push(out@, item);
                }
                out.push(item);
            }
        }
        i = i + 1;
    }
    proof {
        assert(entries@.take(entries@.len() as int) =~= entries@);
    }
    out
}

/// Homebrew's link, and the executables of the versions it keeps.
pub open spec fn homebrew_seeds(
    platform: Platform,
    prefix: Seq<char>,
    files: Seq<Seq<char>>,
) -> Seq<SeedView>
    decreases files.len(),
{
    if files.len() == 0 {
        seq![
            file_seed(
                "homebrew-cask"@,
                join_path(platform, trim(prefix), "bin/codex"@),
                SurfaceOwner::Homebrew,
                false,
            ),
        ]
    } else {
        let before = homebrew_seeds(platform, prefix, files.drop_last());
        match file_name(platform, files.last()) {
            Some(name) => if "codex-"@.is_prefix_of(name) {
                before.push(
                    file_seed(
                        "homebrew-cask-package"@,
                        files.last(),
                        SurfaceOwner::Homebrew,
                        true,
                    ),
                )
            } else {
                before
            },
            None => before,
        }
    }
}

/// `files` are the files in the directories of the cask's versions.
pub fn homebrew_surfaces(
    platform: Platform,
    prefix: &str,
    files: &Vec<String>,
) -> (r: Vec<SurfaceSeed>)
    ensures
        seeds_view(r@) == homebrew_seeds(platform, prefix@, texts(files@)),
{
    let ghost all = texts(files@);
    let mut out = vec![
        SurfaceSeed::physical(
            "homebrew-cask",
            joined(platform, trimmed(prefix).as_str(), "bin/codex"),
            SurfaceOwner::Homebrew,
            false,
        ),
    ];
    let mut i: usize = 0;
    proof {
        assert(all.take(0) =~= Seq::empty());
        reveal_with_fuel(homebrew_seeds, 2);
        assert(seeds_view(out@) =~= homebrew_seeds(platform, prefix@, all.take(0)));
    }
    while i < files.len()
        invariant
            i <= files@.len(),
            all == texts(files@),
            seeds_view(out@) == homebrew_seeds(platform, prefix@, all.take(i as int)),
        decreases files@.len() - i,
    {
        proof {
            assert(all.take(i as int + 1).drop_last() =~= all.take(i as int));
            assert(all.take(i as int + 1).last() == files@[i as int]@);
        }
        if let Some(name) = file_name_of(platform, files[i].as_str()) {
            if starts_with(name.as_str(), "codex-") {
                let item = SurfaceSeed::physical(
                    "homebrew-cask-package",
                    files[i].clone(),
                    SurfaceOwner::Homebrew,
                    true,
                );
                proof {
                    lemma_seeds_push(out@, item);
                }
                out.push(item);
            }
        }
        i = i + 1;
    }
    proof {
        assert(all.take(files@.len() as int) =~= all);
    }
    out
}

/// The executables inside the Desktop application, wherever it may be installed.
pub open spec fn desktop_paths(
    platform: Platform,
    os: Seq<char>,
    home: Option<Seq<char>>,
    bases: Seq<Seq<char>>,
    appdir: Option<Seq<char>>,
) -> Seq<Seq<char>> {
    (if os == "macos"@ {
        seq![
            "/Applications/Codex.app/Contents/Resources/codex"@,
            "/Applications/ChatGPT.app/Contents/Resources/codex"@,
        ] + (match home {
            Some(dir) => seq![
                join_path(platform, dir, "Applications/Codex.app/Contents/Resources/codex"@),
            ],
            None => Seq::empty(),
        })
    } else if os == "linux"@ {
        seq![
            "/opt/codex-desktop/resources/codex"@,
            "/opt/Codex/resources/codex"@,
            "/usr/lib/codex-desktop/resources/codex"@,
            "/usr/lib/codex/resources/codex"@,
            "/usr/lib/codex-app/resources/codex"@,
        ]
    } else if os == "windows"@ {
        program_paths(platform, bases)
    } else {
        Seq::empty()
    }) + (match appdir {
        Some(dir) => seq![join_path(
            platform,
            dir,
            "resources/codex"@,
        ), join_path(platform, dir, "usr/bin/codex"@)],
        None => Seq::empty(),
    })
}

/// Where Windows installs applications, below each of the base directories.
pub open spec fn program_paths(platform: Platform, bases: Seq<Seq<char>>) -> Seq<Seq<char>>
    decreases bases.len(),
{
    if bases.len() == 0 {
        Seq::empty()
    } else {
        program_paths(platform, bases.drop_last()) + seq![
            join_path(platform, bases.last(), "Programs/Codex/resources/codex.exe"@),
            join_path(platform, bases.last(), "OpenAI/Codex/resources/codex.exe"@),
        ]
    }
}

fn program_files(platform: Platform, bases: &Vec<String>) -> (r: Vec<String>)
    ensures
        texts(r@) == program_paths(platform, texts(bases@)),
{
    let ghost all = texts(bases@);
    let mut out: Vec<String> = Vec::new();
    let mut i: usize = 0;
    proof {
        assert(all.take(0) =~= Seq::empty());
        assert(texts(out@) =~= Seq::empty());
    }
    while i < bases.len()
        invariant
            i <= bases@.len(),
            all == texts(bases@),
            texts(out@) == program_paths(platform, all.take(i as int)),
        decreases bases@.len() - i,
    {
        let first = joined(platform, bases[i].as_str(), "Programs/Codex/resources/codex.exe");
        let second = joined(platform, bases[i].as_str(), "OpenAI/Codex/resources/codex.exe");
        proof {
            assert(all.take(i as int + 1).drop_last() =~= all.take(i as int));
            assert(all.take(i as int + 1).last() == bases@[i as int]@);
            assert(texts(out@.push(first).push(second)) =~= texts(out@) + seq![first@, second@]);
        }
        out.push(first);
        out.push(second);
        i = i + 1;
    }
    proof {
        assert(all.take(bases@.len() as int) =~= all);
    }
    out
}

pub open spec fn desktop_seeds(list: Seq<Seq<char>>) -> Seq<SeedView> {
    list.map_values(
        |path: Seq<char>| file_seed("desktop-bundle"@, path, SurfaceOwner::Desktop, true),
    )
}

/// `bases` are the directories of installed applications on Windows, and `appdir` that of a
/// running application image.
pub fn desktop_surfaces(
    platform: Platform,
    os: &str,
    home: &Option<String>,
    bases: &Vec<String>,
    appdir: &Option<String>,
) -> (r: Vec<SurfaceSeed>)
    ensures
        seeds_view(r@) == desktop_seeds(
            desktop_paths(platform, os@, opt_text(*home), texts(bases@), opt_text(*appdir)),
        ),
{
    let mut list: Vec<String> = if same(os, "macos") {
        let mut fixed = vec![
            "/Applications/Codex.app/Contents/Resources/codex".to_owned(),
            "/Applications/ChatGPT.app/Contents/Resources/codex".to_owned(),
        ];
        if let Some(dir) = home {
            fixed.push(
                joined(platform, dir.as_str(), "Applications/Codex.app/Contents/Resources/codex"),
            );
        }
        fixed
    } else if same(os, "linux") {
        vec![
            "/opt/codex-desktop/resources/codex".to_owned(),
            "/opt/Codex/resources/codex".to_owned(),
            "/usr/lib/codex-desktop/resources/codex".to_owned(),
            "/usr/lib/codex/resources/codex".to_owned(),
            "/usr/lib/codex-app/resources/codex".to_owned(),
        ]
    } else if same(os, "windows") {
        program_files(platform, bases)
    } else {
        Vec::new()
    };
    if let Some(dir) = appdir {
        list.push(joined(platform, dir.as_str(), "resources/codex"));
        list.push(joined(platform, dir.as_str(), "usr/bin/codex"));
    }
    let ghost all = desktop_paths(platform, os@, opt_text(*home), texts(bases@), opt_text(*appdir));
    proof {
        reveal_strlit("macos");
        reveal_strlit("linux");
        reveal_strlit("windows");
        assert(texts(list@) =~= all);
    }
    let mut out: Vec<SurfaceSeed> = Vec::new();
    let mut i: usize = 0;
    while i < list.len()
        invariant
            i <= list@.len(),
            all == texts(list@),
            out@.len() == i,
            forall|k: int|
                0 <= k < i ==> (#[trigger] out@[k])@ == file_seed(
                    "desktop-bundle"@,
                    all[k],
                    SurfaceOwner::Desktop,
                    true,
                ),
        decreases list@.len() - i,
    {
        out.push(
            SurfaceSeed::physical("desktop-bundle", list[i].clone(), SurfaceOwner::Desktop, true),
        );
        i = i + 1;
    }
    proof {
        assert(seeds_view(out@) =~= desktop_seeds(all));
    }
    out
}

/// The manager's own launcher.
pub fn patcher_surface(manager: &str) -> (r: SurfaceSeed)
    ensures
        r@ == file_seed("codex-patcher-manager"@, manager@, SurfaceOwner::Patcher, false),
{
    SurfaceSeed::physical(
        "codex-patcher-manager",
        manager.to_owned(),
        SurfaceOwner::Patcher,
        false,
    )
}

} // verus!

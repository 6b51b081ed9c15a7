//! The command line of a wrapped launch.
//!
//! Arguments are preserved as bytes; they are classified by their text.

use vstd::prelude::*;
use vstd::utf8::encode_utf8;

use crate::outside::{quoted, quoted_text};
use crate::text::{
    chars_of, first_index, is_one_of, lemma_first_index_unique, same, slices, starts_with,
    text_between, texts,
};

verus! {

pub const MANAGED_UPDATE_OVERRIDE: &'static str = "check_for_update_on_startup=false";

#[derive(Debug, Clone, Copy, PartialEq, Eq, Structural)]
pub struct UpdateOptions {
    pub retry: bool,
    pub accept_retag: bool,
    pub accept_force_push: bool,
    pub interactive: bool,
    /// Build again although a validated generation of the same key exists.
    pub force_rebuild: bool,
}

impl Default for UpdateOptions {
    fn default() -> (r: Self)
        ensures
            r == default_update_options(),
    {
        UpdateOptions {
            retry: false,
            accept_retag: false,
            accept_force_push: false,
            interactive: false,
            force_rebuild: false,
        }
    }
}

pub open spec fn default_update_options() -> UpdateOptions {
    UpdateOptions {
        retry: false,
        accept_retag: false,
        accept_force_push: false,
        interactive: false,
        force_rebuild: false,
    }
}

/// A `codex update` that is routed to the patcher.
#[derive(Debug, Clone, Copy, PartialEq, Eq, Structural)]
pub enum WrappedUpdate {
    Help,
    Run(UpdateOptions),
}

pub open spec fn byte_args(v: Seq<Vec<u8>>) -> Seq<Seq<u8>> {
    v.map_values(|a: Vec<u8>| a@)
}

/// The position of the first `--`, or the number of arguments.
pub open spec fn delimiter(args: Seq<Seq<u8>>) -> int
    decreases args.len(),
{
    if args.len() == 0 || args[0] == encode_utf8("--"@) {
        0
    } else {
        1 + delimiter(args.drop_first())
    }
}

/// The arguments with the update override as the last option before `--`.
pub open spec fn with_override(args: Seq<Seq<u8>>) -> Seq<Seq<u8>> {
    let cut = delimiter(args);
    args.take(cut) + seq![encode_utf8("-c"@), encode_utf8(MANAGED_UPDATE_OVERRIDE@)] + args.skip(
        cut,
    )
}

proof fn lemma_delimiter(args: Seq<Seq<u8>>)
    ensures
        0 <= delimiter(args) <= args.len(),
        delimiter(args) < args.len() ==> args[delimiter(args)] == encode_utf8("--"@),
        forall|i: int| 0 <= i < delimiter(args) ==> #[trigger] args[i] != encode_utf8("--"@),
    decreases args.len(),
{
    if args.len() > 0 && args[0] != encode_utf8("--"@) {
        let rest = args.drop_first();
        lemma_delimiter(rest);
        assert forall|i: int| 0 <= i < delimiter(args) implies #[trigger] args[i] != encode_utf8(
            "--"@,
        ) by {
            if i > 0 {
                assert(rest[i - 1] == args[i]);
            }
        }
        if delimiter(rest) < rest.len() {
            assert(rest[delimiter(rest)] == args[delimiter(rest) + 1]);
        }
    }
}

/// Every argument of the caller is preserved, in order; only the override is added, and
/// nothing but the delimiter and what follows it comes after.
pub proof fn override_preserves_arguments(args: Seq<Seq<u8>>)
    ensures
        with_override(args).len() == args.len() + 2,
        with_override(args).remove(delimiter(args)).remove(delimiter(args)) == args,
        delimiter(args) == args.len() || args[delimiter(args)] == encode_utf8("--"@),
        forall|i: int| 0 <= i < delimiter(args) ==> #[trigger] args[i] != encode_utf8("--"@),
{
    lemma_delimiter(args);
    let out = with_override(args);
    let cut = delimiter(args);
    assert(out.remove(cut).remove(cut) =~= args);
}

fn copy_of(bytes: &Vec<u8>) -> (r: Vec<u8>)
    ensures
        r@ == bytes@,
{
    vstd::slice::slice_to_vec(bytes.as_slice())
}

fn is_delimiter(bytes: &Vec<u8>) -> (r: bool)
    ensures
        r == (bytes@ == encode_utf8("--"@)),
{
    let dashes = vstd::slice::slice_to_vec("--".as_bytes());
    crate::shim::same_bytes(bytes, &dashes)
}

/// Preserve every caller argument and place the patcher's update-management
/// override at the last position still parsed as a global Codex option.
pub fn inject_managed_update_override(arguments: &Vec<Vec<u8>>) -> (r: Vec<Vec<u8>>)
    ensures
        byte_args(r@) == with_override(byte_args(arguments@)),
{
    let ghost all = byte_args(arguments@);
    let mut cut: usize = 0;
    proof {
        assert(all.skip(0) =~= all);
    }
    while cut < arguments.len() && !is_delimiter(&arguments[cut])
        invariant
            cut <= arguments@.len(),
            all == byte_args(arguments@),
            delimiter(all) == cut + delimiter(all.skip(cut as int)),
        decreases arguments@.len() - cut,
    {
        proof {
            assert(all.skip(cut as int)[0] == arguments@[cut as int]@);
            assert(all.skip(cut as int).drop_first() =~= all.skip(cut as int + 1));
        }
        cut = cut + 1;
    }
    proof {
        if cut < arguments@.len() {
            assert(all.skip(cut as int)[0] == arguments@[cut as int]@);
        }
        assert(delimiter(all) == cut);
    }
    let mut out: Vec<Vec<u8>> = Vec::new();
    let mut i: usize = 0;
    while i < cut
        invariant
            i <= cut <= arguments@.len(),
            all == byte_args(arguments@),
            byte_args(out@) == all.take(i as int),
        decreases cut - i,
    {
        let item = copy_of(&arguments[i]);
        proof {
            assert(byte_args(out@.push(item)) =~= byte_args(out@).push(item@));
            assert(all.take(i as int + 1) =~= all.take(i as int).push(item@));
        }
        out.push(item);
        i = i + 1;
    }
    let flag = vstd::slice::slice_to_vec("-c".as_bytes());
    let value = vstd::slice::slice_to_vec(MANAGED_UPDATE_OVERRIDE.as_bytes());
    let ghost head = all.take(cut as int) + seq![flag@, value@];
    proof {
        assert(byte_args(out@.push(flag).push(value)) =~= head);
    }
    out.push(flag);
    out.push(value);
    proof {
        assert(all.subrange(cut as int, cut as int) =~= Seq::empty());
        assert(byte_args(out@) =~= head + all.subrange(cut as int, cut as int));
    }
    while i < arguments.len()
        invariant
            cut <= i <= arguments@.len(),
            all == byte_args(arguments@),
            byte_args(out@) == head + all.subrange(cut as int, i as int),
        decreases arguments@.len() - i,
    {
        let item = copy_of(&arguments[i]);
        proof {
            assert(byte_args(out@.push(item)) =~= byte_args(out@).push(item@));
            assert(head + all.subrange(cut as int, i as int + 1) =~= (head + all.subrange(
                cut as int,
                i as int,
            )).push(item@));
        }
        out.push(item);
        i = i + 1;
    }
    proof {
        assert(all.subrange(cut as int, arguments@.len() as int) =~= all.skip(cut as int));
    }
    out
}

pub open spec fn is_yolo(a: Seq<char>) -> bool {
    a == "--yolo"@ || a == "--dangerously-bypass-approvals-and-sandbox"@
}

/// The bypass is selected by an option that stands before any `--`.
pub open spec fn uses_yolo(args: Seq<Seq<char>>) -> bool
    decreases args.len(),
{
    if args.len() == 0 || args[0] == "--"@ {
        false
    } else {
        is_yolo(args[0]) || uses_yolo(args.drop_first())
    }
}

/// Whether the initiating interactive Codex launch explicitly selected its
/// dangerous approval-and-sandbox bypass mode. Only real CLI options before a
/// `--` delimiter count; prompt text must never be able to enable this mode.
pub fn invocation_uses_yolo_mode(arguments: &Vec<String>) -> (r: bool)
    ensures
        r == uses_yolo(texts(arguments@)),
{
    let ghost all = texts(arguments@);
    let mut i: usize = 0;
    proof {
        assert(all.skip(0) =~= all);
    }
    while i < arguments.len()
        invariant
            i <= arguments@.len(),
            all == texts(arguments@),
            uses_yolo(all) == uses_yolo(all.skip(i as int)),
        decreases arguments@.len() - i,
    {
        let argument = arguments[i].as_str();
        proof {
            assert(all.skip(i as int)[0] == argument@);
            assert(all.skip(i as int).drop_first() =~= all.skip(i as int + 1));
        }
        if same(argument, "--") {
            return false;
        }
        if same(argument, "--yolo") || same(
            argument,
            "--dangerously-bypass-approvals-and-sandbox",
        ) {
            return true;
        }
        i = i + 1;
    }
    false
}

/// Nothing behind a `--` can select the bypass.
pub proof fn prompt_text_never_selects_yolo(options: Seq<Seq<char>>, prompt: Seq<Seq<char>>)
    ensures
        uses_yolo(options + seq!["--"@] + prompt) == uses_yolo(options),
    decreases options.len(),
{
    let whole = options + seq!["--"@] + prompt;
    if options.len() > 0 {
        assert(whole[0] == options[0]);
        assert(whole.drop_first() =~= options.drop_first() + seq!["--"@] + prompt);
        prompt_text_never_selects_yolo(options.drop_first(), prompt);
    } else {
        assert(whole[0] == "--"@);
    }
}

pub open spec fn global_value_options() -> Seq<Seq<char>> {
    seq![
        "-c"@,
        "--config"@,
        "--enable"@,
        "--disable"@,
        "--remote"@,
        "--remote-auth-token-env"@,
        "-m"@,
        "--model"@,
        "--local-provider"@,
        "-C"@,
        "--cd"@,
        "--add-dir"@,
        "-s"@,
        "--sandbox"@,
        "-a"@,
        "--ask-for-approval"@,
        "-p"@,
        "--profile"@,
    ]
}

/// A global option whose value is the next argument.
fn takes_value(argument: &str) -> (r: bool)
    ensures
        r == global_value_options().contains(argument@),
{
    let list = vec![
        "-c",
        "--config",
        "--enable",
        "--disable",
        "--remote",
        "--remote-auth-token-env",
        "-m",
        "--model",
        "--local-provider",
        "-C",
        "--cd",
        "--add-dir",
        "-s",
        "--sandbox",
        "-a",
        "--ask-for-approval",
        "-p",
        "--profile",
    ];
    proof {
        assert(slices(list@) =~= global_value_options());
    }
    is_one_of(argument, &list)
}

pub open spec fn is_image_option(a: Seq<char>) -> bool {
    a == "-i"@ || a == "--image"@
}

pub open spec fn longer_than(a: Seq<char>, prefix: Seq<char>) -> bool {
    prefix.is_prefix_of(a) && a.len() > prefix.len()
}

/// The option and its value are one argument.
pub open spec fn has_attached_value(a: Seq<char>) -> bool {
    let n = first_index(a, '=');
    if n < a.len() {
        global_value_options().contains(a.take(n)) || is_image_option(a.take(n))
    } else {
        longer_than(a, "-c"@) || longer_than(a, "-m"@) || longer_than(a, "-C"@) || longer_than(
            a,
            "-s"@,
        ) || longer_than(a, "-a"@) || longer_than(a, "-p"@) || longer_than(a, "-i"@)
    }
}

fn is_longer(a: &str, prefix: &str) -> (r: bool)
    ensures
        r == longer_than(a@, prefix@),
{
    starts_with(a, prefix) && chars_of(a).len() > chars_of(prefix).len()
}

pub fn option_has_attached_value(argument: &str) -> (r: bool)
    ensures
        r == has_attached_value(argument@),
{
    let chars = chars_of(argument);
    let mut n: usize = 0;
    while n < chars.len() && chars[n] != '='
        invariant
            n <= chars@.len(),
            forall|j: int| 0 <= j < n ==> chars@[j] != '=',
        decreases chars@.len() - n,
    {
        n = n + 1;
    }
    proof {
        lemma_first_index_unique(argument@, '=', n as int);
    }
    if n < chars.len() {
        let name = text_between(&chars, 0, n);
        proof {
            assert(name@ =~= argument@.take(n as int));
        }
        return takes_value(name.as_str()) || same(name.as_str(), "-i") || same(
            name.as_str(),
            "--image",
        );
    }
    is_longer(argument, "-c") || is_longer(argument, "-m") || is_longer(argument, "-C")
        || is_longer(argument, "-s") || is_longer(argument, "-a") || is_longer(argument, "-p")
        || is_longer(argument, "-i")
}

/// The first argument from `i` on that is neither an option nor an option's value. Behind
/// `--` and behind the variadic `--image` none can be told.
pub open spec fn first_positional(args: Seq<Seq<char>>, i: int) -> Option<int>
    decreases args.len() + 2 - i,
{
    if i >= args.len() {
        None
    } else if args[i] == "--"@ || is_image_option(args[i]) {
        None
    } else if global_value_options().contains(args[i]) {
        first_positional(args, i + 2)
    } else if has_attached_value(args[i]) || (args[i].len() > 0 && args[i][0] == '-') {
        first_positional(args, i + 1)
    } else {
        Some(i)
    }
}

fn starts_with_dash(a: &str) -> (r: bool)
    ensures
        r == (a@.len() > 0 && a@[0] == '-'),
{
    let chars = chars_of(a);
    chars.len() > 0 && chars[0] == '-'
}

fn first_positional_index(arguments: &Vec<String>) -> (r: Option<usize>)
    ensures
        match first_positional(texts(arguments@), 0) {
            Some(i) => r is Some && r->0 == i && i < arguments.len(),
            None => r is None,
        },
{
    let ghost all = texts(arguments@);
    let mut index: usize = 0;
    while index < arguments.len()
        invariant
            all == texts(arguments@),
            first_positional(all, 0) == first_positional(all, index as int),
        decreases arguments@.len() - index,
    {
        let argument = arguments[index].as_str();
        proof {
            assert(all[index as int] == argument@);
            assert(all.len() == arguments@.len());
        }
        if same(argument, "--") || same(argument, "-i") || same(argument, "--image") {
            return None;
        }
        if takes_value(argument) {
            if arguments.len() - index <= 2 {
                proof {
                    assert(first_positional(all, index as int + 2) is None);
                }
                return None;
            }
            index = index + 2;
        } else if option_has_attached_value(argument) || starts_with_dash(argument) {
            index = index + 1;
        } else {
            return Some(index);
        }
    }
    None
}

pub open spec fn asks_for_information(a: Seq<char>) -> bool {
    a == "-h"@ || a == "--help"@ || a == "-V"@ || a == "--version"@
}

fn is_information_flag(a: &str) -> (r: bool)
    ensures
        r == asks_for_information(a@),
{
    same(a, "-h") || same(a, "--help") || same(a, "-V") || same(a, "--version")
}

/// Some of the first `n` arguments asks for help or the version.
pub open spec fn information_before(args: Seq<Seq<char>>, n: int) -> bool {
    exists|i: int| 0 <= i < n && asks_for_information(#[trigger] args[i])
}

fn any_information_flag(arguments: &Vec<String>, n: usize) -> (r: bool)
    requires
        n <= arguments@.len(),
    ensures
        r == information_before(texts(arguments@), n as int),
{
    let ghost all = texts(arguments@);
    let mut i: usize = 0;
    while i < n
        invariant
            i <= n <= arguments@.len(),
            all == texts(arguments@),
            forall|j: int| 0 <= j < i ==> !asks_for_information(#[trigger] all[j]),
        decreases n - i,
    {
        proof {
            assert(all[i as int] == arguments@[i as int]@);
        }
        if is_information_flag(arguments[i].as_str()) {
            proof {
                assert(asks_for_information(all[i as int]));
            }
            return true;
        }
        i = i + 1;
    }
    false
}

pub open spec fn noninteractive_commands() -> Seq<Seq<char>> {
    seq![
        "exec"@,
        "e"@,
        "review"@,
        "login"@,
        "logout"@,
        "mcp"@,
        "plugin"@,
        "mcp-server"@,
        "app-server"@,
        "remote-control"@,
        "app"@,
        "completion"@,
        "update"@,
        "doctor"@,
        "sandbox"@,
        "debug"@,
        "execpolicy"@,
        "apply"@,
        "a"@,
        "archive"@,
        "delete"@,
        "unarchive"@,
        "cloud"@,
        "cloud-tasks"@,
        "responses-api-proxy"@,
        "stdio-to-uds"@,
        "exec-server"@,
        "features"@,
        "help"@,
    ]
}

fn is_noninteractive_command(command: &str) -> (r: bool)
    ensures
        r == noninteractive_commands().contains(command@),
{
    let list = vec![
        "exec",
        "e",
        "review",
        "login",
        "logout",
        "mcp",
        "plugin",
        "mcp-server",
        "app-server",
        "remote-control",
        "app",
        "completion",
        "update",
        "doctor",
        "sandbox",
        "debug",
        "execpolicy",
        "apply",
        "a",
        "archive",
        "delete",
        "unarchive",
        "cloud",
        "cloud-tasks",
        "responses-api-proxy",
        "stdio-to-uds",
        "exec-server",
        "features",
        "help",
    ];
    proof {
        assert(slices(list@) =~= noninteractive_commands());
    }
    is_one_of(command, &list)
}

/// The launch opens the terminal interface: its first positional, if any, is `resume`,
/// `fork` or a prompt.
pub open spec fn opens_tui(args: Seq<Seq<char>>, validated: Seq<Seq<char>>) -> bool {
    !information_before(args, args.len() as int) && match first_positional(args, 0) {
        None => true,
        Some(i) => args[i] == "resume"@ || args[i] == "fork"@ || !(
        noninteractive_commands().contains(args[i]) || validated.contains(args[i])),
    }
}

/// Determine whether a Codex invocation is one of the TUI entry points where
/// it is safe to stop and ask about a detected upstream update.
pub fn is_interactive_invocation(arguments: &Vec<String>) -> (r: bool)
    ensures
        r == opens_tui(texts(arguments@), Seq::empty()),
{
    let none: Vec<String> = Vec::new();
    proof {
        assert(texts(none@) =~= Seq::empty());
    }
    is_interactive_invocation_with_subcommands(arguments, &none)
}

/// As [`is_interactive_invocation`], for a binary with further known subcommands.
pub fn is_interactive_invocation_with_subcommands(
    arguments: &Vec<String>,
    validated_subcommands: &Vec<String>,
) -> (r: bool)
    ensures
        r == opens_tui(texts(arguments@), texts(validated_subcommands@)),
{
    proof {
        assert(texts(arguments@).len() == arguments@.len());
    }
    if any_information_flag(arguments, arguments.len()) {
        return false;
    }
    let index = match first_positional_index(arguments) {
        Some(index) => index,
        None => return true,
    };
    let argument = arguments[index].as_str();
    proof {
        assert(texts(arguments@)[index as int] == argument@);
    }
    if same(argument, "resume") || same(argument, "fork") {
        return true;
    }
    !(is_noninteractive_command(argument) || crate::text::holds(validated_subcommands, argument))
}

/// What the arguments of `codex update` from position `i` on add to `options`.
pub open spec fn update_arguments(args: Seq<Seq<char>>, i: int, options: UpdateOptions) -> Result<
    WrappedUpdate,
    Seq<char>,
>
    decreases args.len() - i,
{
    if i >= args.len() {
        Ok(WrappedUpdate::Run(options))
    } else if args[i] == "-h"@ || args[i] == "--help"@ {
        Ok(WrappedUpdate::Help)
    } else if args[i] == "--retry"@ {
        update_arguments(args, i + 1, UpdateOptions { retry: true, ..options })
    } else if args[i] == "--accept-retag"@ {
        update_arguments(args, i + 1, UpdateOptions { accept_retag: true, ..options })
    } else if args[i] == "--accept-force-push"@ {
        update_arguments(args, i + 1, UpdateOptions { accept_force_push: true, ..options })
    } else {
        Err("unsupported `codex update` argument "@ + quoted(args[i]))
    }
}

/// The update that a wrapped launch asks for, if its first positional is `update`.
pub open spec fn wrapped(args: Seq<Seq<char>>) -> Result<Option<WrappedUpdate>, Seq<char>> {
    match first_positional(args, 0) {
        None => Ok(None),
        Some(i) => if args[i] != "update"@ || information_before(args, i) {
            Ok(None)
        } else {
            match update_arguments(args, i + 1, default_update_options()) {
                Ok(update) => Ok(Some(update)),
                Err(message) => Err(message),
            }
        },
    }
}

pub open spec fn wrapped_result(r: Result<Option<WrappedUpdate>, String>) -> Result<
    Option<WrappedUpdate>,
    Seq<char>,
> {
    match r {
        Ok(update) => Ok(update),
        Err(message) => Err(message@),
    }
}

pub fn wrapped_update(arguments: &Vec<String>) -> (r: Result<Option<WrappedUpdate>, String>)
    ensures
        wrapped_result(r) == wrapped(texts(arguments@)),
{
    let ghost all = texts(arguments@);
    let position = match first_positional_index(arguments) {
        Some(position) => position,
        None => return Ok(None),
    };
    proof {
        assert(all[position as int] == arguments@[position as int]@);
        assert(all.len() == arguments@.len());
    }
    if !same(arguments[position].as_str(), "update") {
        return Ok(None);
    }
    if any_information_flag(arguments, position) {
        return Ok(None);
    }
    let mut options = UpdateOptions::default();
    let mut i: usize = position + 1;
    while i < arguments.len()
        invariant
            position < i <= arguments@.len(),
            all == texts(arguments@),
            all.len() == arguments@.len(),
            wrapped(all) == (match update_arguments(all, i as int, options) {
                Ok(update) => Ok(Some(update)),
                Err(message) => Err(message),
            }),
        decreases arguments@.len() - i,
    {
        let argument = arguments[i].as_str();
        proof {
            assert(all[i as int] == argument@);
        }
        if same(argument, "-h") || same(argument, "--help") {
            return Ok(Some(WrappedUpdate::Help));
        } else if same(argument, "--retry") {
            options.retry = true;
        } else if same(argument, "--accept-retag") {
            options.accept_retag = true;
        } else if same(argument, "--accept-force-push") {
            options.accept_force_push = true;
        } else {
            let mut message = "unsupported `codex update` argument ".to_owned();
            message.append(quoted_text(argument).as_str());
            return Err(message);
        }
        i = i + 1;
    }
    Ok(Some(WrappedUpdate::Run(options)))
}

/// A launch that updates never opens the terminal interface.
pub proof fn updates_are_not_interactive(args: Seq<Seq<char>>)
    requires
        wrapped(args) != Ok::<Option<WrappedUpdate>, Seq<char>>(None),
    ensures
        !opens_tui(args, Seq::empty()),
{
    let list = noninteractive_commands();
    assert(list[12] == "update"@);
    assert(list.contains("update"@));
    reveal_strlit("update");
    reveal_strlit("resume");
    reveal_strlit("fork");
    assert("update"@[0] == 'u' && "resume"@[0] == 'r' && "fork"@[0] == 'f');
}

pub open spec fn backslash() -> u16 {
    0x5c
}

pub open spec fn quote_mark() -> u16 {
    0x22
}

/// An argument that Windows would not read back as it stands.
pub open spec fn needs_quotes(a: Seq<u16>) -> bool {
    a.len() == 0 || exists|i: int|
        0 <= i < a.len() && (#[trigger] a[i] == 0x20 || a[i] == 0x09 || a[i] == quote_mark())
}

pub open spec fn repeated(unit: u16, n: nat) -> Seq<u16> {
    Seq::new(n, |i: int| unit)
}

/// `a` behind `run` pending backslashes, as it is written between quotes: backslashes are
/// doubled before a quote mark and at the end, and a quote mark is escaped.
pub open spec fn escaped(a: Seq<u16>, run: nat) -> Seq<u16>
    decreases a.len(),
{
    if a.len() == 0 {
        repeated(backslash(), 2 * run)
    } else if a[0] == backslash() {
        escaped(a.drop_first(), run + 1)
    } else if a[0] == quote_mark() {
        repeated(backslash(), 2 * run + 1).push(a[0]) + escaped(a.drop_first(), 0)
    } else {
        repeated(backslash(), run).push(a[0]) + escaped(a.drop_first(), 0)
    }
}

pub open spec fn windows_argument(a: Seq<u16>) -> Seq<u16> {
    if needs_quotes(a) {
        seq![quote_mark()] + escaped(a, 0) + seq![quote_mark()]
    } else {
        a
    }
}

fn push_repeated(output: &mut Vec<u16>, unit: u16, n: usize)
    ensures
        final(output)@ == old(output)@ + repeated(unit, n as nat),
{
    let mut i: usize = 0;
    let ghost start = output@;
    proof {
        assert(start + repeated(unit, 0) =~= start);
    }
    while i < n
        invariant
            i <= n,
            output@ == start + repeated(unit, i as nat),
        decreases n - i,
    {
        output.push(unit);
        proof {
            assert(start + repeated(unit, i as nat + 1) =~= (start + repeated(
                unit,
                i as nat,
            )).push(unit));
        }
        i = i + 1;
    }
}

/// Appends an argument to a Windows command line.
pub fn append_windows_argument(output: &mut Vec<u16>, argument: &Vec<u16>)
    ensures
        final(output)@ == old(output)@ + windows_argument(argument@),
{
    let mut quote = argument.len() == 0;
    let mut k: usize = 0;
    while k < argument.len()
        invariant
            k <= argument@.len(),
            quote == (argument@.len() == 0 || exists|i: int|
                0 <= i < k && (#[trigger] argument@[i] == 0x20 || argument@[i] == 0x09
                    || argument@[i] == quote_mark())),
        decreases argument@.len() - k,
    {
        if argument[k] == 0x20 || argument[k] == 0x09 || argument[k] == 0x22 {
            quote = true;
        }
        k = k + 1;
    }
    let ghost start = output@;
    let mut i: usize = 0;
    if !quote {
        while i < argument.len()
            invariant
                i <= argument@.len(),
                output@ == start + argument@.take(i as int),
            decreases argument@.len() - i,
        {
            output.push(argument[i]);
            proof {
                assert(argument@.take(i as int + 1) =~= argument@.take(i as int).push(
                    argument@[i as int],
                ));
            }
            i = i + 1;
        }
        proof {
            assert(argument@.take(argument@.len() as int) =~= argument@);
        }
        return;
    }
    output.push(0x22);
    let mut run: usize = 0;
    proof {
        assert(argument@.skip(0) =~= argument@);
        assert(output@ + escaped(argument@.skip(0), 0) =~= start + seq![quote_mark()] + escaped(
            argument@,
            0,
        ));
    }
    while i < argument.len()
        invariant
            i <= argument@.len(),
            run <= i,
            output@ + escaped(argument@.skip(i as int), run as nat) == start + seq![quote_mark()]
                + escaped(argument@, 0),
        decreases argument@.len() - i,
    {
        let unit: u16 = argument[i];
        let ghost before = output@;
        let ghost rest = argument@.skip(i as int);
        proof {
            assert(rest[0] == unit);
            assert(rest.drop_first() =~= argument@.skip(i as int + 1));
        }
        if unit == 0x5c {
            run = run + 1;
        } else if unit == 0x22 {
            push_repeated(output, 0x5c, run);
            push_repeated(output, 0x5c, run);
            output.push(0x5c);
            output.push(unit);
            proof {
                assert(output@ =~= before + repeated(backslash(), 2 * run as nat + 1).push(unit));
                assert(output@ + escaped(argument@.skip(i as int + 1), 0) =~= before + escaped(
                    rest,
                    run as nat,
                ));
            }
            run = 0;
        } else {
            push_repeated(output, 0x5c, run);
            output.push(unit);
            proof {
                assert(output@ + escaped(argument@.skip(i as int + 1), 0) =~= before + escaped(
                    rest,
                    run as nat,
                ));
            }
            run = 0;
        }
        i = i + 1;
    }
    proof {
        assert(argument@.skip(argument@.len() as int) =~= Seq::empty());
    }
    let ghost before = output@;
    push_repeated(output, 0x5c, run);
    push_repeated(output, 0x5c, run);
    proof {
        assert(output@ =~= before + repeated(backslash(), 2 * run as nat));
        assert(output@ == start + seq![quote_mark()] + escaped(argument@, 0));
    }
    output.push(0x22);
    proof {
        assert(output@ =~= start + windows_argument(argument@));
    }
}

/// The arguments behind the program, each after a space.
pub open spec fn windows_arguments(list: Seq<Seq<u16>>) -> Seq<u16>
    decreases list.len(),
{
    if list.len() == 0 {
        Seq::empty()
    } else {
        windows_arguments(list.drop_last()).push(0x20) + windows_argument(list.last())
    }
}

pub open spec fn wide_args(v: Seq<Vec<u16>>) -> Seq<Seq<u16>> {
    v.map_values(|a: Vec<u16>| a@)
}

/// The command line that Windows starts a program with, ended by a zero.
pub fn windows_command_line(program: &Vec<u16>, arguments: &Vec<Vec<u16>>) -> (r: Vec<u16>)
    ensures
        r@ == (windows_argument(program@) + windows_arguments(wide_args(arguments@))).push(0),
{
    let mut line: Vec<u16> = Vec::new();
    append_windows_argument(&mut line, program);
    let ghost all = wide_args(arguments@);
    let ghost head = windows_argument(program@);
    proof {
        assert(line@ =~= head);
        assert(all.take(0) =~= Seq::empty());
        assert(line@ =~= head + windows_arguments(all.take(0)));
    }
    let mut i: usize = 0;
    while i < arguments.len()
        invariant
            i <= arguments@.len(),
            all == wide_args(arguments@),
            head == windows_argument(program@),
            line@ == head + windows_arguments(all.take(i as int)),
        decreases arguments@.len() - i,
    {
        line.push(0x20);
        append_windows_argument(&mut line, &arguments[i]);
        proof {
            let next = all.take(i as int + 1);
            assert(next.drop_last() =~= all.take(i as int));
            assert(next.last() == arguments@[i as int]@);
            assert(line@ =~= head + windows_arguments(next));
        }
        i = i + 1;
    }
    proof {
        assert(all.take(arguments@.len() as int) =~= all);
    }
    line.push(0);
    line
}

/// How Windows reads the part of a command line that follows an opening quote mark: a run
/// of backslashes before a quote mark stands for half as many, and an odd one escapes the
/// mark. Nothing but the closing mark may be left.
pub open spec fn read_quoted(line: Seq<u16>, run: nat) -> Option<Seq<u16>>
    decreases line.len(),
{
    if line.len() == 0 {
        None
    } else if line[0] == backslash() {
        read_quoted(line.drop_first(), run + 1)
    } else if line[0] == quote_mark() {
        if run % 2 == 0 {
            if line.len() == 1 {
                Some(repeated(backslash(), run / 2))
            } else {
                None
            }
        } else {
            match read_quoted(line.drop_first(), 0) {
                Some(rest) => Some(repeated(backslash(), run / 2).push(quote_mark()) + rest),
                None => None,
            }
        }
    } else {
        match read_quoted(line.drop_first(), 0) {
            Some(rest) => Some(repeated(backslash(), run).push(line[0]) + rest),
            None => None,
        }
    }
}

proof fn lemma_read_run(line: Seq<u16>, n: nat, run: nat)
    ensures
        read_quoted(repeated(backslash(), n) + line, run) == read_quoted(line, run + n),
    decreases n,
{
    let whole = repeated(backslash(), n) + line;
    if n == 0 {
        assert(whole =~= line);
    } else {
        assert(whole[0] == backslash());
        assert(whole.drop_first() =~= repeated(backslash(), (n - 1) as nat) + line);
        lemma_read_run(line, (n - 1) as nat, run + 1);
    }
}

proof fn lemma_quoting_reads_back(a: Seq<u16>, run: nat)
    ensures
        read_quoted(escaped(a, run) + seq![quote_mark()], 0) == Some(
            repeated(backslash(), run) + a,
        ),
    decreases a.len(),
{
    let end = seq![quote_mark()];
    if a.len() == 0 {
        lemma_read_run(end, 2 * run, 0);
        assert(read_quoted(end, 2 * run) == Some(repeated(backslash(), run)));
        assert(repeated(backslash(), run) + a =~= repeated(backslash(), run));
    } else {
        let rest = a.drop_first();
        if a[0] == backslash() {
            lemma_quoting_reads_back(rest, run + 1);
            assert(repeated(backslash(), run + 1) + rest =~= repeated(backslash(), run) + a);
        } else if a[0] == quote_mark() {
            lemma_quoting_reads_back(rest, 0);
            let tail = escaped(rest, 0) + end;
            let line = seq![quote_mark()] + tail;
            assert(escaped(a, run) + end =~= repeated(backslash(), 2 * run + 1) + line);
            lemma_read_run(line, 2 * run + 1, 0);
            assert(line.drop_first() =~= tail);
            assert((2 * run + 1) / 2 == run);
            assert(repeated(backslash(), 0) + rest =~= rest);
            assert(repeated(backslash(), run).push(quote_mark()) + rest =~= repeated(
                backslash(),
                run,
            ) + a);
        } else {
            lemma_quoting_reads_back(rest, 0);
            let tail = escaped(rest, 0) + end;
            let line = seq![a[0]] + tail;
            assert(escaped(a, run) + end =~= repeated(backslash(), run) + line);
            lemma_read_run(line, run, 0);
            assert(line.drop_first() =~= tail);
            assert(repeated(backslash(), 0) + rest =~= rest);
            assert(repeated(backslash(), run).push(a[0]) + rest =~= repeated(backslash(), run)
                + a);
        }
    }
}

/// A quoted argument is read back by Windows as it was.
pub proof fn quoted_arguments_read_back(a: Seq<u16>)
    requires
        needs_quotes(a),
    ensures
        windows_argument(a)[0] == quote_mark(),
        read_quoted(windows_argument(a).drop_first(), 0) == Some(a),
{
    lemma_quoting_reads_back(a, 0);
    assert(windows_argument(a).drop_first() =~= escaped(a, 0) + seq![quote_mark()]);
    assert(repeated(backslash(), 0) + a =~= a);
}

} // verus!

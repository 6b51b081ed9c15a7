//! What a launch does, in terms of the recorded state and the arguments.

use vstd::prelude::*;

use crate::arguments::{
    first_positional, global_value_options, noninteractive_commands, opens_tui, update_arguments,
    uses_yolo, UpdateOptions, WrappedUpdate,
};
use crate::config::{Config, FailureMode, NoninteractivePending};
use crate::dispatch::{launch_kind, planned, policy, Launch, LaunchPlanView, PolicyView};
use crate::state::StateView;
use crate::tui::UpdateScreenView;
use crate::types::ProbeKind;

verus! {

/// The subcommands that the running binary is known to have.
pub open spec fn subcommands_of(s: StateView) -> Seq<Seq<char>> {
    match s.active {
        Some(active) => active.subcommands,
        None => Seq::empty(),
    }
}

/// An update is due that changes nothing but the patches of what runs.
pub open spec fn changes_patches_only(s: StateView) -> bool {
    s.probe.kind == ProbeKind::Pending && (s.active matches Some(active) && (
    s.probe.desired matches Some(desired) && active.source == desired.source && active.target
        == desired.target && active.patch_fingerprint != desired.patch_fingerprint))
}

/// The plan of a launch follows what the freshness check found. A generation is started only
/// where nothing is due and nothing has failed, and it is the active one. A failed or blocked
/// update stops a launch: with a screen where the launch can show one, by the policy otherwise.
pub proof fn launches_follow_the_check(
    s: StateView,
    args: Seq<Seq<char>>,
    terminal: bool,
    auto_rebuild: Result<bool, Seq<char>>,
)
    ensures
        ({
            let plan = planned(s, args, terminal, auto_rebuild);
            let tui = terminal && opens_tui(args, subcommands_of(s));
            let failed = s.probe.kind == ProbeKind::Failed || s.probe.kind == ProbeKind::Blocked;
            let fine = s.probe.kind == ProbeKind::Unknown || s.probe.kind == ProbeKind::Current
                || s.probe.kind == ProbeKind::Degraded;
            let due = s.probe.kind == ProbeKind::Pending && (changes_patches_only(s)
                ==> auto_rebuild == Ok::<bool, Seq<char>>(false));
            &&& plan is Run <==> fine && s.active is Some
            &&& plan matches LaunchPlanView::Run { generation } ==> s.active == Some(generation)
            &&& plan is PromptFailure <==> failed && tui
            &&& plan is Policy <==> (failed || due) && !tui
            &&& plan is PromptUpdate <==> due && tui && s.probe.desired is Some && s.active is Some
            &&& plan is Rebuild <==> changes_patches_only(s) && auto_rebuild == Ok::<
                bool,
                Seq<char>,
            >(true)
            &&& plan matches LaunchPlanView::Rebuild { desired, interactive } ==> s.probe.desired
                == Some(desired) && interactive == tui
            &&& plan is Fail <==> (fine && s.active is None) || (due && tui && (s.probe.desired
                is None || s.active is None)) || (changes_patches_only(s) && auto_rebuild is Err)
        }),
{
}

/// The update prompt shows what runs, what is wanted, and where that is described.
pub proof fn prompts_show_the_change(
    s: StateView,
    args: Seq<Seq<char>>,
    terminal: bool,
    auto_rebuild: Result<bool, Seq<char>>,
    screen: UpdateScreenView,
)
    requires
        planned(s, args, terminal, auto_rebuild) == (LaunchPlanView::PromptUpdate { screen }),
    ensures
        ({
            let active = s.active->0;
            let desired = s.probe.desired->0;
            &&& screen.current_version == active.source.version
            &&& screen.desired_version == desired.source.version
            &&& screen.current_patch_fingerprint == Some(active.patch_fingerprint)
            &&& screen.desired_patch_fingerprint == Some(desired.patch_fingerprint)
            &&& desired.source.release_url is Some ==> screen.release_url
                == desired.source.release_url
            &&& desired.source.release_url is None && desired.source.channel == "nightly"@
                ==> screen.release_url == Some(
                "https://github.com/openai/codex/commit/"@ + desired.source.commit_oid,
            )
            &&& desired.source.release_url is None && desired.source.channel != "nightly"@
                ==> screen.release_url is None
        }),
{
}

/// A launch that cannot ask runs the last-good generation where the configuration says so, and
/// otherwise says what is due, where the log is and how to go on.
pub proof fn policies_follow_the_configuration(s: StateView, config: Result<Config, String>)
    ensures
        ({
            let outcome = policy(s, config);
            let detail = "codex-patcher: "@ + (match s.probe.message {
                Some(message) => message,
                None => "a patched update is pending"@,
            });
            &&& config matches Ok(c) ==> {
                let runs = c.noninteractive_pending == NoninteractivePending::WarnRun || (
                c.noninteractive_pending == NoninteractivePending::Auto && c.failure_mode
                    == FailureMode::LastGood);
                &&& outcome is Run <==> runs && s.active is Some
                &&& outcome matches PolicyView::Run { generation, warning } ==> s.active == Some(
                    generation,
                ) && warning
                    == "codex-patcher: update pending or failed; running last-good patched Codex "@
                    + generation.source.version
                &&& outcome is Fail <==> runs && s.active is None
                &&& outcome is Exit <==> !runs
                &&& outcome matches PolicyView::Exit { lines } ==> {
                    &&& s.failure matches Some(failure) ==> lines == seq![
                        detail,
                        "log: "@ + failure.log_path,
                        "repair: codex-patcher repair "@ + failure.id,
                    ]
                    &&& s.failure is None ==> lines == seq![detail, "update: codex-patcher update"@]
                }
            }
            &&& config matches Err(error) ==> {
                let first = "codex-patcher: invalid live configuration after the freshness check: "@
                    + error@;
                outcome == (PolicyView::Exit {
                    lines: match s.probe.message {
                        Some(message) => seq![first, "detail: "@ + message],
                        None => seq![first],
                    },
                })
            }
        }),
{
}

/// A global option whose value is the argument after it.
pub open spec fn takes_the_next(a: Seq<char>) -> bool {
    a == "-c"@ || a == "--config"@ || a == "--enable"@ || a == "--disable"@ || a == "--remote"@
        || a == "--remote-auth-token-env"@ || a == "-m"@ || a == "--model"@ || a
        == "--local-provider"@ || a == "-C"@ || a == "--cd"@ || a == "--add-dir"@ || a == "-s"@ || a
        == "--sandbox"@ || a == "-a"@ || a == "--ask-for-approval"@ || a == "-p"@ || a
        == "--profile"@
}

/// A subcommand that never opens the terminal interface.
pub open spec fn runs_without_interface(a: Seq<char>) -> bool {
    a == "exec"@ || a == "e"@ || a == "review"@ || a == "login"@ || a == "logout"@ || a == "mcp"@
        || a == "plugin"@ || a == "mcp-server"@ || a == "app-server"@ || a == "remote-control"@ || a
        == "app"@ || a == "completion"@ || a == "update"@ || a == "doctor"@ || a == "sandbox"@ || a
        == "debug"@ || a == "execpolicy"@ || a == "apply"@ || a == "a"@ || a == "archive"@ || a
        == "delete"@ || a == "unarchive"@ || a == "cloud"@ || a == "cloud-tasks"@ || a
        == "responses-api-proxy"@ || a == "stdio-to-uds"@ || a == "exec-server"@ || a == "features"@
        || a == "help"@
}

proof fn lemma_value_options(a: Seq<char>)
    ensures
        global_value_options().contains(a) <==> takes_the_next(a),
{
    let list = global_value_options();
    assert(list[0] == "-c"@);
    assert(list[1] == "--config"@);
    assert(list[2] == "--enable"@);
    assert(list[3] == "--disable"@);
    assert(list[4] == "--remote"@);
    assert(list[5] == "--remote-auth-token-env"@);
    assert(list[6] == "-m"@);
    assert(list[7] == "--model"@);
    assert(list[8] == "--local-provider"@);
    assert(list[9] == "-C"@);
    assert(list[10] == "--cd"@);
    assert(list[11] == "--add-dir"@);
    assert(list[12] == "-s"@);
    assert(list[13] == "--sandbox"@);
    assert(list[14] == "-a"@);
    assert(list[15] == "--ask-for-approval"@);
    assert(list[16] == "-p"@);
    assert(list[17] == "--profile"@);
}

proof fn lemma_commands(a: Seq<char>)
    ensures
        noninteractive_commands().contains(a) <==> runs_without_interface(a),
{
    let list = noninteractive_commands();
    assert(list[0] == "exec"@);
    assert(list[1] == "e"@);
    assert(list[2] == "review"@);
    assert(list[3] == "login"@);
    assert(list[4] == "logout"@);
    assert(list[5] == "mcp"@);
    assert(list[6] == "plugin"@);
    assert(list[7] == "mcp-server"@);
    assert(list[8] == "app-server"@);
    assert(list[9] == "remote-control"@);
    assert(list[10] == "app"@);
    assert(list[11] == "completion"@);
    assert(list[12] == "update"@);
    assert(list[13] == "doctor"@);
    assert(list[14] == "sandbox"@);
    assert(list[15] == "debug"@);
    assert(list[16] == "execpolicy"@);
    assert(list[17] == "apply"@);
    assert(list[18] == "a"@);
    assert(list[19] == "archive"@);
    assert(list[20] == "delete"@);
    assert(list[21] == "unarchive"@);
    assert(list[22] == "cloud"@);
    assert(list[23] == "cloud-tasks"@);
    assert(list[24] == "responses-api-proxy"@);
    assert(list[25] == "stdio-to-uds"@);
    assert(list[26] == "exec-server"@);
    assert(list[27] == "features"@);
    assert(list[28] == "help"@);
}

/// An option that stands alone: neither `--`, nor an image option, nor one whose value is the
/// next argument.
pub open spec fn is_lone_option(a: Seq<char>) -> bool {
    a.len() > 0 && a[0] == '-' && a != "--"@ && a != "-i"@ && a != "--image"@
        && !takes_the_next(a)
}

/// An argument that asks for help or for the version.
pub open spec fn asks(a: Seq<char>) -> bool {
    a == "-h"@ || a == "--help"@ || a == "-V"@ || a == "--version"@
}

/// No argument asks for help or for the version.
pub open spec fn asks_nothing(args: Seq<Seq<char>>) -> bool {
    forall|i: int| 0 <= i < args.len() ==> !asks(#[trigger] args[i])
}

spec fn shift(o: Option<int>, by: int) -> Option<int> {
    match o {
        Some(i) => Some(i + by),
        None => None,
    }
}

proof fn lemma_positional_shift(head: Seq<Seq<char>>, args: Seq<Seq<char>>, i: int)
    requires
        i >= 0,
    ensures
        first_positional(head + args, i + head.len()) == shift(
            first_positional(args, i),
            head.len() as int,
        ),
    decreases args.len() + 2 - i,
{
    let all = head + args;
    if i < args.len() {
        assert(all[i + head.len()] == args[i]);
        lemma_positional_shift(head, args, i + 1);
        lemma_positional_shift(head, args, i + 2);
    }
}

/// How the first positional argument is found: options are skipped, with their values, `--` and
/// an image option end the search, and anything else is it.
pub proof fn options_are_skipped(first: Seq<char>, second: Seq<char>, args: Seq<Seq<char>>)
    ensures
        first_positional(Seq::empty(), 0) is None,
        is_lone_option(first) ==> first_positional(seq![first] + args, 0) == (
        match first_positional(args, 0) {
            Some(i) => Some(i + 1),
            None => None,
        }),
        takes_the_next(first) ==> first_positional(seq![first, second] + args, 0) == (
        match first_positional(args, 0) {
            Some(i) => Some(i + 2),
            None => None,
        }),
        first == "--"@ || first == "-i"@ || first == "--image"@ ==> first_positional(
            seq![first] + args,
            0,
        ) is None,
        first.len() == 0 || first[0] != '-' ==> first_positional(seq![first] + args, 0) == Some(
            0int,
        ),
{
    lemma_value_options(first);
    reveal_strlit("-c");
    reveal_strlit("--config");
    reveal_strlit("--enable");
    reveal_strlit("--disable");
    reveal_strlit("--remote");
    reveal_strlit("--remote-auth-token-env");
    reveal_strlit("-m");
    reveal_strlit("--model");
    reveal_strlit("--local-provider");
    reveal_strlit("-C");
    reveal_strlit("--cd");
    reveal_strlit("--add-dir");
    reveal_strlit("-s");
    reveal_strlit("--sandbox");
    reveal_strlit("-a");
    reveal_strlit("--ask-for-approval");
    reveal_strlit("-p");
    reveal_strlit("--profile");
    reveal_strlit("--");
    reveal_strlit("-i");
    reveal_strlit("--image");
    assert("-c"@[1] == 'c');
    assert("--config"@.len() == 8);
    assert("--enable"@.len() == 8);
    assert("--disable"@.len() == 9);
    assert("--remote"@.len() == 8);
    assert("--remote-auth-token-env"@.len() == 23);
    assert("-m"@[1] == 'm');
    assert("--model"@[2] == 'm' && "--model"@.len() == 7);
    assert("--local-provider"@.len() == 16);
    assert("-C"@[1] == 'C');
    assert("--cd"@.len() == 4);
    assert("--add-dir"@.len() == 9);
    assert("-s"@[1] == 's');
    assert("--sandbox"@.len() == 9);
    assert("-a"@[1] == 'a');
    assert("--ask-for-approval"@.len() == 18);
    assert("-p"@[1] == 'p');
    assert("--profile"@.len() == 9);
    assert("--"@[1] == '-' && "--"@.len() == 2 && "-i"@[1] == 'i' && "-i"@.len() == 2);
    assert("--image"@.len() == 7 && "--image"@[2] == 'i');
    let one = seq![first] + args;
    assert(one[0] == first);
    lemma_positional_shift(seq![first], args, 0);
    let two = seq![first, second] + args;
    assert(two[0] == first);
    lemma_positional_shift(seq![first, second], args, 0);
    if first.len() == 0 || first[0] != '-' {
        lemma_value_options_start_with_dash();
        reveal_strlit("--");
        reveal_strlit("-i");
        reveal_strlit("--image");
        reveal_strlit("-c");
        reveal_strlit("-m");
        reveal_strlit("-C");
        reveal_strlit("-s");
        reveal_strlit("-a");
        reveal_strlit("-p");
        lemma_attached_start_with_dash(first);
        if global_value_options().contains(first) {
            let k = choose|k: int|
                0 <= k < global_value_options().len() && global_value_options()[k] == first;
            assert(global_value_options()[k][0] == '-');
        }
        assert(first != "--"@ && first != "-i"@ && first != "--image"@);
    }
}

proof fn lemma_value_options_start_with_dash()
    ensures
        forall|k: int|
            0 <= k < global_value_options().len() ==> (#[trigger] global_value_options()[k]).len()
                > 0 && global_value_options()[k][0] == '-',
{
    reveal_strlit("-c");
    reveal_strlit("--config");
    reveal_strlit("--enable");
    reveal_strlit("--disable");
    reveal_strlit("--remote");
    reveal_strlit("--remote-auth-token-env");
    reveal_strlit("-m");
    reveal_strlit("--model");
    reveal_strlit("--local-provider");
    reveal_strlit("-C");
    reveal_strlit("--cd");
    reveal_strlit("--add-dir");
    reveal_strlit("-s");
    reveal_strlit("--sandbox");
    reveal_strlit("-a");
    reveal_strlit("--ask-for-approval");
    reveal_strlit("-p");
    reveal_strlit("--profile");
}

proof fn lemma_attached_start_with_dash(a: Seq<char>)
    requires
        a.len() == 0 || a[0] != '-',
    ensures
        !crate::arguments::has_attached_value(a),
{
    reveal_strlit("-c");
    reveal_strlit("-m");
    reveal_strlit("-C");
    reveal_strlit("-s");
    reveal_strlit("-a");
    reveal_strlit("-p");
    reveal_strlit("-i");
    reveal_strlit("--image");
    lemma_value_options_start_with_dash();
    let n = crate::text::first_index(a, '=');
    crate::text::lemma_first_index(a, '=');
    let name = a.take(n);
    if n < a.len() && crate::arguments::has_attached_value(a) {
        if global_value_options().contains(name) {
            let k = choose|k: int|
                0 <= k < global_value_options().len() && global_value_options()[k] == name;
            assert(global_value_options()[k][0] == '-');
            assert(global_value_options()[k].len() > 0);
            assert(name.len() > 0);
            assert(name[0] == a[0]);
        } else {
            assert(name == "-i"@ || name == "--image"@);
            assert(name.len() > 0);
            assert(name[0] == '-');
            assert(name[0] == a[0]);
        }
    } else if crate::arguments::has_attached_value(a) {
        assert(a.take("-c"@.len() as int)[0] == a[0]);
        assert(a.take(2)[0] == a[0]);
    }
}

/// A launch opens the terminal interface unless it asks for information or its first positional
/// argument is a command; `resume` and `fork` are interactive ones.
pub proof fn interactive_launches(args: Seq<Seq<char>>, validated: Seq<Seq<char>>)
    ensures
        opens_tui(Seq::empty(), validated),
        opens_tui(args, validated) ==> asks_nothing(args),
        first_positional(args, 0) is None ==> (opens_tui(args, validated) <==> asks_nothing(args)),
        first_positional(args, 0) matches Some(i) ==> {
            &&& args[i] == "resume"@ || args[i] == "fork"@ ==> (opens_tui(args, validated)
                <==> asks_nothing(args))
            &&& args[i] != "resume"@ && args[i] != "fork"@ && validated.contains(args[i])
                ==> !opens_tui(args, validated)
            &&& runs_without_interface(args[i]) ==> !opens_tui(args, validated)
            &&& !validated.contains(args[i]) && !runs_without_interface(args[i]) ==> (
            opens_tui(args, validated) <==> asks_nothing(args))
        },
{
    let n = args.len() as int;
    assert(asks_nothing(args) <==> !crate::arguments::information_before(args, n)) by {
        if asks_nothing(args) {
            assert forall|i: int| 0 <= i < n implies !crate::arguments::asks_for_information(
                #[trigger] args[i],
            ) by {
                assert(!asks(args[i]));
            }
        }
        if !crate::arguments::information_before(args, n) {
            assert forall|i: int| 0 <= i < args.len() implies !asks(#[trigger] args[i]) by {
                assert(!crate::arguments::asks_for_information(args[i]));
            }
        }
    }
    if let Some(i) = first_positional(args, 0) {
        lemma_commands(args[i]);
        reveal_strlit("resume");
        reveal_strlit("fork");
        reveal_strlit("exec");
        reveal_strlit("e");
        reveal_strlit("review");
        reveal_strlit("login");
        reveal_strlit("logout");
        reveal_strlit("mcp");
        reveal_strlit("plugin");
        reveal_strlit("mcp-server");
        reveal_strlit("app-server");
        reveal_strlit("remote-control");
        reveal_strlit("app");
        reveal_strlit("completion");
        reveal_strlit("update");
        reveal_strlit("doctor");
        reveal_strlit("sandbox");
        reveal_strlit("debug");
        reveal_strlit("execpolicy");
        reveal_strlit("apply");
        reveal_strlit("a");
        reveal_strlit("archive");
        reveal_strlit("delete");
        reveal_strlit("unarchive");
        reveal_strlit("cloud");
        reveal_strlit("cloud-tasks");
        reveal_strlit("responses-api-proxy");
        reveal_strlit("stdio-to-uds");
        reveal_strlit("exec-server");
        reveal_strlit("features");
        reveal_strlit("help");
        assert("resume"@.len() == 6 && "fork"@.len() == 4);
        assert("resume"@[0] == 'r' && "resume"@[2] == 's' && "fork"@[0] == 'f');
    }
}

/// What `codex update` is asked for is exactly what its arguments say: each flag where it is
/// given, and nothing that is not. Help goes before what follows it.
pub proof fn updates_do_what_they_are_told(
    args: Seq<Seq<char>>,
    i: int,
    options: UpdateOptions,
    o: UpdateOptions,
)
    requires
        0 <= i <= args.len(),
        update_arguments(args, i, options) == Ok::<WrappedUpdate, Seq<char>>(WrappedUpdate::Run(o)),
    ensures
        o.retry <==> options.retry || args.skip(i).contains("--retry"@),
        o.accept_retag <==> options.accept_retag || args.skip(i).contains("--accept-retag"@),
        o.accept_force_push <==> options.accept_force_push || args.skip(i).contains(
            "--accept-force-push"@,
        ),
        o.force_rebuild == options.force_rebuild,
        o.interactive == options.interactive,
        forall|k: int|
            i <= k < args.len() ==> #[trigger] args[k] == "--retry"@ || args[k]
                == "--accept-retag"@ || args[k] == "--accept-force-push"@,
    decreases args.len() - i,
{
    let here = args.skip(i);
    if i < args.len() {
        let rest = args.skip(i + 1);
        let next = if args[i] == "--retry"@ {
            UpdateOptions { retry: true, ..options }
        } else if args[i] == "--accept-retag"@ {
            UpdateOptions { accept_retag: true, ..options }
        } else {
            UpdateOptions { accept_force_push: true, ..options }
        };
        updates_do_what_they_are_told(args, i + 1, next, o);
        assert(here[0] == args[i]);
        assert(here.drop_first() =~= rest);
        lemma_contains_first(here, "--retry"@);
        lemma_contains_first(here, "--accept-retag"@);
        lemma_contains_first(here, "--accept-force-push"@);
        reveal_strlit("--retry");
        reveal_strlit("--accept-retag");
        reveal_strlit("--accept-force-push");
        assert("--retry"@.len() == 7 && "--accept-retag"@.len() == 14);
        assert("--accept-force-push"@.len() == 19);
        assert forall|k: int| i <= k < args.len() implies #[trigger] args[k] == "--retry"@
            || args[k] == "--accept-retag"@ || args[k] == "--accept-force-push"@ by {
            if k > i {
                assert(i + 1 <= k);
            }
        }
    }
}

proof fn lemma_contains_first(s: Seq<Seq<char>>, x: Seq<char>)
    requires
        s.len() > 0,
    ensures
        s.contains(x) <==> s[0] == x || s.drop_first().contains(x),
{
    let rest = s.drop_first();
    if s.contains(x) && s[0] != x {
        let i = choose|i: int| 0 <= i < s.len() && s[i] == x;
        assert(rest[i - 1] == x);
    }
    if rest.contains(x) {
        let i = choose|i: int| 0 <= i < rest.len() && rest[i] == x;
        assert(s[i + 1] == x);
    }
}

/// One of the three flags that `codex update` takes.
pub open spec fn is_update_flag(a: Seq<char>) -> bool {
    a == "--retry"@ || a == "--accept-retag"@ || a == "--accept-force-push"@
}

/// That argument is the first from there on that is no flag of `codex update`.
pub open spec fn is_first_other(args: Seq<Seq<char>>, i: int, k: int) -> bool {
    i <= k < args.len() && !is_update_flag(args[k]) && forall|j: int|
        i <= j < k ==> is_update_flag(#[trigger] args[j])
}

/// An update runs exactly where all its arguments are its flags. Otherwise the first other
/// argument decides: help is shown where it asks for help, and it is an error where not.
pub proof fn the_first_other_argument_decides(args: Seq<Seq<char>>, i: int, options: UpdateOptions)
    requires
        0 <= i <= args.len(),
    ensures
        ({
            let r = update_arguments(args, i, options);
            &&& (r matches Ok(WrappedUpdate::Run(_))) <==> forall|k: int|
                i <= k < args.len() ==> is_update_flag(#[trigger] args[k])
            &&& (r matches Ok(WrappedUpdate::Help)) <==> exists|k: int| #[trigger]
                is_first_other(args, i, k) && (args[k] == "-h"@ || args[k] == "--help"@)
        }),
    decreases args.len() - i,
{
    if i < args.len() {
        reveal_strlit("-h");
        reveal_strlit("--help");
        reveal_strlit("--retry");
        reveal_strlit("--accept-retag");
        reveal_strlit("--accept-force-push");
        assert("-h"@.len() == 2 && "--help"@.len() == 6 && "--retry"@.len() == 7);
        assert("--accept-retag"@.len() == 14 && "--accept-force-push"@.len() == 19);
        if is_update_flag(args[i]) {
            let next = if args[i] == "--retry"@ {
                UpdateOptions { retry: true, ..options }
            } else if args[i] == "--accept-retag"@ {
                UpdateOptions { accept_retag: true, ..options }
            } else {
                UpdateOptions { accept_force_push: true, ..options }
            };
            the_first_other_argument_decides(args, i + 1, next);
            let r = update_arguments(args, i, options);
            assert(r == update_arguments(args, i + 1, next));
            if r matches Ok(WrappedUpdate::Run(_)) {
                assert forall|k: int| i <= k < args.len() implies is_update_flag(
                    #[trigger] args[k],
                ) by {
                    if k > i {
                        assert(i + 1 <= k);
                    }
                }
            }
            if r matches Ok(WrappedUpdate::Help) {
                let k = choose|k: int| #[trigger]
                    is_first_other(args, i + 1, k) && (args[k] == "-h"@ || args[k] == "--help"@);
                assert forall|j: int| i <= j < k implies is_update_flag(#[trigger] args[j]) by {
                    if j > i {
                        assert(i + 1 <= j);
                    }
                }
                assert(is_first_other(args, i, k));
            }
            if exists|k: int| #[trigger]
                is_first_other(args, i, k) && (args[k] == "-h"@ || args[k] == "--help"@) {
                let k = choose|k: int| #[trigger]
                    is_first_other(args, i, k) && (args[k] == "-h"@ || args[k] == "--help"@);
                assert(is_first_other(args, i + 1, k));
            }
        } else {
            assert(is_first_other(args, i, i));
            assert forall|k: int| #[trigger] is_first_other(args, i, k) implies k == i by {
                if k > i {
                    assert(is_update_flag(args[i]));
                }
            }
        }
    }
}

/// The launch is `codex update`: that is its first positional argument, and no information is
/// asked for before it.
pub open spec fn is_update(args: Seq<Seq<char>>) -> bool {
    first_positional(args, 0) matches Some(i) && args[i] == "update"@ && forall|k: int|
        0 <= k < i ==> !asks(#[trigger] args[k])
}

/// Inside a maintenance session nothing is launched. Otherwise `codex update` runs the update
/// that its own arguments ask for, shows its help, or is an error; and every other launch is
/// checked.
pub proof fn wrapped_updates_are_recognized(
    maintenance: bool,
    args: Seq<Seq<char>>,
    terminal: bool,
)
    ensures
        maintenance ==> launch_kind(maintenance, args, terminal) is Err,
        !maintenance ==> {
            let kind = launch_kind(maintenance, args, terminal);
            let i = first_positional(args, 0)->0 + 1;
            let rest = args.skip(i);
            &&& !is_update(args) <==> kind == Ok::<Launch, Seq<char>>(Launch::Check)
            &&& kind == Ok::<Launch, Seq<char>>(Launch::UpdateHelp) <==> is_update(args)
                && exists|k: int| #[trigger]
                is_first_other(args, i, k) && (args[k] == "-h"@ || args[k] == "--help"@)
            &&& (kind matches Ok(Launch::Update(_))) <==> is_update(args) && forall|k: int|
                i <= k < args.len() ==> is_update_flag(#[trigger] args[k])
            &&& kind matches Ok(Launch::Update(o)) ==> {
                &&& o.interactive == terminal
                &&& !o.force_rebuild
                &&& o.retry <==> rest.contains("--retry"@)
                &&& o.accept_retag <==> rest.contains("--accept-retag"@)
                &&& o.accept_force_push <==> rest.contains("--accept-force-push"@)
            }
        },
{
    if let Some(i) = first_positional(args, 0) {
        lemma_positional_range(args, 0);
        assert((forall|k: int| 0 <= k < i ==> !asks(#[trigger] args[k]))
            <==> !crate::arguments::information_before(args, i)) by {
            if forall|k: int| 0 <= k < i ==> !asks(#[trigger] args[k]) {
                assert forall|k: int| 0 <= k < i implies !crate::arguments::asks_for_information(
                    #[trigger] args[k],
                ) by {
                    assert(!asks(args[k]));
                }
            }
            if !crate::arguments::information_before(args, i) {
                assert forall|k: int| 0 <= k < i implies !asks(#[trigger] args[k]) by {
                    assert(!crate::arguments::asks_for_information(args[k]));
                }
            }
        }
        let first = crate::arguments::default_update_options();
        the_first_other_argument_decides(args, i + 1, first);
        if let Ok(WrappedUpdate::Run(o)) = update_arguments(args, i + 1, first) {
            updates_do_what_they_are_told(args, i + 1, first, o);
        }
    }
}

proof fn lemma_positional_range(args: Seq<Seq<char>>, i: int)
    requires
        0 <= i,
    ensures
        first_positional(args, i) matches Some(k) ==> i <= k < args.len(),
    decreases args.len() + 2 - i,
{
    if i < args.len() {
        lemma_positional_range(args, i + 1);
        lemma_positional_range(args, i + 2);
    }
}

/// The dangerous mode is chosen exactly by one of its two options before the first `--`.
pub proof fn yolo_is_an_option_before_the_prompt(args: Seq<Seq<char>>)
    ensures
        uses_yolo(args) <==> exists|i: int|
            0 <= i < args.len() && (#[trigger] args[i] == "--yolo"@ || args[i]
                == "--dangerously-bypass-approvals-and-sandbox"@) && forall|k: int|
                0 <= k < i ==> #[trigger] args[k] != "--"@,
    decreases args.len(),
{
    reveal_strlit("--");
    reveal_strlit("--yolo");
    reveal_strlit("--dangerously-bypass-approvals-and-sandbox");
    assert("--yolo"@.len() == 6 && "--"@.len() == 2);
    assert("--dangerously-bypass-approvals-and-sandbox"@.len() > 2);
    if args.len() > 0 {
        let rest = args.drop_first();
        yolo_is_an_option_before_the_prompt(rest);
        if uses_yolo(args) {
            if args[0] == "--yolo"@ || args[0] == "--dangerously-bypass-approvals-and-sandbox"@ {
                assert(forall|k: int| 0 <= k < 0 ==> #[trigger] args[k] != "--"@);
            } else {
                let i = choose|i: int|
                    0 <= i < rest.len() && (#[trigger] rest[i] == "--yolo"@ || rest[i]
                        == "--dangerously-bypass-approvals-and-sandbox"@) && forall|k: int|
                        0 <= k < i ==> #[trigger] rest[k] != "--"@;
                assert(args[i + 1] == rest[i]);
                assert forall|k: int| 0 <= k < i + 1 implies #[trigger] args[k] != "--"@ by {
                    if k > 0 {
                        assert(args[k] == rest[k - 1]);
                    }
                }
            }
        }
        if exists|i: int|
            0 <= i < args.len() && (#[trigger] args[i] == "--yolo"@ || args[i]
                == "--dangerously-bypass-approvals-and-sandbox"@) && forall|k: int|
                0 <= k < i ==> #[trigger] args[k] != "--"@ {
            let i = choose|i: int|
                0 <= i < args.len() && (#[trigger] args[i] == "--yolo"@ || args[i]
                    == "--dangerously-bypass-approvals-and-sandbox"@) && forall|k: int|
                    0 <= k < i ==> #[trigger] args[k] != "--"@;
            if i > 0 {
                assert(args[0] != "--"@);
                assert(rest[i - 1] == args[i]);
                assert forall|k: int| 0 <= k < i - 1 implies #[trigger] rest[k] != "--"@ by {
                    assert(rest[k] == args[k + 1]);
                }
            }
        }
    }
}

} // verus!

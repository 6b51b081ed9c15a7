//! The user service that would update Codex behind the patcher's back.

use vstd::prelude::*;

use crate::shim::{UpdaterAdapterRecord, UpdaterView};
use crate::text::{
    chars_of, join, join_texts, lemma_texts_push, opt_text, result_unit, same, texts, trim, trimmed,
};

verus! {

pub const CODEX_UPDATE_MANAGER_UNIT: &'static str = "codex-update-manager.service";

pub open spec fn is_enabled(state: Seq<char>) -> bool {
    state == "enabled"@ || state == "enabled-runtime"@
}

pub open spec fn is_active(state: Seq<char>) -> bool {
    state == "active"@ || state == "activating"@
}

pub open spec fn linked_note() -> Seq<char> {
    "linked unit was not disabled because its external link target cannot be restored exactly"@
}

/// What the service manager says of the unit: its load state, its enablement and its
/// activity, each `None` when it could not be asked. Without a unit there is no record.
pub open spec fn inspected_unit(
    load: Option<Seq<char>>,
    enabled: Option<Seq<char>>,
    active: Option<Seq<char>>,
) -> Option<UpdaterView> {
    match load {
        None => None,
        Some(text) => {
            let load_state = trim(text);
            let enabled_state = match enabled {
                Some(t) => trim(t),
                None => "unknown"@,
            };
            let active_state = match active {
                Some(t) => trim(t),
                None => "unknown"@,
            };
            if load_state.len() == 0 || load_state == "not-found"@ {
                None
            } else {
                Some(
                    UpdaterView {
                        unit: CODEX_UPDATE_MANAGER_UNIT@,
                        load_state,
                        enabled_state,
                        active_state,
                        disable_intended: is_enabled(enabled_state),
                        stop_intended: is_active(active_state),
                        disabled_by_patcher: false,
                        stopped_by_patcher: false,
                        notes: if enabled_state == "linked"@ || enabled_state
                            == "linked-runtime"@ {
                            seq![linked_note()]
                        } else {
                            Seq::empty()
                        },
                    },
                )
            }
        },
    }
}

/// The returned intent is safe to display before confirmation and must be saved durably
/// before it is applied.
pub fn inspect_codex_update_manager(
    load: &Option<String>,
    enabled: &Option<String>,
    active: &Option<String>,
) -> (r: Option<UpdaterAdapterRecord>)
    ensures
        crate::shim::opt_updater(r) == inspected_unit(
            opt_text(*load),
            opt_text(*enabled),
            opt_text(*active),
        ),
{
    let load_state = match load {
        Some(text) => trimmed(text.as_str()),
        None => return None,
    };
    if chars_of(load_state.as_str()).len() == 0 || same(load_state.as_str(), "not-found") {
        return None;
    }
    let enabled_state = match enabled {
        Some(text) => trimmed(text.as_str()),
        None => "unknown".to_owned(),
    };
    let active_state = match active {
        Some(text) => trimmed(text.as_str()),
        None => "unknown".to_owned(),
    };
    let mut notes: Vec<String> = Vec::new();
    proof {
        assert(texts(notes@) =~= Seq::empty());
    }
    if same(enabled_state.as_str(), "linked") || same(enabled_state.as_str(), "linked-runtime") {
        notes.push(
            "linked unit was not disabled because its external link target cannot be restored exactly".to_owned(),
        );
        proof {
            assert(texts(notes@) =~= seq![linked_note()]);
        }
    }
    let disable_intended = same(enabled_state.as_str(), "enabled") || same(
        enabled_state.as_str(),
        "enabled-runtime",
    );
    let stop_intended = same(active_state.as_str(), "active") || same(
        active_state.as_str(),
        "activating",
    );
    Some(
        UpdaterAdapterRecord {
            unit: CODEX_UPDATE_MANAGER_UNIT.to_owned(),
            load_state,
            enabled_state,
            active_state,
            disable_intended,
            stop_intended,
            disabled_by_patcher: false,
            stopped_by_patcher: false,
            notes,
        },
    )
}

pub open spec fn unknown_unit_message(unit: Seq<char>) -> Seq<char> {
    "refusing to manage unknown updater unit "@ + unit
}

fn unknown_unit(unit: &str) -> (r: String)
    ensures
        r@ == unknown_unit_message(unit@),
{
    let mut message = "refusing to manage unknown updater unit ".to_owned();
    message.append(unit);
    message
}

pub open spec fn with_note(notes: Seq<Seq<char>>, note: Seq<char>) -> Seq<Seq<char>> {
    if notes.contains(note) {
        notes
    } else {
        notes.push(note)
    }
}

fn push_unique_note(notes: &mut Vec<String>, note: String)
    ensures
        texts(final(notes)@) == with_note(texts(old(notes)@), note@),
{
    if !crate::text::holds(notes, note.as_str()) {
        proof {
            lemma_texts_push(notes@, note);
        }
        notes.push(note);
    }
}

/// The unit is to be stopped.
pub open spec fn stops(u: UpdaterView) -> bool {
    u.stop_intended && !u.stopped_by_patcher
}

/// The unit is to be disabled.
pub open spec fn disables(u: UpdaterView) -> bool {
    u.disable_intended && !u.disabled_by_patcher
}

/// What is to be done about the unit, as recorded: whether to stop it, and whether to
/// disable it.
pub fn planned_disable(record: &UpdaterAdapterRecord) -> (r: Result<(bool, bool), String>)
    ensures
        if record.unit@ == CODEX_UPDATE_MANAGER_UNIT@ {
            r == Ok::<(bool, bool), String>((stops(record@), disables(record@)))
        } else {
            r matches Err(e) && e@ == unknown_unit_message(record.unit@)
        },
{
    if !same(record.unit.as_str(), CODEX_UPDATE_MANAGER_UNIT) {
        return Err(unknown_unit(record.unit.as_str()));
    }
    Ok(
        (
            record.stop_intended && !record.stopped_by_patcher,
            record.disable_intended && !record.disabled_by_patcher,
        ),
    )
}

pub open spec fn after_stop(u: UpdaterView, outcome: Result<(), Seq<char>>) -> UpdaterView {
    if !stops(u) {
        u
    } else {
        match outcome {
            Ok(_) => UpdaterView { stopped_by_patcher: true, ..u },
            Err(error) => UpdaterView {
                notes: with_note(u.notes, "could not stop updater: "@ + error),
                ..u
            },
        }
    }
}

pub open spec fn after_disable(u: UpdaterView, outcome: Result<(), Seq<char>>) -> UpdaterView {
    if !disables(u) {
        u
    } else {
        match outcome {
            Ok(_) => UpdaterView { disabled_by_patcher: true, ..u },
            Err(error) => UpdaterView {
                notes: with_note(u.notes, "could not disable updater: "@ + error),
                ..u
            },
        }
    }
}

/// Records how stopping and disabling the unit went. Individual action failures are
/// retained as warnings so takeover can proceed with manual shim repair.
pub fn apply_codex_update_manager_disable(
    record: &mut UpdaterAdapterRecord,
    stopped: &Result<(), String>,
    disabled: &Result<(), String>,
) -> (r: Result<(), String>)
    ensures
        if old(record).unit@ == CODEX_UPDATE_MANAGER_UNIT@ {
            r is Ok && final(record)@ == after_disable(
                after_stop(old(record)@, result_unit(*stopped)),
                result_unit(*disabled),
            )
        } else {
            (r matches Err(e) && e@ == unknown_unit_message(old(record).unit@)) && final(record)@
                == old(record)@
        },
{
    if !same(record.unit.as_str(), CODEX_UPDATE_MANAGER_UNIT) {
        return Err(unknown_unit(record.unit.as_str()));
    }
    if record.stop_intended && !record.stopped_by_patcher {
        match stopped {
            Ok(()) => {
                record.stopped_by_patcher = true;
            },
            Err(error) => {
                let mut note = "could not stop updater: ".to_owned();
                note.append(error.as_str());
                push_unique_note(&mut record.notes, note);
            },
        }
    }
    if record.disable_intended && !record.disabled_by_patcher {
        match disabled {
            Ok(()) => {
                record.disabled_by_patcher = true;
            },
            Err(error) => {
                let mut note = "could not disable updater: ".to_owned();
                note.append(error.as_str());
                push_unique_note(&mut record.notes, note);
            },
        }
    }
    Ok(())
}

/// Inspects the unit and records how stopping and disabling it went.
pub fn disable_codex_update_manager(
    load: &Option<String>,
    enabled: &Option<String>,
    active: &Option<String>,
    stopped: &Result<(), String>,
    disabled: &Result<(), String>,
) -> (r: Option<UpdaterAdapterRecord>)
    ensures
        crate::shim::opt_updater(r) == (match inspected_unit(
            opt_text(*load),
            opt_text(*enabled),
            opt_text(*active),
        ) {
            None => None,
            Some(u) => Some(
                after_disable(after_stop(u, result_unit(*stopped)), result_unit(*disabled)),
            ),
        }),
{
    match inspect_codex_update_manager(load, enabled, active) {
        None => None,
        Some(found) => {
            let mut record = found;
            let _ = apply_codex_update_manager_disable(&mut record, stopped, disabled);
            Some(record)
        },
    }
}

/// One command to the service manager.
#[derive(Debug, Clone, Copy, PartialEq, Eq, Structural)]
pub enum UnitCommand {
    Enable,
    EnableRuntime,
    Start,
}

/// What brings the unit back to the state in which it was found. Enabling an originally
/// enabled unit and starting an originally active unit are deliberately idempotent
/// recovery operations.
pub open spec fn restore_commands(u: UpdaterView, exists: bool) -> Result<
    Seq<UnitCommand>,
    Seq<char>,
> {
    if u.unit != CODEX_UPDATE_MANAGER_UNIT@ {
        Err(unknown_unit_message(u.unit))
    } else if !exists {
        Err("updater unit no longer exists: "@ + u.unit)
    } else {
        let start = if (u.stopped_by_patcher || u.stop_intended) && is_active(u.active_state) {
            seq![UnitCommand::Start]
        } else {
            Seq::empty()
        };
        if u.disabled_by_patcher || u.disable_intended {
            if u.enabled_state == "enabled"@ {
                Ok(seq![UnitCommand::Enable] + start)
            } else if u.enabled_state == "enabled-runtime"@ {
                Ok(seq![UnitCommand::EnableRuntime] + start)
            } else {
                Err(
                    "cannot exactly restore unsupported enablement state "@ + u.enabled_state,
                )
            }
        } else {
            Ok(start)
        }
    }
}

pub open spec fn commands_result(r: Result<Vec<UnitCommand>, String>) -> Result<
    Seq<UnitCommand>,
    Seq<char>,
> {
    match r {
        Ok(v) => Ok(v@),
        Err(message) => Err(message@),
    }
}

/// The commands that restore the unit; `load_state` is what the service manager says of it
/// now.
pub fn restore_codex_update_manager(
    record: &UpdaterAdapterRecord,
    load_state: &Option<String>,
) -> (r: Result<Vec<UnitCommand>, String>)
    ensures
        commands_result(r) == restore_commands(
            record@,
            load_state is Some && trim(load_state->0@) != "not-found"@,
        ),
{
    if !same(record.unit.as_str(), CODEX_UPDATE_MANAGER_UNIT) {
        return Err(unknown_unit(record.unit.as_str()));
    }
    let exists = match load_state {
        Some(text) => !same(trimmed(text.as_str()).as_str(), "not-found"),
        None => false,
    };
    if !exists {
        let mut message = "updater unit no longer exists: ".to_owned();
        message.append(record.unit.as_str());
        return Err(message);
    }
    let mut commands: Vec<UnitCommand> = Vec::new();
    if record.disabled_by_patcher || record.disable_intended {
        if same(record.enabled_state.as_str(), "enabled") {
            commands.push(UnitCommand::Enable);
        } else if same(record.enabled_state.as_str(), "enabled-runtime") {
            commands.push(UnitCommand::EnableRuntime);
        } else {
            let mut message =
                "cannot exactly restore unsupported enablement state ".to_owned();
            message.append(record.enabled_state.as_str());
            return Err(message);
        }
    }
    let ghost before = commands@;
    if (record.stopped_by_patcher || record.stop_intended) && (same(
        record.active_state.as_str(),
        "active",
    ) || same(record.active_state.as_str(), "activating")) {
        commands.push(UnitCommand::Start);
        proof {
            assert(commands@ =~= before + seq![UnitCommand::Start]);
        }
    } else {
        proof {
            assert(commands@ =~= before + Seq::<UnitCommand>::empty());
        }
    }
    proof {
        assert(Seq::<UnitCommand>::empty() + seq![UnitCommand::Start] =~= seq![
            UnitCommand::Start,
        ]);
        assert(Seq::<UnitCommand>::empty() + Seq::<UnitCommand>::empty() =~= Seq::<
            UnitCommand,
        >::empty());
    }
    Ok(commands)
}

/// Whatever became of stopping and disabling, a crash in between included, the unit is
/// brought back to the state in which it was inspected.
pub proof fn restoring_undoes_the_inspection(
    load: Option<Seq<char>>,
    enabled: Option<Seq<char>>,
    active: Option<Seq<char>>,
    stopped: Result<(), Seq<char>>,
    disabled: Result<(), Seq<char>>,
)
    requires
        inspected_unit(load, enabled, active) is Some,
    ensures
        ({
            let u = inspected_unit(load, enabled, active)->0;
            let done = after_disable(after_stop(u, stopped), disabled);
            &&& restore_commands(u, true) is Ok
            &&& restore_commands(done, true) == restore_commands(u, true)
            &&& restore_commands(u, true)->Ok_0.contains(UnitCommand::Start) == is_active(
                u.active_state,
            )
            &&& restore_commands(u, true)->Ok_0.contains(UnitCommand::Enable) == (u.enabled_state
                == "enabled"@)
            &&& restore_commands(u, true)->Ok_0.contains(UnitCommand::EnableRuntime) == (
            u.enabled_state == "enabled-runtime"@)
        }),
{
    reveal_strlit("enabled");
    reveal_strlit("enabled-runtime");
    assert("enabled"@.len() == 7 && "enabled-runtime"@.len() == 15);
    let u = inspected_unit(load, enabled, active)->0;
    let commands = restore_commands(u, true)->Ok_0;
    if commands.len() > 0 {
        assert(commands.contains(commands[0]));
    }
    if commands.len() > 1 {
        assert(commands.contains(commands[1]));
    }
}

/// How a `systemctl --user` command that changes something went. `None` when it could not be
/// run in time.
pub fn systemctl_action(arguments: &Vec<String>, outcome: &Option<(bool, String)>) -> (r: Result<
    (),
    String,
>)
    ensures
        result_unit(r) == ({
            let words = join(texts(arguments@), " "@);
            match outcome {
                None => Err("systemctl --user "@ + words + " timed out or could not start"@),
                Some((success, output)) => if *success {
                    Ok(())
                } else {
                    Err("systemctl --user "@ + words + " failed: "@ + output@)
                },
            }
        }),
{
    let mut message = "systemctl --user ".to_owned();
    message.append(join_texts(arguments, " ").as_str());
    match outcome {
        None => {
            message.append(" timed out or could not start");
            Err(message)
        },
        Some((success, output)) => {
            if *success {
                return Ok(());
            }
            message.append(" failed: ");
            message.append(output.as_str());
            Err(message)
        },
    }
}

} // verus!

//! The order in which a launcher is taken over, given back and repaired.
//!
//! Each operation is a function from what is known so far to the next step. The intent is
//! durable before the launcher is touched, so that an interrupted operation is always
//! found again and resumed.

use vstd::prelude::*;

use crate::journal::{
    outcome_result, repair_choice, repair_disposition, repair_result, repaired_record,
    repairs_never_overwrite_drift, restore_disposition, restore_result,
    restores_never_overwrite_drift, takeover_record, RepairDisposition, RepairJournal,
    RepairOutcome, RestoreDisposition, TakeoverJournal,
};
use crate::shim::{BaselineView, InstalledView, RecordView};
use crate::surface::{
    baseline_matches, captured_baseline, inspected, is_manager_shim, record_matches,
    restored_launchers_are_what_they_were, same_launcher, FactsView,
};
use crate::types::Timestamp;
use crate::paths::Platform;

verus! {

/// How a takeover went, as far as it has come.
#[derive(Debug)]
pub struct TakeoverFacts {
    /// Whether the paths of the launcher and the manager can be used.
    pub valid: Option<Result<(), String>>,
    /// The baseline was copied aside.
    pub captured: Option<Result<(), String>>,
    /// The journal of the intent was written.
    pub intended: Option<Result<(), String>>,
    pub swapped: Option<Result<(), String>>,
    /// The shim that was installed was looked at.
    pub inspected: Option<Result<(), String>>,
    /// The completed journal was written.
    pub completed: Option<Result<(), String>>,
}

impl TakeoverFacts {
    /// Nothing is known yet.
    pub fn new() -> (r: Self)
        ensures
            r.valid is None,
            r.captured is None,
            r.intended is None,
            r.swapped is None,
            r.inspected is None,
            r.completed is None,
    {
        TakeoverFacts {
            valid: None,
            captured: None,
            intended: None,
            swapped: None,
            inspected: None,
            completed: None,
        }
    }
}

#[derive(Debug)]
pub enum TakeoverStep {
    Validate,
    Capture,
    WriteIntent,
    Swap,
    Inspect,
    WriteCompletion,
    Done,
    Fail { message: String },
}

pub enum TakeoverStepView {
    Validate,
    Capture,
    WriteIntent,
    Swap,
    Inspect,
    WriteCompletion,
    Done,
    Fail { message: Seq<char> },
}

impl View for TakeoverStep {
    type V = TakeoverStepView;

    open spec fn view(&self) -> TakeoverStepView {
        match self {
            TakeoverStep::Validate => TakeoverStepView::Validate,
            TakeoverStep::Capture => TakeoverStepView::Capture,
            TakeoverStep::WriteIntent => TakeoverStepView::WriteIntent,
            TakeoverStep::Swap => TakeoverStepView::Swap,
            TakeoverStep::Inspect => TakeoverStepView::Inspect,
            TakeoverStep::WriteCompletion => TakeoverStepView::WriteCompletion,
            TakeoverStep::Done => TakeoverStepView::Done,
            TakeoverStep::Fail { message } => TakeoverStepView::Fail { message: message@ },
        }
    }
}

/// What comes after a step: the step itself while nothing is known of it.
pub open spec fn then_takeover(
    fact: Option<Result<(), String>>,
    step: TakeoverStepView,
    next: TakeoverStepView,
) -> TakeoverStepView {
    match fact {
        None => step,
        Some(Err(message)) => TakeoverStepView::Fail { message: message@ },
        Some(Ok(_)) => next,
    }
}

pub open spec fn next_takeover(f: TakeoverFacts) -> TakeoverStepView {
    then_takeover(
        f.valid,
        TakeoverStepView::Validate,
        then_takeover(
            f.captured,
            TakeoverStepView::Capture,
            then_takeover(
                f.intended,
                TakeoverStepView::WriteIntent,
                then_takeover(
                    f.swapped,
                    TakeoverStepView::Swap,
                    then_takeover(
                        f.inspected,
                        TakeoverStepView::Inspect,
                        then_takeover(
                            f.completed,
                            TakeoverStepView::WriteCompletion,
                            TakeoverStepView::Done,
                        ),
                    ),
                ),
            ),
        ),
    )
}

/// What a takeover does next.
pub fn next_takeover_step(facts: &TakeoverFacts) -> (r: TakeoverStep)
    ensures
        r@ == next_takeover(*facts),
{
    match &facts.valid {
        None => return TakeoverStep::Validate,
        Some(Err(message)) => return TakeoverStep::Fail { message: message.clone() },
        Some(Ok(())) => {},
    }
    match &facts.captured {
        None => return TakeoverStep::Capture,
        Some(Err(message)) => return TakeoverStep::Fail { message: message.clone() },
        Some(Ok(())) => {},
    }
    match &facts.intended {
        None => return TakeoverStep::WriteIntent,
        Some(Err(message)) => return TakeoverStep::Fail { message: message.clone() },
        Some(Ok(())) => {},
    }
    match &facts.swapped {
        None => return TakeoverStep::Swap,
        Some(Err(message)) => return TakeoverStep::Fail { message: message.clone() },
        Some(Ok(())) => {},
    }
    match &facts.inspected {
        None => return TakeoverStep::Inspect,
        Some(Err(message)) => return TakeoverStep::Fail { message: message.clone() },
        Some(Ok(())) => {},
    }
    match &facts.completed {
        None => TakeoverStep::WriteCompletion,
        Some(Err(message)) => TakeoverStep::Fail { message: message.clone() },
        Some(Ok(())) => TakeoverStep::Done,
    }
}

/// How giving a launcher back went, as far as it has come.
#[derive(Debug)]
pub struct RestoreFacts {
    /// Whether a journal of this restoration is there already, and is for this record.
    pub resumed: Option<Result<bool, String>>,
    /// Whether the launcher is the recorded shim, so that a restoration may start.
    pub prepared: Option<Result<(), String>>,
    pub intended: Option<Result<(), String>>,
    /// What an interrupted swap has left was cleared.
    pub recovered: Option<Result<(), String>>,
    pub disposition: Option<Result<RestoreDisposition, String>>,
    pub swapped: Option<Result<(), String>>,
    /// Whether the launcher is the baseline.
    pub verified: Option<Result<(), String>>,
    pub completed: Option<Result<(), String>>,
}

impl RestoreFacts {
    /// Nothing is known yet.
    pub fn new() -> (r: Self)
        ensures
            r.resumed is None,
            r.prepared is None,
            r.intended is None,
            r.recovered is None,
            r.disposition is None,
            r.swapped is None,
            r.verified is None,
            r.completed is None,
    {
        RestoreFacts {
            resumed: None,
            prepared: None,
            intended: None,
            recovered: None,
            disposition: None,
            swapped: None,
            verified: None,
            completed: None,
        }
    }
}

#[derive(Debug)]
pub enum RestoreStep {
    FindJournal,
    Prepare,
    WriteIntent,
    Recover,
    Classify,
    SwapBack,
    Verify,
    WriteCompletion,
    Done,
    Fail { message: String },
}

pub enum RestoreStepView {
    FindJournal,
    Prepare,
    WriteIntent,
    Recover,
    Classify,
    SwapBack,
    Verify,
    WriteCompletion,
    Done,
    Fail { message: Seq<char> },
}

impl View for RestoreStep {
    type V = RestoreStepView;

    open spec fn view(&self) -> RestoreStepView {
        match self {
            RestoreStep::FindJournal => RestoreStepView::FindJournal,
            RestoreStep::Prepare => RestoreStepView::Prepare,
            RestoreStep::WriteIntent => RestoreStepView::WriteIntent,
            RestoreStep::Recover => RestoreStepView::Recover,
            RestoreStep::Classify => RestoreStepView::Classify,
            RestoreStep::SwapBack => RestoreStepView::SwapBack,
            RestoreStep::Verify => RestoreStepView::Verify,
            RestoreStep::WriteCompletion => RestoreStepView::WriteCompletion,
            RestoreStep::Done => RestoreStepView::Done,
            RestoreStep::Fail { message } => RestoreStepView::Fail { message: message@ },
        }
    }
}

pub open spec fn then_restore(
    fact: Option<Result<(), String>>,
    step: RestoreStepView,
    next: RestoreStepView,
) -> RestoreStepView {
    match fact {
        None => step,
        Some(Err(message)) => RestoreStepView::Fail { message: message@ },
        Some(Ok(_)) => next,
    }
}

/// Once the launcher is to be the baseline: it is looked at, and the journal completed.
pub open spec fn restore_end(f: RestoreFacts) -> RestoreStepView {
    then_restore(
        f.verified,
        RestoreStepView::Verify,
        then_restore(f.completed, RestoreStepView::WriteCompletion, RestoreStepView::Done),
    )
}

/// Once the intent is durable: only a launcher that is still the shim is replaced.
pub open spec fn restore_rest(f: RestoreFacts) -> RestoreStepView {
    then_restore(
        f.recovered,
        RestoreStepView::Recover,
        match f.disposition {
            None => RestoreStepView::Classify,
            Some(Err(message)) => RestoreStepView::Fail { message: message@ },
            Some(Ok(RestoreDisposition::RetryInstalledShim)) => then_restore(
                f.swapped,
                RestoreStepView::SwapBack,
                restore_end(f),
            ),
            Some(Ok(RestoreDisposition::BaselinePresent)) => restore_end(f),
        },
    )
}

pub open spec fn next_restore(f: RestoreFacts) -> RestoreStepView {
    match f.resumed {
        None => RestoreStepView::FindJournal,
        Some(Err(message)) => RestoreStepView::Fail { message: message@ },
        Some(Ok(true)) => restore_rest(f),
        Some(Ok(false)) => then_restore(
            f.prepared,
            RestoreStepView::Prepare,
            then_restore(f.intended, RestoreStepView::WriteIntent, restore_rest(f)),
        ),
    }
}

fn next_restore_end(facts: &RestoreFacts) -> (r: RestoreStep)
    ensures
        r@ == restore_end(*facts),
{
    match &facts.verified {
        None => return RestoreStep::Verify,
        Some(Err(message)) => return RestoreStep::Fail { message: message.clone() },
        Some(Ok(())) => {},
    }
    match &facts.completed {
        None => RestoreStep::WriteCompletion,
        Some(Err(message)) => RestoreStep::Fail { message: message.clone() },
        Some(Ok(())) => RestoreStep::Done,
    }
}

fn next_restore_rest(facts: &RestoreFacts) -> (r: RestoreStep)
    ensures
        r@ == restore_rest(*facts),
{
    match &facts.recovered {
        None => return RestoreStep::Recover,
        Some(Err(message)) => return RestoreStep::Fail { message: message.clone() },
        Some(Ok(())) => {},
    }
    match &facts.disposition {
        None => RestoreStep::Classify,
        Some(Err(message)) => RestoreStep::Fail { message: message.clone() },
        Some(Ok(RestoreDisposition::RetryInstalledShim)) => match &facts.swapped {
            None => RestoreStep::SwapBack,
            Some(Err(message)) => RestoreStep::Fail { message: message.clone() },
            Some(Ok(())) => next_restore_end(facts),
        },
        Some(Ok(RestoreDisposition::BaselinePresent)) => next_restore_end(facts),
    }
}

/// What giving a launcher back does next.
pub fn next_restore_step(facts: &RestoreFacts) -> (r: RestoreStep)
    ensures
        r@ == next_restore(*facts),
{
    match &facts.resumed {
        None => return RestoreStep::FindJournal,
        Some(Err(message)) => return RestoreStep::Fail { message: message.clone() },
        Some(Ok(resumed)) => {
            if *resumed {
                return next_restore_rest(facts);
            }
        },
    }
    match &facts.prepared {
        None => return RestoreStep::Prepare,
        Some(Err(message)) => return RestoreStep::Fail { message: message.clone() },
        Some(Ok(())) => {},
    }
    match &facts.intended {
        None => RestoreStep::WriteIntent,
        Some(Err(message)) => RestoreStep::Fail { message: message.clone() },
        Some(Ok(())) => next_restore_rest(facts),
    }
}

/// How the repair of a launcher went, as far as it has come.
#[derive(Debug)]
pub struct RepairFacts {
    /// Whether a journal of this repair is there already, and is for this record and
    /// manager.
    pub resumed: Option<Result<bool, String>>,
    /// What kind of repair the launcher needs.
    pub chosen: Option<Result<RepairOutcome, String>>,
    /// What stands there was recorded, and its baseline where it is adopted.
    pub prepared: Option<Result<(), String>>,
    pub intended: Option<Result<(), String>>,
    pub recovered: Option<Result<(), String>>,
    pub disposition: Option<Result<RepairDisposition, String>>,
    pub swapped: Option<Result<(), String>>,
    /// Whether the launcher is the manager's shim.
    pub verified: Option<Result<(), String>>,
    pub completed: Option<Result<(), String>>,
}

impl RepairFacts {
    /// Nothing is known yet.
    pub fn new() -> (r: Self)
        ensures
            r.resumed is None,
            r.chosen is None,
            r.prepared is None,
            r.intended is None,
            r.recovered is None,
            r.disposition is None,
            r.swapped is None,
            r.verified is None,
            r.completed is None,
    {
        RepairFacts {
            resumed: None,
            chosen: None,
            prepared: None,
            intended: None,
            recovered: None,
            disposition: None,
            swapped: None,
            verified: None,
            completed: None,
        }
    }
}

#[derive(Debug)]
pub enum RepairStep {
    FindJournal,
    Choose,
    Prepare,
    WriteIntent,
    Recover,
    Classify,
    Swap,
    Verify,
    WriteCompletion,
    /// The launcher needs no repair.
    Unchanged,
    /// The record of the journal is the result.
    UseRecord,
    Done,
    Fail { message: String },
}

pub enum RepairStepView {
    FindJournal,
    Choose,
    Prepare,
    WriteIntent,
    Recover,
    Classify,
    Swap,
    Verify,
    WriteCompletion,
    Unchanged,
    UseRecord,
    Done,
    Fail { message: Seq<char> },
}

impl View for RepairStep {
    type V = RepairStepView;

    open spec fn view(&self) -> RepairStepView {
        match self {
            RepairStep::FindJournal => RepairStepView::FindJournal,
            RepairStep::Choose => RepairStepView::Choose,
            RepairStep::Prepare => RepairStepView::Prepare,
            RepairStep::WriteIntent => RepairStepView::WriteIntent,
            RepairStep::Recover => RepairStepView::Recover,
            RepairStep::Classify => RepairStepView::Classify,
            RepairStep::Swap => RepairStepView::Swap,
            RepairStep::Verify => RepairStepView::Verify,
            RepairStep::WriteCompletion => RepairStepView::WriteCompletion,
            RepairStep::Unchanged => RepairStepView::Unchanged,
            RepairStep::UseRecord => RepairStepView::UseRecord,
            RepairStep::Done => RepairStepView::Done,
            RepairStep::Fail { message } => RepairStepView::Fail { message: message@ },
        }
    }
}

pub open spec fn then_repair(
    fact: Option<Result<(), String>>,
    step: RepairStepView,
    next: RepairStepView,
) -> RepairStepView {
    match fact {
        None => step,
        Some(Err(message)) => RepairStepView::Fail { message: message@ },
        Some(Ok(_)) => next,
    }
}

pub open spec fn repair_end(f: RepairFacts) -> RepairStepView {
    then_repair(
        f.verified,
        RepairStepView::Verify,
        then_repair(f.completed, RepairStepView::WriteCompletion, RepairStepView::Done),
    )
}

/// Once the intent is durable: only a launcher that is still what was recorded is replaced.
pub open spec fn repair_rest(f: RepairFacts) -> RepairStepView {
    then_repair(
        f.recovered,
        RepairStepView::Recover,
        match f.disposition {
            None => RepairStepView::Classify,
            Some(Err(message)) => RepairStepView::Fail { message: message@ },
            Some(Ok(RepairDisposition::RetryObserved)) => then_repair(
                f.swapped,
                RepairStepView::Swap,
                repair_end(f),
            ),
            Some(Ok(RepairDisposition::ManagerPresent)) => repair_end(f),
            Some(Ok(RepairDisposition::CompletedRecordOnly)) => RepairStepView::UseRecord,
        },
    )
}

pub open spec fn next_repair(f: RepairFacts) -> RepairStepView {
    match f.resumed {
        None => RepairStepView::FindJournal,
        Some(Err(message)) => RepairStepView::Fail { message: message@ },
        Some(Ok(true)) => repair_rest(f),
        Some(Ok(false)) => match f.chosen {
            None => RepairStepView::Choose,
            Some(Err(message)) => RepairStepView::Fail { message: message@ },
            Some(Ok(RepairOutcome::Unchanged)) => RepairStepView::Unchanged,
            Some(Ok(_)) => then_repair(
                f.prepared,
                RepairStepView::Prepare,
                then_repair(f.intended, RepairStepView::WriteIntent, repair_rest(f)),
            ),
        },
    }
}

fn next_repair_end(facts: &RepairFacts) -> (r: RepairStep)
    ensures
        r@ == repair_end(*facts),
{
    match &facts.verified {
        None => return RepairStep::Verify,
        Some(Err(message)) => return RepairStep::Fail { message: message.clone() },
        Some(Ok(())) => {},
    }
    match &facts.completed {
        None => RepairStep::WriteCompletion,
        Some(Err(message)) => RepairStep::Fail { message: message.clone() },
        Some(Ok(())) => RepairStep::Done,
    }
}

fn next_repair_rest(facts: &RepairFacts) -> (r: RepairStep)
    ensures
        r@ == repair_rest(*facts),
{
    match &facts.recovered {
        None => return RepairStep::Recover,
        Some(Err(message)) => return RepairStep::Fail { message: message.clone() },
        Some(Ok(())) => {},
    }
    match &facts.disposition {
        None => RepairStep::Classify,
        Some(Err(message)) => RepairStep::Fail { message: message.clone() },
        Some(Ok(RepairDisposition::RetryObserved)) => match &facts.swapped {
            None => RepairStep::Swap,
            Some(Err(message)) => RepairStep::Fail { message: message.clone() },
            Some(Ok(())) => next_repair_end(facts),
        },
        Some(Ok(RepairDisposition::ManagerPresent)) => next_repair_end(facts),
        Some(Ok(RepairDisposition::CompletedRecordOnly)) => RepairStep::UseRecord,
    }
}

/// What the repair of a launcher does next.
pub fn next_repair_step(facts: &RepairFacts) -> (r: RepairStep)
    ensures
        r@ == next_repair(*facts),
{
    match &facts.resumed {
        None => return RepairStep::FindJournal,
        Some(Err(message)) => return RepairStep::Fail { message: message.clone() },
        Some(Ok(resumed)) => {
            if *resumed {
                return next_repair_rest(facts);
            }
        },
    }
    match &facts.chosen {
        None => return RepairStep::Choose,
        Some(Err(message)) => return RepairStep::Fail { message: message.clone() },
        Some(Ok(outcome)) => {
            if *outcome == RepairOutcome::Unchanged {
                return RepairStep::Unchanged;
            }
        },
    }
    match &facts.prepared {
        None => return RepairStep::Prepare,
        Some(Err(message)) => return RepairStep::Fail { message: message.clone() },
        Some(Ok(())) => {},
    }
    match &facts.intended {
        None => RepairStep::WriteIntent,
        Some(Err(message)) => RepairStep::Fail { message: message.clone() },
        Some(Ok(())) => next_repair_rest(facts),
    }
}

/// No launcher is touched before the intent is durable: a takeover has written its journal,
/// and a restoration or a repair has written its own or resumes one that was written before.
pub proof fn launchers_are_journaled_first(t: TakeoverFacts, r: RestoreFacts, p: RepairFacts)
    ensures
        next_takeover(t) is Swap ==> t.intended matches Some(Ok(_)),
        next_restore(r) is SwapBack ==> (r.intended matches Some(Ok(_))) || r.resumed == Some(
            Ok::<bool, String>(true),
        ),
        next_repair(p) is Swap ==> (p.intended matches Some(Ok(_))) || p.resumed == Some(
            Ok::<bool, String>(true),
        ),
{
}

/// An operation is only done once what it put there has been looked at and its completed
/// journal is durable.
pub proof fn completions_are_durable(t: TakeoverFacts, r: RestoreFacts, p: RepairFacts)
    ensures
        next_takeover(t) is Done ==> (t.swapped matches Some(Ok(_))) && (t.inspected matches Some(
            Ok(_),
        )) && (t.completed matches Some(Ok(_))),
        next_restore(r) is Done ==> (r.verified matches Some(Ok(_))) && (r.completed matches Some(
            Ok(_),
        )),
        next_repair(p) is Done ==> (p.verified matches Some(Ok(_))) && (p.completed matches Some(
            Ok(_),
        )),
{
}

/// A launcher that is given back or repaired is swapped only when it is still what its
/// journal says.
pub proof fn only_recognized_launchers_are_swapped(r: RestoreFacts, p: RepairFacts)
    ensures
        next_restore(r) is SwapBack ==> r.disposition == Some(
            Ok::<RestoreDisposition, String>(RestoreDisposition::RetryInstalledShim),
        ),
        next_repair(p) is Swap ==> p.disposition == Some(
            Ok::<RepairDisposition, String>(RepairDisposition::RetryObserved),
        ),
{
}

/// The facts of a restoration are the library's own findings: `started` stood at the launcher
/// when the restoration was prepared, `before` when it was classified, and `after` when it was
/// verified.
pub open spec fn restores(
    platform: Platform,
    f: RestoreFacts,
    record: RecordView,
    path: Seq<char>,
    started: Option<FactsView>,
    before: Option<FactsView>,
    after: Option<FactsView>,
) -> bool {
    &&& f.prepared matches Some(Ok(_)) ==> record_matches(platform, started, record)
    &&& f.disposition matches Some(d) ==> restore_result(d) == restore_disposition(
        platform,
        record,
        path,
        before,
    )
    &&& f.verified matches Some(Ok(_)) ==> baseline_matches(platform, after, record.baseline)
}

/// From a takeover to its restoration: once a launcher has been given back it is again what it
/// was when its baseline was captured, or absent if it was absent.
pub proof fn taken_over_launchers_come_back(
    platform: Platform,
    surface: Seq<char>,
    found: Option<FactsView>,
    backup: Option<(Seq<char>, Seq<char>)>,
    recheck: Option<FactsView>,
    journal: TakeoverJournal,
    installed: InstalledView,
    at: Timestamp,
    f: RestoreFacts,
    path: Seq<char>,
    started: Option<FactsView>,
    before: Option<FactsView>,
    after: Option<FactsView>,
)
    requires
        captured_baseline(
            platform,
            surface,
            found,
            backup,
            recheck,
        ) == Ok::<BaselineView, Seq<char>>(
            journal.baseline@,
        ),
        restores(
            platform,
            f,
            takeover_record(journal, installed, at),
            path,
            started,
            before,
            after,
        ),
        next_restore(f) is Done,
    ensures
        same_launcher(platform, found, after),
{
    restored_launchers_are_what_they_were(platform, surface, found, backup, after);
}

/// A launcher that is neither the recorded shim nor the baseline is left alone: its restoration
/// never swaps it and never ends well, and fails as soon as it is classified.
pub proof fn drifted_launchers_are_left_alone(
    platform: Platform,
    f: RestoreFacts,
    record: RecordView,
    path: Seq<char>,
    started: Option<FactsView>,
    before: Option<FactsView>,
    after: Option<FactsView>,
)
    requires
        restores(platform, f, record, path, started, before, after),
        !record_matches(platform, before, record),
        !baseline_matches(platform, before, record.baseline),
    ensures
        !(next_restore(f) is SwapBack),
        !(next_restore(f) is Done),
        restore_rest(f) is Recover || restore_rest(f) is Classify || restore_rest(f) is Fail,
        f.recovered matches Some(Ok(_)) ==> f.disposition is Some ==> restore_rest(f) is Fail,
{
    restores_never_overwrite_drift(platform, record, path, before);
}

/// The facts of a repair are the library's own findings: `found` stood at the launcher when the
/// repair was chosen and prepared, `before` when it was classified, and `after` is the shim
/// that was verified.
pub open spec fn repairs(
    platform: Platform,
    f: RepairFacts,
    journal: RepairJournal,
    record: RecordView,
    manager: Seq<char>,
    adopt: bool,
    found: Option<FactsView>,
    backup: Option<(Seq<char>, Seq<char>)>,
    recheck: Option<FactsView>,
    path: Seq<char>,
    image: Result<Seq<char>, Seq<char>>,
    before: Option<FactsView>,
    after: Option<FactsView>,
    updated: RecordView,
) -> bool {
    &&& f.resumed == Some(Ok::<bool, String>(false))
    &&& f.chosen matches Some(c) ==> outcome_result(c) == repair_choice(
        platform,
        record,
        manager,
        found,
        image,
        adopt,
    )
    &&& f.prepared matches Some(Ok(_)) ==> {
        &&& journal.original@ == record
        &&& journal.manager@ == manager
        &&& f.chosen matches Some(Ok(outcome)) && journal.outcome == outcome
        &&& if journal.outcome == RepairOutcome::AdoptedAndReinstalled {
            captured_baseline(platform, record.surface, found, backup, recheck) == Ok::<
                BaselineView,
                Seq<char>,
            >(journal.replacement_baseline@)
        } else {
            journal.replacement_baseline@ == record.baseline
        }
    }
    &&& f.disposition matches Some(d) ==> repair_result(d) == repair_disposition(
        platform,
        journal,
        path,
        before,
        image,
    )
    &&& f.verified matches Some(Ok(_)) ==> {
        &&& exists|installed: InstalledView, now: Timestamp|
            updated == #[trigger] repaired_record(platform, journal, installed, now)
                && inspected(
                    platform,
                    record.surface,
                    manager,
                    after,
                ) == Ok::<InstalledView, Seq<char>>(
                installed,
            )
        &&& record_matches(platform, after, updated)
    }
}

/// Without the user's adoption a launcher that someone else has written is neither swapped nor
/// recorded again.
pub proof fn drift_is_not_adopted_unasked(
    platform: Platform,
    f: RepairFacts,
    journal: RepairJournal,
    record: RecordView,
    manager: Seq<char>,
    found: Option<FactsView>,
    backup: Option<(Seq<char>, Seq<char>)>,
    recheck: Option<FactsView>,
    path: Seq<char>,
    image: Result<Seq<char>, Seq<char>>,
    before: Option<FactsView>,
    after: Option<FactsView>,
    updated: RecordView,
)
    requires
        repairs(
            platform,
            f,
            journal,
            record,
            manager,
            false,
            found,
            backup,
            recheck,
            path,
            image,
            before,
            after,
            updated,
        ),
        !record_matches(platform, found, record),
        !is_manager_shim(platform, found, record.surface, manager, image),
        !baseline_matches(platform, found, record.baseline),
    ensures
        next_repair(f) is Choose || next_repair(f) is Fail,
        f.chosen is Some ==> next_repair(f) is Fail,
{
    repairs_never_overwrite_drift(platform, record, manager, found, image);
}

/// An adopted repair leaves the manager's shim under the same record, with what stood there as
/// its baseline: restoring that record later gives back exactly the adopted launcher.
pub proof fn adopted_launchers_come_back(
    platform: Platform,
    f: RepairFacts,
    journal: RepairJournal,
    record: RecordView,
    manager: Seq<char>,
    found: Option<FactsView>,
    backup: Option<(Seq<char>, Seq<char>)>,
    recheck: Option<FactsView>,
    path: Seq<char>,
    image: Result<Seq<char>, Seq<char>>,
    before: Option<FactsView>,
    after: Option<FactsView>,
    updated: RecordView,
    g: RestoreFacts,
    restore_path: Seq<char>,
    started: Option<FactsView>,
    seen: Option<FactsView>,
    restored: Option<FactsView>,
)
    requires
        repairs(
            platform,
            f,
            journal,
            record,
            manager,
            true,
            found,
            backup,
            recheck,
            path,
            image,
            before,
            after,
            updated,
        ),
        next_repair(f) is Done,
        !record_matches(platform, found, record),
        !is_manager_shim(platform, found, record.surface, manager, image),
        !baseline_matches(platform, found, record.baseline),
    ensures
        journal.outcome == RepairOutcome::AdoptedAndReinstalled,
        updated.id == record.id,
        updated.surface == record.surface,
        inspected(platform, record.surface, manager, after) == Ok::<InstalledView, Seq<char>>(
            updated.installed,
        ),
        captured_baseline(
            platform,
            record.surface,
            found,
            backup,
            recheck,
        ) == Ok::<BaselineView, Seq<char>>(
            updated.baseline,
        ),
        restores(
            platform,
            g,
            updated,
            restore_path,
            started,
            seen,
            restored,
        ) && next_restore(g) is Done
            ==> same_launcher(platform, found, restored),
{
    repairs_never_overwrite_drift(platform, record, manager, found, image);
    if restores(
        platform,
        g,
        updated,
        restore_path,
        started,
        seen,
        restored,
    ) && next_restore(g) is Done {
        restored_launchers_are_what_they_were(platform, record.surface, found, backup, restored);
    }
}

} // verus!

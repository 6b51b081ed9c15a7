//! The durable state of an installation, and how interrupted launcher transactions become
//! part of it again.

use vstd::prelude::*;

use crate::paths::{PatcherPaths, Platform};
use crate::shim::{records_view, RecordView, SurfaceRecord};
use crate::state::{
    copy_records, journal_word, merge_needed, not_installed, recover_repairs, recover_restores,
    recover_takeovers, result_records, with_repairs, with_takeovers, without_restored, InstallState, JournalKind,
};
use crate::text::opt_text;

verus! {

#[derive(Debug)]
pub struct StateStore {
    paths: PatcherPaths,
}

/// What the recovery of launcher transactions comes to.
#[derive(Debug)]
pub struct Recovery {
    /// The ownership records after it.
    pub surfaces: Vec<SurfaceRecord>,
    /// How many transactions were recovered.
    pub count: u128,
    /// What stopped it; what was recovered before stays recovered.
    pub problem: Option<String>,
}

pub struct RecoveryView {
    pub surfaces: Seq<RecordView>,
    pub count: nat,
    pub problem: Option<Seq<char>>,
}

impl View for Recovery {
    type V = RecoveryView;

    open spec fn view(&self) -> RecoveryView {
        RecoveryView {
            surfaces: records_view(self.surfaces@),
            count: self.count as nat,
            problem: opt_text(self.problem),
        }
    }
}

/// Transactions without an installation are not thrown away.
pub open spec fn orphaned(kind: JournalKind) -> Seq<char> {
    "launcher "@ + journal_word(kind)
        + " journals exist without installation state; refusing to discard them: "@ + not_installed()
}

pub open spec fn takeovers_merged(
    platform: Platform,
    installed: bool,
    surfaces: Seq<RecordView>,
    recovered: Seq<RecordView>,
) -> Result<Seq<RecordView>, Seq<char>> {
    if recovered.len() == 0 {
        Ok(surfaces)
    } else if !installed {
        Err(orphaned(JournalKind::Takeover))
    } else {
        with_takeovers(platform, surfaces, recovered)
    }
}

pub open spec fn repairs_merged(
    platform: Platform,
    installed: bool,
    surfaces: Seq<RecordView>,
    recovered: Seq<RecordView>,
) -> Result<Seq<RecordView>, Seq<char>> {
    if recovered.len() == 0 {
        Ok(surfaces)
    } else if !installed {
        Err(orphaned(JournalKind::Repair))
    } else {
        with_repairs(platform, surfaces, recovered)
    }
}

pub open spec fn restores_merged(
    installed: bool,
    surfaces: Seq<RecordView>,
    restored: Seq<u128>,
) -> Result<Seq<RecordView>, Seq<char>> {
    if restored.len() == 0 {
        Ok(surfaces)
    } else if !installed {
        Err(orphaned(JournalKind::Restore))
    } else {
        Ok(without_restored(surfaces, restored))
    }
}

/// The takeovers are recovered first, then the repairs, then the restorations. Each is
/// durable before the next.
pub open spec fn all_merged(
    platform: Platform,
    installed: bool,
    surfaces: Seq<RecordView>,
    takeovers: Seq<RecordView>,
    repairs: Seq<RecordView>,
    restored: Seq<u128>,
) -> RecoveryView {
    match takeovers_merged(platform, installed, surfaces, takeovers) {
        Err(message) => RecoveryView { surfaces, count: 0, problem: Some(message) },
        Ok(first) => match repairs_merged(platform, installed, first, repairs) {
            Err(message) => RecoveryView {
                surfaces: first,
                count: takeovers.len(),
                problem: Some(message),
            },
            Ok(second) => match restores_merged(installed, second, restored) {
                Err(message) => RecoveryView {
                    surfaces: second,
                    count: takeovers.len() + repairs.len(),
                    problem: Some(message),
                },
                Ok(third) => RecoveryView {
                    surfaces: third,
                    count: takeovers.len() + repairs.len() + restored.len(),
                    problem: None,
                },
            },
        },
    }
}

/// The recorded launchers; none without an installation.
pub open spec fn surfaces_of(state: Option<&InstallState>) -> Seq<RecordView> {
    match state {
        Some(s) => s@.surfaces,
        None => Seq::empty(),
    }
}

fn copy_surfaces(state: Option<&InstallState>) -> (r: Vec<SurfaceRecord>)
    ensures
        records_view(r@) == surfaces_of(state),
{
    match state {
        Some(s) => copy_records(&s.surfaces),
        None => {
            let none: Vec<SurfaceRecord> = Vec::new();
            proof {
                assert(records_view(none@) =~= Seq::empty());
            }
            none
        },
    }
}

impl StateStore {
    pub closed spec fn layout(&self) -> PatcherPaths {
        self.paths
    }

    pub fn new(paths: PatcherPaths) -> (r: Self)
        ensures
            r.layout() == paths,
    {
        StateStore { paths }
    }

    pub fn paths(&self) -> (r: &PatcherPaths)
        ensures
            *r == self.layout(),
    {
        &self.paths
    }

    /// Runs the operation once when the state is locked, and not at all otherwise. The lock is
    /// handed over: it is released only after the operation has returned, so two operations
    /// under locks that exclude each other never overlap.
    pub fn with_state_lock<T, G, F: FnOnce() -> Result<T, String>>(
        &self,
        lock: Result<G, String>,
        operation: F,
    ) -> (r: Result<T, String>)
        requires
            operation.requires(()),
        ensures
            match lock {
                Err(message) => r matches Err(e) && e@ == message@,
                Ok(_) => operation.ensures((), r),
            },
    {
        match lock {
            Err(message) => Err(message),
            Ok(_guard) => operation(),
        }
    }

    /// Reads, changes and saves the state while it is locked: what is saved is the change of
    /// what was read under the same lock, so no update of another holder is lost. Whatever
    /// fails, nothing is done after it.
    pub fn update_locked<
        T,
        G,
        L: FnOnce() -> Result<InstallState, String>,
        C: FnOnce(InstallState) -> Result<(InstallState, T), String>,
        S: FnOnce(InstallState) -> Result<(), String>,
    >(&self, lock: Result<G, String>, load: L, change: C, save: S) -> (r: Result<T, String>)
        requires
            load.requires(()),
            forall|state: InstallState| change.requires((state,)),
            forall|state: InstallState| save.requires((state,)),
        ensures
            lock matches Err(message) ==> (r matches Err(e) && e@ == message@),
            lock is Ok && r is Ok ==> exists|before: InstallState, after: InstallState|
                #![trigger load.ensures((), Ok(before)), save.ensures((after,), Ok(()))]
                load.ensures((), Ok(before)) && change.ensures(
                    (before,),
                    Ok((after, r->Ok_0)),
                ) && save.ensures((after,), Ok(())),
            lock is Ok && r is Err ==> load.ensures((), Err(r->Err_0)) || exists|
                before: InstallState,
            |
                #[trigger] load.ensures((), Ok(before)) && (change.ensures((before,), Err(r->Err_0))
                    || exists|after: InstallState, value: T|
                    #[trigger] change.ensures((before,), Ok((after, value))) && save.ensures(
                        (after,),
                        Err(r->Err_0),
                    )),
    {
        match lock {
            Err(message) => Err(message),
            Ok(_guard) => {
                let before = match load() {
                    Ok(before) => before,
                    Err(message) => return Err(message),
                };
                let (after, value) = match change(before) {
                    Ok(pair) => pair,
                    Err(message) => return Err(message),
                };
                match save(after) {
                    Ok(done) => {
                        proof {
                            assert(Ok::<(), String>(done) == Ok::<(), String>(()));
                            assert(save.ensures((after,), Ok(())));
                        }
                        Ok(value)
                    },
                    Err(message) => {
                        proof {
                            assert(change.ensures((before,), Ok((after, value))));
                        }
                        Err(message)
                    },
                }
            },
        }
    }

    /// The records once recovered takeovers are part of them.
    pub fn recover_takeovers(
        &self,
        state: Option<&InstallState>,
        recovered: &Vec<SurfaceRecord>,
    ) -> (r: Result<Vec<SurfaceRecord>, String>)
        ensures
            result_records(r) == takeovers_merged(
                self.layout().platform,
                state is Some,
                surfaces_of(state),
                records_view(recovered@),
            ),
    {
        match merge_needed(JournalKind::Takeover, recovered.len(), state.is_some()) {
            Err(message) => Err(message),
            Ok(needed) => {
                let surfaces = copy_surfaces(state);
                if needed {
                    recover_takeovers(self.paths.platform, &surfaces, recovered)
                } else {
                    Ok(surfaces)
                }
            },
        }
    }

    /// The records without the launchers that were given back.
    pub fn recover_restores(
        &self,
        state: Option<&InstallState>,
        restored: &Vec<u128>,
    ) -> (r: Result<
        Vec<SurfaceRecord>,
        String,
    >)
        ensures
            result_records(r) == restores_merged(
                state is Some,
                surfaces_of(state),
                restored@,
            ),
    {
        match merge_needed(JournalKind::Restore, restored.len(), state.is_some()) {
            Err(message) => Err(message),
            Ok(needed) => {
                let surfaces = copy_surfaces(state);
                if needed {
                    Ok(recover_restores(&surfaces, restored))
                } else {
                    Ok(surfaces)
                }
            },
        }
    }

    /// The records with those of repaired launchers replaced.
    pub fn recover_repairs(
        &self,
        state: Option<&InstallState>,
        recovered: &Vec<SurfaceRecord>,
    ) -> (r: Result<Vec<SurfaceRecord>, String>)
        ensures
            result_records(r) == repairs_merged(
                self.layout().platform,
                state is Some,
                surfaces_of(state),
                records_view(recovered@),
            ),
    {
        match merge_needed(JournalKind::Repair, recovered.len(), state.is_some()) {
            Err(message) => Err(message),
            Ok(needed) => {
                let surfaces = copy_surfaces(state);
                if needed {
                    recover_repairs(self.paths.platform, &surfaces, recovered)
                } else {
                    Ok(surfaces)
                }
            },
        }
    }

    /// The records after every interrupted transaction was recovered.
    pub fn recover_surface_transactions(
        &self,
        state: Option<&InstallState>,
        takeovers: &Vec<SurfaceRecord>,
        repairs: &Vec<SurfaceRecord>,
        restored: &Vec<u128>,
    ) -> (r: Recovery)
        ensures
            r@ == all_merged(
                self.layout().platform,
                state is Some,
                surfaces_of(state),
                records_view(takeovers@),
                records_view(repairs@),
                restored@,
            ),
    {
        let installed = state.is_some();
        let first = match self.recover_takeovers(state, takeovers) {
            Ok(surfaces) => surfaces,
            Err(message) => return Recovery {
                surfaces: copy_surfaces(state),
                count: 0,
                problem: Some(message),
            },
        };
        let first_count: u128 = takeovers.len() as u128;
        let second = match merge_needed(JournalKind::Repair, repairs.len(), installed) {
            Err(message) => return Recovery {
                surfaces: first,
                count: first_count,
                problem: Some(message),
            },
            Ok(needed) => if needed {
                match recover_repairs(self.paths.platform, &first, repairs) {
                    Ok(surfaces) => surfaces,
                    Err(message) => return Recovery {
                        surfaces: first,
                        count: first_count,
                        problem: Some(message),
                    },
                }
            } else {
                first
            },
        };
        let second_count: u128 = first_count + repairs.len() as u128;
        match merge_needed(JournalKind::Restore, restored.len(), installed) {
            Err(message) => Recovery {
                surfaces: second,
                count: second_count,
                problem: Some(message),
            },
            Ok(needed) => {
                let third = if needed { recover_restores(&second, restored) } else { second };
                Recovery {
                    surfaces: third,
                    count: second_count + restored.len() as u128,
                    problem: None,
                }
            },
        }
    }
}

/// Without an installation no transaction is recovered, and none is thrown away in silence.
pub proof fn orphaned_transactions_are_refused(
    platform: Platform,
    takeovers: Seq<RecordView>,
    repairs: Seq<RecordView>,
    restored: Seq<u128>,
)
    requires
        takeovers.len() > 0 || repairs.len() > 0 || restored.len() > 0,
    ensures
        ({
            let r = all_merged(platform, false, Seq::empty(), takeovers, repairs, restored);
            r.problem is Some && r.surfaces.len() == 0
        }),
{
}

} // verus!

//! The checkout that a build or a repair starts from.

use vstd::prelude::*;

use crate::build::plan::fetched_is_desired;
use crate::text::{decimal, decimal_text, result_unit, same, trim, trimmed};
use crate::types::{DesiredBuild, DesiredView};
use crate::upstream::UPSTREAM_REPOSITORY;

verus! {

/// What a command may print while a package is validated.
pub const MAX_VALIDATION_OUTPUT: u64 = 4_194_304;

/// The private mirror is a mirror of the upstream repository, and of no other. `current` is
/// what Git prints as its origin.
pub fn check_mirror_origin(current: &str) -> (r: Result<(), String>)
    ensures
        result_unit(r) == (if trim(current@) == UPSTREAM_REPOSITORY@ {
            Ok(())
        } else {
            Err(
                "private mirror origin is "@ + trim(current@) + ", expected "@
                    + UPSTREAM_REPOSITORY@,
            )
        }),
{
    let origin = trimmed(current);
    if same(origin.as_str(), UPSTREAM_REPOSITORY) {
        return Ok(());
    }
    let mut message = "private mirror origin is ".to_owned();
    message.append(origin.as_str());
    message.append(", expected ");
    message.append(UPSTREAM_REPOSITORY);
    Err(message)
}

/// A command that prints more than that is not a Codex that can be used.
pub fn check_validation_output(length: u64) -> (r: Result<(), String>)
    ensures
        result_unit(r) == (if length > MAX_VALIDATION_OUTPUT {
            Err(
                "validation command emitted more than "@ + decimal(MAX_VALIDATION_OUTPUT as nat)
                    + " bytes"@,
            )
        } else {
            Ok(())
        }),
{
    if length <= MAX_VALIDATION_OUTPUT {
        return Ok(());
    }
    let mut message = "validation command emitted more than ".to_owned();
    message.append(decimal_text(MAX_VALIDATION_OUTPUT).as_str());
    message.append(" bytes");
    Err(message)
}

/// How the source of a repair is had.
#[derive(Debug)]
pub enum SourceStep {
    /// The source is there.
    Use,
    Fetch,
    Fail { message: String },
}

pub enum SourceStepView {
    Use,
    Fetch,
    Fail { message: Seq<char> },
}

impl View for SourceStep {
    type V = SourceStepView;

    open spec fn view(&self) -> SourceStepView {
        match self {
            SourceStep::Use => SourceStepView::Use,
            SourceStep::Fetch => SourceStepView::Fetch,
            SourceStep::Fail { message } => SourceStepView::Fail { message: message@ },
        }
    }
}

pub open spec fn repair_identity_message(d: DesiredView, found: (Seq<char>, Seq<char>)) -> Seq<
    char,
> {
    "repair source identity changed: expected "@ + d.source.ref_object_oid + "/"@
        + d.source.commit_oid + ", got "@ + found.0 + "/"@ + found.1
}

/// The source that the failed build left is used when it is the desired one; otherwise it is
/// fetched again, and must then be the desired one.
pub open spec fn repair_source(
    d: DesiredView,
    cached: Result<(String, String), String>,
    fetched: Option<Result<(String, String), String>>,
) -> SourceStepView {
    if cached matches Ok(found) && fetched_is_desired(d, (found.0@, found.1@)) {
        SourceStepView::Use
    } else {
        match fetched {
            None => SourceStepView::Fetch,
            Some(Err(message)) => SourceStepView::Fail { message: message@ },
            Some(Ok(found)) => if fetched_is_desired(d, (found.0@, found.1@)) {
                SourceStepView::Use
            } else {
                SourceStepView::Fail {
                    message: repair_identity_message(d, (found.0@, found.1@)),
                }
            },
        }
    }
}

fn is_desired(desired: &DesiredBuild, object: &str, commit: &str) -> (r: bool)
    ensures
        r == fetched_is_desired(desired@, (object@, commit@)),
{
    same(object, desired.source.ref_object_oid.as_str()) && same(
        commit,
        desired.source.commit_oid.as_str(),
    )
}

/// How the source of a repair is had. `cached` and `fetched` are the object and the commit
/// that the build left, and that upstream has.
pub fn next_source_step(
    desired: &DesiredBuild,
    cached: &Result<(String, String), String>,
    fetched: &Option<Result<(String, String), String>>,
) -> (r: SourceStep)
    ensures
        r@ == repair_source(desired@, *cached, *fetched),
{
    match cached {
        Ok(found) => {
            if is_desired(desired, found.0.as_str(), found.1.as_str()) {
                return SourceStep::Use;
            }
        },
        Err(_) => {},
    }
    let found = match fetched {
        None => return SourceStep::Fetch,
        Some(Err(message)) => return SourceStep::Fail { message: message.clone() },
        Some(Ok(found)) => found,
    };
    if is_desired(desired, found.0.as_str(), found.1.as_str()) {
        return SourceStep::Use;
    }
    let mut message = "repair source identity changed: expected ".to_owned();
    message.append(desired.source.ref_object_oid.as_str());
    message.append("/");
    message.append(desired.source.commit_oid.as_str());
    message.append(", got ");
    message.append(found.0.as_str());
    message.append("/");
    message.append(found.1.as_str());
    SourceStep::Fail { message }
}

/// What is done next about the worktree of a build.
#[derive(Debug, Clone, Copy, PartialEq, Eq, Structural)]
pub enum WorktreeStep {
    /// Bring every file back to the commit.
    Reset,
    /// Remove what does not belong to it.
    Clean,
    /// The worktree that stands is used, so that the compiler's cache stays of use.
    Reuse,
    Recreate,
}

/// A worktree that stands is used again when it can be reset and cleaned.
pub open spec fn worktree_step(
    is_dir: bool,
    was_reset: Option<bool>,
    was_cleaned: Option<bool>,
) -> WorktreeStep {
    if !is_dir {
        WorktreeStep::Recreate
    } else {
        match was_reset {
            None => WorktreeStep::Reset,
            Some(false) => WorktreeStep::Recreate,
            Some(true) => match was_cleaned {
                None => WorktreeStep::Clean,
                Some(false) => WorktreeStep::Recreate,
                Some(true) => WorktreeStep::Reuse,
            },
        }
    }
}

pub fn next_worktree_step(is_dir: bool, was_reset: Option<bool>, was_cleaned: Option<bool>) -> (r:
    WorktreeStep)
    ensures
        r == worktree_step(is_dir, was_reset, was_cleaned),
{
    if !is_dir {
        return WorktreeStep::Recreate;
    }
    match was_reset {
        None => WorktreeStep::Reset,
        Some(success) => if !success {
            WorktreeStep::Recreate
        } else {
            match was_cleaned {
                None => WorktreeStep::Clean,
                Some(success) => if success {
                    WorktreeStep::Reuse
                } else {
                    WorktreeStep::Recreate
                },
            }
        },
    }
}

/// A repair never starts from another source than the one whose build failed.
pub proof fn repairs_start_from_the_failed_source(
    d: DesiredView,
    cached: Result<(String, String), String>,
    fetched: Option<Result<(String, String), String>>,
)
    requires
        repair_source(d, cached, fetched) is Use,
    ensures
        (cached matches Ok(found) && fetched_is_desired(d, (found.0@, found.1@))) || (
        fetched matches Some(Ok(found)) && fetched_is_desired(d, (found.0@, found.1@))),
{
}

} // verus!

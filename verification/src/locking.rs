//! What an exclusive lock does for those who update the state under it.
//!
//! A history lists what many threads or processes did, in the order in which it happened. Each
//! of them goes the way of `StateStore::update_locked`: it obtains the lock, loads the state,
//! saves a change of it, and releases the lock. All that is asked of the lock is that it is
//! given to no one while someone holds it.

use vstd::prelude::*;

verus! {

pub enum LockEvent {
    Obtain,
    Load,
    Save,
    Release,
}

/// One event and who caused it.
pub struct Turn {
    pub who: nat,
    pub event: LockEvent,
}

/// Where a history has come to.
pub struct Shared<S> {
    pub holder: Option<nat>,
    pub stored: S,
    /// What the holder has loaded.
    pub loaded: Option<S>,
    /// Who has saved, in order.
    pub savers: Seq<nat>,
}

/// What one more event leads to; nothing, where an exclusive lock or the course of an update
/// does not let it happen. `change` is what each one makes of the state.
pub open spec fn after_turn<S>(
    shared: Shared<S>,
    turn: Turn,
    change: spec_fn(nat, S) -> S,
) -> Option<Shared<S>> {
    match turn.event {
        LockEvent::Obtain => if shared.holder is None {
            Some(Shared { holder: Some(turn.who), loaded: None, ..shared })
        } else {
            None
        },
        LockEvent::Load => if shared.holder == Some(turn.who) {
            Some(Shared { loaded: Some(shared.stored), ..shared })
        } else {
            None
        },
        LockEvent::Save => if shared.holder == Some(turn.who) && shared.loaded is Some {
            Some(
                Shared {
                    stored: change(turn.who, shared.loaded->0),
                    loaded: None,
                    savers: shared.savers.push(turn.who),
                    ..shared
                },
            )
        } else {
            None
        },
        LockEvent::Release => if shared.holder == Some(turn.who) {
            Some(Shared { holder: None, loaded: None, ..shared })
        } else {
            None
        },
    }
}

/// What a history leads to from a state that nobody holds.
pub open spec fn after<S>(first: S, history: Seq<Turn>, change: spec_fn(nat, S) -> S) -> Option<
    Shared<S>,
>
    decreases history.len(),
{
    if history.len() == 0 {
        Some(Shared { holder: None, stored: first, loaded: None, savers: Seq::empty() })
    } else {
        match after(first, history.drop_last(), change) {
            None => None,
            Some(shared) => after_turn(shared, history.last(), change),
        }
    }
}

/// The changes of these, made one after the other.
pub open spec fn in_turn<S>(first: S, savers: Seq<nat>, change: spec_fn(nat, S) -> S) -> S
    decreases savers.len(),
{
    if savers.len() == 0 {
        first
    } else {
        change(savers.last(), in_turn(first, savers.drop_last(), change))
    }
}

/// No update is lost: whatever the order in which many update the state, what is stored is
/// what all their changes make of it, one after the other.
pub proof fn locked_updates_are_kept<S>(
    first: S,
    history: Seq<Turn>,
    change: spec_fn(nat, S) -> S,
)
    requires
        after(first, history, change) is Some,
    ensures
        ({
            let shared = after(first, history, change)->0;
            &&& shared.stored == in_turn(first, shared.savers, change)
            &&& shared.loaded is Some ==> shared.loaded == Some(shared.stored)
        }),
    decreases history.len(),
{
    if history.len() > 0 {
        locked_updates_are_kept(first, history.drop_last(), change);
        let before = after(first, history.drop_last(), change)->0;
        let now = after(first, history, change)->0;
        if history.last().event is Save {
            assert(now.savers.drop_last() =~= before.savers);
        }
    }
}

/// `who` holds the lock after the first `n` events.
pub open spec fn holds_after<S>(
    first: S,
    history: Seq<Turn>,
    change: spec_fn(nat, S) -> S,
    who: nat,
    n: int,
) -> bool {
    after(first, history.take(n), change) matches Some(shared) && shared.holder == Some(who)
}

proof fn lemma_admitted_so_far<S>(
    first: S,
    history: Seq<Turn>,
    change: spec_fn(nat, S) -> S,
    n: int,
)
    requires
        after(first, history, change) is Some,
        0 <= n <= history.len(),
    ensures
        after(first, history.take(n), change) is Some,
    decreases history.len() - n,
{
    if n == history.len() {
        assert(history.take(n) =~= history);
    } else {
        lemma_admitted_so_far(first, history, change, n + 1);
        assert(history.take(n + 1).drop_last() =~= history.take(n));
    }
}

/// No two work at the same time: from when one has obtained the lock until it releases it,
/// every event is its own.
pub proof fn holders_never_overlap<S>(
    first: S,
    history: Seq<Turn>,
    change: spec_fn(nat, S) -> S,
    i: int,
    j: int,
)
    requires
        after(first, history, change) is Some,
        0 <= i < j < history.len(),
        history[i].event is Obtain,
        forall|k: int|
            i < k < j ==> !((#[trigger] history[k]).event is Release && history[k].who
                == history[i].who),
    ensures
        history[j].who == history[i].who,
        !(history[j].event is Obtain),
        holds_after(first, history, change, history[i].who, j),
    decreases j - i,
{
    lemma_admitted_so_far(first, history, change, j);
    lemma_admitted_so_far(first, history, change, j + 1);
    assert(history.take(j + 1).drop_last() =~= history.take(j));
    assert(history.take(j + 1).last() == history[j]);
    assert(history.take(j).drop_last() =~= history.take(j - 1));
    assert(history.take(j).last() == history[j - 1]);
    if j > i + 1 {
        holders_never_overlap(first, history, change, i, j - 1);
        assert(!(history[j - 1].event is Release && history[j - 1].who == history[i].who));
    }
}

} // verus!

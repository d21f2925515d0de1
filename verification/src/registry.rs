//! The two process-wide registries of the orchestration context: session id
//! to cancellation signal, and session id to pause flag.

use vstd::prelude::*;

use crate::assoc::AssocList;

verus! {

/// Maps each live session id to its cancellation signal.
pub struct SessionRegistry {
    tokens: AssocList<tokio_util::sync::CancellationToken>,
}

impl SessionRegistry {
    pub closed spec fn wf(&self) -> bool {
        self.tokens.wf()
    }

    /// The ids currently registered.
    pub closed spec fn ids(&self) -> Set<Seq<char>> {
        self.tokens@.dom()
    }

    /// An empty registry.
    pub fn new() -> (r: Self)
        ensures
            r.wf(),
            r.ids() == Set::<Seq<char>>::empty(),
    {
        let r = SessionRegistry { tokens: AssocList::new() };
        proof {
            assert(r.ids() =~= Set::<Seq<char>>::empty());
        }
        r
    }
}

/// Registers a session's cancellation signal, replacing any earlier one
/// under the same id.
pub fn register_session_token(
    reg: &mut SessionRegistry,
    session_id: &str,
    token: tokio_util::sync::CancellationToken,
)
    requires
        old(reg).wf(),
    ensures
        final(reg).wf(),
        final(reg).ids() == old(reg).ids().insert(session_id@),
{
    reg.tokens.insert(session_id.to_owned(), token);
    proof {
        assert(reg.ids() =~= old(reg).ids().insert(session_id@));
    }
}

/// Removes a session's entry silently.
pub fn unregister_session_token(reg: &mut SessionRegistry, session_id: &str)
    requires
        old(reg).wf(),
    ensures
        final(reg).wf(),
        final(reg).ids() == old(reg).ids().remove(session_id@),
{
    let _ = reg.tokens.remove(session_id);
    proof {
        assert(reg.ids() =~= old(reg).ids().remove(session_id@));
    }
}

/// Whether a signal is registered for the id.
pub fn has_session_token(reg: &SessionRegistry, session_id: &str) -> (r: bool)
    requires
        reg.wf(),
    ensures
        r == reg.ids().contains(session_id@),
{
    reg.tokens.contains_key(session_id)
}

/// Cancels a session: removes its entry and fires its signal, reporting
/// whether an entry existed. Cancelling an unknown id is a no-op that
/// reports not found.
pub fn cancel_session(reg: &mut SessionRegistry, session_id: &str) -> (found: bool)
    requires
        old(reg).wf(),
    ensures
        final(reg).wf(),
        found == old(reg).ids().contains(session_id@),
        final(reg).ids() == old(reg).ids().remove(session_id@),
{
    let r = match reg.tokens.remove(session_id) {
        Some(token) => {
            token.cancel();
            true
        },
        None => false,
    };
    proof {
        assert(reg.ids() =~= old(reg).ids().remove(session_id@));
    }
    r
}

/// Law: cancelling a session removes its registry entry, so a second cancel
/// of the same id finds nothing and reports not found.
pub proof fn lemma_second_cancel_not_found(ids: Set<Seq<char>>, session_id: Seq<char>)
    ensures
        !ids.remove(session_id).contains(session_id),
{
}

/// Maps each session id to its pause flag; an absent entry counts as not
/// paused.
pub struct PauseRegistry {
    flags: AssocList<bool>,
}

impl View for PauseRegistry {
    type V = Map<Seq<char>, bool>;

    closed spec fn view(&self) -> Map<Seq<char>, bool> {
        self.flags@
    }
}

impl PauseRegistry {
    pub closed spec fn wf(&self) -> bool {
        self.flags.wf()
    }

    /// An empty registry.
    pub fn new() -> (r: Self)
        ensures
            r.wf(),
            r@ == Map::<Seq<char>, bool>::empty(),
    {
        PauseRegistry { flags: AssocList::new() }
    }
}

/// Whether the session counts as paused: its flag when one is set, not
/// paused when absent.
pub open spec fn spec_session_paused(flags: Map<Seq<char>, bool>, session_id: Seq<char>) -> bool {
    flags.dom().contains(session_id) && flags[session_id]
}

/// Sets or clears the paused state for a session, creating its flag on
/// demand.
pub fn set_session_paused(reg: &mut PauseRegistry, session_id: &str, paused: bool)
    requires
        old(reg).wf(),
    ensures
        final(reg).wf(),
        final(reg)@ == old(reg)@.insert(session_id@, paused),
{
    reg.flags.insert(session_id.to_owned(), paused);
}

/// Whether the session is currently paused; an unknown session is not.
pub fn is_session_paused(reg: &PauseRegistry, session_id: &str) -> (r: bool)
    requires
        reg.wf(),
    ensures
        r == spec_session_paused(reg@, session_id@),
{
    match reg.flags.get(session_id) {
        Some(flag) => *flag,
        None => false,
    }
}

/// Removes the pause flag entry for a session.
pub fn remove_session_pause_flag(reg: &mut PauseRegistry, session_id: &str)
    requires
        old(reg).wf(),
    ensures
        final(reg).wf(),
        final(reg)@ == old(reg)@.remove(session_id@),
{
    let _ = reg.flags.remove(session_id);
}

} // verus!

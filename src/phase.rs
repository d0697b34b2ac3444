use vstd::prelude::*;

use crate::text::str_eq;

verus! {

/// Name of the pre-dump phase.
pub const ACTION_PRE_DUMP: &'static str = "pre-dump";
/// Name of the post-dump phase.
pub const ACTION_POST_DUMP: &'static str = "post-dump";
/// Name of the pre-stream phase.
pub const ACTION_PRE_STREAM: &'static str = "pre-stream";
/// Name of the network-lock phase.
pub const ACTION_NETWORK_LOCK: &'static str = "network-lock";
/// Name of the network-unlock phase.
pub const ACTION_NETWORK_UNLOCK: &'static str = "network-unlock";
/// Name of the pre-restore phase.
pub const ACTION_PRE_RESTORE: &'static str = "pre-restore";
/// Name of the post-restore phase.
pub const ACTION_POST_RESTORE: &'static str = "post-restore";
/// Name of the post-resume phase.
pub const ACTION_POST_RESUME: &'static str = "post-resume";
/// Name of the request that uploads a dependency graph.
pub const ACTION_ADD_DEPENDENCIES: &'static str = "add-dependencies";

/// Environment variable that holds the phase name when the engine runs the hook.
pub const ENV_ACTION: &'static str = "CRTOOLS_SCRIPT_ACTION";
/// Environment variable that holds the images directory.
pub const ENV_IMAGE_DIR: &'static str = "CRTOOLS_IMAGE_DIR";
/// Environment variable that holds the PID of the container's init process.
pub const ENV_INIT_PID: &'static str = "CRTOOLS_INIT_PID";

/// A point in the checkpoint/restore lifecycle at which peers rendezvous.
#[derive(Clone, Copy, Debug, PartialEq, Eq, Structural)]
pub enum Phase {
    PreDump,
    PostDump,
    PreStream,
    NetworkLock,
    NetworkUnlock,
    PreRestore,
    PostRestore,
    PostResume,
}

/// The phase that `s` names, if any.
pub open spec fn phase_named(s: Seq<char>) -> Option<Phase> {
    if s == ACTION_PRE_DUMP@ {
        Some(Phase::PreDump)
    } else if s == ACTION_POST_DUMP@ {
        Some(Phase::PostDump)
    } else if s == ACTION_PRE_STREAM@ {
        Some(Phase::PreStream)
    } else if s == ACTION_NETWORK_LOCK@ {
        Some(Phase::NetworkLock)
    } else if s == ACTION_NETWORK_UNLOCK@ {
        Some(Phase::NetworkUnlock)
    } else if s == ACTION_PRE_RESTORE@ {
        Some(Phase::PreRestore)
    } else if s == ACTION_POST_RESTORE@ {
        Some(Phase::PostRestore)
    } else if s == ACTION_POST_RESUME@ {
        Some(Phase::PostResume)
    } else {
        None
    }
}

impl Phase {
    pub open spec fn spec_name(self) -> Seq<char> {
        match self {
            Phase::PreDump => ACTION_PRE_DUMP@,
            Phase::PostDump => ACTION_POST_DUMP@,
            Phase::PreStream => ACTION_PRE_STREAM@,
            Phase::NetworkLock => ACTION_NETWORK_LOCK@,
            Phase::NetworkUnlock => ACTION_NETWORK_UNLOCK@,
            Phase::PreRestore => ACTION_PRE_RESTORE@,
            Phase::PostRestore => ACTION_POST_RESTORE@,
            Phase::PostResume => ACTION_POST_RESUME@,
        }
    }

    /// Dump-side phases: pre-dump, post-dump, network-lock and pre-stream.
    pub open spec fn spec_is_dump(self) -> bool {
        match self {
            Phase::PreDump | Phase::PostDump | Phase::NetworkLock | Phase::PreStream => true,
            _ => false,
        }
    }

    /// The phase's name as the engine and the wire protocol write it.
    pub fn name(self) -> (r: &'static str)
        ensures
            r@ == self.spec_name(),
    {
        match self {
            Phase::PreDump => ACTION_PRE_DUMP,
            Phase::PostDump => ACTION_POST_DUMP,
            Phase::PreStream => ACTION_PRE_STREAM,
            Phase::NetworkLock => ACTION_NETWORK_LOCK,
            Phase::NetworkUnlock => ACTION_NETWORK_UNLOCK,
            Phase::PreRestore => ACTION_PRE_RESTORE,
            Phase::PostRestore => ACTION_POST_RESTORE,
            Phase::PostResume => ACTION_POST_RESUME,
        }
    }

    /// The phase named `s`, or `None` where `s` names none.
    pub fn from_name(s: &str) -> (r: Option<Phase>)
        ensures
            r == phase_named(s@),
    {
        if str_eq(s, ACTION_PRE_DUMP) {
            Some(Phase::PreDump)
        } else if str_eq(s, ACTION_POST_DUMP) {
            Some(Phase::PostDump)
        } else if str_eq(s, ACTION_PRE_STREAM) {
            Some(Phase::PreStream)
        } else if str_eq(s, ACTION_NETWORK_LOCK) {
            Some(Phase::NetworkLock)
        } else if str_eq(s, ACTION_NETWORK_UNLOCK) {
            Some(Phase::NetworkUnlock)
        } else if str_eq(s, ACTION_PRE_RESTORE) {
            Some(Phase::PreRestore)
        } else if str_eq(s, ACTION_POST_RESTORE) {
            Some(Phase::PostRestore)
        } else if str_eq(s, ACTION_POST_RESUME) {
            Some(Phase::PostResume)
        } else {
            None
        }
    }

    /// Whether this phase belongs to the dump side.
    pub fn is_dump(self) -> (r: bool)
        ensures
            r == self.spec_is_dump(),
    {
        match self {
            Phase::PreDump | Phase::PostDump | Phase::NetworkLock | Phase::PreStream => true,
            _ => false,
        }
    }
}

/// Each phase's name reads back as that phase.
pub proof fn lemma_phase_named_name(p: Phase)
    ensures
        phase_named(p.spec_name()) == Some(p),
{
    reveal_strlit("pre-dump");
    reveal_strlit("post-dump");
    reveal_strlit("pre-stream");
    reveal_strlit("network-lock");
    reveal_strlit("network-unlock");
    reveal_strlit("pre-restore");
    reveal_strlit("post-restore");
    reveal_strlit("post-resume");
    assert(ACTION_PRE_DUMP@.len() == 8);
    assert(ACTION_POST_DUMP@.len() == 9);
    assert(ACTION_PRE_STREAM@.len() == 10);
    assert(ACTION_NETWORK_LOCK@.len() == 12);
    assert(ACTION_NETWORK_UNLOCK@.len() == 14);
    assert(ACTION_PRE_RESTORE@.len() == 11);
    assert(ACTION_POST_RESTORE@.len() == 12);
    assert(ACTION_POST_RESUME@.len() == 11);
    assert(ACTION_NETWORK_LOCK@[0] != ACTION_POST_RESTORE@[0]);
    assert(ACTION_PRE_RESTORE@[1] != ACTION_POST_RESUME@[1]);
}

/// Whether `action` names a dump-side phase.
pub fn is_dump_action(action: &str) -> (r: bool)
    ensures
        r == (phase_named(action@) matches Some(p) && p.spec_is_dump()),
{
    match Phase::from_name(action) {
        Some(p) => p.is_dump(),
        None => false,
    }
}

/// Whether `action` names a restore-side phase.
pub fn is_restore_action(action: &str) -> (r: bool)
    ensures
        r == (phase_named(action@) matches Some(p) && !p.spec_is_dump()),
{
    match Phase::from_name(action) {
        Some(p) => !p.is_dump(),
        None => false,
    }
}

} // verus!

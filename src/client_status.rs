use vstd::prelude::*;

verus! {

/// Mathematical model of a session's state.
pub struct ClientStatusView {
    pub connected: bool,
    pub ready: bool,
    pub local_checkpoint: bool,
    pub action: Seq<char>,
}

/// State of one client session on the coordinator side.
pub struct ClientStatus {
    connected: bool,
    ready: bool,
    local_checkpoint: bool,
    current_action: String,
}

impl View for ClientStatus {
    type V = ClientStatusView;

    closed spec fn view(&self) -> ClientStatusView {
        ClientStatusView {
            connected: self.connected,
            ready: self.ready,
            local_checkpoint: self.local_checkpoint,
            action: self.current_action@,
        }
    }
}

impl ClientStatusView {
    /// The session has reached the barrier of `action`.
    pub open spec fn ready_for(self, action: Seq<char>) -> bool {
        self.ready && self.action == action
    }
}

impl ClientStatus {
    /// A freshly accepted session: connected, not ready, no local checkpoint,
    /// no phase announced yet.
    pub fn new() -> (r: Self)
        ensures
            r@.connected,
            !r@.ready,
            !r@.local_checkpoint,
            r@.action == Seq::<char>::empty(),
    {
        ClientStatus {
            connected: true,
            ready: false,
            local_checkpoint: false,
            current_action: String::new(),
        }
    }

    /// Records the phase that this session announced.
    pub fn set_action(&mut self, action: &str)
        ensures
            final(self)@ == (ClientStatusView { action: action@, ..old(self)@ }),
    {
        self.current_action = action.to_owned();
    }

    /// Whether the session is ready and its current phase is `action`.
    pub fn is_ready_for_action(&self, action: &str) -> (r: bool)
        ensures
            r == self@.ready_for(action@),
    {
        self.ready && crate::text::str_eq(self.current_action.as_str(), action)
    }

    pub fn is_connected(&self) -> (r: bool)
        ensures
            r == self@.connected,
    {
        self.connected
    }

    pub fn is_ready(&self) -> (r: bool)
        ensures
            r == self@.ready,
    {
        self.ready
    }

    pub fn set_ready(&mut self, value: bool)
        ensures
            final(self)@ == (ClientStatusView { ready: value, ..old(self)@ }),
    {
        self.ready = value;
    }

    /// Marks the session as having completed its own local checkpoint.
    pub fn set_local_checkpoint(&mut self)
        ensures
            final(self)@ == (ClientStatusView { local_checkpoint: true, ..old(self)@ }),
    {
        self.local_checkpoint = true;
    }

    pub fn has_local_checkpoint(&self) -> (r: bool)
        ensures
            r == self@.local_checkpoint,
    {
        self.local_checkpoint
    }

    /// Marks the session as gone: its connection closed on an error.
    pub fn set_disconnected(&mut self)
        ensures
            final(self)@ == (ClientStatusView { connected: false, ..old(self)@ }),
    {
        self.connected = false;
    }

    /// A copy of this session's state.
    pub fn duplicate(&self) -> (r: Self)
        ensures
            r@ == self@,
    {
        ClientStatus {
            connected: self.connected,
            ready: self.ready,
            local_checkpoint: self.local_checkpoint,
            current_action: self.current_action.clone(),
        }
    }
}

} // verus!

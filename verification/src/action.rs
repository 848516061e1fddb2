use vstd::prelude::*;

verus! {

/// Settings for a synthetic-node action; the defaults suit an action that
/// needs nothing beyond a connection.
#[derive(Clone, Copy, Debug, PartialEq, Eq, Structural)]
pub struct ActionCfg {
    /// Whether the action expects the peer to speak first.
    pub wait_for_peer: bool,
}

impl Default for ActionCfg {
    fn default() -> (r: ActionCfg)
        ensures
            !r.wait_for_peer,
    {
        ActionCfg { wait_for_peer: false }
    }
}

/// A synthetic node's simplest behaviour: connect to the peer, then
/// disconnect cleanly. The transport work happens in the driver; this type
/// carries the action's description and settings.
#[derive(Clone, Copy, Debug, PartialEq, Eq, Structural)]
pub struct Action {}

impl Action {
    /// What this action does, in words.
    pub fn info(&self) -> (r: &'static str)
        ensures
            r@ == "a synth node which only connects and immediately disconnects properly"@,
    {
        "a synth node which only connects and immediately disconnects properly"
    }

    /// The settings this action runs under.
    pub fn config(&self) -> (r: ActionCfg)
        ensures
            !r.wait_for_peer,
    {
        ActionCfg::default()
    }
}

/// The connect-and-disconnect action.
pub fn action() -> (a: Action)
    ensures
        a == (Action {  }),
{
    Action {  }
}

} // verus!

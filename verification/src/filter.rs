use vstd::prelude::*;
use crate::message::{Message, MessageV};
use crate::payload::Nonce;

verus! {

/// What the filter does with one kind of message.
#[derive(Clone, Copy, Debug, PartialEq, Eq, Structural)]
pub enum Filter {
    /// Answer it with the canonical reply (or silently consume it) and keep
    /// draining.
    AutoReply,
    /// Hand it to the caller.
    Disabled,
}

/// How many reads one draining call may spend before it gives up: a flood of
/// auto-replyable traffic can never stall a caller beyond this budget.
pub const RETRY_BUDGET: usize = 10;

/// The per-connection policy: one entry per covered message kind, plus a
/// logging flag that never alters control flow.
#[derive(Clone, Copy, Debug, PartialEq, Eq, Structural)]
pub struct MessageFilter {
    pub version: Filter,
    pub verack: Filter,
    pub ping: Filter,
    pub pong: Filter,
    pub getaddr: Filter,
    pub mempool: Filter,
    pub addr: Filter,
    pub headers: Filter,
    pub logging: bool,
}

/// The canonical reply to a message, where the protocol has one: a Version
/// is answered with Verack, a Ping with a Pong carrying the same nonce.
pub open spec fn spec_reply_for(m: MessageV) -> Option<MessageV> {
    match m {
        MessageV::Version(_) => Some(MessageV::Verack),
        MessageV::Ping(n) => Some(MessageV::Pong(n)),
        _ => None,
    }
}

/// The replies a filter owes for the first `n` messages of a queue, in
/// order: one canonical reply for each filtered message that has one.
pub open spec fn spec_replies_upto(f: MessageFilter, s: Seq<MessageV>, n: int) -> Seq<MessageV>
    decreases n,
{
    if n <= 0 {
        Seq::empty()
    } else {
        let prev = spec_replies_upto(f, s, n - 1);
        let m = s[n - 1];
        if f.spec_is_filtered(m) && spec_reply_for(m) is Some {
            prev.push(spec_reply_for(m)->Some_0)
        } else {
            prev
        }
    }
}

impl MessageFilter {
    /// The policy this filter assigns to a message, if the message's kind is
    /// one the filter covers.
    pub open spec fn spec_policy(self, m: MessageV) -> Option<Filter> {
        match m {
            MessageV::Version(_) => Some(self.version),
            MessageV::Verack => Some(self.verack),
            MessageV::Ping(_) => Some(self.ping),
            MessageV::Pong(_) => Some(self.pong),
            MessageV::GetAddr => Some(self.getaddr),
            MessageV::MemPool => Some(self.mempool),
            MessageV::Addr(_) => Some(self.addr),
            MessageV::Headers(_) => Some(self.headers),
            _ => None,
        }
    }

    /// A message is consumed by the filter exactly when its kind is covered
    /// and set to auto-reply; everything else is handed to the caller.
    pub open spec fn spec_is_filtered(self, m: MessageV) -> bool {
        self.spec_policy(m) == Some(Filter::AutoReply)
    }

    /// Every covered kind answered automatically; logging off.
    pub fn with_all_auto_reply() -> (r: MessageFilter)
        ensures
            forall|m: MessageV| r.spec_policy(m) is Some ==> r.spec_policy(m) == Some(
                Filter::AutoReply,
            ),
            !r.logging,
    {
        MessageFilter {
            version: Filter::AutoReply,
            verack: Filter::AutoReply,
            ping: Filter::AutoReply,
            pong: Filter::AutoReply,
            getaddr: Filter::AutoReply,
            mempool: Filter::AutoReply,
            addr: Filter::AutoReply,
            headers: Filter::AutoReply,
            logging: false,
        }
    }

    /// No kind answered automatically: every message reaches the caller.
    pub fn with_all_disabled() -> (r: MessageFilter)
        ensures
            forall|m: MessageV| r.spec_policy(m) is Some ==> r.spec_policy(m) == Some(
                Filter::Disabled,
            ),
            forall|m: MessageV| !r.spec_is_filtered(m),
            !r.logging,
    {
        MessageFilter {
            version: Filter::Disabled,
            verack: Filter::Disabled,
            ping: Filter::Disabled,
            pong: Filter::Disabled,
            getaddr: Filter::Disabled,
            mempool: Filter::Disabled,
            addr: Filter::Disabled,
            headers: Filter::Disabled,
            logging: false,
        }
    }

    /// The same policy with observation logging switched on; the policy
    /// entries are untouched.
    pub fn enable_logging(self) -> (r: MessageFilter)
        ensures
            r.logging,
            forall|m: MessageV| r.spec_policy(m) == self.spec_policy(m),
    {
        MessageFilter { logging: true, ..self }
    }

    /// Decides one received message: the canonical reply to send, nothing,
    /// or word that the message is the caller's to handle.
    pub fn decide(&self, m: &Message) -> (r: FilterDecision)
        ensures
            match r {
                FilterDecision::Reply(rep) => self.spec_is_filtered(m@) && spec_reply_for(m@)
                    == Some(rep@),
                FilterDecision::Consume => self.spec_is_filtered(m@) && spec_reply_for(m@)
                    is None,
                FilterDecision::Deliver => !self.spec_is_filtered(m@),
            },
    {
        let filtered = match m {
            Message::Version(_) => matches!(self.version, Filter::AutoReply),
            Message::Verack => matches!(self.verack, Filter::AutoReply),
            Message::Ping(_) => matches!(self.ping, Filter::AutoReply),
            Message::Pong(_) => matches!(self.pong, Filter::AutoReply),
            Message::GetAddr => matches!(self.getaddr, Filter::AutoReply),
            Message::MemPool => matches!(self.mempool, Filter::AutoReply),
            Message::Addr(_) => matches!(self.addr, Filter::AutoReply),
            Message::Headers(_) => matches!(self.headers, Filter::AutoReply),
            _ => false,
        };
        if !filtered {
            return FilterDecision::Deliver;
        }
        match m {
            Message::Version(_) => FilterDecision::Reply(Message::Verack),
            Message::Ping(n) => FilterDecision::Reply(Message::Pong(*n)),
            _ => FilterDecision::Consume,
        }
    }

    /// Drains a queue of already-received messages under a retry budget:
    /// consumed messages accumulate their canonical replies; the first
    /// unfiltered message is pointed out; a queue of nothing but filtered
    /// traffic ends the call within the budget, never past it.
    pub fn next_unfiltered_from(&self, incoming: &Vec<Message>, budget: usize) -> (r: (
        Vec<Message>,
        DrainOutcome,
    ))
        ensures
            match r.1 {
                DrainOutcome::Delivered { index } => {
                    &&& index < incoming@.len()
                    &&& index < budget
                    &&& !self.spec_is_filtered(incoming@[index as int]@)
                    &&& forall|j: int|
                        0 <= j < index ==> self.spec_is_filtered(#[trigger] incoming@[j]@)
                },
                DrainOutcome::BudgetExhausted { processed } => {
                    &&& processed == budget
                    &&& budget <= incoming@.len()
                    &&& forall|j: int|
                        0 <= j < budget ==> self.spec_is_filtered(#[trigger] incoming@[j]@)
                },
                DrainOutcome::QueueEmptied { processed } => {
                    &&& processed == incoming@.len()
                    &&& incoming@.len() < budget
                    &&& forall|j: int|
                        0 <= j < incoming@.len() ==> self.spec_is_filtered(
                            #[trigger] incoming@[j]@,
                        )
                },
            },
            (forall|j: int|
                0 <= j < incoming@.len() ==> self.spec_is_filtered(#[trigger] incoming@[j]@))
                ==> !(r.1 is Delivered),
            r.0@.map_values(|m: Message| m@) == spec_replies_upto(
                *self,
                incoming@.map_values(|m: Message| m@),
                match r.1 {
                    DrainOutcome::Delivered { index } => index as int,
                    DrainOutcome::BudgetExhausted { processed } => processed as int,
                    DrainOutcome::QueueEmptied { processed } => processed as int,
                },
            ),
    {
        let mut replies: Vec<Message> = Vec::new();
        let n = incoming.len();
        let mut i: usize = 0;
        while i < budget && i < n
            invariant
                i <= budget,
                i <= n,
                n == incoming@.len(),
                forall|j: int| 0 <= j < i ==> self.spec_is_filtered(#[trigger] incoming@[j]@),
                replies@.map_values(|m: Message| m@) == spec_replies_upto(
                    *self,
                    incoming@.map_values(|m: Message| m@),
                    i as int,
                ),
            decreases n - i,
        {
            match self.decide(&incoming[i]) {
                FilterDecision::Reply(rep) => {
                    let ghost repv = rep@;
                    let ghost views = incoming@.map_values(|m: Message| m@);
                    replies.push(rep);
                    proof {
                        assert(views[i as int] == incoming@[i as int]@);
                        assert(spec_reply_for(views[i as int]) == Some(repv));
                        assert(replies@.map_values(|m: Message| m@) =~= spec_replies_upto(
                            *self,
                            views,
                            i as int,
                        ).push(repv));
                    }
                },
                FilterDecision::Consume => {
                    proof {
                        let views = incoming@.map_values(|m: Message| m@);
                        assert(views[i as int] == incoming@[i as int]@);
                        assert(spec_reply_for(views[i as int]) is None);
                    }
                },
                FilterDecision::Deliver => {
                    return (replies, DrainOutcome::Delivered { index: i });
                },
            }
            i = i + 1;
        }
        let outcome = if i == budget {
            DrainOutcome::BudgetExhausted { processed: i }
        } else {
            DrainOutcome::QueueEmptied { processed: i }
        };
        (replies, outcome)
    }
}

/// What the filter does with one received message.
#[derive(Debug, PartialEq, Eq)]
pub enum FilterDecision {
    /// Send this reply, then keep draining.
    Reply(Message),
    /// Nothing to send; keep draining.
    Consume,
    /// The message is the caller's to handle.
    Deliver,
}

/// How one draining call over a finite queue ended.
#[derive(Clone, Copy, Debug, PartialEq, Eq, Structural)]
pub enum DrainOutcome {
    /// An unfiltered message surfaced at this position.
    Delivered { index: usize },
    /// The retry budget was spent on filtered traffic; the caller gets
    /// control back rather than waiting forever.
    BudgetExhausted { processed: usize },
    /// The queue ran out before the budget did.
    QueueEmptied { processed: usize },
}

} // verus!

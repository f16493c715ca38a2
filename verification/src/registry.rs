//! The live-subscriber registry: the set of connected viewers, the delivery
//! of published queue snapshots to every one of them, and the per-frame
//! behaviour of one viewer connection.
//!
//! Delivery is modelled by giving each subscriber an inbox of snapshots: a
//! publish appends the snapshot to the inbox of every subscriber connected at
//! that moment, and a connection that joins later starts with an empty inbox,
//! so it never sees earlier snapshots. The surrounding process performs the
//! actual sends and feeds received frames to `socket_reaction`.

use vstd::prelude::*;
use vstd::string::StringExecFns;
use crate::models::QueueToken;

verus! {

/// One connected viewer: its registration identifier and the snapshots
/// delivered to it so far, oldest first.
pub struct Subscriber {
    pub id: u64,
    pub inbox: Vec<Vec<QueueToken>>,
}

impl Subscriber {
    /// The delivered snapshots as sequences of token rows.
    pub open spec fn inbox_view(&self) -> Seq<Seq<QueueToken>> {
        Seq::new(self.inbox@.len(), |i: int| self.inbox@[i]@)
    }
}

/// There is a subscriber registered under this identifier.
pub open spec fn has_subscriber(subs: Seq<Subscriber>, id: u64) -> bool {
    exists|i: int| 0 <= i < subs.len() && subs[i].id == id
}

/// The index of the subscriber with this identifier (meaningful when it
/// exists and identifiers are unique).
pub open spec fn subscriber_index_of(subs: Seq<Subscriber>, id: u64) -> int {
    choose|i: int| 0 <= i < subs.len() && subs[i].id == id
}

/// The registry of currently-connected viewers.
pub struct Registry {
    pub subscribers: Vec<Subscriber>,
    pub next_subscriber_id: u64,
}

/// A publish delivered one snapshot: the same subscribers are still
/// registered, and each of their inboxes grew by exactly that snapshot.
pub open spec fn delivered(pre: Registry, post: Registry, snapshot: Seq<QueueToken>) -> bool {
    &&& post.subscribers@.len() == pre.subscribers@.len()
    &&& forall|i: int| 0 <= i < pre.subscribers@.len()
            ==> (#[trigger] post.subscribers@[i]).id == pre.subscribers@[i].id
    &&& forall|i: int| 0 <= i < pre.subscribers@.len()
            ==> (#[trigger] post.subscribers@[i]).inbox_view()
                == pre.subscribers@[i].inbox_view().push(snapshot)
    &&& post.next_subscriber_id == pre.next_subscriber_id
}

/// A new viewer joined: everyone already registered is untouched, and the
/// newcomer starts with an empty inbox, so snapshots published before it
/// joined are never delivered to it.
pub open spec fn joined(pre: Registry, post: Registry, id: u64) -> bool {
    &&& id == pre.next_subscriber_id
    &&& post.subscribers@.len() == pre.subscribers@.len() + 1
    &&& forall|i: int| 0 <= i < pre.subscribers@.len()
            ==> (#[trigger] post.subscribers@[i]) == pre.subscribers@[i]
    &&& post.subscribers@.last().id == id
    &&& post.subscribers@.last().inbox_view() == Seq::<Seq<QueueToken>>::empty()
    &&& post.next_subscriber_id == id + 1
}

impl Registry {
    /// Subscriber identifiers strictly increase and stay below the next one.
    pub open spec fn wf(&self) -> bool {
        &&& forall|i: int, j: int| 0 <= i < j < self.subscribers@.len()
                ==> self.subscribers@[i].id < self.subscribers@[j].id
        &&& forall|i: int| 0 <= i < self.subscribers@.len()
                ==> (#[trigger] self.subscribers@[i]).id < self.next_subscriber_id
    }

    /// An empty registry.
    pub fn new() -> (r: Registry)
        ensures
            r.wf(),
            r.subscribers@ == Seq::<Subscriber>::empty(),
            r.next_subscriber_id == 0,
    {
        Registry { subscribers: Vec::new(), next_subscriber_id: 0 }
    }

    /// Register a new connection and hand back its identifier. The new
    /// subscriber's inbox starts empty: there is no history backfill.
    pub fn subscribe(&mut self) -> (id: u64)
        requires
            old(self).wf(),
            old(self).next_subscriber_id < u64::MAX,
        ensures
            final(self).wf(),
            joined(*old(self), *final(self), id),
    {
        let id = self.next_subscriber_id;
        self.subscribers.push(Subscriber { id, inbox: Vec::new() });
        self.next_subscriber_id = id + 1;
        proof {
            assert(self.subscribers@.last().inbox_view()
                =~= Seq::<Seq<QueueToken>>::empty());
        }
        id
    }

    /// Deliver one snapshot to every currently-registered subscriber.
    #[verifier::loop_isolation(false)]
    pub fn publish(&mut self, snapshot: &Vec<QueueToken>)
        requires
            old(self).wf(),
        ensures
            final(self).wf(),
            delivered(*old(self), *final(self), snapshot@),
    {
        let ghost pre = *old(self);
        let n = self.subscribers.len();
        let mut i: usize = 0;
        while i < n
            invariant
                0 <= i <= n,
                n == self.subscribers@.len(),
                self.subscribers@.len() == pre.subscribers@.len(),
                self.next_subscriber_id == pre.next_subscriber_id,
                forall|j: int| i <= j < n
                    ==> (#[trigger] self.subscribers@[j]) == pre.subscribers@[j],
                forall|j: int| 0 <= j < i
                    ==> (#[trigger] self.subscribers@[j]).id == pre.subscribers@[j].id,
                forall|j: int| 0 <= j < i
                    ==> (#[trigger] self.subscribers@[j]).inbox_view()
                        == pre.subscribers@[j].inbox_view().push(snapshot@),
            decreases n - i,
        {
            let copy = copy_tokens(snapshot);
            let s = &mut self.subscribers[i];
            s.inbox.push(copy);
            proof {
                assert(self.subscribers@[i as int].inbox_view()
                    =~= pre.subscribers@[i as int].inbox_view().push(snapshot@));
            }
            i = i + 1;
        }
    }

    /// Deregister the connection with this identifier, if it is still
    /// registered; the other subscribers keep their places and inboxes.
    #[verifier::loop_isolation(false)]
    pub fn disconnect(&mut self, id: u64)
        requires
            old(self).wf(),
        ensures
            final(self).wf(),
            final(self).next_subscriber_id == old(self).next_subscriber_id,
            if has_subscriber(old(self).subscribers@, id) {
                final(self).subscribers@ == old(self).subscribers@.remove(
                    subscriber_index_of(old(self).subscribers@, id),
                )
            } else {
                final(self).subscribers@ == old(self).subscribers@
            },
    {
        let n = self.subscribers.len();
        let mut i: usize = 0;
        while i < n
            invariant
                0 <= i <= n,
                n == self.subscribers@.len(),
                forall|j: int| 0 <= j < i ==> (#[trigger] self.subscribers@[j]).id != id,
                *self == *old(self),
            decreases n - i,
        {
            if self.subscribers[i].id == id {
                proof {
                    let c = subscriber_index_of(self.subscribers@, id);
                    assert(0 <= c < self.subscribers@.len() && self.subscribers@[c].id == id);
                    if c < i as int {
                        assert(self.subscribers@[c].id < self.subscribers@[i as int].id);
                    } else if c > i as int {
                        assert(self.subscribers@[i as int].id < self.subscribers@[c].id);
                    }
                }
                self.subscribers.remove(i);
                return ;
            }
            i = i + 1;
        }
    }
}

/// An exact copy of a snapshot.
fn copy_tokens(v: &Vec<QueueToken>) -> (r: Vec<QueueToken>)
    ensures
        r@ == v@,
{
    let mut r: Vec<QueueToken> = Vec::new();
    let mut i: usize = 0;
    while i < v.len()
        invariant
            0 <= i <= v@.len(),
            r@ == v@.subrange(0, i as int),
        decreases v@.len() - i,
    {
        r.push(v[i]);
        proof {
            assert(v@.subrange(0, i as int + 1)
                =~= v@.subrange(0, i as int).push(v@[i as int]));
        }
        i = i + 1;
    }
    proof {
        assert(v@.subrange(0, v@.len() as int) =~= v@);
    }
    r
}

/// One frame received on a viewer connection.
pub enum WsFrame {
    Text(String),
    Binary(Vec<u8>),
    Ping(Vec<u8>),
    Pong(Vec<u8>),
    Close,
}

/// What the connection task does with a received frame.
pub enum WsAction {
    Reply(WsFrame),
    Disconnect,
    Ignore,
}

/// The per-frame behaviour of a viewer connection: echo text frames with an
/// `echo: ` prefix, answer ping with pong carrying the same payload, close
/// on a close frame, and ignore everything else.
pub fn socket_reaction(frame: WsFrame) -> (a: WsAction)
    ensures
        match frame {
            WsFrame::Text(t) => {
                &&& a matches WsAction::Reply(f)
                &&& f matches WsFrame::Text(s) && s@ == "echo: "@ + t@
            },
            WsFrame::Ping(d) => a == WsAction::Reply(WsFrame::Pong(d)),
            WsFrame::Pong(_) => a == WsAction::Ignore,
            WsFrame::Binary(_) => a == WsAction::Ignore,
            WsFrame::Close => a == WsAction::Disconnect,
        },
{
    match frame {
        WsFrame::Text(t) => {
            let reply = "echo: ".to_owned().concat(t.as_str());
            WsAction::Reply(WsFrame::Text(reply))
        },
        WsFrame::Ping(d) => WsAction::Reply(WsFrame::Pong(d)),
        WsFrame::Pong(_) => WsAction::Ignore,
        WsFrame::Binary(_) => WsAction::Ignore,
        WsFrame::Close => WsAction::Disconnect,
    }
}

} // verus!

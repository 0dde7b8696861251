use vstd::prelude::*;
use std::collections::HashMap;
use crate::models::{Message, MessageView};

verus! {

broadcast use vstd::std_specs::hash::group_hash_axioms;

/// How many undelivered messages a live channel buffers.
pub const CHANNEL_CAPACITY: usize = 100;

/// What became of a message handed to the registry.
#[derive(Clone, Copy, Debug, PartialEq, Eq, Structural)]
pub enum DeliveryOutcome {
    /// Queued on the recipient's live channel.
    Delivered,
    /// The recipient has no live channel: it is offline.
    NoChannel,
}

/// The queue after `m` is added to `q`: when full, the oldest entry goes.
pub open spec fn enqueue(q: Seq<MessageView>, m: MessageView) -> Seq<MessageView> {
    let p = q.push(m);
    if p.len() > CHANNEL_CAPACITY {
        p.subrange(1, p.len() as int)
    } else {
        p
    }
}

pub open spec fn queue_view(q: Vec<Message>) -> Seq<MessageView> {
    q@.map_values(|m: Message| m@)
}

/// The live channels: one queue of pending messages per connected user.
///
/// Each channel is a bounded queue held here, not a broadcast sender: what a
/// recipient will receive, and which entry goes when the queue is full, are
/// stated over the queue's contents. A broadcast sender holds no such contents.
/// Each of its receivers keeps its own position, and a send with no receiver
/// fails, so none of that could be stated of a sender.
pub struct ConnectionRegistry {
    channels: HashMap<i32, Vec<Message>>,
}

impl View for ConnectionRegistry {
    type V = Map<i32, Seq<MessageView>>;

    closed spec fn view(&self) -> Map<i32, Seq<MessageView>> {
        self.channels@.map_values(|q: Vec<Message>| queue_view(q))
    }
}

impl ConnectionRegistry {
    /// No channel buffers more than its capacity.
    pub open spec fn wf(&self) -> bool {
        forall|u: i32| #[trigger] self@.contains_key(u) ==> self@[u].len() <= CHANNEL_CAPACITY
    }

    pub fn new() -> (r: ConnectionRegistry)
        ensures
            r.wf(),
            r@ == Map::<i32, Seq<MessageView>>::empty(),
    {
        let r = ConnectionRegistry { channels: HashMap::new() };
        assert(r@ =~= Map::<i32, Seq<MessageView>>::empty());
        r
    }

    /// Opens a fresh, empty channel for `user`. A channel the user had before
    /// is dropped with whatever it still held.
    pub fn add_connection(&mut self, user_id: i32)
        requires
            old(self).wf(),
        ensures
            final(self).wf(),
            final(self)@ == old(self)@.insert(user_id, Seq::<MessageView>::empty()),
    {
        let ghost before = self@;
        self.channels.insert(user_id, Vec::new());
        assert(queue_view(self.channels@[user_id]) =~= Seq::<MessageView>::empty());
        assert(self@ =~= before.insert(user_id, Seq::<MessageView>::empty()));
    }

    /// Closes the channel of `user`, if there is one.
    pub fn remove_connection(&mut self, user_id: i32)
        requires
            old(self).wf(),
        ensures
            final(self).wf(),
            final(self)@ == old(self)@.remove(user_id),
    {
        let ghost before = self@;
        self.channels.remove(&user_id);
        assert(self@ =~= before.remove(user_id));
    }

    /// Whether `user` has a live channel.
    pub fn is_connected(&self, user_id: i32) -> (r: bool)
        ensures
            r == self@.contains_key(user_id),
    {
        self.channels.contains_key(&user_id)
    }

    /// Queues `msg` on the channel of its recipient, if the recipient has one.
    pub fn send_message(&mut self, msg: &Message) -> (r: DeliveryOutcome)
        requires
            old(self).wf(),
        ensures
            final(self).wf(),
            r == DeliveryOutcome::Delivered <==> old(self)@.contains_key(msg.to_user_id),
            r == DeliveryOutcome::Delivered ==> final(self)@ == old(self)@.insert(
                msg.to_user_id,
                enqueue(old(self)@[msg.to_user_id], msg@),
            ),
            r == DeliveryOutcome::NoChannel ==> final(self)@ == old(self)@,
    {
        let ghost before = self@;
        let to = msg.to_user_id;
        match self.channels.remove(&to) {
            Some(mut q) => {
                assert(before[to] == queue_view(q));
                q.push(msg.clone());
                if q.len() > CHANNEL_CAPACITY {
                    q.remove(0);
                    assert(queue_view(q) =~= enqueue(before[to], msg@));
                } else {
                    assert(queue_view(q) =~= enqueue(before[to], msg@));
                }
                self.channels.insert(to, q);
                assert(self@ =~= before.insert(to, enqueue(before[to], msg@)));
                DeliveryOutcome::Delivered
            },
            None => {
                assert(self@ =~= before);
                DeliveryOutcome::NoChannel
            },
        }
    }

    /// Hands out what the channel of `user` holds, oldest first, and empties it.
    pub fn take_pending(&mut self, user_id: i32) -> (r: Vec<Message>)
        requires
            old(self).wf(),
        ensures
            final(self).wf(),
            old(self)@.contains_key(user_id) ==> {
                &&& queue_view(r) == old(self)@[user_id]
                &&& final(self)@ == old(self)@.insert(user_id, Seq::<MessageView>::empty())
            },
            !old(self)@.contains_key(user_id) ==> r@.len() == 0 && final(self)@ == old(self)@,
    {
        let ghost before = self@;
        match self.channels.remove(&user_id) {
            Some(q) => {
                self.channels.insert(user_id, Vec::new());
                assert(queue_view(self.channels@[user_id]) =~= Seq::<MessageView>::empty());
                assert(self@ =~= before.insert(user_id, Seq::<MessageView>::empty()));
                q
            },
            None => {
                assert(self@ =~= before);
                Vec::new()
            },
        }
    }
}

/// Below capacity, a delivered message is added once, at the end, and nothing
/// else changes.
pub proof fn lemma_enqueue_below_capacity(q: Seq<MessageView>, m: MessageView)
    requires
        q.len() < CHANNEL_CAPACITY,
    ensures
        enqueue(q, m) == q.push(m),
        enqueue(q, m).len() == q.len() + 1,
        enqueue(q, m).last() == m,
{
}

/// A message delivered right after its recipient registered is the one thing
/// on the recipient's channel.
pub proof fn lemma_register_then_deliver(
    channels: Map<i32, Seq<MessageView>>,
    user: i32,
    m: MessageView,
)
    requires
        m.to_user_id == user,
    ensures
        ({
            let registered = channels.insert(user, Seq::<MessageView>::empty());
            &&& registered.contains_key(user)
            &&& registered.insert(user, enqueue(registered[user], m))[user] == seq![m]
        }),
{
    let registered = channels.insert(user, Seq::<MessageView>::empty());
    assert(enqueue(registered[user], m) =~= seq![m]);
}

/// Unregistering twice leaves the channels as unregistering once.
pub proof fn lemma_unregister_idempotent(channels: Map<i32, Seq<MessageView>>, user: i32)
    ensures
        channels.remove(user).remove(user) == channels.remove(user),
        !channels.remove(user).contains_key(user),
{
    assert(channels.remove(user).remove(user) =~= channels.remove(user));
}

} // verus!

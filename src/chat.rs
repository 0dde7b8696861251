use vstd::prelude::*;
use crate::models::{Message, MessageRequest, MessageView, opt_view};
use crate::registry::{ConnectionRegistry, DeliveryOutcome, enqueue};
use crate::store::{
    MessageStore,
    MessageStoreView,
    StoreError,
    HISTORY_LIMIT,
    partners_spec,
    recent_between_spec,
    valid_message,
};

verus! {

/// Why a send failed.
#[derive(Clone, Copy, Debug, PartialEq, Eq, Structural)]
pub enum SendError {
    /// The claimed sender is not the verified identity.
    UnauthorizedSender,
    /// Empty text, or a media message without a media reference.
    ValidationError,
    /// The store could not take the message.
    StorageError,
}

impl SendError {
    /// The reason shown to the sender; it never carries storage details.
    pub fn reason(&self) -> (r: &'static str)
        ensures
            *self == SendError::UnauthorizedSender ==> r@ == "Unauthorized sender"@,
            *self == SendError::ValidationError ==> r@ == "Invalid message"@,
            *self == SendError::StorageError ==> r@ == "Failed to save message"@,
    {
        match self {
            SendError::UnauthorizedSender => "Unauthorized sender",
            SendError::ValidationError => "Invalid message",
            SendError::StorageError => "Failed to save message",
        }
    }
}

/// A successful send: the stored record and what became of its live delivery.
pub struct SendReceipt {
    pub message: Message,
    pub outcome: DeliveryOutcome,
}

/// The record that the store makes of `req` under `id` at `created_at`.
pub open spec fn stored_view(req: MessageRequest, id: int, created_at: int) -> MessageView {
    MessageView {
        id,
        from_user_id: req.from_user_id as int,
        to_user_id: req.to_user_id as int,
        content: req.content@,
        message_type: req.message_type,
        file_path: opt_view(req.file_path),
        created_at,
    }
}

/// What sending `req` on behalf of `verified_user` at `now` yields against a
/// store in state `sv`: the stored record, or why there is none.
pub open spec fn send_result(sv: MessageStoreView, verified_user: i32, req: MessageRequest, now: int) -> Result<
    MessageView,
    SendError,
> {
    if verified_user != req.from_user_id {
        Err(SendError::UnauthorizedSender)
    } else if !valid_message(req.content@, req.message_type, opt_view(req.file_path)) {
        Err(SendError::ValidationError)
    } else if sv.next_id == i32::MAX {
        Err(SendError::StorageError)
    } else {
        Ok(stored_view(req, sv.next_id, stamp(sv.last_created_at, now)))
    }
}

/// The timestamp a message sent at `now` gets: time never goes back in the store.
pub open spec fn stamp(last: int, now: int) -> int {
    if now > last {
        now
    } else {
        last
    }
}

/// The message store and the live channels, and the rules that tie them:
/// a message is sent once it is stored; live delivery follows and never
/// decides the outcome.
pub struct ChatService {
    store: MessageStore,
    registry: ConnectionRegistry,
}

impl ChatService {
    pub open spec fn wf(&self) -> bool {
        self.store_view().next_id >= 1 && self.store_wf() && self.registry_wf()
    }

    pub closed spec fn store_wf(&self) -> bool {
        self.store.wf()
    }

    pub closed spec fn registry_wf(&self) -> bool {
        self.registry.wf()
    }

    pub closed spec fn store_view(&self) -> MessageStoreView {
        self.store@
    }

    pub closed spec fn channels(&self) -> Map<i32, Seq<MessageView>> {
        self.registry@
    }

    /// What a send of `req` by `verified_user` at `now` returns, and how it
    /// leaves the service.
    pub open spec fn send_post(
        before: ChatService,
        after: ChatService,
        verified_user: i32,
        req: MessageRequest,
        now: int,
        r: Result<SendReceipt, SendError>,
    ) -> bool {
        let sv = before.store_view();
        let valid = valid_message(req.content@, req.message_type, opt_view(req.file_path));
        &&& (verified_user != req.from_user_id) ==> r == Err::<SendReceipt, SendError>(
            SendError::UnauthorizedSender,
        )
        &&& (verified_user == req.from_user_id && !valid) ==> r == Err::<SendReceipt, SendError>(
            SendError::ValidationError,
        )
        &&& (verified_user == req.from_user_id && valid && sv.next_id == i32::MAX) ==> r == Err::<
            SendReceipt,
            SendError,
        >(SendError::StorageError)
        &&& r is Err ==> after.store_view() == sv && after.channels() == before.channels()
        &&& r is Ok <==> (verified_user == req.from_user_id && valid && sv.next_id < i32::MAX)
        &&& match r {
            Ok(rc) => {
                let m = stored_view(req, sv.next_id, stamp(sv.last_created_at, now));
                &&& rc.message@ == m
                &&& forall|i: int| 0 <= i < sv.messages.len() ==> #[trigger] sv.messages[i].id < m.id
                &&& after.store_view().messages == sv.messages.push(m)
                &&& after.store_view().next_id == sv.next_id + 1
                &&& after.store_view().last_created_at == m.created_at
                &&& (rc.outcome == DeliveryOutcome::Delivered <==> before.channels().contains_key(
                    req.to_user_id,
                ))
                &&& rc.outcome == DeliveryOutcome::Delivered ==> after.channels()
                    == before.channels().insert(
                    req.to_user_id,
                    enqueue(before.channels()[req.to_user_id], m),
                )
                &&& rc.outcome == DeliveryOutcome::NoChannel ==> after.channels()
                    == before.channels()
            },
            Err(_) => true,
        }
    }

    /// A service over messages already stored, with no live channels.
    pub fn from_store(store: MessageStore) -> (r: ChatService)
        requires
            store.wf(),
        ensures
            r.wf(),
            r.store_view() == store@,
            r.channels() == Map::<i32, Seq<MessageView>>::empty(),
    {
        ChatService { store, registry: ConnectionRegistry::new() }
    }

    pub fn new() -> (r: ChatService)
        ensures
            r.wf(),
            r.store_view().messages.len() == 0,
            r.store_view().next_id == 1,
            r.store_view().last_created_at == 0,
            r.channels() == Map::<i32, Seq<MessageView>>::empty(),
    {
        ChatService { store: MessageStore::new(), registry: ConnectionRegistry::new() }
    }

    pub fn store(&self) -> (r: &MessageStore)
        ensures
            r@ == self.store_view(),
            self.wf() ==> r.wf(),
    {
        &self.store
    }

    /// Opens a live channel for `user_id`, replacing any it had.
    pub fn connect(&mut self, user_id: i32)
        requires
            old(self).wf(),
        ensures
            final(self).wf(),
            final(self).store_view() == old(self).store_view(),
            final(self).channels() == old(self).channels().insert(
                user_id,
                Seq::<MessageView>::empty(),
            ),
    {
        self.registry.add_connection(user_id);
    }

    /// Closes the live channel of `user_id`; closing an absent one does nothing.
    pub fn disconnect(&mut self, user_id: i32)
        requires
            old(self).wf(),
        ensures
            final(self).wf(),
            final(self).store_view() == old(self).store_view(),
            final(self).channels() == old(self).channels().remove(user_id),
    {
        self.registry.remove_connection(user_id);
    }

    /// Takes what waits on the live channel of `user_id`, oldest first.
    pub fn take_pending(&mut self, user_id: i32) -> (r: Vec<Message>)
        requires
            old(self).wf(),
        ensures
            final(self).wf(),
            final(self).store_view() == old(self).store_view(),
            old(self).channels().contains_key(user_id) ==> {
                &&& r@.map_values(|m: Message| m@) == old(self).channels()[user_id]
                &&& final(self).channels() == old(self).channels().insert(
                    user_id,
                    Seq::<MessageView>::empty(),
                )
            },
            !old(self).channels().contains_key(user_id) ==> r@.len() == 0
                && final(self).channels() == old(self).channels(),
    {
        self.registry.take_pending(user_id)
    }

    /// Builds the record that storing `req` for `verified_user` at `now`
    /// (microseconds since the epoch) would make, or says why it would be
    /// refused. Nothing changes: a caller can make the record durable elsewhere
    /// first, then call `store_message`, which makes the same record.
    pub fn prepare_message(&self, verified_user: i32, req: &MessageRequest, now: i64) -> (r: Result<
        Message,
        SendError,
    >)
        requires
            self.wf(),
        ensures
            match r {
                Ok(m) => send_result(self.store_view(), verified_user, *req, now as int) == Ok::<
                    MessageView,
                    SendError,
                >(m@),
                Err(e) => send_result(self.store_view(), verified_user, *req, now as int) == Err::<
                    MessageView,
                    SendError,
                >(e),
            },
    {
        if verified_user != req.from_user_id {
            return Err(SendError::UnauthorizedSender);
        }
        match self.store.preview(
            req.from_user_id,
            req.to_user_id,
            &req.content,
            req.message_type,
            &req.file_path,
            now,
        ) {
            Ok(m) => Ok(m),
            Err(StoreError::ValidationError) => Err(SendError::ValidationError),
            Err(StoreError::StorageError) => Err(SendError::StorageError),
        }
    }

    /// Checks the sender and stores `req` at `now`; no live delivery yet.
    pub fn store_message(&mut self, verified_user: i32, req: MessageRequest, now: i64) -> (r: Result<
        Message,
        SendError,
    >)
        requires
            old(self).wf(),
        ensures
            final(self).wf(),
            final(self).channels() == old(self).channels(),
            match r {
                Ok(m) => {
                    &&& send_result(old(self).store_view(), verified_user, req, now as int) == Ok::<
                        MessageView,
                        SendError,
                    >(m@)
                    &&& forall|i: int|
                        0 <= i < old(self).store_view().messages.len() ==> #[trigger] old(
                            self,
                        ).store_view().messages[i].id < m@.id
                    &&& final(self).store_view().messages == old(self).store_view().messages.push(
                        m@,
                    )
                    &&& final(self).store_view().next_id == old(self).store_view().next_id + 1
                    &&& final(self).store_view().last_created_at == m@.created_at
                },
                Err(e) => {
                    &&& send_result(old(self).store_view(), verified_user, req, now as int)
                        == Err::<MessageView, SendError>(e)
                    &&& final(self).store_view() == old(self).store_view()
                },
            },
    {
        if verified_user != req.from_user_id {
            return Err(SendError::UnauthorizedSender);
        }
        let MessageRequest { from_user_id, to_user_id, content, message_type, file_path } = req;
        match self.store.append(from_user_id, to_user_id, content, message_type, file_path, now) {
            Ok(m) => Ok(m),
            Err(StoreError::ValidationError) => Err(SendError::ValidationError),
            Err(StoreError::StorageError) => Err(SendError::StorageError),
        }
    }

    /// Pushes a stored record to its recipient's live channel, if there is one.
    pub fn deliver(&mut self, m: &Message) -> (r: DeliveryOutcome)
        requires
            old(self).wf(),
        ensures
            final(self).wf(),
            final(self).store_view() == old(self).store_view(),
            r == DeliveryOutcome::Delivered <==> old(self).channels().contains_key(m.to_user_id),
            r == DeliveryOutcome::Delivered ==> final(self).channels() == old(
                self,
            ).channels().insert(m.to_user_id, enqueue(old(self).channels()[m.to_user_id], m@)),
            r == DeliveryOutcome::NoChannel ==> final(self).channels() == old(self).channels(),
    {
        self.registry.send_message(m)
    }

    /// Sends `req` on behalf of `verified_user` at time `now` (microseconds
    /// since the epoch): checks the sender, stores the message, then pushes the
    /// stored record to the recipient's live channel if there is one.
    pub fn send_message(&mut self, verified_user: i32, req: MessageRequest, now: i64) -> (r: Result<
        SendReceipt,
        SendError,
    >)
        requires
            old(self).wf(),
        ensures
            final(self).wf(),
            Self::send_post(*old(self), *final(self), verified_user, req, now as int, r),
    {
        let ghost g = req;
        match self.store_message(verified_user, req, now) {
            Ok(m) => {
                let outcome = self.deliver(&m);
                let r = Ok(SendReceipt { message: m, outcome });
                assert(Self::send_post(*old(self), *self, verified_user, g, now as int, r));
                r
            },
            Err(e) => Err(e),
        }
    }

    /// The history between `verified_user` and `other_user`: the newest fifty
    /// messages, newest first.
    pub fn get_messages(&self, verified_user: i32, other_user: i32) -> (r: Vec<Message>)
        requires
            self.wf(),
        ensures
            r@.map_values(|m: Message| m@) == recent_between_spec(
                self.store_view().messages,
                verified_user as int,
                other_user as int,
                HISTORY_LIMIT as nat,
            ),
    {
        self.store.get_messages(verified_user, other_user)
    }

    /// Everyone `verified_user` has exchanged messages with, each once.
    pub fn get_chats(&self, verified_user: i32) -> (r: Vec<i32>)
        requires
            self.wf(),
        ensures
            r@.no_duplicates(),
            forall|p: i32| r@.contains(p) <==> partners_spec(
                self.store_view().messages,
                verified_user as int,
            ).contains(p as int),
    {
        self.store.conversation_partners(verified_user)
    }
}

} // verus!

use vstd::prelude::*;
use crate::models::{Message, MessageType, MessageView, copy_path, opt_view};

verus! {

/// Why an append was refused.
#[derive(Clone, Copy, Debug, PartialEq, Eq, Structural)]
pub enum StoreError {
    /// Empty text, or a media message without a media reference.
    ValidationError,
    /// The store cannot take the message (its id space is used up).
    StorageError,
}

/// How many messages a history request returns at most.
pub const HISTORY_LIMIT: usize = 50;

/// Whether a message with these fields may be stored.
pub open spec fn valid_message(
    content: Seq<char>,
    message_type: MessageType,
    file_path: Option<Seq<char>>,
) -> bool {
    if message_type.is_media() {
        file_path is Some
    } else {
        content.len() > 0
    }
}

/// Whether `m` was exchanged between `a` and `b`, in either direction.
pub open spec fn in_pair(m: MessageView, a: int, b: int) -> bool {
    (m.from_user_id == a && m.to_user_id == b) || (m.from_user_id == b && m.to_user_id == a)
}

/// The newest `limit` messages of the pair among `msgs[0..hi]`, newest first.
/// Messages are kept in the order they were stored, which is the order of
/// (created_at, id).
pub open spec fn recent_upto(msgs: Seq<MessageView>, hi: int, a: int, b: int, limit: nat) -> Seq<
    MessageView,
>
    decreases hi,
{
    if hi <= 0 || limit == 0 {
        seq![]
    } else if in_pair(msgs[hi - 1], a, b) {
        seq![msgs[hi - 1]] + recent_upto(msgs, hi - 1, a, b, (limit - 1) as nat)
    } else {
        recent_upto(msgs, hi - 1, a, b, limit)
    }
}

pub open spec fn recent_between_spec(msgs: Seq<MessageView>, a: int, b: int, limit: nat) -> Seq<
    MessageView,
> {
    recent_upto(msgs, msgs.len() as int, a, b, limit)
}

/// The other party of `m`, seen from `user`, if `user` takes part in it and
/// talks to someone else.
pub open spec fn partner_in(m: MessageView, user: int, p: int) -> bool {
    p != user && ((m.from_user_id == user && m.to_user_id == p) || (m.to_user_id == user
        && m.from_user_id == p))
}

pub open spec fn partners_spec(msgs: Seq<MessageView>, user: int) -> Set<int> {
    Set::new(|p: int| exists|i: int| 0 <= i < msgs.len() && #[trigger] partner_in(msgs[i], user, p))
}

/// Whether stored records keep the store's order: ids from 1 below
/// `i32::MAX`, strictly growing, and timestamps from 0, never falling.
pub open spec fn records_ordered(v: Seq<MessageView>) -> bool {
    &&& forall|i: int, j: int|
        0 <= i < j < v.len() ==> v[i].id < v[j].id && v[i].created_at <= v[j].created_at
    &&& forall|i: int| 0 <= i < v.len() ==> 1 <= #[trigger] v[i].id < i32::MAX && v[i].created_at >= 0
}

/// Whether `later` is newer than `earlier` in the order of (created_at, id).
pub open spec fn newer(later: MessageView, earlier: MessageView) -> bool {
    later.created_at > earlier.created_at || (later.created_at == earlier.created_at && later.id
        > earlier.id)
}

pub struct MessageStoreView {
    pub messages: Seq<MessageView>,
    pub next_id: int,
    pub last_created_at: int,
}

/// The append-only message store. Ids are handed out in increasing order,
/// timestamps never go back.
pub struct MessageStore {
    messages: Vec<Message>,
    next_id: i32,
    last_created_at: i64,
}

impl View for MessageStore {
    type V = MessageStoreView;

    closed spec fn view(&self) -> MessageStoreView {
        MessageStoreView {
            messages: self.messages@.map_values(|m: Message| m@),
            next_id: self.next_id as int,
            last_created_at: self.last_created_at as int,
        }
    }
}

impl MessageStore {
    /// Ids grow strictly and timestamps never fall along the stored order; the
    /// next id and the last timestamp bound all of them.
    pub open spec fn wf(&self) -> bool {
        let v = self@;
        &&& v.next_id >= 1
        &&& v.last_created_at >= 0
        &&& forall|i: int, j: int|
            0 <= i < j < v.messages.len() ==> v.messages[i].id < v.messages[j].id
                && v.messages[i].created_at <= v.messages[j].created_at
        &&& forall|i: int|
            0 <= i < v.messages.len() ==> 1 <= #[trigger] v.messages[i].id < v.next_id
                && v.messages[i].created_at <= v.last_created_at
    }

    pub fn new() -> (r: MessageStore)
        ensures
            r.wf(),
            r@.messages.len() == 0,
            r@.next_id == 1,
            r@.last_created_at == 0,
    {
        let r = MessageStore { messages: Vec::new(), next_id: 1, last_created_at: 0 };
        assert(r@.messages =~= Seq::<MessageView>::empty());
        r
    }

    pub fn len(&self) -> (r: usize)
        ensures
            r == self@.messages.len(),
    {
        self.messages.len()
    }

    /// The message stored at position `i`, in the order of storing.
    pub fn get(&self, i: usize) -> (r: &Message)
        requires
            i < self@.messages.len(),
        ensures
            r@ == self@.messages[i as int],
    {
        &self.messages[i]
    }

    /// The record that storing these fields at `now` would make: the next id
    /// in sequence, and `now` as timestamp, or the last timestamp given out if
    /// the clock went back. Nothing is stored.
    pub fn preview(
        &self,
        from_user_id: i32,
        to_user_id: i32,
        content: &String,
        message_type: MessageType,
        file_path: &Option<String>,
        now: i64,
    ) -> (r: Result<Message, StoreError>)
        requires
            self.wf(),
        ensures
            !valid_message(content@, message_type, opt_view(*file_path)) <==> r == Err::<
                Message,
                StoreError,
            >(StoreError::ValidationError),
            r == Err::<Message, StoreError>(StoreError::StorageError) <==> valid_message(
                content@,
                message_type,
                opt_view(*file_path),
            ) && self@.next_id == i32::MAX,
            match r {
                Ok(m) => m@ == (MessageView {
                    id: self@.next_id,
                    from_user_id: from_user_id as int,
                    to_user_id: to_user_id as int,
                    content: content@,
                    message_type,
                    file_path: opt_view(*file_path),
                    created_at: if now > self@.last_created_at {
                        now as int
                    } else {
                        self@.last_created_at
                    },
                }),
                Err(_) => true,
            },
    {
        let invalid = match message_type {
            MessageType::Text => content.as_str().is_empty(),
            _ => file_path.is_none(),
        };
        if invalid {
            return Err(StoreError::ValidationError);
        }
        if self.next_id == i32::MAX {
            return Err(StoreError::StorageError);
        }
        let created_at: i64 = if now > self.last_created_at {
            now
        } else {
            self.last_created_at
        };
        Ok(
            Message {
                id: self.next_id,
                from_user_id,
                to_user_id,
                content: content.clone(),
                message_type,
                file_path: copy_path(file_path),
                created_at,
            },
        )
    }

    /// Stores a message, as `preview` describes it.
    pub fn append(
        &mut self,
        from_user_id: i32,
        to_user_id: i32,
        content: String,
        message_type: MessageType,
        file_path: Option<String>,
        now: i64,
    ) -> (r: Result<Message, StoreError>)
        requires
            old(self).wf(),
        ensures
            final(self).wf(),
            !valid_message(content@, message_type, opt_view(file_path)) <==> r == Err::<
                Message,
                StoreError,
            >(StoreError::ValidationError),
            r == Err::<Message, StoreError>(StoreError::StorageError) <==> valid_message(
                content@,
                message_type,
                opt_view(file_path),
            ) && old(self)@.next_id == i32::MAX,
            r is Err ==> final(self)@ == old(self)@,
            match r {
                Ok(m) => {
                    &&& m@ == (MessageView {
                        id: old(self)@.next_id,
                        from_user_id: from_user_id as int,
                        to_user_id: to_user_id as int,
                        content: content@,
                        message_type,
                        file_path: opt_view(file_path),
                        created_at: if now > old(self)@.last_created_at {
                            now as int
                        } else {
                            old(self)@.last_created_at
                        },
                    })
                    &&& forall|i: int|
                        0 <= i < old(self)@.messages.len() ==> #[trigger] old(
                            self,
                        )@.messages[i].id < m@.id
                    &&& final(self)@.messages == old(self)@.messages.push(m@)
                    &&& final(self)@.next_id == old(self)@.next_id + 1
                    &&& final(self)@.last_created_at == m@.created_at
                },
                Err(_) => true,
            },
    {
        match self.preview(from_user_id, to_user_id, &content, message_type, &file_path, now) {
            Ok(m) => {
                let stored = m.clone();
                let ghost before = self@;
                self.messages.push(stored);
                self.next_id = self.next_id + 1;
                self.last_created_at = m.created_at;
                assert(self@.messages =~= before.messages.push(m@));
                Ok(m)
            },
            Err(e) => Err(e),
        }
    }

    /// Rebuilds the store from records kept elsewhere, in the order they were
    /// stored. `None` unless the records keep the store's order: ids from 1
    /// below `i32::MAX`, strictly growing, and timestamps from 0, never falling.
    pub fn from_records(records: Vec<Message>) -> (r: Option<MessageStore>)
        ensures
            r is Some <==> records_ordered(records@.map_values(|m: Message| m@)),
            match r {
                Some(s) => {
                    let v = records@.map_values(|m: Message| m@);
                    &&& s.wf()
                    &&& s@.messages == v
                    &&& s@.next_id == if v.len() == 0 {
                        1
                    } else {
                        v.last().id + 1
                    }
                    &&& s@.last_created_at == if v.len() == 0 {
                        0
                    } else {
                        v.last().created_at
                    }
                },
                None => true,
            },
    {
        let ghost v = records@.map_values(|m: Message| m@);
        let mut k: usize = 0;
        while k < records.len()
            invariant
                k <= records@.len(),
                v == records@.map_values(|m: Message| m@),
                records_ordered(v.take(k as int)),
            decreases records@.len() - k,
        {
            let m = &records[k];
            assert(v[k as int] == m@);
            let bad = m.id < 1 || m.id == i32::MAX || m.created_at < 0 || (k > 0 && (
            records[k - 1].id >= m.id || records[k - 1].created_at > m.created_at));
            if bad {
                assert(!records_ordered(v)) by {
                    if k > 0 {
                        assert(v[k - 1] == records@[k - 1]@);
                    }
                }
                return None;
            }
            assert(records_ordered(v.take(k + 1))) by {
                let t = v.take(k + 1);
                assert forall|i: int, j: int| 0 <= i < j < t.len() implies t[i].id < t[j].id
                    && t[i].created_at <= t[j].created_at by {
                    assert(t[i] == v[i] && t[j] == v[j]);
                    if j == k && i < k - 1 {
                        assert(v.take(k as int)[i] == v[i]);
                        assert(v.take(k as int)[k - 1] == v[k - 1]);
                        assert(v[k - 1] == records@[k - 1]@);
                    } else if j == k {
                        assert(v[k - 1] == records@[k - 1]@);
                    } else {
                        assert(v.take(k as int)[i] == v[i]);
                        assert(v.take(k as int)[j] == v[j]);
                    }
                }
                assert forall|i: int| 0 <= i < t.len() implies 1 <= #[trigger] t[i].id < i32::MAX
                    && t[i].created_at >= 0 by {
                    assert(t[i] == v[i]);
                    if i < k {
                        assert(v.take(k as int)[i] == v[i]);
                    }
                }
            }
            k = k + 1;
        }
        assert(v.take(records@.len() as int) =~= v);
        let n = records.len();
        let (next_id, last_created_at) = if n == 0 {
            (1i32, 0i64)
        } else {
            (records[n - 1].id + 1, records[n - 1].created_at)
        };
        let s = MessageStore { messages: records, next_id, last_created_at };
        assert(s@.messages == v);
        assert(s.wf()) by {
            if n > 0 {
                assert(v.last() == v[n - 1]);
                assert forall|i: int| 0 <= i < v.len() implies 1 <= #[trigger] v[i].id < s@.next_id
                    && v[i].created_at <= s@.last_created_at by {
                    if i < n - 1 {
                        assert(v[i].id < v[n - 1].id);
                    }
                }
            }
        }
        Some(s)
    }

    /// At most `limit` messages exchanged between `a` and `b`, newest first.
    pub fn recent_between(&self, a: i32, b: i32, limit: usize) -> (r: Vec<Message>)
        requires
            self.wf(),
        ensures
            r@.map_values(|m: Message| m@) == recent_between_spec(
                self@.messages,
                a as int,
                b as int,
                limit as nat,
            ),
    {
        let ghost msgs = self@.messages;
        let ghost n = self.messages@.len() as int;
        let mut res: Vec<Message> = Vec::new();
        let mut i: usize = self.messages.len();
        while i > 0 && res.len() < limit
            invariant
                i <= self.messages@.len(),
                msgs == self@.messages,
                n == msgs.len(),
                res@.len() <= limit,
                res@.map_values(|m: Message| m@) + recent_upto(
                    msgs,
                    i as int,
                    a as int,
                    b as int,
                    (limit - res@.len()) as nat,
                ) == recent_upto(msgs, n, a as int, b as int, limit as nat),
            decreases i,
        {
            let m = &self.messages[i - 1];
            assert(msgs[i - 1] == m@);
            if (m.from_user_id == a && m.to_user_id == b) || (m.from_user_id == b && m.to_user_id
                == a) {
                let ghost old_res = res@.map_values(|m: Message| m@);
                res.push(m.clone());
                assert(res@.map_values(|m: Message| m@) =~= old_res.push(m@));
                assert(old_res.push(m@) + recent_upto(
                    msgs,
                    i - 1,
                    a as int,
                    b as int,
                    (limit - res@.len()) as nat,
                ) =~= old_res + (seq![m@] + recent_upto(
                    msgs,
                    i - 1,
                    a as int,
                    b as int,
                    (limit - res@.len()) as nat,
                )));
            }
            i = i - 1;
        }
        assert(recent_upto(msgs, i as int, a as int, b as int, (limit - res@.len()) as nat)
            =~= seq![]);
        assert(res@.map_values(|m: Message| m@) =~= res@.map_values(|m: Message| m@) + seq![]);
        res
    }

    /// Every user with whom `user` has exchanged at least one message, each
    /// once, `user` excluded.
    pub fn conversation_partners(&self, user: i32) -> (r: Vec<i32>)
        requires
            self.wf(),
        ensures
            r@.no_duplicates(),
            forall|p: i32| r@.contains(p) <==> partners_spec(self@.messages, user as int).contains(p as int),
    {
        let ghost msgs = self@.messages;
        let mut res: Vec<i32> = Vec::new();
        let mut k: usize = 0;
        while k < self.messages.len()
            invariant
                k <= self.messages@.len(),
                msgs == self@.messages,
                res@.no_duplicates(),
                forall|p: i32|
                    res@.contains(p) <==> exists|i: int|
                        0 <= i < k && #[trigger] partner_in(msgs[i], user as int, p as int),
            decreases self.messages@.len() - k,
        {
            let m = &self.messages[k];
            assert(msgs[k as int] == m@);
            let candidate: Option<i32> = if m.from_user_id == user && m.to_user_id != user {
                Some(m.to_user_id)
            } else if m.to_user_id == user && m.from_user_id != user {
                Some(m.from_user_id)
            } else {
                None
            };
            let ghost old_res = res@;
            match candidate {
                Some(p) => {
                    if !contains_id(&res, p) {
                        res.push(p);
                        assert(res@ == old_res.push(p));
                        assert(res@.no_duplicates()) by {
                            assert forall|x: int, y: int| 0 <= x < y < res@.len() implies res@[x] != res@[y] by {
                                if y == res@.len() - 1 {
                                    assert(old_res[x] == res@[x]);
                                }
                            }
                        }
                    }
                },
                None => {},
            }
            assert forall|q: i32|
                res@.contains(q) <==> exists|i: int|
                    0 <= i < k + 1 && #[trigger] partner_in(msgs[i], user as int, q as int) by {
                if res@.contains(q) {
                    let j = choose|j: int| 0 <= j < res@.len() && res@[j] == q;
                    if j < old_res.len() {
                        assert(old_res[j] == q);
                        assert(old_res.contains(q));
                    } else {
                        assert(partner_in(msgs[k as int], user as int, q as int));
                    }
                }
                if exists|i: int| 0 <= i < k + 1 && #[trigger] partner_in(msgs[i], user as int, q as int) {
                    let i = choose|i: int| 0 <= i < k + 1 && #[trigger] partner_in(msgs[i], user as int, q as int);
                    if i < k {
                        assert(old_res.contains(q));
                        let j = choose|j: int| 0 <= j < old_res.len() && old_res[j] == q;
                        assert(res@[j] == q);
                    } else {
                        assert(candidate == Some(q));
                        if res@ == old_res {
                            assert(res@.contains(q));
                        } else {
                            assert(res@[res@.len() - 1] == q);
                        }
                    }
                }
            }
            k = k + 1;
        }
        res
    }

    /// The history between `user` and `other`: the newest fifty messages,
    /// newest first.
    pub fn get_messages(&self, user: i32, other: i32) -> (r: Vec<Message>)
        requires
            self.wf(),
        ensures
            r@.map_values(|m: Message| m@) == recent_between_spec(
                self@.messages,
                user as int,
                other as int,
                HISTORY_LIMIT as nat,
            ),
    {
        self.recent_between(user, other, HISTORY_LIMIT)
    }
}

/// A history comes newest first: each entry is newer, by (created_at, id),
/// than every entry after it.
pub proof fn lemma_recent_between_newest_first(s: MessageStore, a: int, b: int, limit: nat)
    requires
        s.wf(),
    ensures
        forall|k1: int, k2: int|
            0 <= k1 < k2 < recent_between_spec(s@.messages, a, b, limit).len() ==> newer(
                #[trigger] recent_between_spec(s@.messages, a, b, limit)[k1],
                #[trigger] recent_between_spec(s@.messages, a, b, limit)[k2],
            ),
{
    let msgs = s@.messages;
    assert forall|i: int, j: int| 0 <= i < j < msgs.len() implies newer(
        #[trigger] msgs[j],
        #[trigger] msgs[i],
    ) by {}
    lemma_recent_upto_ordered(msgs, msgs.len() as int, a, b, limit);
}

proof fn lemma_recent_upto_ordered(msgs: Seq<MessageView>, hi: int, a: int, b: int, limit: nat)
    requires
        hi <= msgs.len(),
        forall|i: int, j: int| 0 <= i < j < msgs.len() ==> newer(#[trigger] msgs[j], #[trigger] msgs[i]),
    ensures
        forall|k: int|
            0 <= k < recent_upto(msgs, hi, a, b, limit).len() ==> exists|j: int|
                0 <= j < hi && #[trigger] recent_upto(msgs, hi, a, b, limit)[k] == msgs[j],
        forall|k1: int, k2: int|
            0 <= k1 < k2 < recent_upto(msgs, hi, a, b, limit).len() ==> newer(
                #[trigger] recent_upto(msgs, hi, a, b, limit)[k1],
                #[trigger] recent_upto(msgs, hi, a, b, limit)[k2],
            ),
    decreases hi,
{
    if hi <= 0 || limit == 0 {
    } else if in_pair(msgs[hi - 1], a, b) {
        lemma_recent_upto_ordered(msgs, hi - 1, a, b, (limit - 1) as nat);
        let rest = recent_upto(msgs, hi - 1, a, b, (limit - 1) as nat);
        let r = recent_upto(msgs, hi, a, b, limit);
        assert(r == seq![msgs[hi - 1]] + rest);
        assert forall|k: int| 0 <= k < r.len() implies exists|j: int|
            0 <= j < hi && #[trigger] r[k] == msgs[j] by {
            if k == 0 {
                assert(r[0] == msgs[hi - 1]);
            } else {
                assert(r[k] == rest[k - 1]);
                let j = choose|j: int| 0 <= j < hi - 1 && #[trigger] rest[k - 1] == msgs[j];
                assert(r[k] == msgs[j]);
            }
        }
        assert forall|k1: int, k2: int| 0 <= k1 < k2 < r.len() implies newer(
            #[trigger] r[k1],
            #[trigger] r[k2],
        ) by {
            assert(r[k2] == rest[k2 - 1]);
            if k1 == 0 {
                let j = choose|j: int| 0 <= j < hi - 1 && #[trigger] rest[k2 - 1] == msgs[j];
                assert(newer(msgs[hi - 1], msgs[j]));
            } else {
                assert(r[k1] == rest[k1 - 1]);
            }
        }
    } else {
        lemma_recent_upto_ordered(msgs, hi - 1, a, b, limit);
        let r = recent_upto(msgs, hi, a, b, limit);
        let rest = recent_upto(msgs, hi - 1, a, b, limit);
        assert(r == rest);
        assert forall|k: int| 0 <= k < r.len() implies exists|j: int|
            0 <= j < hi && #[trigger] r[k] == msgs[j] by {
            let j = choose|j: int| 0 <= j < hi - 1 && #[trigger] rest[k] == msgs[j];
            assert(r[k] == msgs[j]);
        }
    }
}

fn contains_id(v: &Vec<i32>, x: i32) -> (r: bool)
    ensures
        r <==> v@.contains(x),
{
    let mut i: usize = 0;
    while i < v.len()
        invariant
            i <= v@.len(),
            forall|j: int| 0 <= j < i ==> v@[j] != x,
        decreases v@.len() - i,
    {
        if v[i] == x {
            return true;
        }
        i = i + 1;
    }
    false
}

/// A history holds only messages of the asked pair, and never more than the
/// limit.
pub proof fn lemma_recent_between_bounded(msgs: Seq<MessageView>, a: int, b: int, limit: nat)
    ensures
        recent_between_spec(msgs, a, b, limit).len() <= limit,
        forall|k: int|
            0 <= k < recent_between_spec(msgs, a, b, limit).len() ==> #[trigger] in_pair(
                recent_between_spec(msgs, a, b, limit)[k],
                a,
                b,
            ),
{
    lemma_recent_upto_bounded(msgs, msgs.len() as int, a, b, limit);
}

proof fn lemma_recent_upto_bounded(msgs: Seq<MessageView>, hi: int, a: int, b: int, limit: nat)
    ensures
        recent_upto(msgs, hi, a, b, limit).len() <= limit,
        forall|k: int|
            0 <= k < recent_upto(msgs, hi, a, b, limit).len() ==> #[trigger] in_pair(
                recent_upto(msgs, hi, a, b, limit)[k],
                a,
                b,
            ),
    decreases hi,
{
    if hi <= 0 || limit == 0 {
    } else if in_pair(msgs[hi - 1], a, b) {
        lemma_recent_upto_bounded(msgs, hi - 1, a, b, (limit - 1) as nat);
        let rest = recent_upto(msgs, hi - 1, a, b, (limit - 1) as nat);
        assert forall|k: int| 0 <= k < recent_upto(msgs, hi, a, b, limit).len() implies #[trigger] in_pair(
            recent_upto(msgs, hi, a, b, limit)[k],
            a,
            b,
        ) by {
            if k > 0 {
                assert(recent_upto(msgs, hi, a, b, limit)[k] == rest[k - 1]);
            }
        }
    } else {
        lemma_recent_upto_bounded(msgs, hi - 1, a, b, limit);
    }
}

} // verus!

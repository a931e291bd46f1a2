//! Outbound message queue and inbound message dispatcher.
use vstd::prelude::*;
use crate::codec::{bytes_eq, copy_bytes};
use crate::storage::Message;

verus! {

broadcast use crate::codec::lemma_bytes_deep_view;

/// An outbound message with its per-origin sequence number.
pub struct SignedMessage {
    pub sender: Vec<u8>,
    pub sequence: u64,
    pub payload: Vec<u8>,
}

pub open spec fn signed_view(m: SignedMessage) -> (Seq<u8>, u64, Seq<u8>) {
    (m.sender@, m.sequence, m.payload@)
}

/// The messages that stay after purging those of `sender` below `next`.
pub open spec fn purged(ms: Seq<(Seq<u8>, u64, Seq<u8>)>, sender: Seq<u8>, next: u64) -> Seq<(Seq<u8>, u64, Seq<u8>)>
    decreases ms.len(),
{
    if ms.len() == 0 {
        ms
    } else {
        let rest = purged(ms.drop_last(), sender, next);
        if ms.last().0 == sender && ms.last().1 < next {
            rest
        } else {
            rest.push(ms.last())
        }
    }
}

/// The number that a table of next sequence numbers holds for `sender`, 0 where none.
pub open spec fn sequence_in(t: Seq<(Vec<u8>, u64)>, sender: Seq<u8>) -> u64 {
    if exists|i: int| 0 <= i < t.len() && t[i].0@ == sender {
        t[choose|i: int| 0 <= i < t.len() && t[i].0@ == sender].1
    } else {
        0
    }
}

/// Append-only queue of outbound messages, numbered per origin.
pub struct MessageSendQueue {
    messages: Vec<SignedMessage>,
    next_sequences: Vec<(Vec<u8>, u64)>,
}

impl MessageSendQueue {
    /// The queued messages in order of enqueueing.
    pub closed spec fn queued(self) -> Seq<(Seq<u8>, u64, Seq<u8>)> {
        self.messages@.map_values(|m: SignedMessage| signed_view(m))
    }

    /// The sequence number the next message of `sender` gets.
    pub closed spec fn next_sequence(self, sender: Seq<u8>) -> u64 {
        sequence_in(self.next_sequences@, sender)
    }

    /// Origins appear once in the sequence table.
    pub closed spec fn wf(self) -> bool {
        forall|i: int, j: int|
            #![trigger self.next_sequences@[i], self.next_sequences@[j]]
            0 <= i < j < self.next_sequences@.len() ==> self.next_sequences@[i].0@
                != self.next_sequences@[j].0@
    }

    pub fn new() -> (r: MessageSendQueue)
        ensures
            r.wf(),
            r.queued().len() == 0,
            forall|s: Seq<u8>| r.next_sequence(s) == 0,
    {
        let r = MessageSendQueue { messages: Vec::new(), next_sequences: Vec::new() };
        assert(r.queued() =~= Seq::<(Seq<u8>, u64, Seq<u8>)>::empty());
        r
    }

    fn find_origin(&self, sender: &[u8]) -> (r: Option<usize>)
        requires
            self.wf(),
        ensures
            r is Some ==> r.unwrap() < self.next_sequences@.len() && self.next_sequences@[r.unwrap() as int].0@
                == sender@ && self.next_sequence(sender@) == self.next_sequences@[r.unwrap() as int].1,
            r is None ==> forall|i: int|
                0 <= i < self.next_sequences@.len() ==> self.next_sequences@[i].0@ != sender@,
            r is None ==> self.next_sequence(sender@) == 0,
    {
        let mut i: usize = 0;
        while i < self.next_sequences.len()
            invariant
                self.wf(),
                i <= self.next_sequences@.len(),
                forall|j: int| 0 <= j < i ==> self.next_sequences@[j].0@ != sender@,
            decreases self.next_sequences@.len() - i,
        {
            if bytes_eq(self.next_sequences[i].0.as_slice(), sender) {
                proof {
                    let k = choose|k: int|
                        0 <= k < self.next_sequences@.len() && self.next_sequences@[k].0@ == sender@;
                    if k != i {
                        if k < i {
                            assert(self.next_sequences@[k].0@ != self.next_sequences@[i as int].0@);
                        } else {
                            assert(self.next_sequences@[i as int].0@ != self.next_sequences@[k].0@);
                        }
                    }
                }
                return Some(i);
            }
            i += 1;
        }
        None
    }

    /// Enqueues a message of `sender` under its next sequence number, which it returns;
    /// `None`, with nothing queued, where that number is exhausted.
    pub fn push(&mut self, sender: Vec<u8>, payload: Vec<u8>) -> (r: Option<u64>)
        requires
            old(self).wf(),
        ensures
            final(self).wf(),
            r is Some <==> old(self).next_sequence(sender@) < u64::MAX,
            r is Some ==> {
                &&& r.unwrap() == old(self).next_sequence(sender@)
                &&& final(self).queued() == old(self).queued().push((sender@, r.unwrap(), payload@))
                &&& final(self).next_sequence(sender@) == r.unwrap() + 1
                &&& forall|s: Seq<u8>| s != sender@ ==> final(self).next_sequence(s) == old(self).next_sequence(s)
            },
            r is None ==> *final(self) == *old(self),
    {
        let found = self.find_origin(sender.as_slice());
        let seq: u64 = match found {
            Some(i) => self.next_sequences[i].1,
            None => 0,
        };
        if seq == u64::MAX {
            return None;
        }
        let ghost q0 = self.queued();
        let ghost t0 = self.next_sequences@;
        match found {
            Some(i) => {
                let key = copy_bytes(self.next_sequences[i].0.as_slice());
                self.next_sequences.set(i, (key, seq + 1));
                proof {
                    assert forall|s: Seq<u8>| s != sender@ implies self.next_sequence(s)
                        == old(self).next_sequence(s) by {
                        if exists|k: int| 0 <= k < t0.len() && t0[k].0@ == s {
                            let k = choose|k: int| 0 <= k < t0.len() && t0[k].0@ == s;
                            assert(self.next_sequences@[k].0@ == s);
                        }
                        if exists|k: int| 0 <= k < self.next_sequences@.len() && self.next_sequences@[k].0@ == s {
                            let k = choose|k: int|
                                0 <= k < self.next_sequences@.len() && self.next_sequences@[k].0@ == s;
                            assert(t0[k].0@ == s);
                        }
                    }
                    assert(self.next_sequences@[i as int].0@ == sender@);
                    let k = choose|k: int|
                        0 <= k < self.next_sequences@.len() && self.next_sequences@[k].0@ == sender@;
                    if k != i {
                        if k < i {
                            assert(t0[k].0@ != t0[i as int].0@);
                        } else {
                            assert(t0[i as int].0@ != t0[k].0@);
                        }
                    }
                    assert(self.next_sequence(sender@) == seq + 1);
                }
            },
            None => {
                let key = copy_bytes(sender.as_slice());
                self.next_sequences.push((key, 1));
                proof {
                    let n = t0.len() as int;
                    assert(self.next_sequences@[n].0@ == sender@);
                    assert forall|s: Seq<u8>| s != sender@ implies self.next_sequence(s)
                        == old(self).next_sequence(s) by {
                        if exists|k: int| 0 <= k < t0.len() && t0[k].0@ == s {
                            let k = choose|k: int| 0 <= k < t0.len() && t0[k].0@ == s;
                            assert(self.next_sequences@[k].0@ == s);
                        }
                        if exists|k: int| 0 <= k < self.next_sequences@.len() && self.next_sequences@[k].0@ == s {
                            let k = choose|k: int|
                                0 <= k < self.next_sequences@.len() && self.next_sequences@[k].0@ == s;
                            assert(t0[k].0@ == s);
                        }
                    }
                    let k = choose|k: int|
                        0 <= k < self.next_sequences@.len() && self.next_sequences@[k].0@ == sender@;
                    assert(k == n);
                    assert(self.next_sequence(sender@) == seq + 1);
                }
            },
        }
        let ghost sv = sender@;
        let ghost pv = payload@;
        self.messages.push(SignedMessage { sender, sequence: seq, payload });
        assert(self.queued() =~= q0.push((sv, seq, pv)));
        Some(seq)
    }

    /// Number of queued messages.
    pub fn count_messages(&self) -> (r: usize)
        ensures
            r == self.queued().len(),
    {
        self.messages.len()
    }

    /// A snapshot of the queued messages as (sender, sequence, payload).
    pub fn all_messages(&self) -> (r: Vec<(Vec<u8>, u64, Vec<u8>)>)
        ensures
            r.deep_view() == self.queued(),
    {
        let mut r: Vec<(Vec<u8>, u64, Vec<u8>)> = Vec::new();
        let mut i: usize = 0;
        while i < self.messages.len()
            invariant
                i <= self.messages@.len(),
                r@.len() == i,
                r.deep_view() == self.queued().subrange(0, i as int),
            decreases self.messages@.len() - i,
        {
            let m = &self.messages[i];
            r.push((copy_bytes(m.sender.as_slice()), m.sequence, copy_bytes(m.payload.as_slice())));
            assert(r@[i as int].deep_view() == self.queued()[i as int]);
            assert(r.deep_view() =~= self.queued().subrange(0, i + 1));
            i += 1;
        }
        assert(self.queued().subrange(0, self.queued().len() as int) =~= self.queued());
        r
    }

    /// Drops the messages of `sender` numbered below `next`, which the chain has received.
    pub fn purge(&mut self, sender: &[u8], next: u64)
        requires
            old(self).wf(),
        ensures
            final(self).wf(),
            final(self).queued() == purged(old(self).queued(), sender@, next),
            forall|s: Seq<u8>| final(self).next_sequence(s) == old(self).next_sequence(s),
            final(self).origins_spec() == old(self).origins_spec(),
    {
        let ghost q0 = self.queued();
        let ghost ns = self.next_sequences@;
        let mut kept: Vec<SignedMessage> = Vec::new();
        let mut rest: Vec<SignedMessage> = Vec::new();
        std::mem::swap(&mut rest, &mut self.messages);
        let ghost all = rest@;
        let n = rest.len();
        let mut i: usize = 0;
        // move the messages out, last first, then walk them in order
        let mut taken: Vec<SignedMessage> = Vec::new();
        while i < n
            invariant
                n == all.len(),
                i <= n,
                rest@ == all.subrange(0, n - i),
                q0 == all.map_values(|m: SignedMessage| signed_view(m)),
                taken@ == all.subrange(n - i, n as int).reverse(),
                self.next_sequences@ == ns,
            decreases n - i,
        {
            let m = rest.pop().unwrap();
            taken.push(m);
            assert(taken@ =~= all.subrange(n - i - 1, n as int).reverse());
            i += 1;
        }
        assert(taken@ =~= all.reverse());
        let mut j: usize = 0;
        while j < n
            invariant
                n == all.len(),
                j <= n,
                taken@ == all.subrange(j as int, n as int).reverse(),
                self.next_sequences@ == ns,
                q0 == all.map_values(|m: SignedMessage| signed_view(m)),
                kept@.map_values(|m: SignedMessage| signed_view(m)) == purged(
                    q0.subrange(0, j as int),
                    sender@,
                    next,
                ),
            decreases n - j,
        {
            let m = taken.pop().unwrap();
            assert(m == all[j as int]);
            let ghost kv = kept@.map_values(|m: SignedMessage| signed_view(m));
            assert(q0.subrange(0, j + 1).drop_last() =~= q0.subrange(0, j as int));
            assert(q0.subrange(0, j + 1).last() == signed_view(m));
            if !(bytes_eq(m.sender.as_slice(), sender) && m.sequence < next) {
                kept.push(m);
                assert(kept@.map_values(|m: SignedMessage| signed_view(m)) =~= kv.push(signed_view(m)));
            }
            assert(taken@ =~= all.subrange(j + 1, n as int).reverse());
            j += 1;
        }
        assert(q0.subrange(0, n as int) =~= q0);
        self.messages = kept;
        assert(self.next_sequences@ == ns);
    }

    /// The origins that have sent messages, in order of their first message.
    pub closed spec fn origins_spec(self) -> Seq<Seq<u8>> {
        self.next_sequences@.map_values(|e: (Vec<u8>, u64)| e.0@)
    }

    pub fn origins(&self) -> (r: Vec<Vec<u8>>)
        ensures
            r.deep_view() == self.origins_spec(),
    {
        let mut r: Vec<Vec<u8>> = Vec::new();
        let mut i: usize = 0;
        while i < self.next_sequences.len()
            invariant
                i <= self.next_sequences@.len(),
                r@.len() == i,
                r.deep_view() == self.origins_spec().subrange(0, i as int),
            decreases self.next_sequences@.len() - i,
        {
            r.push(copy_bytes(self.next_sequences[i].0.as_slice()));
            assert(r@[i as int].deep_view() == self.origins_spec()[i as int]);
            assert(r.deep_view() =~= self.origins_spec().subrange(0, i + 1));
            i += 1;
        }
        assert(self.origins_spec().subrange(0, i as int) =~= self.origins_spec());
        r
    }
}

/// Whether one of the topics takes a message addressed to `destination`.
pub open spec fn claimed(topics: Seq<Seq<u8>>, destination: Seq<u8>) -> bool {
    exists|i: int| 0 <= i < topics.len() && topics[i] == destination
}

/// The messages that some topic takes, in order.
pub open spec fn claimed_messages(topics: Seq<Seq<u8>>, ms: Seq<(Seq<u8>, Seq<u8>, Seq<u8>)>) -> Seq<
    (Seq<u8>, Seq<u8>, Seq<u8>),
>
    decreases ms.len(),
{
    if ms.len() == 0 {
        ms
    } else {
        let rest = claimed_messages(topics, ms.drop_last());
        if claimed(topics, ms.last().1) {
            rest.push(ms.last())
        } else {
            rest
        }
    }
}

/// How many messages no topic takes.
pub open spec fn unclaimed_count(topics: Seq<Seq<u8>>, ms: Seq<(Seq<u8>, Seq<u8>, Seq<u8>)>) -> nat
    decreases ms.len(),
{
    if ms.len() == 0 {
        0
    } else {
        unclaimed_count(topics, ms.drop_last()) + if claimed(topics, ms.last().1) {
            0nat
        } else {
            1nat
        }
    }
}

/// Routes inbound messages to the topics the application system subscribed to.
pub struct MessageDispatcher {
    topics: Vec<Vec<u8>>,
    inbox: Vec<Message>,
}

impl MessageDispatcher {
    pub closed spec fn topics_spec(self) -> Seq<Seq<u8>> {
        self.topics.deep_view()
    }

    /// Messages delivered and not yet taken by the application system.
    pub closed spec fn inbox_spec(self) -> Seq<(Seq<u8>, Seq<u8>, Seq<u8>)> {
        crate::storage::messages_view(self.inbox@)
    }

    pub fn new() -> (r: MessageDispatcher)
        ensures
            r.topics_spec().len() == 0,
            r.inbox_spec().len() == 0,
    {
        let r = MessageDispatcher { topics: Vec::new(), inbox: Vec::new() };
        assert(r.inbox_spec() =~= Seq::<(Seq<u8>, Seq<u8>, Seq<u8>)>::empty());
        r
    }

    /// Subscribes the application system to a topic.
    pub fn subscribe(&mut self, topic: Vec<u8>)
        ensures
            final(self).topics_spec() == old(self).topics_spec().push(topic@),
            final(self).inbox_spec() == old(self).inbox_spec(),
    {
        let ghost t0 = self.topics_spec();
        self.topics.push(topic);
        assert(self.topics_spec() =~= t0.push(topic@));
    }

    fn is_claimed(&self, destination: &[u8]) -> (r: bool)
        ensures
            r == claimed(self.topics_spec(), destination@),
    {
        let mut i: usize = 0;
        while i < self.topics.len()
            invariant
                i <= self.topics@.len(),
                forall|j: int| 0 <= j < i ==> self.topics_spec()[j] != destination@,
            decreases self.topics@.len() - i,
        {
            if bytes_eq(self.topics[i].as_slice(), destination) {
                assert(self.topics_spec()[i as int] == destination@);
                return true;
            }
            i += 1;
        }
        false
    }

    /// Delivers the messages in order and returns how many no topic took; those are dropped.
    pub fn dispatch_all(&mut self, messages: Vec<Message>) -> (r: u64)
        ensures
            final(self).topics_spec() == old(self).topics_spec(),
            final(self).inbox_spec() == old(self).inbox_spec() + claimed_messages(
                old(self).topics_spec(),
                crate::storage::messages_view(messages@),
            ),
            r as nat == unclaimed_count(old(self).topics_spec(), crate::storage::messages_view(messages@)),
    {
        let ghost mv = crate::storage::messages_view(messages@);
        let ghost i0 = self.inbox_spec();
        let ghost topics = self.topics_spec();
        let mut unhandled: u64 = 0;
        let mut i: usize = 0;
        while i < messages.len()
            invariant
                mv == crate::storage::messages_view(messages@),
                topics == self.topics_spec(),
                i <= messages@.len(),
                self.inbox_spec() == i0 + claimed_messages(topics, mv.subrange(0, i as int)),
                unhandled as nat == unclaimed_count(topics, mv.subrange(0, i as int)),
                unhandled <= i,
            decreases messages@.len() - i,
        {
            let m = &messages[i];
            assert(mv.subrange(0, i + 1).drop_last() =~= mv.subrange(0, i as int));
            assert(mv.subrange(0, i + 1).last() == m.view());
            if self.is_claimed(m.destination.as_slice()) {
                let ghost before = self.inbox_spec();
                let copy = Message {
                    sender: copy_bytes(m.sender.as_slice()),
                    destination: copy_bytes(m.destination.as_slice()),
                    payload: copy_bytes(m.payload.as_slice()),
                };
                self.inbox.push(copy);
                assert(self.inbox_spec() =~= before.push(m.view()));
            } else {
                unhandled = unhandled + 1;
            }
            i += 1;
        }
        assert(mv.subrange(0, mv.len() as int) =~= mv);
        unhandled
    }

    /// Hands the delivered messages to the application system.
    pub fn take_inbox(&mut self) -> (r: Vec<Message>)
        ensures
            crate::storage::messages_view(r@) == old(self).inbox_spec(),
            final(self).inbox_spec().len() == 0,
            final(self).topics_spec() == old(self).topics_spec(),
    {
        let mut r: Vec<Message> = Vec::new();
        std::mem::swap(&mut r, &mut self.inbox);
        assert(self.inbox_spec() =~= Seq::<(Seq<u8>, Seq<u8>, Seq<u8>)>::empty());
        r
    }
}

} // verus!

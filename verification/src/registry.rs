//! The subscription registry: a path-to-channels table for live,
//! best-effort notification fan-out.
//!
//! Each subscriber owns a fresh bounded channel registered under its
//! path. Delivery is non-blocking: a full channel drops that
//! subscriber's notification rather than stalling the writer. The
//! registry's verified bookkeeping is the list of registered paths; the
//! channels themselves are reached only through trusted wrappers.

use vstd::prelude::*;
use vstd::seq_lib::*;
use crate::wire::SubscribeResponse;

verus! {

/// The sending half of a subscriber's channel.
#[verifier::external_type_specification]
#[verifier::external_body]
#[verifier::reject_recursive_types(T)]
pub struct ExSender<T>(tokio::sync::mpsc::Sender<T>);

/// The receiving half of a subscriber's channel.
#[verifier::external_type_specification]
#[verifier::external_body]
#[verifier::reject_recursive_types(T)]
pub struct ExReceiver<T>(tokio::sync::mpsc::Receiver<T>);

/// Relies on tokio::sync::mpsc::channel: a fresh bounded channel whose
/// two halves are connected. The call panics on an empty buffer and on
/// one beyond the semaphore's permit cap, an eighth of the address
/// space, so both ends are excluded here.
#[verifier::external_body]
fn open_channel(capacity: usize) -> (r: (
    tokio::sync::mpsc::Sender<SubscribeResponse>,
    tokio::sync::mpsc::Receiver<SubscribeResponse>,
))
    requires
        1 <= capacity <= usize::MAX / 8,
{
    tokio::sync::mpsc::channel(capacity)
}

/// Relies on tokio::sync::mpsc::Sender::try_send: the message is
/// accepted unless the channel is full or closed; the call never blocks.
/// Whether it is accepted depends on the receiver, so nothing is
/// promised of the outcome.
#[verifier::external_body]
fn try_send_message(
    tx: &tokio::sync::mpsc::Sender<SubscribeResponse>,
    msg: SubscribeResponse,
) -> (delivered: bool) {
    tx.try_send(msg).is_ok()
}

/// Relies on tokio::sync::mpsc::Sender::clone: another handle on the
/// same channel.
#[verifier::external_body]
fn clone_sender(tx: &tokio::sync::mpsc::Sender<SubscribeResponse>) -> (r: tokio::sync::mpsc::Sender<
    SubscribeResponse,
>) {
    tx.clone()
}

/// An element of a filtered sequence is an element satisfying the
/// predicate, and conversely.
proof fn lemma_filter_membership<A>(s: Seq<A>, pred: spec_fn(A) -> bool, x: A)
    ensures
        s.filter(pred).contains(x) <==> s.contains(x) && pred(x),
    decreases s.len(),
{
    reveal_with_fuel(Seq::filter, 2);
    if s.len() == 0 {
        assert(s.filter(pred) =~= Seq::<A>::empty());
    } else {
        lemma_filter_membership(s.drop_last(), pred, x);
        assert(s.contains(x) <==> s.drop_last().contains(x) || s.last() == x) by {
            if s.contains(x) {
                let i = choose|i: int| 0 <= i < s.len() && s[i] == x;
                if i < s.len() - 1 {
                    assert(s.drop_last()[i] == x);
                }
            }
            if s.drop_last().contains(x) {
                let i = choose|i: int| 0 <= i < s.drop_last().len() && s.drop_last()[i] == x;
                assert(s[i] == x);
            }
        }
        if pred(s.last()) {
            assert(s.filter(pred) == s.drop_last().filter(pred).push(s.last()));
            assert(s.filter(pred).contains(x) <==> s.drop_last().filter(pred).contains(x)
                || s.last() == x) by {
                let f = s.drop_last().filter(pred);
                if s.filter(pred).contains(x) {
                    let i = choose|i: int| 0 <= i < f.push(s.last()).len() && f.push(
                        s.last(),
                    )[i] == x;
                    if i < f.len() {
                        assert(f[i] == x);
                    }
                }
                if f.contains(x) {
                    let i = choose|i: int| 0 <= i < f.len() && f[i] == x;
                    assert(f.push(s.last())[i] == x);
                }
                if s.last() == x {
                    assert(f.push(s.last())[f.len() as int] == x);
                }
            }
        } else {
            assert(s.filter(pred) == s.drop_last().filter(pred));
        }
    }
}

/// The registry: one entry per live subscriber, pairing the subscribed
/// path with the sending half of that subscriber's channel. Beside the
/// live channels it carries the history of offered notifications, a
/// ghost record that lets callers state what a write pushed out.
pub struct SubscriptionManager {
    subscriptions: Vec<(String, tokio::sync::mpsc::Sender<SubscribeResponse>)>,
    history: Ghost<Seq<(Seq<char>, crate::wire::SubscribeResponseModel)>>,
}

impl View for SubscriptionManager {
    type V = Seq<Seq<char>>;

    /// The registered paths, one per live subscriber, in registration
    /// order.
    closed spec fn view(&self) -> Seq<Seq<char>> {
        self.subscriptions@.map_values(
            |e: (String, tokio::sync::mpsc::Sender<SubscribeResponse>)| e.0@,
        )
    }
}

impl SubscriptionManager {
    /// The notifications offered so far: each entry pairs the notified
    /// path with the message offered to its subscribers, oldest first.
    pub closed spec fn notified(&self) -> Seq<(Seq<char>, crate::wire::SubscribeResponseModel)> {
        self.history@
    }

    /// An empty registry.
    pub fn new() -> (r: Self)
        ensures
            r@ == Seq::<Seq<char>>::empty(),
            r.notified() == Seq::<(Seq<char>, crate::wire::SubscribeResponseModel)>::empty(),
    {
        let r = SubscriptionManager {
            subscriptions: Vec::new(),
            history: Ghost(Seq::empty()),
        };
        proof {
            assert(r@ =~= Seq::<Seq<char>>::empty());
        }
        r
    }

    /// Registers a fresh channel under the path and hands back its
    /// receiving half, independent of every other subscriber's.
    pub fn subscribe(&mut self, path: String) -> (rx: tokio::sync::mpsc::Receiver<
        SubscribeResponse,
    >)
        ensures
            final(self)@ == old(self)@.push(path@),
            final(self).notified() == old(self).notified(),
    {
        proof {
            assert(usize::MAX >= 0xFFFF_FFFF);
        }
        let (tx, rx) = open_channel(100);
        let ghost before = self@;
        let ghost pathv = path@;
        self.subscriptions.push((path, tx));
        proof {
            assert(self@ =~= before.push(pathv));
        }
        rx
    }

    /// Drops every channel registered under the path, immediately;
    /// notifications already buffered in a dropped channel are lost once
    /// its receiver is gone.
    pub fn unsubscribe(&mut self, path: &str)
        ensures
            final(self)@ == old(self)@.filter(|q: Seq<char>| q != path@),
            final(self).notified() == old(self).notified(),
            forall|q: Seq<char>| #[trigger] final(self)@.contains(q) ==> old(self)@.contains(q)
                && q != path@,
            forall|q: Seq<char>| old(self)@.contains(q) && q != path@ ==> final(self)@.contains(
                q,
            ),
    {
        let wanted = path.to_owned();
        let mut kept: Vec<(String, tokio::sync::mpsc::Sender<SubscribeResponse>)> = Vec::new();
        let n = self.subscriptions.len();
        let mut i: usize = 0;
        proof {
            assert(old(self)@.subrange(0, 0) =~= Seq::<Seq<char>>::empty());
            reveal_with_fuel(Seq::<_>::filter, 1);
            assert(Seq::<Seq<char>>::empty().filter(|q: Seq<char>| q != path@)
                =~= Seq::<Seq<char>>::empty());
            assert(kept@.map_values(
                |e: (String, tokio::sync::mpsc::Sender<SubscribeResponse>)| e.0@,
            ) =~= Seq::<Seq<char>>::empty());
        }
        while i < n
            invariant
                n == self.subscriptions@.len(),
                self@ == old(self)@,
                i <= n,
                wanted@ == path@,
                kept@.map_values(
                    |e: (String, tokio::sync::mpsc::Sender<SubscribeResponse>)| e.0@,
                ) == self@.subrange(0, i as int).filter(|q: Seq<char>| q != path@),
            decreases n - i,
        {
            let ghost prefix = self@.subrange(0, i as int);
            proof {
                assert(self@.subrange(0, i + 1 as int) =~= prefix.push(self@[i as int]));
                assert(prefix.push(self@[i as int]).drop_last() =~= prefix);
                assert(prefix.push(self@[i as int]).last() == self@[i as int]);
                assert(self@[i as int] == self.subscriptions@[i as int].0@);
                reveal_with_fuel(Seq::<_>::filter, 2);
                assert(self@.subrange(0, i + 1 as int).filter(|q: Seq<char>| q != path@) == (
                if self@[i as int] != path@ {
                    prefix.filter(|q: Seq<char>| q != path@).push(self@[i as int])
                } else {
                    prefix.filter(|q: Seq<char>| q != path@)
                }));
            }
            if !self.subscriptions[i].0.eq(&wanted) {
                let entry = (
                    self.subscriptions[i].0.clone(),
                    clone_sender(&self.subscriptions[i].1),
                );
                let ghost kept_before = kept@;
                kept.push(entry);
                proof {
                    assert(kept@.map_values(
                        |e: (String, tokio::sync::mpsc::Sender<SubscribeResponse>)| e.0@,
                    ) =~= kept_before.map_values(
                        |e: (String, tokio::sync::mpsc::Sender<SubscribeResponse>)| e.0@,
                    ).push(self@[i as int]));
                }
            }
            i = i + 1;
        }
        proof {
            assert(self@.subrange(0, n as int) =~= self@);
        }
        self.subscriptions = kept;
        proof {
            assert forall|q: Seq<char>| #[trigger] self@.contains(q) implies old(self)@.contains(
                q,
            ) && q != path@ by {
                lemma_filter_membership(old(self)@, |q2: Seq<char>| q2 != path@, q);
            }
            assert forall|q: Seq<char>| old(self)@.contains(q) && q != path@ implies self@.contains(
                q,
            ) by {
                lemma_filter_membership(old(self)@, |q2: Seq<char>| q2 != path@, q);
            }
        }
    }

    /// Offers the message to every channel registered under the path,
    /// never blocking: a full channel loses this update. Reports how
    /// many subscribers were offered the message, and records the offer
    /// in the notification history.
    pub fn notify(&mut self, path: &str, response: SubscribeResponse) -> (n: usize)
        ensures
            final(self)@ == old(self)@,
            final(self).notified() == old(self).notified().push((path@, response@)),
            n as nat == old(self)@.filter(|q: Seq<char>| q == path@).len(),
    {
        proof {
            self.history@ = self.history@.push((path@, response@));
        }
        let wanted = path.to_owned();
        let total = self.subscriptions.len();
        let mut count: usize = 0;
        let mut i: usize = 0;
        proof {
            assert(self@.subrange(0, 0) =~= Seq::<Seq<char>>::empty());
            reveal_with_fuel(Seq::<_>::filter, 1);
            assert(Seq::<Seq<char>>::empty().filter(|q: Seq<char>| q == path@)
                =~= Seq::<Seq<char>>::empty());
        }
        while i < total
            invariant
                total == self.subscriptions@.len(),
                i <= total,
                wanted@ == path@,
                count as nat == self@.subrange(0, i as int).filter(
                    |q: Seq<char>| q == path@,
                ).len(),
            decreases total - i,
        {
            let ghost prefix = self@.subrange(0, i as int);
            proof {
                assert(self@.subrange(0, i + 1 as int) =~= prefix.push(self@[i as int]));
                assert(prefix.push(self@[i as int]).drop_last() =~= prefix);
                assert(prefix.push(self@[i as int]).last() == self@[i as int]);
                assert(self@[i as int] == self.subscriptions@[i as int].0@);
                prefix.lemma_filter_len(|q: Seq<char>| q == path@);
                reveal_with_fuel(Seq::<_>::filter, 2);
                assert(self@.subrange(0, i + 1 as int).filter(|q: Seq<char>| q == path@) == (
                if self@[i as int] == path@ {
                    prefix.filter(|q: Seq<char>| q == path@).push(self@[i as int])
                } else {
                    prefix.filter(|q: Seq<char>| q == path@)
                }));
            }
            if self.subscriptions[i].0.eq(&wanted) {
                let _ = try_send_message(&self.subscriptions[i].1, response.clone());
                count = count + 1;
            }
            i = i + 1;
        }
        proof {
            assert(self@.subrange(0, total as int) =~= self@);
        }
        count
    }
}

} // verus!

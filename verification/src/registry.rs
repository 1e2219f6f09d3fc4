//! The connection registry: the single source of truth for how many
//! clients are connected, and the fan-out point for notifications.
//!
//! Each registered handle is paired with a fresh integer identity, and the
//! identity — never value equality on the handle — is the removal key, so
//! two distinct connections can never be conflated. The surrounding
//! process keeps one registry behind its own mutual-exclusion lock and
//! calls each operation with the lock held.

use vstd::prelude::*;

use crate::channel;
use crate::message;

verus! {

/// One broadcast, as the registry recorded it: the payload that was handed
/// to every handle registered at the time of the call.
pub ghost struct BroadcastRecord {
    pub payload: Seq<char>,
    pub recipients: Seq<u64>,
}

struct Entry {
    id: u64,
    sender: tokio::sync::mpsc::UnboundedSender<String>,
}

spec fn ids_of(entries: Seq<Entry>) -> Seq<u64> {
    entries.map_values(|e: Entry| e.id)
}

/// An ordered collection of outbound-channel handles, one per live
/// connection, together with the ghost history of every broadcast made.
pub struct Registry {
    entries: Vec<Entry>,
    next_id: u64,
    history: Ghost<Seq<BroadcastRecord>>,
}

impl Registry {
    /// The identities of the currently registered handles, oldest first.
    pub closed spec fn ids(self) -> Seq<u64> {
        ids_of(self.entries@)
    }

    /// The identity the next registration will receive.
    pub closed spec fn next(self) -> u64 {
        self.next_id
    }

    /// Every broadcast made so far, oldest first.
    pub closed spec fn history(self) -> Seq<BroadcastRecord> {
        self.history@
    }

    /// Well-formedness: identities are pairwise distinct and below `next()`.
    pub open spec fn inv(self) -> bool {
        &&& self.ids().no_duplicates()
        &&& forall|i: int| 0 <= i < self.ids().len() ==> #[trigger] self.ids()[i] < self.next()
    }

    /// An empty registry with an empty broadcast history.
    pub fn new() -> (r: Registry)
        ensures
            r.inv(),
            r.ids() == Seq::<u64>::empty(),
            r.next() == 0,
            r.history() == Seq::<BroadcastRecord>::empty(),
    {
        let r = Registry { entries: Vec::new(), next_id: 0, history: Ghost(Seq::empty()) };
        proof {
            assert(r.ids() =~= Seq::<u64>::empty());
        }
        r
    }

    /// Whether a fresh identity is still available. Registration mints one
    /// identity per call and never reuses them, so an unverified caller
    /// checks this before registering; the identity space cannot run out
    /// in practice.
    pub fn has_capacity(&self) -> (b: bool)
        ensures
            b == (self.next() < u64::MAX),
    {
        self.next_id < u64::MAX
    }

    /// The current number of registered handles.
    pub fn len(&self) -> (n: usize)
        ensures
            n == self.ids().len(),
    {
        self.entries.len()
    }

    /// The current number of registered handles, rendered as the
    /// count-message payload.
    pub fn count(&self) -> (s: String)
        ensures
            s@ == message::count_message_view(self.ids().len()),
    {
        message::format_count(self.entries.len() as u64)
    }

    /// Adds a new outbound handle. Always succeeds: the membership grows by
    /// exactly the returned identity, which no earlier handle ever had.
    pub fn register(
        &mut self,
        sender: tokio::sync::mpsc::UnboundedSender<String>,
    ) -> (id: u64)
        requires
            old(self).inv(),
            old(self).next() < u64::MAX,
        ensures
            final(self).inv(),
            id == old(self).next(),
            !old(self).ids().contains(id),
            final(self).ids() == old(self).ids().push(id),
            final(self).next() == id + 1,
            final(self).history() == old(self).history(),
    {
        let ghost pre = *self;
        let id = self.next_id;
        self.next_id = self.next_id + 1;
        self.entries.push(Entry { id, sender });
        proof {
            assert(self.ids() =~= pre.ids().push(id));
            assert(!pre.ids().contains(id));
        }
        id
    }

    /// Removes the handle whose identity is `id`. Does nothing when no
    /// handle has that identity, so a second removal of the same identity
    /// never double-decrements the size.
    pub fn unregister(&mut self, id: u64)
        requires
            old(self).inv(),
        ensures
            final(self).inv(),
            final(self).ids() == old(self).ids().remove_value(id),
            final(self).next() == old(self).next(),
            final(self).history() == old(self).history(),
            !old(self).ids().contains(id) ==> final(self).ids() == old(self).ids(),
            old(self).ids().contains(id) ==> final(self).ids().len() == old(self).ids().len() - 1,
    {
        let ghost pre = *self;
        let n = self.entries.len();
        let mut i: usize = 0;
        while i < n
            invariant
                pre == *old(self),
                *self == pre,
                pre.inv(),
                n == self.entries@.len(),
                i <= n,
                forall|k: int| 0 <= k < i ==> #[trigger] pre.ids()[k] != id,
            decreases n - i,
        {
            if self.entries[i].id == id {
                self.entries.remove(i);
                proof {
                    assert(pre.ids()[i as int] == id);
                    pre.ids().index_of_first_ensures(id);
                    let m = pre.ids().index_of_first(id).unwrap();
                    assert(m == i as int);
                    assert(self.ids() =~= pre.ids().remove(i as int));
                    pre.ids().remove_ensures(i as int);
                    assert(self.ids() == pre.ids().remove_value(id));
                }
                return ;
            }
            i += 1;
        }
        proof {
            assert(!pre.ids().contains(id));
            pre.ids().index_of_first_ensures(id);
            assert(self.ids() == pre.ids().remove_value(id));
        }
    }

    /// Sends `msg` to every registered handle — one send attempt per
    /// member, recorded as one broadcast in the history — and drops each
    /// handle whose underlying connection has already gone away, so that
    /// stale handles cannot accumulate.
    pub fn broadcast(&mut self, msg: &str)
        requires
            old(self).inv(),
        ensures
            final(self).inv(),
            final(self).next() == old(self).next(),
            forall|x: u64| final(self).ids().contains(x) ==> old(self).ids().contains(x),
            final(self).ids().len() <= old(self).ids().len(),
            final(self).history() == old(self).history().push(
                BroadcastRecord { payload: msg@, recipients: old(self).ids() },
            ),
    {
        let ghost pre = *self;
        let mut survivors: Vec<Entry> = Vec::new();
        let ghost mut src: Seq<int> = Seq::empty();
        let n = self.entries.len();
        let mut i: usize = 0;
        while i < n
            invariant
                pre == *old(self),
                *self == pre,
                pre.inv(),
                n == self.entries@.len(),
                i <= n,
                src.len() == ids_of(survivors@).len(),
                ids_of(survivors@).len() <= i,
                forall|k: int|
                    0 <= k < src.len() ==> 0 <= #[trigger] src[k] < i
                        && ids_of(survivors@)[k] == pre.ids()[src[k]],
                forall|k: int, l: int| 0 <= k < l < src.len() ==> #[trigger] src[k] < #[trigger] src[l],
            decreases n - i,
        {
            let e = &self.entries[i];
            if channel::send_text(&e.sender, msg) {
                let fresh_handle = channel::clone_sender(&e.sender);
                let ghost old_survivor_ids = ids_of(survivors@);
                survivors.push(Entry { id: e.id, sender: fresh_handle });
                proof {
                    src = src.push(i as int);
                    assert(ids_of(survivors@) =~= old_survivor_ids.push(pre.ids()[i as int]));
                }
            }
            i += 1;
        }
        self.entries = survivors;
        let ghost rec = BroadcastRecord { payload: msg@, recipients: pre.ids() };
        self.history = Ghost(pre.history@.push(rec));
        proof {
            assert forall|a: int, b: int|
                0 <= a < self.ids().len() && 0 <= b < self.ids().len() && a != b
                implies self.ids()[a] != self.ids()[b] by {
                assert(self.ids()[a] == pre.ids()[src[a]]);
                assert(self.ids()[b] == pre.ids()[src[b]]);
                if a < b {
                    assert(src[a] < src[b]);
                } else {
                    assert(src[b] < src[a]);
                }
            }
            assert forall|x: u64| self.ids().contains(x) implies pre.ids().contains(x) by {
                let k = choose|k: int| 0 <= k < self.ids().len() && self.ids()[k] == x;
                assert(pre.ids()[src[k]] == x);
            }
            assert forall|j: int| 0 <= j < self.ids().len()
                implies #[trigger] self.ids()[j] < self.next() by {
                assert(self.ids()[j] == pre.ids()[src[j]]);
            }
        }
    }

    /// A client connects: its handle is registered and one broadcast of the
    /// updated count goes out to every member — including the new client
    /// itself, which therefore always sees itself counted.
    pub fn connect(
        &mut self,
        sender: tokio::sync::mpsc::UnboundedSender<String>,
    ) -> (id: u64)
        requires
            old(self).inv(),
            old(self).next() < u64::MAX,
        ensures
            final(self).inv(),
            id == old(self).next(),
            !old(self).ids().contains(id),
            forall|x: u64| final(self).ids().contains(x) ==> old(self).ids().push(id).contains(x),
            final(self).ids().len() <= old(self).ids().len() + 1,
            final(self).history() == old(self).history().push(
                BroadcastRecord {
                    payload: message::count_message_view(old(self).ids().len() + 1),
                    recipients: old(self).ids().push(id),
                },
            ),
    {
        let id = self.register(sender);
        let payload = self.count();
        self.broadcast(payload.as_str());
        id
    }

    /// A client departs: its handle is unregistered (at most once takes
    /// effect) and one broadcast of the updated count goes out to every
    /// remaining member.
    pub fn disconnect(&mut self, id: u64)
        requires
            old(self).inv(),
        ensures
            final(self).inv(),
            final(self).next() == old(self).next(),
            forall|x: u64|
                final(self).ids().contains(x) ==> old(self).ids().remove_value(id).contains(x),
            final(self).ids().len() <= old(self).ids().remove_value(id).len(),
            final(self).history() == old(self).history().push(
                BroadcastRecord {
                    payload: message::count_message_view(old(self).ids().remove_value(id).len()),
                    recipients: old(self).ids().remove_value(id),
                },
            ),
    {
        self.unregister(id);
        let payload = self.count();
        self.broadcast(payload.as_str());
    }
}

/// The membership left after the removals in `gone`, applied oldest first
/// to `ids` (each removal as `unregister` performs it).
pub open spec fn remove_each(ids: Seq<u64>, gone: Seq<u64>) -> Seq<u64>
    decreases gone.len(),
{
    if gone.len() == 0 {
        ids
    } else {
        remove_each(ids.remove_value(gone[0]), gone.drop_first())
    }
}

/// Removing a present value takes the length down by exactly one; removing
/// an absent one changes nothing.
pub proof fn lemma_remove_value_len(s: Seq<u64>, x: u64)
    ensures
        s.contains(x) ==> s.remove_value(x).len() == s.len() - 1,
        !s.contains(x) ==> s.remove_value(x) == s,
{
    s.index_of_first_ensures(x);
}

/// A removal keeps every other value's membership unchanged.
pub proof fn lemma_remove_value_keeps_others(s: Seq<u64>, x: u64, y: u64)
    requires
        y != x,
    ensures
        s.remove_value(x).contains(y) == s.contains(y),
{
    s.index_of_first_ensures(x);
    match s.index_of_first(x) {
        Some(i) => {
            s.remove_ensures(i);
            if s.contains(y) {
                let k = choose|k: int| 0 <= k < s.len() && s[k] == y;
                if k < i {
                    assert(s.remove(i)[k] == y);
                } else {
                    assert(s.remove(i)[k - 1] == y);
                }
            }
            if s.remove(i).contains(y) {
                let k = choose|k: int| 0 <= k < s.remove(i).len() && s.remove(i)[k] == y;
                if k < i {
                    assert(s[k] == y);
                } else {
                    assert(s[k + 1] == y);
                }
            }
        },
        None => {},
    }
}

/// On duplicate-free membership, a removal leaves the value gone for good
/// and the membership duplicate-free.
pub proof fn lemma_remove_value_no_dup(s: Seq<u64>, x: u64)
    requires
        s.no_duplicates(),
    ensures
        s.remove_value(x).no_duplicates(),
        !s.remove_value(x).contains(x),
{
    s.index_of_first_ensures(x);
    match s.index_of_first(x) {
        Some(i) => {
            s.remove_ensures(i);
            let r = s.remove(i);
            assert forall|a: int, b: int|
                0 <= a < r.len() && 0 <= b < r.len() && a != b implies r[a] != r[b] by {
                if a < i && b < i {
                    assert(r[a] == s[a] && r[b] == s[b]);
                } else if a < i {
                    assert(r[a] == s[a] && r[b] == s[b + 1]);
                } else if b < i {
                    assert(r[a] == s[a + 1] && r[b] == s[b]);
                } else {
                    assert(r[a] == s[a + 1] && r[b] == s[b + 1]);
                }
            }
            if r.contains(x) {
                let k = choose|k: int| 0 <= k < r.len() && r[k] == x;
                if k < i {
                    assert(s[k] == x && s[i] == x);
                } else {
                    assert(s[k + 1] == x && s[i] == x);
                }
            }
        },
        None => {},
    }
}

/// Law: removing the same identity twice takes effect exactly once. The
/// registry keeps its membership duplicate-free, so after one removal the
/// identity is gone and a second removal — the race between an explicit
/// `unregister` and `broadcast`'s dead-handle eviction — changes nothing:
/// the size reflects exactly one removal.
pub proof fn lemma_remove_twice(ids: Seq<u64>, id: u64)
    requires
        ids.no_duplicates(),
    ensures
        ids.remove_value(id).remove_value(id) == ids.remove_value(id),
{
    lemma_remove_value_no_dup(ids, id);
    lemma_remove_value_len(ids.remove_value(id), id);
}

/// Law: counting after settling. Starting from an empty registry, a run of
/// registrations hands out the duplicate-free identities `joined`; the
/// distinct identities in `gone` then disconnect. The membership left
/// holds exactly `joined.len() - gone.len()` handles — so `count()` after
/// N connects and M of those disconnecting reports N - M.
pub proof fn lemma_net_count(joined: Seq<u64>, gone: Seq<u64>)
    requires
        joined.no_duplicates(),
        gone.no_duplicates(),
        forall|x: u64| gone.contains(x) ==> joined.contains(x),
    ensures
        remove_each(joined, gone).len() == joined.len() - gone.len(),
    decreases gone.len(),
{
    if gone.len() > 0 {
        let x0 = gone[0];
        assert(gone.contains(x0));
        let rest = joined.remove_value(x0);
        lemma_remove_value_len(joined, x0);
        lemma_remove_value_no_dup(joined, x0);
        let gone1 = gone.drop_first();
        assert forall|a: int, b: int|
            0 <= a < gone1.len() && 0 <= b < gone1.len() && a != b
            implies gone1[a] != gone1[b] by {
            assert(gone1[a] == gone[a + 1] && gone1[b] == gone[b + 1]);
        }
        assert forall|x: u64| gone1.contains(x) implies rest.contains(x) by {
            let k = choose|k: int| 0 <= k < gone1.len() && gone1[k] == x;
            assert(gone[k + 1] == x);
            assert(gone.contains(x));
            assert(x != x0);
            lemma_remove_value_keeps_others(joined, x0, x);
        }
        lemma_net_count(rest, gone1);
    }
}

} // verus!

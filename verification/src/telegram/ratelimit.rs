//! Pacing for Telegram limits: about one message a second per chat, and a
//! tighter budget for draft updates.

use vstd::prelude::*;

verus! {

/// The kinds of call that are paced apart.
#[derive(Debug, Clone, Copy, PartialEq, Eq, Structural, Hash)]
pub enum Kind {
    /// A message that lands in the chat.
    Message,
    /// A draft update (`sendMessageDraft`).
    Draft,
    /// Chat actions, reactions, callback answers.
    Light,
}

/// The shortest time between two calls of a kind to one chat, in nanoseconds.
pub open spec fn gap_of(kind: Kind, disabled: bool) -> u64 {
    if disabled {
        0
    } else {
        match kind {
            Kind::Message => 1_000_000_000,
            Kind::Draft => 450_000_000,
            Kind::Light => 150_000_000,
        }
    }
}

/// The shortest time between two calls of a kind to one chat, in nanoseconds.
pub fn gap(kind: Kind, disabled: bool) -> (r: u64)
    ensures
        r == gap_of(kind, disabled),
{
    if disabled {
        return 0;
    }
    match kind {
        Kind::Message => 1_000_000_000,
        Kind::Draft => 450_000_000,
        Kind::Light => 150_000_000,
    }
}

/// Whether `TG_RATE_LIMITS` switches pacing off (tests, local Bot API servers).
pub fn disabled(setting: Option<&str>) -> (r: bool)
    ensures
        r == (match setting {
            Some(v) => v@ == "off"@ || v@ == "0"@,
            None => false,
        }),
{
    match setting {
        Some(v) => crate::text::same(v, "off") || crate::text::same(v, "0"),
        None => false,
    }
}

/// A chat and a kind of call to it, with the last time that was given out.
#[derive(Debug, Clone, Copy, PartialEq, Eq, Structural)]
pub struct Slot {
    pub chat_id: i64,
    pub kind: Kind,
    pub time: u64,
}

/// How many slots are kept before old ones are dropped.
pub const MANY_SLOTS: usize = 10_000;

/// How long a slot is kept then, in nanoseconds.
pub const KEPT_FOR: u64 = 60_000_000_000;

/// The times given out last, one for each chat and kind of call.
#[derive(Debug)]
pub struct ChatSlots {
    list: Vec<Slot>,
}

/// Whether a slot is of that chat and kind.
pub open spec fn is_slot(s: Slot, chat_id: i64, kind: Kind) -> bool {
    s.chat_id == chat_id && s.kind == kind
}

/// The time given out last to a chat and kind of call.
pub open spec fn last_slot(list: Seq<Slot>, chat_id: i64, kind: Kind) -> Option<u64>
    decreases list.len(),
{
    if list.len() == 0 {
        None
    } else if is_slot(list[0], chat_id, kind) {
        Some(list[0].time)
    } else {
        last_slot(list.skip(1), chat_id, kind)
    }
}

/// When the next call may go out: now, or as soon as the gap after the last one
/// is over, as far as the clock counts.
pub open spec fn next_slot(last: Option<u64>, gap: u64, now: u64) -> u64 {
    match last {
        Some(t) => {
            let after = if t + gap <= u64::MAX {
                (t + gap) as u64
            } else {
                u64::MAX
            };
            if after > now {
                after
            } else {
                now
            }
        },
        None => now,
    }
}

/// With a time noted for a chat and kind of call.
pub open spec fn noted(list: Seq<Slot>, s: Slot) -> Seq<Slot>
    decreases list.len(),
{
    if list.len() == 0 {
        seq![s]
    } else if is_slot(list[0], s.chat_id, s.kind) {
        seq![s] + list.skip(1)
    } else {
        seq![list[0]] + noted(list.skip(1), s)
    }
}

/// Whether a slot is recent enough to be kept.
pub open spec fn is_recent(s: Slot, now: u64) -> bool {
    now < s.time + KEPT_FOR
}

/// The slots that are recent enough to be kept.
pub open spec fn recent(list: Seq<Slot>, now: u64) -> Seq<Slot> {
    list.filter(|s: Slot| is_recent(s, now))
}

/// Without the old slots, where there are too many.
pub open spec fn pruned(list: Seq<Slot>, now: u64) -> Seq<Slot> {
    if list.len() > MANY_SLOTS {
        recent(list, now)
    } else {
        list
    }
}

impl ChatSlots {
    /// The times given out last.
    pub closed spec fn slots(&self) -> Seq<Slot> {
        self.list@
    }

    /// Nothing given out yet.
    pub fn new() -> (r: ChatSlots)
        ensures
            r.slots() == Seq::<Slot>::empty(),
    {
        ChatSlots { list: Vec::new() }
    }

    fn note(&mut self, s: Slot)
        ensures
            final(self).slots() == noted(old(self).slots(), s),
    {
        let ghost all = self.list@;
        let mut i: usize = 0;
        assert(all.skip(0) =~= all);
        assert(all.take(0) + noted(all, s) =~= noted(all, s));
        while i < self.list.len()
            invariant
                i <= self.list@.len(),
                self.list@ == all,
                all == old(self).slots(),
                noted(all, s) == all.take(i as int) + noted(all.skip(i as int), s),
            decreases self.list@.len() - i,
        {
            let ghost rest = all.skip(i as int);
            assert(rest[0] == all[i as int]);
            if self.list[i].chat_id == s.chat_id && self.list[i].kind == s.kind {
                self.list.set(i, s);
                assert(self.list@ =~= all.take(i as int) + (seq![s] + rest.skip(1)));
                return;
            }
            proof {
                assert(rest.skip(1) =~= all.skip(i + 1));
                assert(all.take(i as int) + (seq![rest[0]] + noted(rest.skip(1), s)) =~= all.take(
                    i + 1,
                ) + noted(rest.skip(1), s));
            }
            i = i + 1;
        }
        assert(all.take(i as int) =~= all);
        assert(all.push(s) =~= all + seq![s]);
        self.list.push(s);
    }

    fn last(&self, chat_id: i64, kind: Kind) -> (r: Option<u64>)
        ensures
            r == last_slot(self.slots(), chat_id, kind),
    {
        let ghost all = self.list@;
        let mut i: usize = 0;
        assert(all.skip(0) =~= all);
        while i < self.list.len()
            invariant
                i <= self.list@.len(),
                self.list@ == all,
                last_slot(all, chat_id, kind) == last_slot(all.skip(i as int), chat_id, kind),
            decreases self.list@.len() - i,
        {
            assert(all.skip(i as int)[0] == all[i as int]);
            if self.list[i].chat_id == chat_id && self.list[i].kind == kind {
                return Some(self.list[i].time);
            }
            assert(all.skip(i as int).skip(1) =~= all.skip(i + 1));
            i = i + 1;
        }
        None
    }

    fn prune(&mut self, now: u64)
        ensures
            final(self).slots() == pruned(old(self).slots(), now),
    {
        if self.list.len() <= MANY_SLOTS {
            return;
        }
        let ghost all = self.list@;
        let ghost keep = |s: Slot| is_recent(s, now);
        let mut kept: Vec<Slot> = Vec::new();
        let mut i: usize = 0;
        while i < self.list.len()
            invariant
                i <= self.list@.len(),
                self.list@ == all,
                keep == (|s: Slot| is_recent(s, now)),
                kept@ == all.take(i as int).filter(keep),
            decreases self.list@.len() - i,
        {
            let s = self.list[i];
            proof {
                assert(all.take(i + 1) =~= all.take(i as int).push(s));
                all.take(i as int).lemma_filter_push(s, keep);
            }
            if (now as u128) < (s.time as u128) + (KEPT_FOR as u128) {
                kept.push(s);
            }
            i = i + 1;
        }
        assert(all.take(i as int) =~= all);
        self.list = kept;
    }

    /// Gives out the next time for a call, and returns how long to wait for it.
    /// Times and waits are in nanoseconds.
    pub fn reserve(&mut self, chat_id: i64, kind: Kind, disabled: bool, now: u64) -> (wait: u64)
        ensures
            ({
                let slot = next_slot(
                    last_slot(old(self).slots(), chat_id, kind),
                    gap_of(kind, disabled),
                    now,
                );
                &&& wait == slot - now
                &&& final(self).slots() == pruned(
                    noted(old(self).slots(), Slot { chat_id, kind, time: slot }),
                    now,
                )
            }),
    {
        let g = gap(kind, disabled);
        let slot: u64 = match self.last(chat_id, kind) {
            Some(t) => {
                let after = t.saturating_add(g);
                if after > now {
                    after
                } else {
                    now
                }
            },
            None => now,
        };
        self.note(Slot { chat_id, kind, time: slot });
        self.prune(now);
        slot - now
    }
}

proof fn lemma_noted(list: Seq<Slot>, s: Slot, chat_id: i64, kind: Kind)
    ensures
        last_slot(noted(list, s), s.chat_id, s.kind) == Some(s.time),
        !is_slot(s, chat_id, kind) ==> last_slot(noted(list, s), chat_id, kind) == last_slot(
            list,
            chat_id,
            kind,
        ),
    decreases list.len(),
{
    let n = noted(list, s);
    if list.len() == 0 {
        assert(n.skip(1) =~= Seq::<Slot>::empty());
        assert(last_slot(n.skip(1), chat_id, kind) is None);
    } else if is_slot(list[0], s.chat_id, s.kind) {
        assert(n.skip(1) =~= list.skip(1));
    } else {
        lemma_noted(list.skip(1), s, chat_id, kind);
        assert(n.skip(1) =~= noted(list.skip(1), s));
    }
}

/// Whether no chat and kind of call has two slots.
pub open spec fn one_each(list: Seq<Slot>) -> bool {
    forall|i: int, j: int|
        0 <= i < j < list.len() ==> !is_slot(
            #[trigger] list[i],
            (#[trigger] list[j]).chat_id,
            list[j].kind,
        )
}

proof fn lemma_last_is_there(list: Seq<Slot>, chat_id: i64, kind: Kind)
    ensures
        last_slot(list, chat_id, kind) is None == (forall|i: int|
            0 <= i < list.len() ==> !is_slot(#[trigger] list[i], chat_id, kind)),
    decreases list.len(),
{
    if list.len() > 0 && !is_slot(list[0], chat_id, kind) {
        let t = list.skip(1);
        lemma_last_is_there(t, chat_id, kind);
        assert forall|i: int| 0 <= i < t.len() implies t[i] == #[trigger] list[i + 1] by {}
        if last_slot(t, chat_id, kind) is None {
            assert forall|i: int| 0 <= i < list.len() implies !is_slot(
                #[trigger] list[i],
                chat_id,
                kind,
            ) by {
                if i > 0 {
                    assert(list[i] == t[i - 1]);
                }
            }
        } else {
            let i = choose|i: int| 0 <= i < t.len() && is_slot(#[trigger] t[i], chat_id, kind);
            assert(is_slot(list[i + 1], chat_id, kind));
        }
    }
}

proof fn lemma_kept(list: Seq<Slot>, chat_id: i64, kind: Kind, now: u64)
    ensures
        last_slot(list, chat_id, kind) matches Some(t) ==> now < t + KEPT_FOR ==> last_slot(
            recent(list, now),
            chat_id,
            kind,
        ) == Some(t),
        one_each(list) && !(last_slot(list, chat_id, kind) matches Some(t) && now < t + KEPT_FOR)
            ==> last_slot(recent(list, now), chat_id, kind) is None,
    decreases list.len(),
{
    let keep = |s: Slot| is_recent(s, now);
    if list.len() == 0 {
        assert(recent(list, now) =~= Seq::<Slot>::empty()) by {
            reveal(Seq::filter);
        }
    } else {
        let head = list[0];
        let t = list.skip(1);
        lemma_kept(t, chat_id, kind, now);
        assert(list =~= seq![head] + t);
        Seq::filter_distributes_over_add(seq![head], t, keep);
        assert(seq![head].filter(keep) =~= (if keep(head) {
            seq![head]
        } else {
            Seq::<Slot>::empty()
        })) by {
            let none = Seq::<Slot>::empty();
            assert(none.push(head) =~= seq![head]);
            none.lemma_filter_push(head, keep);
            assert(none.filter(keep) =~= none) by {
                reveal(Seq::filter);
            }
        }
        let f = recent(list, now);
        if keep(head) {
            assert(f.skip(1) =~= recent(t, now));
        } else {
            assert(f =~= recent(t, now));
        }
        if one_each(list) {
            assert forall|i: int, j: int| 0 <= i < j < t.len() implies !is_slot(
                #[trigger] t[i],
                (#[trigger] t[j]).chat_id,
                t[j].kind,
            ) by {
                assert(t[i] == list[i + 1]);
                assert(t[j] == list[j + 1]);
            }
            if is_slot(head, chat_id, kind) {
                lemma_last_is_there(t, chat_id, kind);
                assert forall|i: int| 0 <= i < t.len() implies !is_slot(
                    #[trigger] t[i],
                    chat_id,
                    kind,
                ) by {
                    assert(t[i] == list[i + 1]);
                    assert(!is_slot(list[0], list[i + 1].chat_id, list[i + 1].kind));
                }
            }
        }
    }
}

proof fn lemma_noted_one_each(list: Seq<Slot>, s: Slot)
    requires
        one_each(list),
    ensures
        one_each(noted(list, s)),
        forall|k: int|
            0 <= k < noted(list, s).len() ==> is_slot(
                #[trigger] noted(list, s)[k],
                s.chat_id,
                s.kind,
            ) || list.contains(noted(list, s)[k]),
    decreases list.len(),
{
    let n = noted(list, s);
    if list.len() > 0 {
        let t = list.skip(1);
        assert forall|i: int, j: int| 0 <= i < j < t.len() implies !is_slot(
            #[trigger] t[i],
            (#[trigger] t[j]).chat_id,
            t[j].kind,
        ) by {
            assert(t[i] == list[i + 1]);
            assert(t[j] == list[j + 1]);
        }
        lemma_noted_one_each(t, s);
        let m = noted(t, s);
        if is_slot(list[0], s.chat_id, s.kind) {
            assert forall|k: int| 0 <= k < n.len() implies is_slot(
                #[trigger] n[k],
                s.chat_id,
                s.kind,
            ) || list.contains(n[k]) by {
                if k > 0 {
                    assert(n[k] == list[k]);
                }
            }
            assert forall|i: int, j: int| 0 <= i < j < n.len() implies !is_slot(
                #[trigger] n[i],
                (#[trigger] n[j]).chat_id,
                n[j].kind,
            ) by {
                assert(n[j] == list[j]);
                assert(!is_slot(list[i], list[j].chat_id, list[j].kind));
            }
        } else {
            assert forall|k: int| 0 <= k < n.len() implies is_slot(
                #[trigger] n[k],
                s.chat_id,
                s.kind,
            ) || list.contains(n[k]) by {
                if k > 0 {
                    assert(n[k] == m[k - 1]);
                    if t.contains(m[k - 1]) {
                        let q = choose|q: int| 0 <= q < t.len() && t[q] == m[k - 1];
                        assert(list[q + 1] == m[k - 1]);
                    }
                } else {
                    assert(n[0] == list[0]);
                }
            }
            assert forall|i: int, j: int| 0 <= i < j < n.len() implies !is_slot(
                #[trigger] n[i],
                (#[trigger] n[j]).chat_id,
                n[j].kind,
            ) by {
                assert(n[j] == m[j - 1]);
                if i > 0 {
                    assert(n[i] == m[i - 1]);
                } else {
                    assert(n[0] == list[0]);
                    if !is_slot(m[j - 1], s.chat_id, s.kind) {
                        let q = choose|q: int| 0 <= q < t.len() && t[q] == m[j - 1];
                        assert(list[q + 1] == m[j - 1]);
                        assert(!is_slot(list[0], list[q + 1].chat_id, list[q + 1].kind));
                    }
                }
            }
        }
    }
}

proof fn lemma_filter_one_each(list: Seq<Slot>, now: u64)
    requires
        one_each(list),
    ensures
        one_each(recent(list, now)),
        forall|k: int|
            0 <= k < recent(list, now).len() ==> list.contains(
                #[trigger] recent(list, now)[k],
            ),
    decreases list.len(),
{
    let keep = |s: Slot| is_recent(s, now);
    let f = recent(list, now);
    if list.len() == 0 {
        assert(f =~= Seq::<Slot>::empty()) by {
            reveal(Seq::filter);
        }
    } else {
        let init = list.drop_last();
        let last = list.last();
        assert forall|i: int, j: int| 0 <= i < j < init.len() implies !is_slot(
            #[trigger] init[i],
            (#[trigger] init[j]).chat_id,
            init[j].kind,
        ) by {
            assert(init[i] == list[i]);
            assert(init[j] == list[j]);
        }
        lemma_filter_one_each(init, now);
        assert(init.push(last) =~= list);
        init.lemma_filter_push(last, keep);
        let g = recent(init, now);
        assert forall|k: int| 0 <= k < f.len() implies list.contains(#[trigger] f[k]) by {
            if k < g.len() {
                assert(f[k] == g[k]);
                let q = choose|q: int| 0 <= q < init.len() && init[q] == g[k];
                assert(list[q] == f[k]);
            } else {
                assert(f[k] == list[list.len() - 1]);
            }
        }
        assert forall|i: int, j: int| 0 <= i < j < f.len() implies !is_slot(
            #[trigger] f[i],
            (#[trigger] f[j]).chat_id,
            f[j].kind,
        ) by {
            assert(f[i] == g[i]);
            if j < g.len() {
                assert(f[j] == g[j]);
            } else {
                assert(f[j] == last);
                let q = choose|q: int| 0 <= q < init.len() && init[q] == g[i];
                assert(list[q] == f[i]);
                assert(!is_slot(list[q], list[list.len() - 1].chat_id, list[list.len() - 1].kind));
            }
        }
    }
}

/// The slots that a reservation leaves.
pub open spec fn slots_after(
    list: Seq<Slot>,
    chat_id: i64,
    kind: Kind,
    disabled: bool,
    now: u64,
) -> Seq<Slot> {
    let slot = next_slot(last_slot(list, chat_id, kind), gap_of(kind, disabled), now);
    pruned(noted(list, Slot { chat_id, kind, time: slot }), now)
}

/// A reservation leaves one slot at most for each chat and kind of call, where
/// there was one at most.
pub proof fn slots_stay_single(
    list: Seq<Slot>,
    chat_id: i64,
    kind: Kind,
    disabled: bool,
    now: u64,
)
    requires
        one_each(list),
    ensures
        one_each(slots_after(list, chat_id, kind, disabled, now)),
{
    let slot = next_slot(last_slot(list, chat_id, kind), gap_of(kind, disabled), now);
    let s = Slot { chat_id, kind, time: slot };
    lemma_noted_one_each(list, s);
    lemma_filter_one_each(noted(list, s), now);
}

/// Two calls of a kind to one chat are at least their gap apart, as far as the
/// clock counts, though old slots are dropped in between.
pub proof fn calls_are_spaced(
    list: Seq<Slot>,
    chat_id: i64,
    kind: Kind,
    disabled: bool,
    now: u64,
    later: u64,
)
    ensures
        ({
            let first = next_slot(last_slot(list, chat_id, kind), gap_of(kind, disabled), now);
            let after = slots_after(list, chat_id, kind, disabled, now);
            let second = next_slot(last_slot(after, chat_id, kind), gap_of(kind, disabled), later);
            &&& first >= now
            &&& second >= later
            &&& (second >= first + gap_of(kind, disabled) || second == u64::MAX)
        }),
{
    let first = next_slot(last_slot(list, chat_id, kind), gap_of(kind, disabled), now);
    let s = Slot { chat_id, kind, time: first };
    lemma_noted(list, s, chat_id, kind);
    lemma_kept(noted(list, s), chat_id, kind, now);
}

/// A call does not hold up calls to other chats or of other kinds: they may go out
/// when they could have gone out without it.
pub proof fn other_calls_are_not_held_up(
    list: Seq<Slot>,
    chat_id: i64,
    kind: Kind,
    disabled: bool,
    now: u64,
    later: u64,
    other_chat: i64,
    other_kind: Kind,
)
    requires
        one_each(list),
        now <= later,
        other_chat != chat_id || other_kind != kind,
    ensures
        ({
            let after = slots_after(list, chat_id, kind, disabled, now);
            let gap = gap_of(other_kind, disabled);
            next_slot(last_slot(after, other_chat, other_kind), gap, later) == next_slot(
                last_slot(list, other_chat, other_kind),
                gap,
                later,
            )
        }),
{
    let first = next_slot(last_slot(list, chat_id, kind), gap_of(kind, disabled), now);
    let s = Slot { chat_id, kind, time: first };
    lemma_noted(list, s, other_chat, other_kind);
    lemma_noted_one_each(list, s);
    lemma_kept(noted(list, s), other_chat, other_kind, now);
}

}

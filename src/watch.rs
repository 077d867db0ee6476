use vstd::prelude::*;

use crate::host::{HostCall, PinId};
use crate::pin::{watch_request, Pin};
use crate::value::{level_of, PinValue, WatchEdge};

verus! {

/// What the registry holds for one watched pin: the edge it was armed for, and its
/// callback, or `None` while that callback is out being run by a dispatch.
pub struct WatchSlot<C> {
    pub edge: WatchEdge,
    pub callback: Option<C>,
}

/// A notification resolved to its callback, which the caller runs and then hands back
/// through `WatchRegistry::end_dispatch`.
pub struct Dispatch<C> {
    pub pin: PinId,
    pub value: PinValue,
    pub callback: C,
}

struct WatchEntry<C> {
    pin: PinId,
    slot: WatchSlot<C>,
}

/// The table of live watches, at most one per pin id.
pub struct WatchRegistry<C> {
    entries: Vec<WatchEntry<C>>,
}

/// A watch is taken only when the host armed it and the pin has none yet.
pub open spec fn watch_accepted<C>(m: Map<PinId, WatchSlot<C>>, pin: PinId, armed: bool) -> bool {
    armed && !m.contains_key(pin)
}

/// The table after a watch of `pin` with `callback` was asked for.
pub open spec fn after_watch<C>(
    m: Map<PinId, WatchSlot<C>>,
    pin: PinId,
    edge: WatchEdge,
    callback: C,
    armed: bool,
) -> Map<PinId, WatchSlot<C>> {
    if watch_accepted(m, pin, armed) {
        m.insert(pin, WatchSlot { edge, callback: Some(callback) })
    } else {
        m
    }
}

/// The callback that a notification for `pin` reaches, if any.
pub open spec fn dispatch_target<C>(m: Map<PinId, WatchSlot<C>>, pin: PinId) -> Option<C> {
    if m.contains_key(pin) {
        m[pin].callback
    } else {
        None
    }
}

/// The table while the callback of `pin` is out being run.
pub open spec fn after_begin_dispatch<C>(m: Map<PinId, WatchSlot<C>>, pin: PinId) -> Map<
    PinId,
    WatchSlot<C>,
> {
    if dispatch_target(m, pin) is Some {
        m.insert(pin, WatchSlot { edge: m[pin].edge, callback: None })
    } else {
        m
    }
}

/// A callback handed back goes back only into the same watch, still waiting for it.
pub open spec fn restore_accepted<C>(m: Map<PinId, WatchSlot<C>>, pin: PinId) -> bool {
    m.contains_key(pin) && m[pin].callback is None
}

/// The table after the callback of `pin` was handed back.
pub open spec fn after_end_dispatch<C>(m: Map<PinId, WatchSlot<C>>, pin: PinId, callback: C) -> Map<
    PinId,
    WatchSlot<C>,
> {
    if restore_accepted(m, pin) {
        m.insert(pin, WatchSlot { edge: m[pin].edge, callback: Some(callback) })
    } else {
        m
    }
}

impl<C> View for WatchRegistry<C> {
    type V = Map<PinId, WatchSlot<C>>;

    closed spec fn view(&self) -> Map<PinId, WatchSlot<C>> {
        Map::new(
            |pin: PinId| self.has(pin),
            |pin: PinId| self.entries@[self.index_of(pin)].slot,
        )
    }
}

impl<C> WatchRegistry<C> {
    spec fn has(&self, pin: PinId) -> bool {
        exists|i: int| 0 <= i < self.entries@.len() && self.entries@[i].pin == pin
    }

    spec fn index_of(&self, pin: PinId) -> int {
        choose|i: int| 0 <= i < self.entries@.len() && self.entries@[i].pin == pin
    }

    /// No two entries are for the same pin.
    pub closed spec fn wf(&self) -> bool {
        forall|i: int, j: int|
            0 <= i < j < self.entries@.len() ==> self.entries@[i].pin != self.entries@[j].pin
    }

    proof fn lemma_entry(&self, i: int)
        requires
            self.wf(),
            0 <= i < self.entries@.len(),
        ensures
            self@.contains_key(self.entries@[i].pin),
            self.index_of(self.entries@[i].pin) == i,
            self@[self.entries@[i].pin] == self.entries@[i].slot,
    {
        let pin = self.entries@[i].pin;
        assert(self.has(pin));
        let k = self.index_of(pin);
        assert(k == i) by {
            if k < i {
                assert(self.entries@[k].pin != self.entries@[i].pin);
            } else if k > i {
                assert(self.entries@[i].pin != self.entries@[k].pin);
            }
        }
    }

    /// An empty table.
    pub fn new() -> (r: Self)
        ensures
            r.wf(),
            r@ == Map::<PinId, WatchSlot<C>>::empty(),
    {
        let r = WatchRegistry { entries: Vec::new() };
        assert(r@ =~= Map::<PinId, WatchSlot<C>>::empty());
        r
    }

    fn find(&self, pin: PinId) -> (r: Option<usize>)
        requires
            self.wf(),
        ensures
            r is None <==> !self@.contains_key(pin),
            r matches Some(i) ==> i < self.entries@.len() && self.entries@[i as int].pin == pin,
    {
        let mut i: usize = 0;
        while i < self.entries.len()
            invariant
                i <= self.entries@.len(),
                forall|j: int| 0 <= j < i ==> self.entries@[j].pin != pin,
            decreases self.entries@.len() - i,
        {
            if self.entries[i].pin == pin {
                return Some(i);
            }
            i = i + 1;
        }
        None
    }

    /// Whether `pin` has a live watch.
    pub fn is_watched(&self, pin: PinId) -> (r: bool)
        requires
            self.wf(),
        ensures
            r == self@.contains_key(pin),
    {
        self.find(pin).is_some()
    }

    /// Number of live watches.
    pub fn len(&self) -> (r: usize)
        requires
            self.wf(),
        ensures
            r == self@.len(),
    {
        proof {
            self.lemma_dom_len();
        }
        self.entries.len()
    }

    /// Records a watch of `pin` with `callback` once the host has answered `armed` to the
    /// request for it. It is taken, and `true` returned, exactly when the host armed it
    /// and `pin` had no watch yet; otherwise nothing changes and `callback` is dropped.
    pub fn insert(&mut self, pin: PinId, edge: WatchEdge, callback: C, armed: bool) -> (r: bool)
        requires
            old(self).wf(),
        ensures
            final(self).wf(),
            r == watch_accepted(old(self)@, pin, armed),
            final(self)@ == after_watch(old(self)@, pin, edge, callback, armed),
    {
        if !armed {
            return false;
        }
        if self.find(pin).is_some() {
            return false;
        }
        let ghost before = *self;
        self.entries.push(WatchEntry { pin, slot: WatchSlot { edge, callback: Some(callback) } });
        let ghost n = before.entries@.len() as int;
        assert(self.wf());
        proof {
            self.lemma_entry(n);
            assert forall|p: PinId| p != pin implies (self.has(p) == before.has(p)) by {
                if self.has(p) {
                    let k = self.index_of(p);
                    assert(before.entries@[k].pin == p);
                }
                if before.has(p) {
                    let k = before.index_of(p);
                    assert(self.entries@[k].pin == p);
                }
            }
            assert forall|p: PinId| p != pin && before.has(p) implies self@[p] == before@[p] by {
                let k = before.index_of(p);
                before.lemma_entry(k);
                self.lemma_entry(k);
            }
            assert(self@ =~= before@.insert(pin, WatchSlot { edge, callback: Some(callback) }));
        }
        true
    }

    /// Removes the watch of `pin`, if there is one, and says whether there was.
    pub fn remove(&mut self, pin: PinId) -> (r: bool)
        requires
            old(self).wf(),
        ensures
            final(self).wf(),
            r == old(self)@.contains_key(pin),
            final(self)@ == old(self)@.remove(pin),
    {
        match self.find(pin) {
            None => {
                assert(self@ =~= self@.remove(pin));
                false
            },
            Some(i) => {
                let ghost before = *self;
                let _ = self.entries.remove(i);
                assert(self.wf()) by {
                    assert forall|a: int, b: int|
                        0 <= a < b < self.entries@.len() implies self.entries@[a].pin
                        != self.entries@[b].pin by {
                        let a0 = if a < i { a } else { a + 1 };
                        let b0 = if b < i { b } else { b + 1 };
                        assert(before.entries@[a0].pin != before.entries@[b0].pin);
                    }
                }
                proof {
                    assert forall|p: PinId| p != pin implies (self.has(p) == before.has(p)) by {
                        if self.has(p) {
                            let k = self.index_of(p);
                            let k0 = if k < i { k } else { k + 1 };
                            assert(before.entries@[k0].pin == p);
                        }
                        if before.has(p) {
                            let k = before.index_of(p);
                            assert(k != i);
                            let k1 = if k < i { k } else { k - 1 };
                            assert(self.entries@[k1].pin == p);
                        }
                    }
                    assert forall|p: PinId| self.has(p) implies p != pin by {
                        let k = self.index_of(p);
                        let k0 = if k < i { k } else { k + 1 };
                        assert(before.entries@[k0].pin == p);
                        if p == pin {
                            assert(before.entries@[i as int].pin == p);
                        }
                    }
                    assert forall|p: PinId| p != pin && self.has(p) implies self@[p] == before@[p] by {
                        let k = self.index_of(p);
                        let k0 = if k < i { k } else { k + 1 };
                        self.lemma_entry(k);
                        before.lemma_entry(k0);
                    }
                    assert(self@ =~= before@.remove(pin));
                }
                true
            },
        }
    }

    proof fn lemma_set_slot(before: Self, after: Self, i: int, slot: WatchSlot<C>)
        requires
            before.wf(),
            0 <= i < before.entries@.len(),
            after.entries@ == before.entries@.update(i, WatchEntry { pin: before.entries@[i].pin, slot }),
        ensures
            after.wf(),
            after@ == before@.insert(before.entries@[i].pin, slot),
    {
        let pin = before.entries@[i].pin;
        assert forall|p: PinId| after.has(p) == before.has(p) by {
            if after.has(p) {
                let k = after.index_of(p);
                assert(before.entries@[k].pin == p);
            }
            if before.has(p) {
                let k = before.index_of(p);
                assert(after.entries@[k].pin == p);
            }
        }
        after.lemma_entry(i);
        assert forall|p: PinId| p != pin && before.has(p) implies after@[p] == before@[p] by {
            let k = before.index_of(p);
            before.lemma_entry(k);
            after.lemma_entry(k);
        }
        assert(after@ =~= before@.insert(pin, slot));
    }

    /// Resolves a host notification for `pin` with raw level `raw`. Where `pin` has a
    /// watch whose callback is at hand, that callback is handed out with the level read
    /// from `raw`, and the watch waits for it to come back; otherwise nothing happens and
    /// `None` is returned: a stale notification, or one for a pin whose callback is
    /// already running.
    pub fn begin_dispatch(&mut self, pin: PinId, raw: u32) -> (r: Option<Dispatch<C>>)
        requires
            old(self).wf(),
        ensures
            final(self).wf(),
            final(self)@ == after_begin_dispatch(old(self)@, pin),
            r is Some <==> dispatch_target(old(self)@, pin) is Some,
            r matches Some(d) ==> d.pin == pin && d.value == level_of(raw) && Some(d.callback)
                == dispatch_target(old(self)@, pin),
    {
        match self.find(pin) {
            None => None,
            Some(i) => {
                let ghost before = *self;
                proof {
                    before.lemma_entry(i as int);
                }
                let taken = self.entries[i].slot.callback.take();
                proof {
                    Self::lemma_set_slot(before, *self, i as int, self.entries@[i as int].slot);
                }
                match taken {
                    None => {
                        assert(self@ =~= before@);
                        None
                    },
                    Some(callback) => Some(Dispatch { pin, value: PinValue::from_raw(raw), callback }),
                }
            },
        }
    }

    /// Hands back the callback of `pin` once it has run. It goes back into the watch
    /// only where `pin` still has the watch that waits for it, and then `true` is
    /// returned; where the callback removed or replaced its own watch meanwhile, it is
    /// dropped and nothing changes.
    pub fn end_dispatch(&mut self, pin: PinId, callback: C) -> (r: bool)
        requires
            old(self).wf(),
        ensures
            final(self).wf(),
            r == restore_accepted(old(self)@, pin),
            final(self)@ == after_end_dispatch(old(self)@, pin, callback),
    {
        match self.find(pin) {
            None => false,
            Some(i) => {
                let ghost before = *self;
                proof {
                    before.lemma_entry(i as int);
                }
                if self.entries[i].slot.callback.is_some() {
                    return false;
                }
                self.entries[i].slot.callback = Some(callback);
                proof {
                    Self::lemma_set_slot(before, *self, i as int, self.entries@[i as int].slot);
                }
                true
            },
        }
    }

    /// The pins that have a live watch, each once: those the host must be told to stop
    /// watching before the table goes away.
    pub fn watched_pins(&self) -> (r: Vec<PinId>)
        requires
            self.wf(),
        ensures
            r@.no_duplicates(),
            r@.to_set() == self@.dom(),
            r@.len() == self@.len(),
    {
        let mut r: Vec<PinId> = Vec::new();
        let mut i: usize = 0;
        while i < self.entries.len()
            invariant
                self.wf(),
                i <= self.entries@.len(),
                r@.len() == i,
                forall|j: int| 0 <= j < i ==> r@[j] == self.entries@[j].pin,
            decreases self.entries@.len() - i,
        {
            r.push(self.entries[i].pin);
            i = i + 1;
        }
        proof {
            assert forall|a: int, b: int| 0 <= a < r@.len() && 0 <= b < r@.len() && a != b implies r@[a] != r@[b] by {
                if a < b {
                    assert(self.entries@[a].pin != self.entries@[b].pin);
                } else {
                    assert(self.entries@[b].pin != self.entries@[a].pin);
                }
            }
            assert forall|p: PinId| self@.dom().contains(p) implies r@.to_set().contains(p) by {
                let k = self.index_of(p);
                assert(r@[k] == p);
            }
            assert forall|p: PinId| r@.to_set().contains(p) implies self@.dom().contains(p) by {
                let k = choose|k: int| 0 <= k < r@.len() && r@[k] == p;
                assert(self.entries@[k].pin == p);
            }
            assert(r@.to_set() =~= self@.dom());
            self.lemma_dom_len();
        }
        r
    }

    /// Empties the table and gives, for each pin that had a live watch, once, the
    /// request that disarms it on the host; these are due before the table goes away.
    pub fn disarm_all(&mut self) -> (r: Vec<HostCall>)
        requires
            old(self).wf(),
        ensures
            final(self).wf(),
            final(self)@ == Map::<PinId, WatchSlot<C>>::empty(),
            r@.len() == old(self)@.len(),
            forall|i: int| 0 <= i < r@.len() ==> r@[i] is PinWatchStop,
            forall|p: PinId| old(self)@.contains_key(p) <==> r@.contains(HostCall::PinWatchStop { pin: p }),
    {
        let pins = self.watched_pins();
        let mut r: Vec<HostCall> = Vec::new();
        let mut i: usize = 0;
        while i < pins.len()
            invariant
                i <= pins@.len(),
                r@.len() == i,
                forall|j: int| 0 <= j < i ==> r@[j] == (HostCall::PinWatchStop { pin: pins@[j] }),
            decreases pins@.len() - i,
        {
            r.push(HostCall::PinWatchStop { pin: pins[i] });
            i = i + 1;
        }
        proof {
            assert forall|p: PinId| self@.contains_key(p) <==> r@.contains(HostCall::PinWatchStop { pin: p }) by {
                if self@.contains_key(p) {
                    assert(pins@.to_set().contains(p));
                    let k = choose|k: int| 0 <= k < pins@.len() && pins@[k] == p;
                    assert(r@[k] == HostCall::PinWatchStop { pin: p });
                }
                if r@.contains(HostCall::PinWatchStop { pin: p }) {
                    let k = choose|k: int| 0 <= k < r@.len() && r@[k] == HostCall::PinWatchStop { pin: p };
                    assert(pins@[k] == p);
                    assert(pins@.to_set().contains(p));
                }
            }
        }
        self.entries = Vec::new();
        proof {
            assert(self@ =~= Map::<PinId, WatchSlot<C>>::empty());
        }
        r
    }

    proof fn lemma_dom_len(&self)
        requires
            self.wf(),
        ensures
            self@.dom().finite(),
            self@.len() == self.entries@.len(),
    {
        let pins = self.entries@.map_values(|e: WatchEntry<C>| e.pin);
        assert(pins.no_duplicates()) by {
            assert forall|i: int, j: int|
                0 <= i < pins.len() && 0 <= j < pins.len() && i != j implies pins[i] != pins[j] by {
                if i < j {
                    assert(self.entries@[i].pin != self.entries@[j].pin);
                } else {
                    assert(self.entries@[j].pin != self.entries@[i].pin);
                }
            }
        }
        pins.unique_seq_to_set();
        assert(self@.dom() =~= pins.to_set()) by {
            assert forall|p: PinId| self@.dom().contains(p) implies pins.to_set().contains(p) by {
                let k = self.index_of(p);
                assert(pins[k] == p);
            }
            assert forall|p: PinId| pins.to_set().contains(p) implies self@.dom().contains(p) by {
                let k = choose|k: int| 0 <= k < pins.len() && pins[k] == p;
                assert(self.entries@[k].pin == p);
            }
        }
    }
}

} // verus!

verus! {

impl Pin {
    /// The request that arms a watch of this pin for `edge`, or `None` where the pin
    /// already has a watch: only one watch per pin is kept, and a second is refused
    /// rather than replacing the first.
    pub fn watch_call<C>(&self, registry: &WatchRegistry<C>, edge: WatchEdge) -> (r: Option<HostCall>)
        requires
            registry.wf(),
        ensures
            r == (if registry@.contains_key(self.spec_id()) {
                None
            } else {
                Some(watch_request(self.spec_id(), edge))
            }),
    {
        if registry.is_watched(self.get_id()) {
            None
        } else {
            Some(HostCall::PinWatch { pin: self.get_id(), edge: edge.code() })
        }
    }

    /// Registers `callback` for this pin once the host has answered `armed` to the
    /// request of `watch_call`. Returns `true` exactly when the host armed the watch and
    /// the pin had none; otherwise the table is left as it was.
    pub fn watch<C>(&self, registry: &mut WatchRegistry<C>, edge: WatchEdge, callback: C, armed: bool) -> (r: bool)
        requires
            old(registry).wf(),
        ensures
            final(registry).wf(),
            r == watch_accepted(old(registry)@, self.spec_id(), armed),
            final(registry)@ == after_watch(old(registry)@, self.spec_id(), edge, callback, armed),
    {
        registry.insert(self.get_id(), edge, callback, armed)
    }

    /// Removes this pin's watch, and gives the request that disarms it on the host, or
    /// `None` where the pin had no watch.
    pub fn unwatch<C>(&self, registry: &mut WatchRegistry<C>) -> (r: Option<HostCall>)
        requires
            old(registry).wf(),
        ensures
            final(registry).wf(),
            final(registry)@ == old(registry)@.remove(self.spec_id()),
            r == (if old(registry)@.contains_key(self.spec_id()) {
                Some(HostCall::PinWatchStop { pin: self.spec_id() })
            } else {
                None
            }),
    {
        if registry.remove(self.get_id()) {
            Some(HostCall::PinWatchStop { pin: self.get_id() })
        } else {
            None
        }
    }
}

/// A watch of a pin that had none, once armed, is taken, and a notification for that
/// pin then reaches the new callback.
pub proof fn lemma_watch_then_dispatch<C>(m: Map<PinId, WatchSlot<C>>, pin: PinId, edge: WatchEdge, callback: C)
    requires
        !m.contains_key(pin),
    ensures
        watch_accepted(m, pin, true),
        dispatch_target(after_watch(m, pin, edge, callback, true), pin) == Some(callback),
{
}

/// Once a pin is watched, a second watch of it is refused, whatever the host said, and
/// the first callback is still the one a notification reaches.
pub proof fn lemma_second_watch_refused<C>(
    m: Map<PinId, WatchSlot<C>>,
    pin: PinId,
    edge: WatchEdge,
    callback: C,
    edge2: WatchEdge,
    callback2: C,
    armed2: bool,
)
    requires
        !m.contains_key(pin),
    ensures
        ({
            let m1 = after_watch(m, pin, edge, callback, true);
            &&& !watch_accepted(m1, pin, armed2)
            &&& after_watch(m1, pin, edge2, callback2, armed2) == m1
            &&& dispatch_target(after_watch(m1, pin, edge2, callback2, armed2), pin) == Some(callback)
        }),
{
}

/// After a pin's watch is removed, a notification for it reaches nothing and changes
/// nothing.
pub proof fn lemma_unwatch_then_dispatch<C>(m: Map<PinId, WatchSlot<C>>, pin: PinId)
    ensures
        dispatch_target(m.remove(pin), pin) is None,
        after_begin_dispatch(m.remove(pin), pin) == m.remove(pin),
{
}

/// A callback that removes its own watch while it runs leaves the table exactly as a
/// plain removal would: handing it back afterwards is refused, the other pins' watches
/// are untouched, and a later notification for the pin reaches nothing.
pub proof fn lemma_unwatch_during_dispatch<C>(m: Map<PinId, WatchSlot<C>>, pin: PinId, callback: C)
    requires
        dispatch_target(m, pin) is Some,
    ensures
        ({
            let m1 = after_begin_dispatch(m, pin).remove(pin);
            &&& !restore_accepted(m1, pin)
            &&& after_end_dispatch(m1, pin, callback) == m.remove(pin)
            &&& dispatch_target(after_end_dispatch(m1, pin, callback), pin) is None
        }),
{
    assert(after_begin_dispatch(m, pin).remove(pin) =~= m.remove(pin));
}

/// A callback that replaces its own watch while it runs leaves the new watch in place:
/// handing the old callback back afterwards is refused, and a later notification reaches
/// the new callback.
pub proof fn lemma_rewatch_during_dispatch<C>(
    m: Map<PinId, WatchSlot<C>>,
    pin: PinId,
    callback: C,
    edge2: WatchEdge,
    callback2: C,
)
    requires
        dispatch_target(m, pin) is Some,
    ensures
        ({
            let m1 = after_watch(after_begin_dispatch(m, pin).remove(pin), pin, edge2, callback2, true);
            &&& !restore_accepted(m1, pin)
            &&& after_end_dispatch(m1, pin, callback) == m1
            &&& dispatch_target(after_end_dispatch(m1, pin, callback), pin) == Some(callback2)
        }),
{
}

/// A dispatch that hands its callback back leaves the table as it found it.
pub proof fn lemma_dispatch_round_trip<C>(m: Map<PinId, WatchSlot<C>>, pin: PinId)
    requires
        dispatch_target(m, pin) is Some,
    ensures
        after_end_dispatch(after_begin_dispatch(m, pin), pin, dispatch_target(m, pin)->Some_0) == m,
{
    assert(after_end_dispatch(after_begin_dispatch(m, pin), pin, dispatch_target(m, pin)->Some_0) =~= m);
}

} // verus!

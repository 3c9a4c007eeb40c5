//! Key repeat in the web frontend: a key held down is sent again as a
//! repeat each time more than [`KEY_REPEAT_INTERVAL`] milliseconds have
//! passed since it was pressed or last repeated.
use vstd::prelude::*;
use hashbrown::HashMap;
use crate::event_queue::{BackendEvent, KeyCode};

verus! {

/// The time a key must be held, in milliseconds, before it repeats, and
/// between two repeats.
pub const KEY_REPEAT_INTERVAL: u64 = 100;

/// The number of keys.
pub const KEY_COUNT: u32 = 24;

/// The slot a key is kept under in the table of held keys.
pub open spec fn key_slot(key: KeyCode) -> u32 {
    match key {
        KeyCode::UP => 0,
        KeyCode::DOWN => 1,
        KeyCode::LEFT => 2,
        KeyCode::RIGHT => 3,
        KeyCode::OK => 4,
        KeyCode::LEFT_SOFT_KEY => 5,
        KeyCode::RIGHT_SOFT_KEY => 6,
        KeyCode::CLEAR => 7,
        KeyCode::CALL => 8,
        KeyCode::HANGUP => 9,
        KeyCode::VOLUME_UP => 10,
        KeyCode::VOLUME_DOWN => 11,
        KeyCode::NUM0 => 12,
        KeyCode::NUM1 => 13,
        KeyCode::NUM2 => 14,
        KeyCode::NUM3 => 15,
        KeyCode::NUM4 => 16,
        KeyCode::NUM5 => 17,
        KeyCode::NUM6 => 18,
        KeyCode::NUM7 => 19,
        KeyCode::NUM8 => 20,
        KeyCode::NUM9 => 21,
        KeyCode::HASH => 22,
        KeyCode::STAR => 23,
    }
}

fn slot_of(key: KeyCode) -> (r: u32)
    ensures
        r == key_slot(key),
        r < KEY_COUNT,
{
    match key {
        KeyCode::UP => 0,
        KeyCode::DOWN => 1,
        KeyCode::LEFT => 2,
        KeyCode::RIGHT => 3,
        KeyCode::OK => 4,
        KeyCode::LEFT_SOFT_KEY => 5,
        KeyCode::RIGHT_SOFT_KEY => 6,
        KeyCode::CLEAR => 7,
        KeyCode::CALL => 8,
        KeyCode::HANGUP => 9,
        KeyCode::VOLUME_UP => 10,
        KeyCode::VOLUME_DOWN => 11,
        KeyCode::NUM0 => 12,
        KeyCode::NUM1 => 13,
        KeyCode::NUM2 => 14,
        KeyCode::NUM3 => 15,
        KeyCode::NUM4 => 16,
        KeyCode::NUM5 => 17,
        KeyCode::NUM6 => 18,
        KeyCode::NUM7 => 19,
        KeyCode::NUM8 => 20,
        KeyCode::NUM9 => 21,
        KeyCode::HASH => 22,
        KeyCode::STAR => 23,
    }
}

fn key_in_slot(slot: u32) -> (r: Option<KeyCode>)
    ensures
        r matches Some(k) ==> key_slot(k) == slot,
        r is None ==> slot >= KEY_COUNT,
{
    match slot {
        0 => Some(KeyCode::UP),
        1 => Some(KeyCode::DOWN),
        2 => Some(KeyCode::LEFT),
        3 => Some(KeyCode::RIGHT),
        4 => Some(KeyCode::OK),
        5 => Some(KeyCode::LEFT_SOFT_KEY),
        6 => Some(KeyCode::RIGHT_SOFT_KEY),
        7 => Some(KeyCode::CLEAR),
        8 => Some(KeyCode::CALL),
        9 => Some(KeyCode::HANGUP),
        10 => Some(KeyCode::VOLUME_UP),
        11 => Some(KeyCode::VOLUME_DOWN),
        12 => Some(KeyCode::NUM0),
        13 => Some(KeyCode::NUM1),
        14 => Some(KeyCode::NUM2),
        15 => Some(KeyCode::NUM3),
        16 => Some(KeyCode::NUM4),
        17 => Some(KeyCode::NUM5),
        18 => Some(KeyCode::NUM6),
        19 => Some(KeyCode::NUM7),
        20 => Some(KeyCode::NUM8),
        21 => Some(KeyCode::NUM9),
        22 => Some(KeyCode::HASH),
        23 => Some(KeyCode::STAR),
        _ => None,
    }
}

/// Distinct keys have distinct slots.
pub proof fn lemma_key_slot_injective(a: KeyCode, b: KeyCode)
    ensures
        key_slot(a) == key_slot(b) ==> a == b,
{
}

/// A `hashbrown` map from slot to the time, in milliseconds, at which the
/// key in that slot was pressed or last repeated.
#[verifier::external_body]
pub struct SlotTimes {
    times: HashMap<u32, u64>,
}

/// What a [`SlotTimes`] holds: each slot in it and its time.
pub uninterp spec fn slot_times(table: SlotTimes) -> Map<u32, u64>;

impl SlotTimes {
    /// `hashbrown::HashMap::new`: an empty map.
    #[verifier::external_body]
    fn new() -> (r: SlotTimes)
        ensures
            slot_times(r).dom() == Set::<u32>::empty(),
    {
        SlotTimes { times: HashMap::new() }
    }

    /// `hashbrown::HashMap::insert`: afterwards `slot` maps to `time`, and
    /// every other slot is as it was.
    #[verifier::external_body]
    fn insert(&mut self, slot: u32, time: u64)
        ensures
            slot_times(*final(self)) == slot_times(*old(self)).insert(slot, time),
    {
        self.times.insert(slot, time);
    }

    /// `hashbrown::HashMap::remove`: afterwards `slot` is gone, and every
    /// other slot is as it was.
    #[verifier::external_body]
    fn remove(&mut self, slot: u32)
        ensures
            slot_times(*final(self)) == slot_times(*old(self)).remove(slot),
    {
        self.times.remove(&slot);
    }

    /// `hashbrown::HashMap::get`: the time of `slot`, if it is in the map.
    #[verifier::external_body]
    fn get(&self, slot: u32) -> (r: Option<u64>)
        ensures
            slot_times(*self).dom().contains(slot) ==> r == Some(slot_times(*self)[slot]),
            !slot_times(*self).dom().contains(slot) ==> r is None,
    {
        self.times.get(&slot).copied()
    }

    /// `hashbrown::HashMap::keys`: each slot in the map once, in an order
    /// the map leaves open.
    #[verifier::external_body]
    fn slots(&self) -> (r: Vec<u32>)
        ensures
            r@.no_duplicates(),
            forall|s: u32| r@.contains(s) <==> slot_times(*self).dom().contains(s),
    {
        self.times.keys().copied().collect()
    }
}

/// Whether `key`, held since `time`, is due to repeat at `now`.
pub open spec fn repeat_due(time: u64, now: u64) -> bool {
    now - time > KEY_REPEAT_INTERVAL
}

/// The held keys of a table of slot times.
pub open spec fn held_of(times: Map<u32, u64>) -> Map<KeyCode, u64> {
    Map::new(|k: KeyCode| times.dom().contains(key_slot(k)), |k: KeyCode| times[key_slot(k)])
}

/// The keys that repeat at `now`.
pub open spec fn due_keys(held: Map<KeyCode, u64>, now: u64) -> Set<KeyCode> {
    Set::new(|k: KeyCode| held.dom().contains(k) && repeat_due(held[k], now))
}

/// The held keys after the repeats at `now`: each key that repeated is held
/// since `now`.
pub open spec fn after_repeats(held: Map<KeyCode, u64>, now: u64) -> Map<KeyCode, u64> {
    Map::new(
        |k: KeyCode| held.dom().contains(k),
        |k: KeyCode|
            if repeat_due(held[k], now) {
                now
            } else {
                held[k]
            },
    )
}

/// The events of one update: a redraw first when one was asked for, then
/// a repeat of each due key, each once, in some order.
pub open spec fn update_events(
    events: Seq<BackendEvent>,
    redraw: bool,
    due: Set<KeyCode>,
) -> bool {
    let repeats = if redraw {
        events.drop_first()
    } else {
        events
    };
    &&& redraw ==> events.len() >= 1 && events[0] == BackendEvent::Redraw
    &&& repeats.no_duplicates()
    &&& forall|i: int|
        0 <= i < repeats.len() ==> (#[trigger] repeats[i]) is Keyrepeat && due.contains(
            repeats[i]->Keyrepeat_0,
        )
    &&& forall|k: KeyCode| due.contains(k) ==> repeats.contains(BackendEvent::Keyrepeat(k))
}

/// The keys the web frontend holds down, each with the time it was pressed
/// or last repeated.
pub struct KeyRepeat {
    times: SlotTimes,
}

impl KeyRepeat {
    /// Every slot in the table is a key's.
    pub closed spec fn wf(&self) -> bool {
        forall|s: u32| slot_times(self.times).dom().contains(s) ==> s < KEY_COUNT
    }

    /// Each held key and the time it was pressed or last repeated.
    pub closed spec fn held(&self) -> Map<KeyCode, u64> {
        held_of(slot_times(self.times))
    }

    /// No key held.
    pub fn new() -> (r: Self)
        ensures
            r.wf(),
            r.held() == Map::<KeyCode, u64>::empty(),
    {
        let r = KeyRepeat { times: SlotTimes::new() };
        assert(r.held() =~= Map::<KeyCode, u64>::empty());
        r
    }

    /// `key` goes down at `now`: it is sent as pressed and held since `now`.
    pub fn key_down(&mut self, key: KeyCode, now: u64) -> (r: BackendEvent)
        requires
            old(self).wf(),
        ensures
            final(self).wf(),
            final(self).held() == old(self).held().insert(key, now),
            r == BackendEvent::Keydown(key),
    {
        let slot = slot_of(key);
        self.times.insert(slot, now);
        proof {
            assert forall|k: KeyCode| #![auto] k != key implies key_slot(k) != key_slot(key) by {
                lemma_key_slot_injective(k, key);
            }
            assert(self.held() =~= old(self).held().insert(key, now));
        }
        BackendEvent::Keydown(key)
    }

    /// `key` goes up: it is sent as released and no longer held.
    pub fn key_up(&mut self, key: KeyCode) -> (r: BackendEvent)
        requires
            old(self).wf(),
        ensures
            final(self).wf(),
            final(self).held() == old(self).held().remove(key),
            r == BackendEvent::Keyup(key),
    {
        let slot = slot_of(key);
        self.times.remove(slot);
        proof {
            assert forall|k: KeyCode| #![auto] k != key implies key_slot(k) != key_slot(key) by {
                lemma_key_slot_injective(k, key);
            }
            assert(self.held() =~= old(self).held().remove(key));
        }
        BackendEvent::Keyup(key)
    }

    /// One update at `now`: a redraw when `redraw` asks for one, then a
    /// repeat of each held key due at `now`; each key that repeats is held
    /// since `now` afterwards.
    pub fn update(&mut self, now: u64, redraw: bool) -> (r: Vec<BackendEvent>)
        requires
            old(self).wf(),
        ensures
            final(self).wf(),
            final(self).held() == after_repeats(old(self).held(), now),
            update_events(r@, redraw, due_keys(old(self).held(), now)),
    {
        let ghost old_times = slot_times(self.times);
        let ghost held = self.held();
        let slots = self.times.slots();
        let mut events: Vec<BackendEvent> = Vec::new();
        if redraw {
            events.push(BackendEvent::Redraw);
        }
        let ghost prefix = events@;
        let ghost mut repeats: Seq<KeyCode> = Seq::empty();
        let mut i: usize = 0;
        while i < slots.len()
            invariant
                i <= slots@.len(),
                prefix == (if redraw { seq![BackendEvent::Redraw] } else { Seq::<BackendEvent>::empty() }),
                events@ == prefix + repeats.map_values(|k: KeyCode| BackendEvent::Keyrepeat(k)),
                slots@.no_duplicates(),
                forall|s: u32| slots@.contains(s) <==> old_times.dom().contains(s),
                forall|s: u32| old_times.dom().contains(s) ==> s < KEY_COUNT,
                held == held_of(old_times),
                slot_times(self.times).dom() == old_times.dom(),
                forall|s: u32|
                    #![trigger slot_times(self.times)[s]]
                    old_times.dom().contains(s) ==> slot_times(self.times)[s] == (if slots@.subrange(
                        0,
                        i as int,
                    ).contains(s) && repeat_due(old_times[s], now) {
                        now
                    } else {
                        old_times[s]
                    }),
                repeats.no_duplicates(),
                forall|k: KeyCode|
                    #![trigger repeats.contains(k)]
                    repeats.contains(k) <==> (slots@.subrange(0, i as int).contains(key_slot(k))
                        && held.dom().contains(k) && repeat_due(held[k], now)),
            decreases slots@.len() - i,
        {
            let slot = slots[i];
            let ghost done = slots@.subrange(0, i as int);
            proof {
                assert(slots@.subrange(0, i + 1) =~= done.push(slot));
                assert forall|x: u32| #[trigger] slots@.subrange(0, i + 1).contains(x) <==> (done.contains(x) || x
                    == slot) by {
                    vstd::seq_lib::lemma_seq_contains_after_push(done, slot, x);
                }
                assert(slots@.contains(slot));
                assert(!done.contains(slot)) by {
                    if done.contains(slot) {
                        let m = choose|m: int| 0 <= m < done.len() && done[m] == slot;
                        assert(slots@[m] == slots@[i as int]);
                    }
                }
            }
            match self.times.get(slot) {
                Some(time) => {
                    if now > time && now - time > KEY_REPEAT_INTERVAL {
                        match key_in_slot(slot) {
                            Some(key) => {
                                events.push(BackendEvent::Keyrepeat(key));
                                self.times.insert(slot, now);
                                proof {
                                    lemma_slot_keys(key);
                                    assert(!repeats.contains(key));
                                    let old_repeats = repeats;
                                    repeats = repeats.push(key);
                                    assert(events@ =~= prefix + repeats.map_values(
                                        |k: KeyCode| BackendEvent::Keyrepeat(k),
                                    ));
                                    assert forall|k: KeyCode|
                                        #![trigger repeats.contains(k)]
                                        repeats.contains(k) <==> (slots@.subrange(0, i + 1).contains(key_slot(k))
                                            && held.dom().contains(k) && repeat_due(held[k], now)) by {
                                        lemma_key_slot_injective(k, key);
                                        vstd::seq_lib::lemma_seq_contains_after_push(old_repeats, key, k);
                                    }
                                }
                            },
                            None => {},
                        }
                    } else {
                        proof {
                            assert forall|k: KeyCode|
                                #![trigger repeats.contains(k)]
                                repeats.contains(k) <==> (slots@.subrange(0, i + 1).contains(key_slot(k))
                                    && held.dom().contains(k) && repeat_due(held[k], now)) by {
                                if key_slot(k) == slot {
                                    assert(held.dom().contains(k) ==> held[k] == time);
                                }
                            }
                        }
                    }
                },
                None => {},
            }
            i += 1;
        }
        proof {
            assert(slots@.subrange(0, slots@.len() as int) =~= slots@);
            assert(self.held() =~= after_repeats(held, now));
            lemma_repeat_events(events@, prefix, repeats, redraw, due_keys(held, now));
        }
        events
    }
}

/// A key pressed at `pressed` is due to repeat at `now` exactly when more
/// than the repeat interval has passed since.
pub proof fn lemma_pressed_key_due(held: Map<KeyCode, u64>, key: KeyCode, pressed: u64, now: u64)
    ensures
        due_keys(held.insert(key, pressed), now).contains(key) <==> now - pressed > KEY_REPEAT_INTERVAL,
{
}

/// A key that was released does not repeat, whatever the time.
pub proof fn lemma_released_key_never_repeats(held: Map<KeyCode, u64>, key: KeyCode, now: u64)
    ensures
        !due_keys(held.remove(key), now).contains(key),
{
}

/// After the repeats at `now` the same keys are held, and none of them is
/// due again at `now`: a second update at the same time repeats nothing.
pub proof fn lemma_no_second_repeat_at_same_time(held: Map<KeyCode, u64>, now: u64)
    ensures
        after_repeats(held, now).dom() == held.dom(),
        due_keys(after_repeats(held, now), now) == Set::<KeyCode>::empty(),
{
    assert(after_repeats(held, now).dom() =~= held.dom());
    assert(due_keys(after_repeats(held, now), now) =~= Set::<KeyCode>::empty());
}

/// Every key's slot is below [`KEY_COUNT`].
proof fn lemma_slot_keys(key: KeyCode)
    ensures
        key_slot(key) < KEY_COUNT,
{
}

/// Events made of a redraw prefix and one repeat for each key of `repeats`
/// are the events of an update, when `repeats` holds each due key once.
proof fn lemma_repeat_events(
    events: Seq<BackendEvent>,
    prefix: Seq<BackendEvent>,
    repeats: Seq<KeyCode>,
    redraw: bool,
    due: Set<KeyCode>,
)
    requires
        prefix == (if redraw { seq![BackendEvent::Redraw] } else { Seq::<BackendEvent>::empty() }),
        events == prefix + repeats.map_values(|k: KeyCode| BackendEvent::Keyrepeat(k)),
        repeats.no_duplicates(),
        forall|k: KeyCode| #![trigger repeats.contains(k)] repeats.contains(k) <==> due.contains(k),
    ensures
        update_events(events, redraw, due),
{
    let mapped = repeats.map_values(|k: KeyCode| BackendEvent::Keyrepeat(k));
    let tail = if redraw {
        events.drop_first()
    } else {
        events
    };
    assert(tail =~= mapped);
    assert forall|a: int, b: int| 0 <= a < b < mapped.len() implies mapped[a] != mapped[b] by {
        assert(repeats[a] != repeats[b]);
    }
    assert forall|i: int| 0 <= i < mapped.len() implies (#[trigger] mapped[i]) is Keyrepeat && due.contains(
        mapped[i]->Keyrepeat_0,
    ) by {
        assert(repeats.contains(repeats[i]));
    }
    assert forall|k: KeyCode| due.contains(k) implies mapped.contains(BackendEvent::Keyrepeat(k)) by {
        assert(repeats.contains(k));
        let m = choose|m: int| 0 <= m < repeats.len() && repeats[m] == k;
        assert(mapped[m] == BackendEvent::Keyrepeat(k));
    }
}

} // verus!

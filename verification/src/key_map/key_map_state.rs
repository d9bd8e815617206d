use vstd::prelude::*;
use core::marker::PhantomData;
use crate::key_map::key_binding::KeyEvent;
use crate::key_map::key_map::{answer_for, command_for, key_step, lemma_first_exact, Answer, KeyMap};

verus! {

/// The period after the last keystroke at which a pending key sequence is resolved, in
/// milliseconds.
pub const DEFAULT_RESET_PERIOD_MILLIS: u64 = 250;

/// Where a key sequence stands, and when it is to be resolved. Clock readings are in
/// milliseconds, from any fixed origin.
pub struct KeyMapState<T> {
    reset_time: u64,
    reset_period: u64,
    position: Vec<KeyEvent>,
    phantom: PhantomData<T>,
}

/// The command of the binding with exactly `keys`, as a reference into the key map.
pub open spec fn command_ref<'a, T>(key_map: &'a KeyMap<T>, keys: Seq<KeyEvent>, res: Option<&'a T>) -> bool {
    match command_for(key_map.spec_bindings(), keys) {
        Some(command) => res == Some(&command),
        None => res is None,
    }
}

impl<T> KeyMapState<T> {
    /// The keystrokes typed since the last reset.
    pub closed spec fn spec_position(&self) -> Seq<KeyEvent> {
        self.position@
    }

    /// The clock reading at which the pending keystrokes are resolved.
    pub closed spec fn spec_reset_time(&self) -> u64 {
        self.reset_time
    }

    pub closed spec fn spec_reset_period(&self) -> u64 {
        self.reset_period
    }

    /// A state at the root, to be resolved [`DEFAULT_RESET_PERIOD_MILLIS`] after `now`.
    pub fn new(key_map: &KeyMap<T>, now: u64) -> (res: Self)
        requires
            now + DEFAULT_RESET_PERIOD_MILLIS <= u64::MAX,
        ensures
            res.spec_position() == Seq::<KeyEvent>::empty(),
            res.spec_reset_period() == DEFAULT_RESET_PERIOD_MILLIS,
            res.spec_reset_time() == now + DEFAULT_RESET_PERIOD_MILLIS,
    {
        Self::new_with_reset_period(key_map, DEFAULT_RESET_PERIOD_MILLIS, now)
    }

    /// A state at the root, to be resolved `reset_period` after `now`.
    pub fn new_with_reset_period(key_map: &KeyMap<T>, reset_period: u64, now: u64) -> (res: Self)
        requires
            now + reset_period <= u64::MAX,
        ensures
            res.spec_position() == Seq::<KeyEvent>::empty(),
            res.spec_reset_period() == reset_period,
            res.spec_reset_time() == now + reset_period,
    {
        let mut key_map_state = KeyMapState {
            reset_time: now,
            reset_period,
            position: Vec::new(),
            phantom: PhantomData,
        };
        key_map_state.defer_reset_time(now);
        key_map_state
    }

    fn defer_reset_time(&mut self, now: u64)
        requires
            now + old(self).reset_period <= u64::MAX,
        ensures
            final(self).reset_time == now + old(self).reset_period,
            final(self).reset_period == old(self).reset_period,
            final(self).position == old(self).position,
    {
        self.reset_time = now + self.reset_period;
    }

    fn reset(&mut self, now: u64)
        requires
            now + old(self).reset_period <= u64::MAX,
        ensures
            final(self).reset_time == now + old(self).reset_period,
            final(self).reset_period == old(self).reset_period,
            final(self).position@ == Seq::<KeyEvent>::empty(),
    {
        self.defer_reset_time(now);
        self.position = Vec::new();
    }

    /// Takes a keystroke at clock reading `now`. A sequence that completes a binding, with
    /// no longer binding starting with it, gives that binding's command and returns to the
    /// root; a sequence that some longer binding starts with is kept; any other sequence
    /// returns to the root. Either way the reset is deferred to a full period after `now`.
    pub fn on_key_event<'a>(&mut self, key_map: &'a KeyMap<T>, key_event: KeyEvent, now: u64) -> (res: Option<&'a T>)
        requires
            now + old(self).spec_reset_period() <= u64::MAX,
        ensures
            final(self).spec_reset_period() == old(self).spec_reset_period(),
            final(self).spec_reset_time() == now + old(self).spec_reset_period(),
            final(self).spec_position() == key_step(key_map.spec_bindings(), old(self).spec_position(), key_event).0,
            match key_step(key_map.spec_bindings(), old(self).spec_position(), key_event).1 {
                Some(command) => res == Some(&command),
                None => res is None,
            },
            ({
                let keys = old(self).spec_position().push(key_event);
                match answer_for(key_map.spec_bindings(), keys) {
                    Some(Answer::Match) => {
                        &&& final(self).spec_position() == Seq::<KeyEvent>::empty()
                        &&& command_ref(key_map, keys, res)
                        &&& res is Some
                    },
                    Some(_) => final(self).spec_position() == keys && res is None,
                    None => final(self).spec_position() == Seq::<KeyEvent>::empty() && res is None,
                }
            }),
    {
        self.defer_reset_time(now);
        let ghost old_position = self.position@;
        self.position.push(key_event);
        proof {
            assert(self.position@ == old_position.push(key_event));
        }
        match key_map.query(&self.position) {
            Some(Answer::Match) => {
                let commands = key_map.value(&self.position);
                proof {
                    lemma_first_exact(key_map.spec_bindings(), self.position@);
                }
                self.reset(now);
                commands
            },
            Some(_) => None,
            None => {
                self.reset(now);
                None
            },
        }
    }

    /// At clock reading `now`, once the reset time has come: gives the command of the
    /// binding with exactly the pending keystrokes, if any, and returns to the root.
    pub fn on_tick<'a>(&mut self, key_map: &'a KeyMap<T>, now: u64) -> (res: Option<&'a T>)
        requires
            now + old(self).spec_reset_period() <= u64::MAX,
        ensures
            final(self).spec_reset_period() == old(self).spec_reset_period(),
            now >= old(self).spec_reset_time() ==> {
                &&& command_ref(key_map, old(self).spec_position(), res)
                &&& final(self).spec_position() == Seq::<KeyEvent>::empty()
                &&& final(self).spec_reset_time() == now + old(self).spec_reset_period()
            },
            now < old(self).spec_reset_time() ==> res is None && final(self).spec_position() == old(
                self,
            ).spec_position() && final(self).spec_reset_time() == old(self).spec_reset_time(),
    {
        if now >= self.reset_time {
            let commands = key_map.value(&self.position);
            self.reset(now);
            commands
        } else {
            None
        }
    }

    /// Returns to the root after the key map changed.
    pub fn on_key_map_update(&mut self, now: u64)
        requires
            now + old(self).spec_reset_period() <= u64::MAX,
        ensures
            final(self).spec_position() == Seq::<KeyEvent>::empty(),
            final(self).spec_reset_period() == old(self).spec_reset_period(),
            final(self).spec_reset_time() == now + old(self).spec_reset_period(),
    {
        self.reset(now);
    }
}

/// A key map together with where its key sequence stands.
pub struct KeyMapSession<T> {
    pub key_map: KeyMap<T>,
    pub key_map_state: KeyMapState<T>,
}

impl<T> KeyMapSession<T> {
    pub fn new(key_map: KeyMap<T>, now: u64) -> (res: Self)
        requires
            now + DEFAULT_RESET_PERIOD_MILLIS <= u64::MAX,
        ensures
            res.key_map == key_map,
            res.key_map_state.spec_position() == Seq::<KeyEvent>::empty(),
            res.key_map_state.spec_reset_period() == DEFAULT_RESET_PERIOD_MILLIS,
            res.key_map_state.spec_reset_time() == now + DEFAULT_RESET_PERIOD_MILLIS,
    {
        Self::new_with_reset_period(key_map, DEFAULT_RESET_PERIOD_MILLIS, now)
    }

    pub fn new_with_reset_period(key_map: KeyMap<T>, reset_period: u64, now: u64) -> (res: Self)
        requires
            now + reset_period <= u64::MAX,
        ensures
            res.key_map == key_map,
            res.key_map_state.spec_position() == Seq::<KeyEvent>::empty(),
            res.key_map_state.spec_reset_period() == reset_period,
            res.key_map_state.spec_reset_time() == now + reset_period,
    {
        let key_map_state = KeyMapState::new_with_reset_period(&key_map, reset_period, now);
        KeyMapSession { key_map, key_map_state }
    }

    /// [`KeyMapState::on_key_event`] on the session's key map.
    pub fn on_key_event(&mut self, key_event: KeyEvent, now: u64) -> (res: Option<&T>)
        requires
            now + old(self).key_map_state.spec_reset_period() <= u64::MAX,
        ensures
            final(self).key_map == old(self).key_map,
            final(self).key_map_state.spec_reset_period() == old(self).key_map_state.spec_reset_period(),
            final(self).key_map_state.spec_reset_time() == now + old(self).key_map_state.spec_reset_period(),
            ({
                let keys = old(self).key_map_state.spec_position().push(key_event);
                match answer_for(old(self).key_map.spec_bindings(), keys) {
                    Some(Answer::Match) => {
                        &&& final(self).key_map_state.spec_position() == Seq::<KeyEvent>::empty()
                        &&& command_ref(&old(self).key_map, keys, res)
                        &&& res is Some
                    },
                    Some(_) => final(self).key_map_state.spec_position() == keys && res is None,
                    None => final(self).key_map_state.spec_position() == Seq::<KeyEvent>::empty() && res is None,
                }
            }),
    {
        self.key_map_state.on_key_event(&self.key_map, key_event, now)
    }

    /// [`KeyMapState::on_tick`] on the session's key map.
    pub fn on_tick(&mut self, now: u64) -> (res: Option<&T>)
        requires
            now + old(self).key_map_state.spec_reset_period() <= u64::MAX,
        ensures
            final(self).key_map == old(self).key_map,
            final(self).key_map_state.spec_reset_period() == old(self).key_map_state.spec_reset_period(),
            now >= old(self).key_map_state.spec_reset_time() ==> {
                &&& command_ref(&old(self).key_map, old(self).key_map_state.spec_position(), res)
                &&& final(self).key_map_state.spec_position() == Seq::<KeyEvent>::empty()
                &&& final(self).key_map_state.spec_reset_time() == now + old(
                    self,
                ).key_map_state.spec_reset_period()
            },
            now < old(self).key_map_state.spec_reset_time() ==> res is None
                && final(self).key_map_state.spec_position() == old(self).key_map_state.spec_position()
                && final(self).key_map_state.spec_reset_time() == old(self).key_map_state.spec_reset_time(),
    {
        self.key_map_state.on_tick(&self.key_map, now)
    }
}

} // verus!

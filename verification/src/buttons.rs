//! Edge-triggered button state tracking.
//!
//! A Stream Deck reports the level of every button in each input report.
//! [`ButtonStateTracker`] keeps the last known state of every button and
//! turns each raw report into the list of buttons whose state changed,
//! in increasing button order.

use vstd::prelude::*;

use crate::type_info::StreamDeckType;

verus! {

/// The state a button can be in or change to.
#[derive(Clone, Copy, PartialEq, Eq, Structural, Debug)]
pub enum ButtonState {
    Down,
    Up,
}

/// Event sent when a button changes its state.
#[derive(Clone, Copy, PartialEq, Eq, Structural, Debug)]
pub struct ButtonEvent {
    pub button_id: u32,
    pub state: ButtonState,
}

/// The button states implied by the raw status bytes of one report:
/// zero means released, anything else means pressed.
pub open spec fn spec_states_of_raw(raw: Seq<u8>) -> Seq<ButtonState> {
    Seq::new(
        raw.len(),
        |i: int|
            if raw[i] == 0 {
                ButtonState::Up
            } else {
                ButtonState::Down
            },
    )
}

/// The events emitted for buttons `from..states.len()` when a report with
/// raw status bytes `raw` arrives while the remembered states are `states`:
/// one event per button whose level differs from the remembered state, in
/// increasing button order.
pub open spec fn spec_button_events_from(states: Seq<ButtonState>, raw: Seq<u8>, from: int) -> Seq<
    ButtonEvent,
>
    decreases states.len() - from,
{
    if from < 0 || from >= states.len() {
        Seq::empty()
    } else {
        let rest = spec_button_events_from(states, raw, from + 1);
        if raw[from] == 0 && states[from] == ButtonState::Down {
            seq![ButtonEvent { button_id: from as u32, state: ButtonState::Up }] + rest
        } else if raw[from] != 0 && states[from] == ButtonState::Up {
            seq![ButtonEvent { button_id: from as u32, state: ButtonState::Down }] + rest
        } else {
            rest
        }
    }
}

/// The events emitted for a whole report.
pub open spec fn spec_button_events(states: Seq<ButtonState>, raw: Seq<u8>) -> Seq<ButtonEvent> {
    spec_button_events_from(states, raw, 0)
}

/// Remembers the last known state of every button of one device and turns
/// raw input reports into edge-triggered events.
pub struct ButtonStateTracker {
    /// Last known state per button index; all `Up` initially.
    pub states: Vec<ButtonState>,
    /// Byte offset in an input report where the button status bytes start.
    pub read_offset: usize,
}

impl ButtonStateTracker {
    /// A fresh tracker for the model: every button starts `Up`.
    pub fn new(device_type: &StreamDeckType) -> (r: ButtonStateTracker)
        ensures
            r.states@.len() == device_type.spec_total_num_buttons(),
            forall|i: int| 0 <= i < r.states@.len() ==> r.states@[i] == ButtonState::Up,
            r.read_offset == device_type.spec_button_read_offset(),
    {
        let n = device_type.total_num_buttons();
        let mut states: Vec<ButtonState> = Vec::new();
        while states.len() < n
            invariant
                states@.len() <= n,
                forall|i: int| 0 <= i < states@.len() ==> states@[i] == ButtonState::Up,
            decreases n - states@.len(),
        {
            states.push(ButtonState::Up);
        }
        ButtonStateTracker { states, read_offset: device_type.button_read_offset() }
    }

    /// How long an input report for this tracker is expected to be.
    pub fn expected_report_len(&self) -> (r: usize)
        requires
            self.read_offset + self.states@.len() <= usize::MAX,
        ensures
            r == self.read_offset + self.states@.len(),
    {
        self.read_offset + self.states.len()
    }

    /// Process one raw input report.
    ///
    /// Updates every remembered state to the level the report shows and
    /// returns one event per button whose state changed, in increasing
    /// button order.
    pub fn process_report(&mut self, report: &[u8]) -> (events: Vec<ButtonEvent>)
        requires
            old(self).read_offset + old(self).states@.len() <= report@.len(),
            old(self).states@.len() <= u32::MAX,
        ensures
            final(self).read_offset == old(self).read_offset,
            final(self).states@ == spec_states_of_raw(
                report@.subrange(
                    old(self).read_offset as int,
                    old(self).read_offset + old(self).states@.len(),
                ),
            ),
            events@ == spec_button_events(
                old(self).states@,
                report@.subrange(
                    old(self).read_offset as int,
                    old(self).read_offset + old(self).states@.len(),
                ),
            ),
    {
        let ghost raw = report@.subrange(
            old(self).read_offset as int,
            old(self).read_offset + old(self).states@.len(),
        );
        let n = self.states.len();
        let offset = self.read_offset;
        let report_len = report.len();
        let mut events: Vec<ButtonEvent> = Vec::new();
        let mut i: usize = 0;
        while i < n
            invariant
                n == old(self).states@.len(),
                offset == old(self).read_offset,
                self.read_offset == old(self).read_offset,
                report_len == report@.len(),
                offset + n <= report_len,
                n <= u32::MAX,
                i <= n,
                raw == report@.subrange(offset as int, offset + n),
                self.states@.len() == n,
                forall|j: int| i <= j < n ==> self.states@[j] == old(self).states@[j],
                forall|j: int|
                    0 <= j < i ==> self.states@[j] == spec_states_of_raw(raw)[j],
                spec_button_events(old(self).states@, raw) == events@
                    + spec_button_events_from(old(self).states@, raw, i as int),
            decreases n - i,
        {
            let level = report[offset + i];
            proof {
                assert(raw[i as int] == report@[offset + i]);
            }
            if level == 0 {
                if self.states[i] == ButtonState::Down {
                    events.push(ButtonEvent { button_id: i as u32, state: ButtonState::Up });
                }
                self.states.set(i, ButtonState::Up);
            } else {
                if self.states[i] == ButtonState::Up {
                    events.push(ButtonEvent { button_id: i as u32, state: ButtonState::Down });
                }
                self.states.set(i, ButtonState::Down);
            }
            proof {
                assert(spec_button_events_from(old(self).states@, raw, i as int)
                    == (if raw[i as int] == 0 && old(self).states@[i as int]
                    == ButtonState::Down {
                    seq![ButtonEvent { button_id: i as u32, state: ButtonState::Up }]
                        + spec_button_events_from(old(self).states@, raw, i + 1)
                } else if raw[i as int] != 0 && old(self).states@[i as int]
                    == ButtonState::Up {
                    seq![ButtonEvent { button_id: i as u32, state: ButtonState::Down }]
                        + spec_button_events_from(old(self).states@, raw, i + 1)
                } else {
                    spec_button_events_from(old(self).states@, raw, i + 1)
                }));
                assert(spec_button_events(old(self).states@, raw) =~= events@
                    + spec_button_events_from(old(self).states@, raw, i + 1));
            }
            i += 1;
        }
        proof {
            assert(spec_button_events_from(old(self).states@, raw, n as int) =~= Seq::<
                ButtonEvent,
            >::empty());
            assert(events@ =~= spec_button_events(old(self).states@, raw));
            assert(self.states@ =~= spec_states_of_raw(raw));
        }
        events
    }
}

} // verus!

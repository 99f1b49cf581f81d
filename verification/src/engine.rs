//! The session that turns events from the input source into keystrokes for
//! the input simulator.

use crate::char_buffer::{popped, pushed, within_limit, CharBuffer, HeapSizedCharBuffer};
use crate::input_controller::{
    lemma_combine_round_trip, rewrite_of, rewritten, CombinationTarget, InputController,
    KeyCombination, KeyCombinationMap,
};
use crate::input_listener::MouseKeyEvent;
use crate::input_simulator::Keystroke;
use crate::keys::{changes_focus, Key};
use vstd::prelude::*;

verus! {

/// The state of a session.
#[verifier::ext_equal]
pub struct EngineView {
    /// The characters that can still be rewritten, oldest first.
    pub buffer: Seq<char>,
    /// The most characters that are kept.
    pub limit: Option<nat>,
    /// The table of combinations.
    pub table: Map<KeyCombination, CombinationTarget>,
    /// Whether the next quote opens a quotation.
    pub open_guillemets: bool,
    /// Whether the session is listening to its input source.
    pub listening: bool,
}

/// The quotation mark that a quote types.
pub open spec fn guillemet(open: bool) -> char {
    if open {
        '«'
    } else {
        '»'
    }
}

/// The keystrokes that carry out a rewrite: the two characters that are on
/// screen are deleted, and what they rewrite to is typed.
pub open spec fn rewrite_keystrokes(target: Option<CombinationTarget>) -> Seq<Keystroke> {
    match target {
        None => seq![],
        Some(CombinationTarget::Combine(a)) => seq![
            Keystroke::Backspace,
            Keystroke::Backspace,
            Keystroke::Character(a),
        ],
        Some(CombinationTarget::Revert(a, b)) => seq![
            Keystroke::Backspace,
            Keystroke::Backspace,
            Keystroke::Character(a),
            Keystroke::Character(b),
        ],
    }
}

impl EngineView {
    /// The state with other characters in its buffer.
    pub open spec fn with_buffer(self, buffer: Seq<char>) -> EngineView {
        EngineView { buffer, ..self }
    }

    /// The state after `event`. A session that is not listening ignores the
    /// event. A listening one forgets its characters on a mouse event and on
    /// a key that changes the focus; a quote is tracked as the quotation mark
    /// that it types, and the next quote types the other one; a key that
    /// types no character is ignored; a backspace forgets the last character;
    /// any other character goes through the table of combinations.
    pub open spec fn after(self, event: MouseKeyEvent) -> EngineView {
        if !self.listening {
            self
        } else {
            match event {
                MouseKeyEvent::Mouse => self.with_buffer(seq![]),
                MouseKeyEvent::Key { unicode_char, key } => {
                    if changes_focus(key) {
                        self.with_buffer(seq![])
                    } else if key == Key::Quote {
                        EngineView {
                            buffer: rewritten(
                                self.table,
                                self.buffer,
                                self.limit,
                                guillemet(self.open_guillemets),
                            ),
                            open_guillemets: !self.open_guillemets,
                            ..self
                        }
                    } else {
                        match unicode_char {
                            None => self,
                            Some(c) => if key == Key::Backspace {
                                self.with_buffer(popped(self.buffer))
                            } else {
                                self.with_buffer(
                                    rewritten(self.table, self.buffer, self.limit, c),
                                )
                            },
                        }
                    }
                },
            }
        }
    }

    /// The keystrokes that `event` calls for. A quote always has the
    /// character that the platform typed replaced by a quotation mark; a
    /// character that combines with the one before it has both replaced; no
    /// other event types anything.
    pub open spec fn keystrokes(self, event: MouseKeyEvent) -> Seq<Keystroke> {
        if !self.listening {
            seq![]
        } else {
            match event {
                MouseKeyEvent::Mouse => seq![],
                MouseKeyEvent::Key { unicode_char, key } => {
                    if changes_focus(key) {
                        seq![]
                    } else if key == Key::Quote {
                        seq![
                            Keystroke::Backspace,
                            Keystroke::Character(guillemet(self.open_guillemets)),
                        ]
                    } else {
                        match unicode_char {
                            None => seq![],
                            Some(c) => if key == Key::Backspace {
                                seq![]
                            } else {
                                rewrite_keystrokes(rewrite_of(self.table, self.buffer, c))
                            },
                        }
                    }
                },
            }
        }
    }
}

/// One session of recognition: a controller, and whether the next quote
/// opens or closes a quotation.
pub struct Engine<T: CharBuffer> {
    input_controller: InputController<T>,
    open_guillemets: bool,
    listening: bool,
}

impl<T: CharBuffer> View for Engine<T> {
    type V = EngineView;

    closed spec fn view(&self) -> EngineView {
        EngineView {
            buffer: self.input_controller.char_buffer@,
            limit: self.input_controller.char_buffer.limit(),
            table: self.input_controller.combination_map@,
            open_guillemets: self.open_guillemets,
            listening: self.listening,
        }
    }
}

impl Engine<HeapSizedCharBuffer> {
    /// A session that keeps the last ten characters. It is not listening
    /// yet, and its first quote opens a quotation.
    pub fn new(combination_map: KeyCombinationMap) -> (engine: Self)
        requires
            combination_map.wf(),
        ensures
            engine.wf(),
            engine@ == (EngineView {
                buffer: seq![],
                limit: Some(10nat),
                table: combination_map@,
                open_guillemets: true,
                listening: false,
            }),
    {
        let char_buffer = HeapSizedCharBuffer::new(10);
        Self::with_buffer(combination_map, char_buffer)
    }
}

impl<T: CharBuffer> Engine<T> {
    /// The representation invariant of the session: its controller is
    /// well-formed.
    pub closed spec fn wf(&self) -> bool {
        self.input_controller.wf()
    }

    /// A session that keeps its characters in `char_buffer`. It is not
    /// listening yet, and its first quote opens a quotation.
    pub fn with_buffer(combination_map: KeyCombinationMap, char_buffer: T) -> (engine: Self)
        requires
            combination_map.wf(),
            char_buffer.wf(),
        ensures
            engine.wf(),
            engine@ == (EngineView {
                buffer: char_buffer@,
                limit: char_buffer.limit(),
                table: combination_map@,
                open_guillemets: true,
                listening: false,
            }),
    {
        Self {
            input_controller: InputController::new(combination_map, char_buffer),
            open_guillemets: true,
            listening: false,
        }
    }

    /// Whether the session is listening to its input source.
    pub fn is_listening(&self) -> (listening: bool)
        ensures
            listening == self@.listening,
    {
        self.listening
    }

    /// Starts listening.
    pub fn start(self) -> (engine: Self)
        requires
            self.wf(),
        ensures
            engine.wf(),
            engine@ == (EngineView { listening: true, ..self@ }),
    {
        let mut engine = self;
        engine.listening = true;
        engine
    }

    /// Stops listening.
    pub fn stop(&mut self)
        requires
            old(self).wf(),
        ensures
            final(self).wf(),
            final(self)@ == (EngineView { listening: false, ..old(self)@ }),
    {
        self.listening = false;
    }

    /// Takes in one event from the input source, and returns the keystrokes
    /// for the input simulator to type, in order.
    pub fn handle_event(&mut self, event: MouseKeyEvent) -> (keystrokes: Vec<Keystroke>)
        requires
            old(self).wf(),
        ensures
            final(self).wf(),
            final(self)@ == old(self)@.after(event),
            keystrokes@ == old(self)@.keystrokes(event),
    {
        let mut keystrokes: Vec<Keystroke> = Vec::new();
        if !self.listening {
            return keystrokes;
        }
        match event {
            MouseKeyEvent::Mouse => {
                self.input_controller.clear_char_buffer();
            },
            MouseKeyEvent::Key { unicode_char, key } => {
                if key.is_change_focus() {
                    self.input_controller.clear_char_buffer();
                    return keystrokes;
                }
                if key == Key::Quote {
                    let guillemets = if self.open_guillemets {
                        '«'
                    } else {
                        '»'
                    };
                    self.open_guillemets = !self.open_guillemets;

                    let _ = self.input_controller.add_char(guillemets);

                    keystrokes.push(Keystroke::Backspace);
                    keystrokes.push(Keystroke::Character(guillemets));
                    return keystrokes;
                }
                let Some(unicode_char) = unicode_char else {
                    return keystrokes;
                };

                if key == Key::Backspace {
                    self.input_controller.backspace();
                    return keystrokes;
                }
                let target = self.input_controller.add_char(unicode_char);

                let Some(target) = target else {
                    return keystrokes;
                };
                keystrokes.push(Keystroke::Backspace);
                keystrokes.push(Keystroke::Backspace);

                match target {
                    CombinationTarget::Combine(a) => {
                        keystrokes.push(Keystroke::Character(a));
                    },
                    CombinationTarget::Revert(a, b) => {
                        keystrokes.push(Keystroke::Character(a));
                        keystrokes.push(Keystroke::Character(b));
                    },
                }
            },
        }
        keystrokes
    }
}

/// Whether `event` makes a listening session forget its characters: any
/// mouse event does, and any key that changes the focus.
pub open spec fn is_reset(event: MouseKeyEvent) -> bool {
    match event {
        MouseKeyEvent::Mouse => true,
        MouseKeyEvent::Key { key, .. } => changes_focus(key),
    }
}

/// Whether `event` is a key that types a character and that has no meaning
/// of its own to a session.
pub open spec fn is_plain_character(event: MouseKeyEvent) -> bool {
    event matches MouseKeyEvent::Key { unicode_char: Some(_), key }
        && !changes_focus(key) && key != Key::Quote && key != Key::Backspace
}

/// No event takes the buffer of a session past its limit.
pub proof fn lemma_after_within_limit(state: EngineView, event: MouseKeyEvent)
    requires
        within_limit(state.buffer, state.limit),
    ensures
        within_limit(state.after(event).buffer, state.limit),
        state.after(event).limit == state.limit,
        state.after(event).table == state.table,
        state.after(event).listening == state.listening,
{
}

/// Focus-change reset: a character typed right after a mouse event or a
/// change of focus never combines with what was typed before. It calls for
/// no keystroke, and it is alone in the buffer afterwards.
pub proof fn lemma_reset_forgets(state: EngineView, reset: MouseKeyEvent, typed: MouseKeyEvent)
    requires
        state.listening,
        within_limit(state.buffer, state.limit),
        is_reset(reset),
        is_plain_character(typed),
    ensures
        state.after(reset) == state.with_buffer(seq![]),
        state.keystrokes(reset) == Seq::<Keystroke>::empty(),
        state.after(reset).keystrokes(typed) == Seq::<Keystroke>::empty(),
        state.after(reset).after(typed).buffer == seq![typed->unicode_char->0],
{
    let c = typed->unicode_char->0;
    assert(pushed(seq![], state.limit, c) =~= seq![c]);
}

/// Where the table folds `first` followed by `trigger` into `folded`, a
/// listening session with nothing in its buffer lets `first` through, and at
/// `trigger` has the two characters on screen replaced by `folded`.
pub proof fn lemma_combine_keystrokes(
    state: EngineView,
    first: MouseKeyEvent,
    trigger: MouseKeyEvent,
    folded: char,
)
    requires
        state.listening,
        state.buffer == Seq::<char>::empty(),
        within_limit(state.buffer, state.limit),
        is_plain_character(first),
        is_plain_character(trigger),
        state.table.contains_key(
            KeyCombination(first->unicode_char->0, trigger->unicode_char->0),
        ),
        state.table[KeyCombination(first->unicode_char->0, trigger->unicode_char->0)]
            == CombinationTarget::Combine(folded),
    ensures
        state.keystrokes(first) == Seq::<Keystroke>::empty(),
        state.after(first).keystrokes(trigger) == seq![
            Keystroke::Backspace,
            Keystroke::Backspace,
            Keystroke::Character(folded),
        ],
        state.after(first).after(trigger) == state.with_buffer(seq![folded]),
{
    lemma_combine_round_trip(
        state.table,
        state.limit,
        first->unicode_char->0,
        trigger->unicode_char->0,
        folded,
    );
}

} // verus!

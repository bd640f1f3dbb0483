//! The standard NES game pad, as the CPU reads it through $4016.

use vstd::prelude::*;

use crate::mem::Mem;

verus! {

//
// The "strobe state": the order in which the NES reads the buttons.
//

pub const STROBE_STATE_A: u8 = 0;
pub const STROBE_STATE_B: u8 = 1;
pub const STROBE_STATE_SELECT: u8 = 2;
pub const STROBE_STATE_START: u8 = 3;
pub const STROBE_STATE_UP: u8 = 4;
pub const STROBE_STATE_DOWN: u8 = 5;
pub const STROBE_STATE_LEFT: u8 = 6;
pub const STROBE_STATE_RIGHT: u8 = 7;

#[derive(Clone, Copy, PartialEq, Eq, Structural)]
pub struct StrobeState {
    pub val: u8,
}

/// The standard NES game pad state
#[derive(Clone, Copy, PartialEq, Eq, Structural)]
pub struct GamePadState {
    pub left: bool,
    pub down: bool,
    pub up: bool,
    pub right: bool,
    pub a: bool,
    pub b: bool,
    pub select: bool,
    pub start: bool,
    pub strobe_state: StrobeState,
}

/// The button that the `n`th read after a strobe reports: A, B, Select, Start, Up, Down,
/// Left, Right.
pub open spec fn button(state: GamePadState, n: u8) -> bool {
    if n == 0 { state.a } else if n == 1 { state.b } else if n == 2 { state.select }
    else if n == 3 { state.start } else if n == 4 { state.up } else if n == 5 { state.down }
    else if n == 6 { state.left } else { state.right }
}

impl StrobeState {
    /// Given a GamePadState structure, returns the state of the given button.
    pub fn get(&self, state: &GamePadState) -> (b: bool)
        requires
            self.val < 8,
        ensures
            b == button(*state, self.val),
    {
        match self.val {
            STROBE_STATE_A => state.a,
            STROBE_STATE_B => state.b,
            STROBE_STATE_SELECT => state.select,
            STROBE_STATE_START => state.start,
            STROBE_STATE_UP => state.up,
            STROBE_STATE_DOWN => state.down,
            STROBE_STATE_LEFT => state.left,
            _ => state.right,
        }
    }

    /// Moves to the next button, from Right back to A.
    pub fn next(&mut self)
        ensures
            final(self).val == (old(self).val + 1) % 8,
    {
        let v = self.val;
        proof { crate::bits::lemma_byte(v); }
        *self = StrobeState { val: (self.val.wrapping_add(1)) & 7 };
    }

    pub fn reset(&mut self)
        ensures
            final(self).val == STROBE_STATE_A,
    {
        *self = StrobeState { val: STROBE_STATE_A };
    }
}

/// The keys that the emulator reacts to; every other key is `Other`.
#[derive(Clone, Copy, PartialEq, Eq, Structural, Debug)]
pub enum Key {
    Left,
    Down,
    Up,
    Right,
    Z,
    X,
    RShift,
    Return,
    Escape,
    S,
    L,
    Other,
}

/// The input events that the emulator reacts to.
#[derive(Clone, Copy, PartialEq, Eq, Structural, Debug)]
pub enum InputEvent {
    KeyDown(Key),
    KeyUp(Key),
    Quit,
    Other,
}

#[derive(Clone, Copy, PartialEq, Eq, Structural, Debug)]
pub enum InputResult {
    /// Keep playing.
    Continue,
    /// Quit the emulator.
    Quit,
    /// Save a state.
    SaveState,
    /// Load a state.
    LoadState,
}

pub struct Input {
    pub gamepad_0: GamePadState,
}

/// The game pad after a key goes down (`down`) or up: the arrows, Z (A), X (B), right Shift
/// (Select) and Return (Start) set their button; other keys change nothing.
pub open spec fn spec_gamepad_key(g: GamePadState, key: Key, down: bool) -> GamePadState {
    match key {
        Key::Left => GamePadState { left: down, ..g },
        Key::Down => GamePadState { down: down, ..g },
        Key::Up => GamePadState { up: down, ..g },
        Key::Right => GamePadState { right: down, ..g },
        Key::Z => GamePadState { a: down, ..g },
        Key::X => GamePadState { b: down, ..g },
        Key::RShift => GamePadState { select: down, ..g },
        Key::Return => GamePadState { start: down, ..g },
        _ => g,
    }
}

/// What an event asks of the main loop (`None`: keep polling), and the game pad after it.
/// Escape and the quit event quit; S and L save and load a state; other keys move the pad.
pub open spec fn spec_handle_event(g: GamePadState, ev: InputEvent) -> (GamePadState, Option<InputResult>) {
    match ev {
        InputEvent::KeyDown(Key::Escape) => (g, Some(InputResult::Quit)),
        InputEvent::KeyDown(Key::S) => (g, Some(InputResult::SaveState)),
        InputEvent::KeyDown(Key::L) => (g, Some(InputResult::LoadState)),
        InputEvent::KeyDown(key) => (spec_gamepad_key(g, key, true), None),
        InputEvent::KeyUp(key) => (spec_gamepad_key(g, key, false), None),
        InputEvent::Quit => (g, Some(InputResult::Quit)),
        InputEvent::Other => (g, None),
    }
}

impl Input {
    pub fn new() -> (i: Input)
        ensures
            i.gamepad_0 == (GamePadState {
                left: false,
                down: false,
                up: false,
                right: false,
                a: false,
                b: false,
                select: false,
                start: false,
                strobe_state: StrobeState { val: STROBE_STATE_A },
            }),
    {
        Input {
            gamepad_0: GamePadState {
                left: false,
                down: false,
                up: false,
                right: false,
                a: false,
                b: false,
                select: false,
                start: false,
                strobe_state: StrobeState { val: STROBE_STATE_A },
            },
        }
    }

    pub fn handle_gamepad_event(&mut self, key: Key, down: bool)
        ensures
            final(self).gamepad_0 == spec_gamepad_key(old(self).gamepad_0, key, down),
    {
        match key {
            Key::Left => self.gamepad_0.left = down,
            Key::Down => self.gamepad_0.down = down,
            Key::Up => self.gamepad_0.up = down,
            Key::Right => self.gamepad_0.right = down,
            Key::Z => self.gamepad_0.a = down,
            Key::X => self.gamepad_0.b = down,
            Key::RShift => self.gamepad_0.select = down,
            Key::Return => self.gamepad_0.start = down,
            _ => {},
        }
    }

    /// Handles one polled event: the main loop stops polling on `Some` and goes on on `None`.
    pub fn handle_event(&mut self, ev: InputEvent) -> (r: Option<InputResult>)
        ensures
            (final(self).gamepad_0, r) == spec_handle_event(old(self).gamepad_0, ev),
    {
        match ev {
            InputEvent::KeyDown(Key::Escape) => Some(InputResult::Quit),
            InputEvent::KeyDown(Key::S) => Some(InputResult::SaveState),
            InputEvent::KeyDown(Key::L) => Some(InputResult::LoadState),
            InputEvent::KeyDown(key) => {
                self.handle_gamepad_event(key, true);
                None
            },
            InputEvent::KeyUp(key) => {
                self.handle_gamepad_event(key, false);
                None
            },
            InputEvent::Quit => Some(InputResult::Quit),
            InputEvent::Other => None,
        }
    }
}

/// $4016 reads the buttons one at a time; a write to it strobes the pad back to A.
impl Mem for Input {
    open spec fn load_spec(&self, addr: u16) -> Option<(Self, u8)> {
        if addr == 0x4016 {
            let g = self.gamepad_0;
            if g.strobe_state.val < 8 {
                Some((
                    Input {
                        gamepad_0: GamePadState {
                            strobe_state: StrobeState { val: ((g.strobe_state.val + 1) % 8) as u8 },
                            ..g
                        },
                    },
                    if button(g, g.strobe_state.val) { 1u8 } else { 0u8 },
                ))
            } else {
                None
            }
        } else {
            Some((*self, 0))
        }
    }

    open spec fn store_spec(&self, addr: u16, val: u8) -> Option<Self> {
        if addr == 0x4016 {
            Some(Input {
                gamepad_0: GamePadState { strobe_state: StrobeState { val: STROBE_STATE_A }, ..self.gamepad_0 },
            })
        } else {
            Some(*self)
        }
    }

    fn loadb(&mut self, addr: u16) -> (val: u8) {
        if addr == 0x4016 {
            let result = self.gamepad_0.strobe_state.get(&self.gamepad_0) as u8;
            self.gamepad_0.strobe_state.next();
            result
        } else {
            0
        }
    }

    fn storeb(&mut self, addr: u16, val: u8) {
        if addr == 0x4016 {
            // FIXME: This is not really accurate; you're supposed to not reset until you see
            // 1 strobed than 0. But I doubt this will break anything.
            self.gamepad_0.strobe_state.reset();
        }
    }
}


//
// Laws of the pad port
//

/// The bytes that `n` reads of $4016 give, one after another.
pub open spec fn pad_reads(i: Input, n: nat) -> Seq<u8>
    decreases n,
{
    if n == 0 {
        Seq::empty()
    } else {
        match i.load_spec(0x4016) {
            Some((i2, v)) => seq![v] + pad_reads(i2, (n - 1) as nat),
            None => Seq::empty(),
        }
    }
}

/// The pad after `n` reads of $4016.
pub open spec fn pad_after_reads(i: Input, n: nat) -> Input
    decreases n,
{
    if n == 0 {
        i
    } else {
        match i.load_spec(0x4016) {
            Some((i2, _)) => pad_after_reads(i2, (n - 1) as nat),
            None => i,
        }
    }
}

proof fn lemma_pad_reads_from(i: Input, n: nat)
    requires
        i.gamepad_0.strobe_state.val < 8,
    ensures
        pad_reads(i, n).len() == n,
        forall|k: int| 0 <= k < n ==> #[trigger] pad_reads(i, n)[k] == if button(
            i.gamepad_0,
            ((i.gamepad_0.strobe_state.val + k) % 8) as u8,
        ) { 1u8 } else { 0u8 },
        pad_after_reads(i, n).gamepad_0 == (GamePadState {
            strobe_state: StrobeState { val: ((i.gamepad_0.strobe_state.val + n) % 8) as u8 },
            ..i.gamepad_0
        }),
    decreases n,
{
    if n > 0 {
        let (i2, v) = i.load_spec(0x4016).unwrap();
        lemma_pad_reads_from(i2, (n - 1) as nat);
        let s = i.gamepad_0.strobe_state.val;
        assert forall|k: int| 0 <= k < n implies #[trigger] pad_reads(i, n)[k] == if button(
            i.gamepad_0,
            ((s + k) % 8) as u8,
        ) { 1u8 } else { 0u8 } by {
            if k > 0 {
                assert(pad_reads(i, n)[k] == pad_reads(i2, (n - 1) as nat)[k - 1]);
                assert((((s + 1) % 8) + (k - 1)) % 8 == (s + k) % 8);
            }
        }
        assert((((s + 1) % 8) + (n - 1)) % 8 == (s + n) % 8);
    }
}

/// After a write to $4016 the pad reports its buttons one per read in the order A, B, Select,
/// Start, Up, Down, Left, Right (1 for pressed), and after the eighth read it starts over at A.
pub proof fn lemma_strobe_then_reads(i: Input, val: u8)
    ensures
        i.store_spec(0x4016, val) matches Some(s) && pad_reads(s, 8) == seq![
            if s.gamepad_0.a { 1u8 } else { 0u8 },
            if s.gamepad_0.b { 1u8 } else { 0u8 },
            if s.gamepad_0.select { 1u8 } else { 0u8 },
            if s.gamepad_0.start { 1u8 } else { 0u8 },
            if s.gamepad_0.up { 1u8 } else { 0u8 },
            if s.gamepad_0.down { 1u8 } else { 0u8 },
            if s.gamepad_0.left { 1u8 } else { 0u8 },
            if s.gamepad_0.right { 1u8 } else { 0u8 },
        ] && pad_after_reads(s, 8) == s,
{
    let s = i.store_spec(0x4016, val).unwrap();
    lemma_pad_reads_from(s, 8);
    let r = pad_reads(s, 8);
    assert(r[0] == if button(s.gamepad_0, 0) { 1u8 } else { 0u8 });
    assert(r[1] == if button(s.gamepad_0, 1) { 1u8 } else { 0u8 });
    assert(r[2] == if button(s.gamepad_0, 2) { 1u8 } else { 0u8 });
    assert(r[3] == if button(s.gamepad_0, 3) { 1u8 } else { 0u8 });
    assert(r[4] == if button(s.gamepad_0, 4) { 1u8 } else { 0u8 });
    assert(r[5] == if button(s.gamepad_0, 5) { 1u8 } else { 0u8 });
    assert(r[6] == if button(s.gamepad_0, 6) { 1u8 } else { 0u8 });
    assert(r[7] == if button(s.gamepad_0, 7) { 1u8 } else { 0u8 });
    assert(r =~= seq![
        if s.gamepad_0.a { 1u8 } else { 0u8 },
        if s.gamepad_0.b { 1u8 } else { 0u8 },
        if s.gamepad_0.select { 1u8 } else { 0u8 },
        if s.gamepad_0.start { 1u8 } else { 0u8 },
        if s.gamepad_0.up { 1u8 } else { 0u8 },
        if s.gamepad_0.down { 1u8 } else { 0u8 },
        if s.gamepad_0.left { 1u8 } else { 0u8 },
        if s.gamepad_0.right { 1u8 } else { 0u8 },
    ]);
}

} // verus!

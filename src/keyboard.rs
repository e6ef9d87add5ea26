use vstd::prelude::*;

verus! {

/// The keypad layout: the sixteen keys of a 4x4 block of a keyboard, read
/// row by row, stand for the logical keys
/// `1 2 3 C / 4 5 6 D / 7 8 9 E / A 0 B F`.
pub open spec fn key_index(c: char) -> Option<u8> {
    match c {
        '1' => Some(0x1u8),
        '2' => Some(0x2u8),
        '3' => Some(0x3u8),
        '4' => Some(0xcu8),
        'q' => Some(0x4u8),
        'w' => Some(0x5u8),
        'e' => Some(0x6u8),
        'r' => Some(0xdu8),
        'a' => Some(0x7u8),
        's' => Some(0x8u8),
        'd' => Some(0x9u8),
        'f' => Some(0xeu8),
        'z' => Some(0xau8),
        'x' => Some(0x0u8),
        'c' => Some(0xbu8),
        'v' => Some(0xfu8),
        _ => None,
    }
}

/// One input event, as the input backend hands it over.
#[derive(Clone, Copy, Debug, PartialEq, Eq, Structural)]
pub enum Input {
    /// A key that carries a character was pressed.
    Key(char),
    /// A key without a character was pressed (arrows, function keys, ...).
    OtherKey,
    /// The user asked to stop the machine.
    Interrupt,
    /// Anything that is not a key press (a resize, a mouse event, ...).
    Other,
}

/// What waiting for a key made of one event.
#[derive(Clone, Copy, Debug, PartialEq, Eq, Structural)]
pub enum KeyWait {
    /// A keypad key was pressed; its logical index.
    Pressed(u8),
    /// The user asked to stop: give up waiting.
    Interrupted,
    /// Nothing that ends the wait: read the next event.
    Waiting,
}

/// The state of the sixteen logical keys.
#[derive(Debug)]
pub struct Keyboard {
    keys: [bool; 16],
}

impl View for Keyboard {
    type V = Seq<bool>;

    closed spec fn view(&self) -> Seq<bool> {
        self.keys@
    }
}

impl Keyboard {
    pub broadcast proof fn lemma_len(k: &Keyboard)
        ensures
            #[trigger] k@.len() == 16,
    {
    }

    pub fn new() -> (r: Self)
        ensures
            r@ == Seq::new(16, |_i: int| false),
    {
        let r = Keyboard { keys: [false; 16] };
        assert(r@ =~= Seq::new(16, |_i: int| false));
        r
    }

    /// The logical key that a keyboard character stands for, if any.
    pub fn map_key(c: char) -> (r: Option<u8>)
        ensures
            r == key_index(c),
            r matches Some(k) ==> k < 16,
    {
        match c {
            '1' => Some(0x1),
            '2' => Some(0x2),
            '3' => Some(0x3),
            '4' => Some(0xc),
            'q' => Some(0x4),
            'w' => Some(0x5),
            'e' => Some(0x6),
            'r' => Some(0xd),
            'a' => Some(0x7),
            's' => Some(0x8),
            'd' => Some(0x9),
            'f' => Some(0xe),
            'z' => Some(0xa),
            'x' => Some(0x0),
            'c' => Some(0xb),
            'v' => Some(0xf),
            _ => None,
        }
    }

    pub fn set_state(&mut self, index: u8, state: bool)
        requires
            index < 16,
        ensures
            final(self)@ == old(self)@.update(index as int, state),
    {
        self.keys[index as usize] = state;
    }

    /// Whether logical key `index` is down. No key beyond the sixteen is ever down.
    pub fn is_pressed(&self, index: u8) -> (r: bool)
        ensures
            r == (index < 16 && self@[index as int]),
    {
        index < 16 && self.keys[index as usize]
    }

    /// Sets the state of the logical key that `key` stands for; a character
    /// off the keypad changes nothing.
    pub fn press(&mut self, key: char, state: bool)
        ensures
            final(self)@ == match key_index(key) {
                Some(k) => old(self)@.update(k as int, state),
                None => old(self)@,
            },
    {
        if let Some(index) = Self::map_key(key) {
            self.keys[index as usize] = state;
        }
    }

    /// Decides what one event means while the machine waits for a key:
    /// a keypad key ends the wait, an interrupt cancels it, anything else is
    /// passed over.
    pub fn wait_for_key(&self, event: Input) -> (r: KeyWait)
        ensures
            r == match event {
                Input::Key(c) => match key_index(c) {
                    Some(k) => KeyWait::Pressed(k),
                    None => KeyWait::Waiting,
                },
                Input::Interrupt => KeyWait::Interrupted,
                _ => KeyWait::Waiting,
            },
    {
        match event {
            Input::Key(c) => match Self::map_key(c) {
                Some(k) => KeyWait::Pressed(k),
                None => KeyWait::Waiting,
            },
            Input::Interrupt => KeyWait::Interrupted,
            _ => KeyWait::Waiting,
        }
    }

    /// Records one polled event: a keypad key is marked down; a key off the
    /// keypad releases every key; other events change nothing. Returns
    /// whether the event asks the machine to stop.
    pub fn register_key_press(&mut self, event: Input) -> (interrupted: bool)
        ensures
            interrupted == (event == Input::Interrupt),
            final(self)@ == match event {
                Input::Key(c) => match key_index(c) {
                    Some(k) => old(self)@.update(k as int, true),
                    None => Seq::new(16, |_i: int| false),
                },
                Input::OtherKey => Seq::new(16, |_i: int| false),
                _ => old(self)@,
            },
    {
        match event {
            Input::Key(c) => {
                match Self::map_key(c) {
                    Some(k) => self.keys[k as usize] = true,
                    None => self.release_all(),
                }
                false
            },
            Input::OtherKey => {
                self.release_all();
                false
            },
            Input::Interrupt => true,
            Input::Other => false,
        }
    }

    fn release_all(&mut self)
        ensures
            final(self)@ == Seq::new(16, |_i: int| false),
    {
        self.keys = [false; 16];
        assert(self@ =~= Seq::new(16, |_i: int| false));
    }
}

} // verus!

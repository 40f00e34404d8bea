//! The keys that the game reads and the raw axes they drive.
//!
//! The smoothing of the axes over time is the caller's; this module keeps
//! the discrete part: which keys are down and what each axis is pulled to.

use vstd::prelude::*;

verus! {

/// A key that the game reads.
#[derive(Copy, Clone, Debug, PartialEq, Eq, Structural)]
pub enum Key {
    KeyA,
    KeyD,
    KeyW,
    ArrowLeft,
    ArrowRight,
    ArrowUp,
    Space,
}

/// Which of the keys are down.
#[derive(Copy, Clone, Debug, PartialEq, Eq, Structural)]
pub struct KeyStates {
    pub key_a: bool,
    pub key_d: bool,
    pub key_w: bool,
    pub arrow_left: bool,
    pub arrow_right: bool,
    pub arrow_up: bool,
    pub space: bool,
}

impl KeyStates {
    /// No key is down.
    pub open spec fn none() -> KeyStates {
        KeyStates {
            key_a: false,
            key_d: false,
            key_w: false,
            arrow_left: false,
            arrow_right: false,
            arrow_up: false,
            space: false,
        }
    }

    /// Whether the key is down.
    pub open spec fn down(self, key: Key) -> bool {
        match key {
            Key::KeyA => self.key_a,
            Key::KeyD => self.key_d,
            Key::KeyW => self.key_w,
            Key::ArrowLeft => self.arrow_left,
            Key::ArrowRight => self.arrow_right,
            Key::ArrowUp => self.arrow_up,
            Key::Space => self.space,
        }
    }

    /// The states with one key set.
    pub open spec fn with(self, key: Key, pressed: bool) -> KeyStates {
        match key {
            Key::KeyA => KeyStates { key_a: pressed, ..self },
            Key::KeyD => KeyStates { key_d: pressed, ..self },
            Key::KeyW => KeyStates { key_w: pressed, ..self },
            Key::ArrowLeft => KeyStates { arrow_left: pressed, ..self },
            Key::ArrowRight => KeyStates { arrow_right: pressed, ..self },
            Key::ArrowUp => KeyStates { arrow_up: pressed, ..self },
            Key::Space => KeyStates { space: pressed, ..self },
        }
    }

    /// What the keys pull the horizontal axis to: left and right cancel.
    pub open spec fn horizontal(self) -> i8 {
        let left = self.key_a || self.arrow_left;
        let right = self.key_d || self.arrow_right;
        if left == right {
            0i8
        } else if left {
            -1i8
        } else {
            1i8
        }
    }

    /// What the keys pull the vertical axis to: thrust or nothing.
    pub open spec fn vertical(self) -> i8 {
        if self.key_w || self.arrow_up {
            1i8
        } else {
            0i8
        }
    }

    /// What the keys pull the fire axis to.
    pub open spec fn fire(self) -> i8 {
        if self.space {
            1i8
        } else {
            0i8
        }
    }
}

/// One input axis: the value that the keys pull it to.
#[derive(Copy, Clone, Debug, PartialEq, Eq, Structural)]
pub struct InputAxis {
    pub raw: i8,
}

impl InputAxis {
    /// An axis at rest.
    pub fn new() -> (axis: InputAxis)
        ensures
            axis.raw == 0,
    {
        InputAxis { raw: 0 }
    }

    /// Pulls the axis by `v`.
    pub fn add(&mut self, v: i8)
        requires
            i8::MIN <= old(self).raw + v <= i8::MAX,
        ensures
            final(self).raw == old(self).raw + v,
    {
        self.raw = self.raw + v;
    }

    /// Lets the axis go.
    pub fn reset(&mut self)
        ensures
            final(self).raw == 0,
    {
        self.raw = 0;
    }
}

/// The keyboard as the game sees it.
#[derive(Copy, Clone, Debug)]
pub struct Input {
    keys_states: KeyStates,
    horizontal: InputAxis,
    vertical: InputAxis,
    fire: InputAxis,
}

impl Input {
    /// Which keys are down.
    pub closed spec fn keys(self) -> KeyStates {
        self.keys_states
    }

    /// The raw values of the horizontal, the vertical and the fire axis, as
    /// of the last update.
    pub closed spec fn axes(self) -> (i8, i8, i8) {
        (self.horizontal.raw, self.vertical.raw, self.fire.raw)
    }

    /// Records that a key went down or up.
    pub fn on_key(&mut self, key: Key, pressed: bool)
        ensures
            final(self).keys() == old(self).keys().with(key, pressed),
            final(self).axes() == old(self).axes(),
    {
        match key {
            Key::KeyA => {
                self.keys_states.key_a = pressed;
            },
            Key::KeyD => {
                self.keys_states.key_d = pressed;
            },
            Key::KeyW => {
                self.keys_states.key_w = pressed;
            },
            Key::ArrowLeft => {
                self.keys_states.arrow_left = pressed;
            },
            Key::ArrowRight => {
                self.keys_states.arrow_right = pressed;
            },
            Key::ArrowUp => {
                self.keys_states.arrow_up = pressed;
            },
            Key::Space => {
                self.keys_states.space = pressed;
            },
        }
    }

    /// Whether the key is down. A key that was never reported is up.
    pub fn is_key_down(&self, key: Key) -> (down: bool)
        ensures
            down == self.keys().down(key),
    {
        match key {
            Key::KeyA => self.keys_states.key_a,
            Key::KeyD => self.keys_states.key_d,
            Key::KeyW => self.keys_states.key_w,
            Key::ArrowLeft => self.keys_states.arrow_left,
            Key::ArrowRight => self.keys_states.arrow_right,
            Key::ArrowUp => self.keys_states.arrow_up,
            Key::Space => self.keys_states.space,
        }
    }

    /// Sets the raw axes from the keys that are down: A or left pulls the
    /// horizontal axis to -1 and D or right to 1, W or up pulls the vertical
    /// axis to 1, and space pulls the fire axis to 1.
    pub fn update(&mut self)
        ensures
            final(self).keys() == old(self).keys(),
            final(self).axes() == (
                old(self).keys().horizontal(),
                old(self).keys().vertical(),
                old(self).keys().fire(),
            ),
    {
        self.horizontal.reset();
        self.vertical.reset();
        self.fire.reset();

        if self.is_key_down(Key::KeyA) || self.is_key_down(Key::ArrowLeft) {
            self.horizontal.add(-1);
        }
        if self.is_key_down(Key::KeyD) || self.is_key_down(Key::ArrowRight) {
            self.horizontal.add(1);
        }
        if self.is_key_down(Key::KeyW) || self.is_key_down(Key::ArrowUp) {
            self.vertical.add(1);
        }
        if self.is_key_down(Key::Space) {
            self.fire.add(1);
        }
    }

    /// The raw horizontal axis: -1, 0 or 1.
    pub fn raw_horizontal(&self) -> (raw: i8)
        ensures
            raw == self.axes().0,
    {
        self.horizontal.raw
    }

    /// The raw vertical axis: 0 or 1.
    pub fn raw_vertical(&self) -> (raw: i8)
        ensures
            raw == self.axes().1,
    {
        self.vertical.raw
    }

    /// Whether the fire key counted at the last update.
    pub fn get_fire(&self) -> (fire: bool)
        ensures
            fire == (self.axes().2 >= 1),
    {
        self.fire.raw >= 1
    }
}

impl Default for Input {
    /// No key is down and every axis is at rest.
    fn default() -> (input: Input)
        ensures
            input.keys() == KeyStates::none(),
            input.axes() == (0i8, 0i8, 0i8),
    {
        Input {
            keys_states: KeyStates {
                key_a: false,
                key_d: false,
                key_w: false,
                arrow_left: false,
                arrow_right: false,
                arrow_up: false,
                space: false,
            },
            horizontal: InputAxis::new(),
            vertical: InputAxis::new(),
            fire: InputAxis::new(),
        }
    }
}

} // verus!

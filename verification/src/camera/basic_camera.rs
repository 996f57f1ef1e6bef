use vstd::prelude::*;

verus! {

/// The four ways in which a camera is shifted by one step.
#[derive(Debug)]
pub enum Direction {
    LEFT,
    RIGHT,
    FRONT,
    BACK,
}

/// The axis along which a camera is shifted.
#[derive(Clone, Copy, Debug, PartialEq, Eq, Structural)]
pub enum Axis {
    /// From the eye towards the focus.
    Forward,
    /// To the right of the viewing direction.
    Sideways,
}

/// The bytes of the letters `K`, `e` and `y`, which begin the code of a
/// letter key.
pub const KEY: [u8; 3] = [75, 101, 121];

/// The bytes of the letters `W`, `S`, `A` and `D`.
pub const LETTER_W: u8 = 87;

pub const LETTER_S: u8 = 83;

pub const LETTER_A: u8 = 65;

pub const LETTER_D: u8 = 68;

impl Direction {
    /// The shift that the key with the code `code` asks for: the keys W, S,
    /// A and D, named `KeyW`, `KeyS`, `KeyA` and `KeyD`, shift to the front,
    /// to the back, to the left and to the right; no other key shifts.
    pub open spec fn for_key(code: Seq<u8>) -> Option<Direction> {
        if code == seq![KEY[0], KEY[1], KEY[2], LETTER_W] {
            Some(Direction::FRONT)
        } else if code == seq![KEY[0], KEY[1], KEY[2], LETTER_S] {
            Some(Direction::BACK)
        } else if code == seq![KEY[0], KEY[1], KEY[2], LETTER_A] {
            Some(Direction::LEFT)
        } else if code == seq![KEY[0], KEY[1], KEY[2], LETTER_D] {
            Some(Direction::RIGHT)
        } else {
            None
        }
    }

    /// The shift that the key with the code `code` asks for, if any.
    pub fn from_key_code(code: &[u8]) -> (r: Option<Direction>)
        ensures
            r == Direction::for_key(code@),
    {
        if code.len() != 4 || code[0] != KEY[0] || code[1] != KEY[1] || code[2] != KEY[2] {
            return None;
        }
        let key: u8 = code[3];
        proof {
            assert(code@ =~= seq![KEY[0], KEY[1], KEY[2], key]);
            assert(seq![KEY[0], KEY[1], KEY[2], key][3] == key);
        }
        if key == LETTER_W {
            Some(Direction::FRONT)
        } else if key == LETTER_S {
            Some(Direction::BACK)
        } else if key == LETTER_A {
            Some(Direction::LEFT)
        } else if key == LETTER_D {
            Some(Direction::RIGHT)
        } else {
            None
        }
    }

    /// The axis of the shift: the viewing axis for `FRONT` and `BACK`, the
    /// sideways axis for `LEFT` and `RIGHT`.
    pub open spec fn spec_axis(self) -> Axis {
        match self {
            Direction::FRONT | Direction::BACK => Axis::Forward,
            Direction::LEFT | Direction::RIGHT => Axis::Sideways,
        }
    }

    /// Whether the shift runs against its axis: `BACK` and `LEFT` do.
    pub open spec fn spec_reversed(self) -> bool {
        match self {
            Direction::BACK | Direction::LEFT => true,
            Direction::FRONT | Direction::RIGHT => false,
        }
    }

    /// The axis along which this shift moves the camera.
    pub fn axis(&self) -> (a: Axis)
        ensures
            a == self.spec_axis(),
    {
        match self {
            Direction::FRONT => Axis::Forward,
            Direction::BACK => Axis::Forward,
            Direction::LEFT => Axis::Sideways,
            Direction::RIGHT => Axis::Sideways,
        }
    }

    /// Whether this shift moves by the negated speed.
    pub fn reversed(&self) -> (r: bool)
        ensures
            r == self.spec_reversed(),
    {
        match self {
            Direction::FRONT => false,
            Direction::BACK => true,
            Direction::LEFT => true,
            Direction::RIGHT => false,
        }
    }
}

} // verus!

//! The 120 Proof layout of the LPX: each grid pad plays a note a fourth
//! (five semitones) above the pad below it and a semitone above the pad
//! to its left; the bottom left pad plays MIDI note 37.
use vstd::prelude::*;

verus! {

/// The note that MIDI value `inp` from the LPX becomes.  A grid pad
/// (row 1 to 8, column 1 to 8) plays `5 * row + column + 31`; the other
/// values from 11 to 90 (columns 9 and 0) play 36; the rest play 0.
pub open spec fn adapted_note(inp: int) -> int {
    if 11 <= inp <= 90 {
        let row = inp / 10;
        let col = inp % 10;
        if 1 <= col <= 8 {
            5 * row + col + 31
        } else {
            36
        }
    } else {
        0
    }
}

/// Translates the notes of the LPX.
pub struct Adapter {
    midi_map: Vec<u8>,
}

impl View for Adapter {
    type V = Seq<u8>;

    /// The note for each MIDI value below 99.
    closed spec fn view(&self) -> Seq<u8> {
        self.midi_map@
    }
}

impl Adapter {
    #[verifier::type_invariant]
    closed spec fn inv(self) -> bool {
        &&& self.midi_map@.len() == 99
        &&& forall|i: int| 0 <= i < 99 ==> #[trigger] self.midi_map@[i] == adapted_note(i)
    }

    /// The map for the whole grid.
    pub fn new() -> (r: Self)
        ensures
            r@.len() == 99,
            forall|i: int| 0 <= i < 99 ==> #[trigger] r@[i] == adapted_note(i),
    {
        let mut midi_map: Vec<u8> = Vec::new();
        let mut i: u8 = 0;
        while i < 99
            invariant
                i <= 99,
                midi_map@.len() == i,
                forall|j: int| 0 <= j < i ==> #[trigger] midi_map@[j] == adapted_note(j),
            decreases 99 - i,
        {
            let note: u8 = if 11 <= i && i <= 90 {
                let row: u8 = i / 10;
                let col: u8 = i % 10;
                if 1 <= col && col <= 8 {
                    5 * row + col + 31
                } else {
                    36
                }
            } else {
                0
            };
            midi_map.push(note);
            i = i + 1;
        }
        Adapter { midi_map }
    }

    /// The note that MIDI value `inp` becomes.
    pub fn adapt(&self, inp: u8) -> (r: u8)
        requires
            inp < 99,
        ensures
            r == adapted_note(inp as int),
    {
        proof {
            use_type_invariant(self);
        }
        self.midi_map[inp as usize]
    }

    /// The message passed on for a message from the LPX: a note on (144)
    /// has its note translated, any other message passes unchanged; both
    /// keep their first three bytes.
    pub fn translate(&self, message: &[u8]) -> (r: [u8; 3])
        requires
            message@.len() >= 3,
            message@[0] == 144 ==> message@[1] < 99,
        ensures
            message@[0] == 144 ==> r@ == seq![144u8, adapted_note(message@[1] as int) as u8, message@[2]],
            message@[0] != 144 ==> r@ == message@.take(3),
    {
        let r: [u8; 3] = if message[0] == 144 {
            [144, self.adapt(message[1]), message[2]]
        } else {
            [message[0], message[1], message[2]]
        };
        assert(message@[0] != 144 ==> r@ =~= message@.take(3));
        assert(message@[0] == 144 ==> r@ =~= seq![144u8, adapted_note(message@[1] as int) as u8, message@[2]]);
        r
    }
}

/// Across a row of the grid, the pad to the right plays a semitone
/// higher; up a column, the pad above plays a fourth higher.
pub proof fn lemma_grid_intervals(row: int, col: int)
    requires
        1 <= row <= 8,
        1 <= col <= 8,
    ensures
        col < 8 ==> adapted_note(10 * row + col + 1) == adapted_note(10 * row + col) + 1,
        row < 8 ==> adapted_note(10 * (row + 1) + col) == adapted_note(10 * row + col) + 5,
{
    assert((10 * row + col) / 10 == row && (10 * row + col) % 10 == col) by (nonlinear_arith)
        requires 1 <= col <= 8;
    assert(col < 8 ==> (10 * row + col + 1) / 10 == row && (10 * row + col + 1) % 10 == col + 1)
        by (nonlinear_arith) requires 1 <= col <= 8;
    assert((10 * (row + 1) + col) / 10 == row + 1 && (10 * (row + 1) + col) % 10 == col)
        by (nonlinear_arith) requires 1 <= col <= 8;
}

} // verus!

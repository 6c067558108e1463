//! The MIDI foot switch: its four buttons choose one of four pedals,
//! each a set of Jack pipes.
use vstd::prelude::*;
use crate::pipes::pairs_view;

verus! {

/// An error of the MIDI side.
pub struct MidiError {
    pub what: String,
}

/// What the MIDI handler remembers between messages: the pipes of the
/// pedal in use and the program number that chose it.
pub struct MidiData {
    pub connection_cache: Vec<(String, String)>,
    pub last: u8,
}

impl Default for MidiData {
    fn default() -> (r: Self)
        ensures
            r.connection_cache@.len() == 0,
            r.last == 0,
    {
        MidiData { connection_cache: Vec::new(), last: 0 }
    }
}

/// The MIDI input of the foot switch, found by its card name.
pub struct Midi {
    pub name: String,
}

impl Midi {
    /// The input for the card called `name`.
    pub fn new(name: String) -> (r: Result<Self, MidiError>)
        ensures
            r matches Ok(m) && m.name == name,
    {
        Ok(Midi { name })
    }
}

/// The program number a foot switch button sends, folded onto 0..=3: the
/// switch's banks 4..=31 repeat the four buttons.
pub open spec fn program_number_spec(b: u8) -> u8 {
    if 4 <= b <= 31 { (b % 4) as u8 } else { b }
}

/// The program number byte `b`, folded onto the four buttons.
pub fn program_number(b: u8) -> (c: u8)
    ensures
        c == program_number_spec(b),
{
    if b > 3 && b <= 7 {
        b - 4
    } else if b > 7 && b <= 11 {
        b - 8
    } else if b > 11 && b <= 15 {
        b - 12
    } else if b > 15 && b <= 19 {
        b - 16
    } else if b > 19 && b <= 23 {
        b - 20
    } else if b > 23 && b <= 27 {
        b - 24
    } else if b > 27 && b <= 31 {
        b - 28
    } else {
        b
    }
}

/// The foot switch has four buttons, program numbers 0 to 3; its banks
/// send 4..=31, each bank of four repeating the buttons in order.  Folding
/// gives the button: `b % 4` for a bank number, `b` itself otherwise, so
/// every number up to 31 lands on a button and the banks repeat.
pub proof fn lemma_banks_fold_onto_buttons(b: u8)
    ensures
        4 <= b <= 31 ==> program_number_spec(b) as int == b as int % 4,
        b <= 31 ==> program_number_spec(b) <= 3,
        b < 4 || b > 31 ==> program_number_spec(b) == b,
        4 <= b <= 31 ==> program_number_spec(b) as int == program_number_spec((b - 4) as u8) as int,
        b <= 31 ==> (program_number_spec(b) as int - b as int) % 4 == 0,
{
}

/// The program change that a message from the foot switch is handled as:
/// its second byte folded onto the four buttons.
pub fn program_message(b: &[u8]) -> (r: [u8; 2])
    requires
        b@.len() >= 2,
    ensures
        r@ == seq![192u8, program_number_spec(b@[1])],
{
    let r = [192u8, program_number(b[1])];
    assert(r@ =~= seq![192u8, program_number_spec(b@[1])]);
    r
}

/// The pedal that program number `a` (0..=3) chooses.
pub open spec fn pedal_name(a: u8) -> Seq<char> {
    if a == 0 {
        "A"@
    } else if a == 1 {
        "B"@
    } else if a == 2 {
        "C"@
    } else {
        "D"@
    }
}

/// Choosing program number `a` when `last` chose the pedal in use: the
/// number remembered after, and the pedal to set up (`None` when `a`
/// repeats `last`, as there is nothing to do).
pub open spec fn select_spec(last: u8, a: u8) -> (u8, Option<Seq<char>>) {
    if a == last {
        (last, None)
    } else {
        (a, Some(pedal_name(a)))
    }
}

/// Handle a program change `b`: the pedal it chooses, or `None` when it
/// repeats the last one (nothing to do).  Only program numbers 0..=3 name
/// a pedal.
pub fn select_pedal(b: &[u8], midi_data: &mut MidiData) -> (r: Option<String>)
    requires
        b@.len() >= 2,
        b@[1] != old(midi_data).last ==> b@[1] <= 3,
    ensures
        final(midi_data).last == select_spec(old(midi_data).last, b@[1]).0,
        match select_spec(old(midi_data).last, b@[1]).1 {
            None => r is None,
            Some(p) => r matches Some(s) && s@ == p,
        },
        final(midi_data).connection_cache@ == old(midi_data).connection_cache@,
{
    let a = b[1];
    if a == midi_data.last {
        return None;
    }
    let selected = if a == 0 {
        "A".to_owned()
    } else if a == 1 {
        "B".to_owned()
    } else if a == 2 {
        "C".to_owned()
    } else {
        "D".to_owned()
    };
    midi_data.last = a;
    Some(selected)
}

/// Choosing the same program twice in a row sets up its pedal once: the
/// second choice has nothing to do and remembers the same number.
pub proof fn lemma_select_idempotent(last: u8, a: u8)
    ensures
        select_spec(select_spec(last, a).0, a).1 is None,
        select_spec(select_spec(last, a).0, a).0 == select_spec(last, a).0,
{
}

/// The pipes of the new pedal are now connected: remember them, and give
/// back those of the old pedal, to be disconnected.
pub fn replace_connections(midi_data: &mut MidiData, pipes: Vec<(String, String)>) -> (old_pipes: Vec<
    (String, String),
>)
    ensures
        pairs_view(old_pipes@) == pairs_view(old(midi_data).connection_cache@),
        pairs_view(final(midi_data).connection_cache@) == pairs_view(pipes@),
        final(midi_data).last == old(midi_data).last,
{
    let mut old_pipes = pipes;
    std::mem::swap(&mut old_pipes, &mut midi_data.connection_cache);
    old_pipes
}

} // verus!

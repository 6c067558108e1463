//! The pedal driver that follows `aseqdump`: a program change line
//! chooses the pedal named by a letter counted from `A`.
use vstd::prelude::*;
use crate::filter_rules::{regex_captures, regex_compiles, FilterRules};
use crate::midi_pedal::MidiError;
use crate::output_filters::{group, group_text, Captures};
use crate::text::{parse_unsigned, parse_unsigned_str, string_from_chars};

verus! {

/// The MIDI input of the pedal, found by its port name, with the pipes
/// made for the pedal in use.
pub struct Midi {
    pub name: String,
    pub connection_cache: Option<Vec<(String, String)>>,
}

impl Midi {
    /// The input for the port called `name`, no pipes made yet.
    pub fn new(name: String) -> (r: Result<Self, MidiError>)
        ensures
            r matches Ok(m) && m.name == name && m.connection_cache is None,
    {
        Ok(Midi { name, connection_cache: None })
    }
}

/// Whether `v` is a Unicode scalar value, the numbers `char::from_u32`
/// accepts.
pub open spec fn is_scalar_value(v: int) -> bool {
    (0 <= v < 0xD800) || (0xE000 <= v <= 0x10FFFF)
}

/// `char::from_u32`.  Claimed, as the standard library documents it: a
/// character exactly when `v` is a Unicode scalar value, and then the one
/// whose code is `v`.
#[verifier::external_body]
fn char_from_u32(v: u32) -> (r: Option<char>)
    ensures
        r is Some <==> is_scalar_value(v as int),
        r matches Some(c) ==> c as int == v as int,
{
    char::from_u32(v)
}

/// The pattern of an `aseqdump` program change line; the group is the
/// program number.
pub open spec fn program_change_pattern() -> Seq<char> {
    "Program change\\s+\\d+, program (\\d+)$"@
}

/// What a line of `aseqdump` output means to the pedal driver.
pub enum PedalLine {
    /// Not a program change.
    NoMatch,
    /// A program change that chooses the pedal with this name.
    Pedal(String),
    /// A program change whose number names no letter (it does not read as
    /// a `u32`, or `A` plus it is no character).
    Unreadable,
}

/// The code of the pedal letter named by program number `sig`: the
/// character `sig` places after `A`, when there is one.
pub open spec fn pedal_letter(sig: nat) -> Option<int> {
    if is_scalar_value(65 + sig as int) {
        Some(65 + sig as int)
    } else {
        None
    }
}

/// What a line of `aseqdump` output means, given the captures `c` of the
/// program change pattern on it: nothing (`None`) when it did not match,
/// else the code of the pedal letter, if the number names one.
pub open spec fn pedal_line_spec(c: Captures) -> Option<Option<int>> {
    match c {
        None => None,
        Some(c) => match parse_unsigned(group(c, 1), u32::MAX as nat) {
            Some(sig) => Some(pedal_letter(sig)),
            None => Some(None),
        },
    }
}

/// Whether `r` is what `pedal_line_spec` says of a line.
pub open spec fn pedal_line_is(r: PedalLine, m: Option<Option<int>>) -> bool {
    match m {
        None => r is NoMatch,
        Some(None) => r is Unreadable,
        Some(Some(code)) => r matches PedalLine::Pedal(p) && p@.len() == 1 && p@[0] as int == code,
    }
}

/// What a line of `aseqdump` output means, given the captures `c` of the
/// program change pattern on it.
pub fn pedal_for_captures(c: &Option<Vec<Option<String>>>) -> (r: PedalLine)
    ensures
        pedal_line_is(r, pedal_line_spec(c.deep_view())),
{
    match c {
        None => PedalLine::NoMatch,
        Some(c) => {
            let g = group_text(c, 1);
            match parse_unsigned_str(g.as_str(), u32::MAX as u64) {
                None => PedalLine::Unreadable,
                Some(sig) => {
                    if sig > (u32::MAX - 65) as u64 {
                        return PedalLine::Unreadable;
                    }
                    match char_from_u32(65 + sig as u32) {
                        Some(ch) => {
                            let v = vec![ch];
                            assert(v@ =~= seq![ch]);
                            PedalLine::Pedal(string_from_chars(v.as_slice()))
                        },
                        None => PedalLine::Unreadable,
                    }
                },
            }
        },
    }
}

/// What the `aseqdump` line `l` means: `NoMatch` when it is not a program
/// change, else the pedal its number names, or `Unreadable`.  `Unreadable`
/// also when the pattern does not compile.
pub fn pedal_for_line(l: &str) -> (r: PedalLine)
    ensures
        !regex_compiles(program_change_pattern()) ==> r is Unreadable,
        regex_compiles(program_change_pattern()) ==> pedal_line_is(
            r,
            pedal_line_spec(regex_captures(program_change_pattern(), l@)),
        ),
{
    let mut rules = FilterRules::new();
    if !rules.add_rule("program_change", "Program change\\s+\\d+, program (\\d+)$") {
        return PedalLine::Unreadable;
    }
    let c = rules.evaluate("program_change", l);
    pedal_for_captures(&c)
}

} // verus!

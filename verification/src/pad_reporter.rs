//! The LPX control pads named: a press reports the programme its pad
//! stands for.
use vstd::prelude::*;
use std::collections::HashMap;
use crate::lpx_control::{is_control_press, table_view};

verus! {

broadcast use vstd::std_specs::hash::group_hash_axioms;

/// The programme each control pad of the right hand column stands for.
pub open spec fn report_table_spec() -> Map<u8, Seq<char>> {
    map![
        19u8 => "CTL.19"@, 29u8 => "CTL.29"@, 39u8 => "CTL.39"@, 49u8 => "CTL.49"@,
        59u8 => "CTL.59"@, 69u8 => "CTL.69"@, 79u8 => "CTL.79"@, 89u8 => "CTL.89"@
    ]
}

/// Matches a control pad to the name of its programme.
pub struct Dispatcher {
    table: HashMap<u8, String>,
}

impl Dispatcher {
    #[verifier::type_invariant]
    closed spec fn inv(self) -> bool {
        table_view(self.table@) == report_table_spec()
    }

    /// The table of the eight control pads.
    pub fn new() -> (r: Self)
        ensures
            r@ == report_table_spec(),
    {
        let mut table: HashMap<u8, String> = HashMap::new();
        table.insert(19, "CTL.19".to_owned());
        table.insert(29, "CTL.29".to_owned());
        table.insert(39, "CTL.39".to_owned());
        table.insert(49, "CTL.49".to_owned());
        table.insert(59, "CTL.59".to_owned());
        table.insert(69, "CTL.69".to_owned());
        table.insert(79, "CTL.79".to_owned());
        table.insert(89, "CTL.89".to_owned());
        assert(table_view(table@) =~= report_table_spec());
        Dispatcher { table }
    }

    /// The programme that control pad `ctl` stands for, if any.
    pub fn run(&self, ctl: u8) -> (r: Option<String>)
        ensures
            r matches Some(c) ==> report_table_spec().contains_key(ctl) && c@
                == report_table_spec()[ctl],
            r is None ==> !report_table_spec().contains_key(ctl),
    {
        proof {
            use_type_invariant(self);
        }
        match self.table.get(&ctl) {
            Some(cmd) => Some(cmd.clone()),
            None => None,
        }
    }
}

impl View for Dispatcher {
    type V = Map<u8, Seq<char>>;

    /// The programme each control pad stands for.
    closed spec fn view(&self) -> Map<u8, Seq<char>> {
        table_view(self.table@)
    }
}

/// Act on a MIDI message from the LPX: a control pad press reports the
/// programme of its pad; anything else reports nothing.
pub fn process_message(message: &[u8; 3], dispatcher: &Dispatcher) -> (r: Option<String>)
    ensures
        r matches Some(c) ==> is_control_press(message@) && report_table_spec().contains_key(
            message@[1],
        ) && c@ == report_table_spec()[message@[1]],
        r is None ==> !(is_control_press(message@) && report_table_spec().contains_key(
            message@[1],
        )),
{
    if message[0] == 176 {
        let key = message[1];
        let vel = message[2];
        if key >= 19 {
            if vel > 0 {
                return dispatcher.run(key);
            }
        }
    }
    None
}

} // verus!

//! The LPX control pads as programme launchers: a press runs the
//! programme of its pad after running the one that stops what the pad
//! pressed before started.
use vstd::prelude::*;
use std::collections::HashMap;
use crate::lpx_control::{down_table_spec, is_control_press, table_view, up_table_spec};

verus! {

broadcast use vstd::std_specs::hash::group_hash_axioms;

/// The names of the programmes, in order.
pub open spec fn commands_view(cs: Seq<String>) -> Seq<Seq<char>> {
    cs.map_values(|c: String| c@)
}

/// The programmes that pressing control pad `ctl` runs when `last` was
/// pressed before: the one that stops `last`, then the one that `ctl`
/// starts, each where the pad has one.
pub open spec fn launch_spec(last: Option<u8>, ctl: u8) -> Seq<Seq<char>> {
    let stop = match last {
        Some(x) => if down_table_spec().contains_key(x) {
            seq![down_table_spec()[x]]
        } else {
            Seq::empty()
        },
        None => Seq::empty(),
    };
    let start = if up_table_spec().contains_key(ctl) {
        seq![up_table_spec()[ctl]]
    } else {
        Seq::empty()
    };
    stop + start
}

/// Matches a control pad to the programmes it starts and stops.
pub struct Dispatcher {
    up_table: HashMap<u8, String>,
    down_table: HashMap<u8, String>,
    last: Option<u8>,
}

impl View for Dispatcher {
    type V = Option<u8>;

    /// The pad pressed last.
    closed spec fn view(&self) -> Option<u8> {
        self.last
    }
}

impl Dispatcher {
    #[verifier::type_invariant]
    closed spec fn inv(self) -> bool {
        &&& table_view(self.up_table@) == up_table_spec()
        &&& table_view(self.down_table@) == down_table_spec()
    }

    /// The tables for the eight control pads of the right hand column, no
    /// pad pressed yet.
    pub fn new() -> (r: Self)
        ensures
            r@ is None,
    {
        let mut up_table: HashMap<u8, String> = HashMap::new();
        let mut down_table: HashMap<u8, String> = HashMap::new();
        up_table.insert(19, "ON-CTL.19".to_owned());
        up_table.insert(29, "ON-CTL.29".to_owned());
        up_table.insert(39, "ON-CTL.39".to_owned());
        up_table.insert(49, "ON-CTL.49".to_owned());
        up_table.insert(59, "ON-CTL.59".to_owned());
        up_table.insert(69, "ON-CTL.69".to_owned());
        up_table.insert(79, "ON-CTL.79".to_owned());
        up_table.insert(89, "ON-CTL.89".to_owned());
        down_table.insert(19, "OFF-CTL.19".to_owned());
        down_table.insert(29, "OFF-CTL.29".to_owned());
        down_table.insert(39, "OFF-CTL.39".to_owned());
        down_table.insert(49, "OFF-CTL.49".to_owned());
        down_table.insert(59, "OFF-CTL.59".to_owned());
        down_table.insert(69, "OFF-CTL.69".to_owned());
        down_table.insert(79, "OFF-CTL.79".to_owned());
        down_table.insert(89, "OFF-CTL.89".to_owned());
        assert(table_view(up_table@) =~= up_table_spec());
        assert(table_view(down_table@) =~= down_table_spec());
        Dispatcher { up_table, down_table, last: None }
    }

    /// Control pad `ctl` was pressed: the programmes to run, in order.
    pub fn run(&mut self, ctl: u8) -> (r: Vec<String>)
        ensures
            final(self)@ == Some(ctl),
            commands_view(r@) == launch_spec(old(self)@, ctl),
    {
        proof {
            use_type_invariant(&*self);
        }
        let mut r: Vec<String> = Vec::new();
        if let Some(x) = self.last {
            match self.down_table.get(&x) {
                Some(cmd) => {
                    r.push(cmd.clone());
                },
                None => {},
            }
        }
        self.last = Some(ctl);
        match self.up_table.get(&ctl) {
            Some(cmd) => {
                r.push(cmd.clone());
            },
            None => {},
        }
        assert(commands_view(r@) =~= launch_spec(old(self)@, ctl));
        r
    }
}

/// Act on a MIDI message from the LPX: a control pad press goes to the
/// dispatcher, anything else runs nothing.
pub fn process_message(message: &[u8; 3], dispatcher: &mut Dispatcher) -> (r: Vec<String>)
    ensures
        is_control_press(message@) ==> final(dispatcher)@ == Some(message@[1]) && commands_view(r@)
            == launch_spec(old(dispatcher)@, message@[1]),
        !is_control_press(message@) ==> final(dispatcher)@ == old(dispatcher)@ && r@.len() == 0,
{
    if message[0] == 176 {
        let key = message[1];
        let vel = message[2];
        if key >= 19 {
            if vel > 0 {
                return dispatcher.run(key);
            }
        }
    }
    Vec::new()
}

/// The path of programme `cmd` in the `subs` directory under `dir`.
pub fn subs_command(dir: &str, cmd: &str) -> (r: String)
    ensures
        r@ == dir@ + "/subs/"@ + cmd@,
{
    let mut r = dir.to_owned();
    r.append("/subs/");
    r.append(cmd);
    r
}

/// The SysEx message this launcher sends to set pad `pad` to palette
/// colour `colour`.
pub open spec fn launcher_colour_message(pad: u8, colour: u8) -> Seq<u8> {
    seq![240u8, 0u8, 32u8, 42u8, 12u8, 3u8, 0u8, pad, colour, 247u8]
}

/// The message that sets pad `pad` to palette colour `colour`.
pub fn pad_colour_msg(pad: u8, colour: u8) -> (r: Vec<u8>)
    ensures
        r@ == launcher_colour_message(pad, colour),
{
    let r: Vec<u8> = vec![240, 0, 32, 42, 12, 3, 0, pad, colour, 247];
    assert(r@ =~= launcher_colour_message(pad, colour));
    r
}

/// The pads coloured when the launcher starts, as (pad, colour).
pub open spec fn startup_colours() -> Seq<(u8, u8)> {
    seq![(19u8, 5u8), (18u8, 61u8), (17u8, 51u8), (11u8, 5u8)]
}

/// The messages that colour the pads when the launcher starts, in order.
pub fn startup_messages() -> (r: Vec<Vec<u8>>)
    ensures
        r@.len() == startup_colours().len(),
        forall|k: int|
            0 <= k < r@.len() ==> #[trigger] r@[k]@ == launcher_colour_message(
                startup_colours()[k].0,
                startup_colours()[k].1,
            ),
{
    let mut r: Vec<Vec<u8>> = Vec::new();
    r.push(pad_colour_msg(19, 5));
    r.push(pad_colour_msg(18, 61));
    r.push(pad_colour_msg(17, 51));
    r.push(pad_colour_msg(11, 5));
    r
}

/// Pressing a pad after another runs the stopping programme of the other
/// before the starting programme of its own.
pub proof fn lemma_launch_stops_before_start(a: u8, b: u8)
    requires
        up_table_spec().contains_key(a),
        up_table_spec().contains_key(b),
    ensures
        launch_spec(Some(a), b) == seq![down_table_spec()[a], up_table_spec()[b]],
{
    assert(launch_spec(Some(a), b) =~= seq![down_table_spec()[a], up_table_spec()[b]]);
}

} // verus!

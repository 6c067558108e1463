//! The LPX control pads: which programme each pad starts and stops, and
//! the sleep that keeps the pads from firing while notes are played.
use vstd::prelude::*;
use std::collections::HashMap;
use crate::lpx_manager::messages_view;

verus! {

broadcast use vstd::std_specs::hash::group_hash_axioms;

/// Colour of a control pad that is ready.
pub const ENABLED_COLOUR: u8 = 87;

/// Colour of a control pad that is asleep.
pub const DISABLED_COLOUR: u8 = 5;

/// Colour of the control pad in use.
pub const SELECTED_COLOUR: u8 = 67;

/// The programme each control pad starts.
pub open spec fn up_table_spec() -> Map<u8, Seq<char>> {
    map![
        19u8 => "ON-CTL.19"@, 29u8 => "ON-CTL.29"@, 39u8 => "ON-CTL.39"@, 49u8 => "ON-CTL.49"@,
        59u8 => "ON-CTL.59"@, 69u8 => "ON-CTL.69"@, 79u8 => "ON-CTL.79"@, 89u8 => "ON-CTL.89"@
    ]
}

/// The programme that stops what each control pad started.
pub open spec fn down_table_spec() -> Map<u8, Seq<char>> {
    map![
        19u8 => "OFF-CTL.19"@, 29u8 => "OFF-CTL.29"@, 39u8 => "OFF-CTL.39"@, 49u8 => "OFF-CTL.49"@,
        59u8 => "OFF-CTL.59"@, 69u8 => "OFF-CTL.69"@, 79u8 => "OFF-CTL.79"@, 89u8 => "OFF-CTL.89"@
    ]
}

/// The SysEx message that sets pad `pad` to colour `colour` in lighting
/// mode `mode` (0 static, 2 pulsing).
pub open spec fn pad_message(mode: u8, pad: u8, colour: u8) -> Seq<u8> {
    seq![240u8, 0u8, 32u8, 41u8, 2u8, 12u8, 3u8, mode, pad, colour, 247u8]
}

pub(crate) fn pad_msg(mode: u8, pad: u8, colour: u8) -> (r: Vec<u8>)
    ensures
        r@ == pad_message(mode, pad, colour),
{
    let mut r: Vec<u8> = Vec::new();
    r.push(240);
    r.push(0);
    r.push(32);
    r.push(41);
    r.push(2);
    r.push(12);
    r.push(3);
    r.push(mode);
    r.push(pad);
    r.push(colour);
    r.push(247);
    assert(r@ =~= pad_message(mode, pad, colour));
    r
}

/// Something to do outside: send a message to the LPX or run a programme
/// from the `subs` directory.
pub enum ControlAction {
    Send(Vec<u8>),
    Run(String),
}

/// The plain values of an action.
pub enum ActionView {
    Send(Seq<u8>),
    Run(Seq<char>),
}

pub open spec fn action_view(a: ControlAction) -> ActionView {
    match a {
        ControlAction::Send(m) => ActionView::Send(m@),
        ControlAction::Run(c) => ActionView::Run(c@),
    }
}

pub open spec fn actions_view(a: Seq<ControlAction>) -> Seq<ActionView> {
    a.map_values(|x: ControlAction| action_view(x))
}

/// What pressing control pad `ctl` does when `last` was pressed before:
/// the programme that stops `last` runs between a pulse and a ready
/// colour on `last`, then the programme that `ctl` starts runs between a
/// pulse and the selected colour on `ctl`.  Pads without a programme do
/// nothing.
pub open spec fn run_ctl_spec(last: Option<u8>, ctl: u8) -> Seq<ActionView> {
    let stop = match last {
        Some(x) => if down_table_spec().contains_key(x) {
            seq![
                ActionView::Send(pad_message(2, x, SELECTED_COLOUR)),
                ActionView::Run(down_table_spec()[x]),
                ActionView::Send(pad_message(0, x, ENABLED_COLOUR)),
            ]
        } else {
            Seq::empty()
        },
        None => Seq::empty(),
    };
    let start = if up_table_spec().contains_key(ctl) {
        seq![
            ActionView::Send(pad_message(2, ctl, SELECTED_COLOUR)),
            ActionView::Run(up_table_spec()[ctl]),
            ActionView::Send(pad_message(0, ctl, SELECTED_COLOUR)),
        ]
    } else {
        Seq::empty()
    };
    stop + start
}

/// Matches a control pad to the programmes it starts and stops.
pub struct Dispatcher {
    up_table: HashMap<u8, String>,
    down_table: HashMap<u8, String>,
    last: Option<u8>,
}

pub open spec fn table_view(m: Map<u8, String>) -> Map<u8, Seq<char>> {
    m.map_values(|s: String| s@)
}

impl View for Dispatcher {
    type V = Option<u8>;

    closed spec fn view(&self) -> Option<u8> {
        self.last
    }
}

impl Dispatcher {
    #[verifier::type_invariant]
    closed spec fn inv(self) -> bool {
        &&& table_view(self.up_table@) == up_table_spec()
        &&& table_view(self.down_table@) == down_table_spec()
    }

    /// The tables for the eight control pads of the right hand column, no
    /// pad pressed yet.
    pub fn new() -> (r: Self)
        ensures
            r@ is None,
    {
        let mut up_table: HashMap<u8, String> = HashMap::new();
        let mut down_table: HashMap<u8, String> = HashMap::new();
        up_table.insert(19, "ON-CTL.19".to_owned());
        up_table.insert(29, "ON-CTL.29".to_owned());
        up_table.insert(39, "ON-CTL.39".to_owned());
        up_table.insert(49, "ON-CTL.49".to_owned());
        up_table.insert(59, "ON-CTL.59".to_owned());
        up_table.insert(69, "ON-CTL.69".to_owned());
        up_table.insert(79, "ON-CTL.79".to_owned());
        up_table.insert(89, "ON-CTL.89".to_owned());
        down_table.insert(19, "OFF-CTL.19".to_owned());
        down_table.insert(29, "OFF-CTL.29".to_owned());
        down_table.insert(39, "OFF-CTL.39".to_owned());
        down_table.insert(49, "OFF-CTL.49".to_owned());
        down_table.insert(59, "OFF-CTL.59".to_owned());
        down_table.insert(69, "OFF-CTL.69".to_owned());
        down_table.insert(79, "OFF-CTL.79".to_owned());
        down_table.insert(89, "OFF-CTL.89".to_owned());
        assert(table_view(up_table@) =~= up_table_spec());
        assert(table_view(down_table@) =~= down_table_spec());
        Dispatcher { up_table, down_table, last: None }
    }

    /// Control pad `ctl` was pressed: what to do, in order.
    pub fn run_ctl(&mut self, ctl: u8) -> (r: Vec<ControlAction>)
        ensures
            final(self)@ == Some(ctl),
            actions_view(r@) == run_ctl_spec(old(self)@, ctl),
    {
        proof {
            use_type_invariant(&*self);
        }
        let mut r: Vec<ControlAction> = Vec::new();
        if let Some(x) = self.last {
            match self.down_table.get(&x) {
                Some(cmd) => {
                    assert(down_table_spec().contains_key(x));
                    r.push(ControlAction::Send(pad_msg(2, x, SELECTED_COLOUR)));
                    r.push(ControlAction::Run(cmd.clone()));
                    r.push(ControlAction::Send(pad_msg(0, x, ENABLED_COLOUR)));
                },
                None => {
                    assert(!down_table_spec().contains_key(x));
                },
            }
        }
        let ghost stop = actions_view(r@);
        self.last = Some(ctl);
        match self.up_table.get(&ctl) {
            Some(cmd) => {
                r.push(ControlAction::Send(pad_msg(2, ctl, SELECTED_COLOUR)));
                r.push(ControlAction::Run(cmd.clone()));
                r.push(ControlAction::Send(pad_msg(0, ctl, SELECTED_COLOUR)));
            },
            None => {},
        }
        assert(actions_view(r@) =~= run_ctl_spec(old(self)@, ctl));
        r
    }
}

/// Each message as an action that sends it.
pub open spec fn send_all(ms: Seq<Seq<u8>>) -> Seq<ActionView> {
    ms.map_values(|m: Seq<u8>| ActionView::Send(m))
}

/// Whether a three byte MIDI message is a control pad press that the
/// dispatcher acts on: a control change (176) of a key from 19 up (lower
/// keys are noise) with a non-zero value (zero is the release).
pub open spec fn is_control_press(message: Seq<u8>) -> bool {
    message[0] == 176 && message[1] >= 19 && message[2] > 0
}

/// Act on a MIDI message from the LPX: a control pad press goes to the
/// dispatcher, anything else does nothing.
pub fn process_message(message: &[u8; 3], dispatcher: &mut Dispatcher) -> (r: Vec<ControlAction>)
    ensures
        is_control_press(message@) ==> final(dispatcher)@ == Some(message@[1]) && actions_view(r@)
            == run_ctl_spec(old(dispatcher)@, message@[1]),
        !is_control_press(message@) ==> final(dispatcher)@ == old(dispatcher)@ && r@.len() == 0,
{
    if message[0] == 176 {
        let key = message[1];
        let vel = message[2];
        if key >= 19 {
            if vel > 0 {
                return dispatcher.run_ctl(key);
            }
        }
    }
    Vec::new()
}

/// Pressing a pad after another stops the other's programme before
/// starting its own.
pub proof fn lemma_second_press_stops_first(a: u8, b: u8)
    requires
        up_table_spec().contains_key(a),
        up_table_spec().contains_key(b),
    ensures
        run_ctl_spec(Some(a), b) == seq![
            ActionView::Send(pad_message(2, a, SELECTED_COLOUR)),
            ActionView::Run(down_table_spec()[a]),
            ActionView::Send(pad_message(0, a, ENABLED_COLOUR)),
            ActionView::Send(pad_message(2, b, SELECTED_COLOUR)),
            ActionView::Run(up_table_spec()[b]),
            ActionView::Send(pad_message(0, b, SELECTED_COLOUR)),
        ],
{
    assert(run_ctl_spec(Some(a), b) =~= seq![
        ActionView::Send(pad_message(2, a, SELECTED_COLOUR)),
        ActionView::Run(down_table_spec()[a]),
        ActionView::Send(pad_message(0, a, ENABLED_COLOUR)),
        ActionView::Send(pad_message(2, b, SELECTED_COLOUR)),
        ActionView::Run(up_table_spec()[b]),
        ActionView::Send(pad_message(0, b, SELECTED_COLOUR)),
    ]);
}


/// The state of the control pads: a counter of seconds, the count at
/// which they wake (0 when awake), whether they show as enabled, and the
/// pad shown as selected.
pub struct LpxState {
    pub counter: usize,
    pub sleeping: usize,
    pub enabled: bool,
    pub selected: Option<u8>,
}

/// The messages that colour the eight control pads of the right hand
/// column (19, 29, ..., 89).
pub open spec fn column_messages(colour: u8) -> Seq<Seq<u8>> {
    Seq::new(8, |k: int| pad_message(0, ((k + 1) * 10 + 9) as u8, colour))
}

/// Show the control pads as enabled or not; nothing is sent when they
/// already show so.  Enabling also restores the selected pad.
pub open spec fn enable_spec(st: LpxState, enable: bool) -> (LpxState, Seq<Seq<u8>>) {
    if st.enabled != enable {
        let colour = if enable { ENABLED_COLOUR } else { DISABLED_COLOUR };
        let restore = match st.selected {
            Some(x) => if enable { seq![pad_message(0, x, ENABLED_COLOUR)] } else { Seq::empty() },
            None => Seq::empty(),
        };
        (LpxState { enabled: enable, ..st }, column_messages(colour) + restore)
    } else {
        (st, Seq::empty())
    }
}

/// Put the pads to sleep for `s` seconds from now.
pub open spec fn sleep_spec(st: LpxState, s: usize) -> (LpxState, Seq<Seq<u8>>) {
    enable_spec(LpxState { sleeping: (st.counter + s) as usize, ..st }, false)
}

/// One second passes: the pads wake, and show enabled, once the counter
/// passes the waking count.
pub open spec fn tick_spec(st: LpxState) -> (LpxState, Seq<Seq<u8>>) {
    let c = (st.counter + 1) as usize;
    if c > st.sleeping {
        enable_spec(LpxState { counter: 0, sleeping: 0, ..st }, true)
    } else {
        (LpxState { counter: c, ..st }, Seq::empty())
    }
}

/// The state after `k` seconds.
pub open spec fn ticks(st: LpxState, k: nat) -> LpxState
    decreases k,
{
    if k == 0 {
        st
    } else {
        ticks(tick_spec(st).0, (k - 1) as nat)
    }
}

impl LpxState {
    /// The counter never passes the waking count.
    pub open spec fn wf(&self) -> bool {
        self.counter <= self.sleeping
    }

    /// Awake, shown as enabled, nothing selected.
    pub fn new() -> (r: LpxState)
        ensures
            r == (LpxState { counter: 0, sleeping: 0, enabled: true, selected: None }),
            r.wf(),
    {
        LpxState { counter: 0, sleeping: 0, enabled: true, selected: None }
    }

    /// Whether the pads are asleep.
    pub fn sleeping(&self) -> (r: bool)
        ensures
            r == (self.sleeping != 0),
    {
        self.sleeping != 0
    }

    /// Show the pads as enabled or not: the messages for the LPX.
    pub fn enable_lpx(&mut self, enable: bool) -> (r: Vec<Vec<u8>>)
        ensures
            (*final(self), messages_view(r@)) == enable_spec(*old(self), enable),
            old(self).wf() ==> final(self).wf(),
    {
        let mut r: Vec<Vec<u8>> = Vec::new();
        if self.enabled != enable {
            let pad_colour = if enable { ENABLED_COLOUR } else { DISABLED_COLOUR };
            let mut i: u8 = 1;
            while i < 9
                invariant
                    1 <= i <= 9,
                    r@.len() == i - 1,
                    messages_view(r@) == column_messages(pad_colour).take(i - 1),
                decreases 9 - i,
            {
                let p: u8 = i * 10 + 9;
                let ghost before = r@;
                let m = pad_msg(0, p, pad_colour);
                r.push(m);
                assert(messages_view(r@) =~= column_messages(pad_colour).take(i as int)) by {
                    assert(messages_view(r@)[i - 1] == m@);
                    assert forall|k: int| 0 <= k < i - 1 implies messages_view(r@)[k] == messages_view(before)[k] by {
                        assert(r@[k] == before[k]);
                    }
                }
                i = i + 1;
            }
            assert(column_messages(pad_colour).take(8) =~= column_messages(pad_colour));
            if enable {
                match self.selected {
                    Some(x) => {
                        let ghost before = messages_view(r@);
                        let m = pad_msg(0, x, ENABLED_COLOUR);
                        r.push(m);
                        assert(messages_view(r@) =~= before + seq![m@]);
                    },
                    None => {},
                }
            }
            self.enabled = enable;
        }
        assert(messages_view(r@) =~= enable_spec(*old(self), enable).1);
        r
    }

    /// Put the pads to sleep for `s` seconds: the messages for the LPX.
    pub fn sleep(&mut self, s: usize) -> (r: Vec<Vec<u8>>)
        requires
            old(self).counter + s <= usize::MAX,
        ensures
            (*final(self), messages_view(r@)) == sleep_spec(*old(self), s),
            final(self).wf(),
    {
        self.sleeping = self.counter + s;
        self.enable_lpx(false)
    }

    /// One second has passed: the messages for the LPX.
    pub fn tick(&mut self) -> (r: Vec<Vec<u8>>)
        requires
            old(self).counter < usize::MAX,
        ensures
            (*final(self), messages_view(r@)) == tick_spec(*old(self)),
            old(self).wf() ==> final(self).wf(),
    {
        self.counter = self.counter + 1;
        if self.counter > self.sleeping {
            self.sleeping = 0;
            self.counter = 0;
            self.enable_lpx(true)
        } else {
            let r: Vec<Vec<u8>> = Vec::new();
            assert(messages_view(r@) =~= Seq::<Seq<u8>>::empty());
            r
        }
    }

    /// Start watching: force the pads to show enabled, nothing selected.
    pub fn start(&mut self) -> (r: Vec<Vec<u8>>)
        ensures
            (*final(self), messages_view(r@)) == enable_spec(
                LpxState { enabled: false, selected: None, ..*old(self) },
                true,
            ),
            old(self).wf() ==> final(self).wf(),
    {
        self.enabled = false;
        self.selected = None;
        self.enable_lpx(true)
    }
}

/// What a MIDI message from the LPX makes the control programme do: a
/// control change while awake goes to the dispatcher, a control change
/// while asleep is ignored, a note puts the pads to sleep for three
/// seconds; anything else (or a message of other than three bytes) does
/// nothing.
pub fn on_midi(state: &mut LpxState, dispatcher: &mut Dispatcher, message: &[u8]) -> (r: Vec<ControlAction>)
    requires
        message@.len() == 3 && message@[0] == 144 ==> old(state).counter + 3 <= usize::MAX,
    ensures
        old(state).wf() ==> final(state).wf(),
        message@.len() == 3 && message@[0] == 176 && old(state).sleeping == 0
            && is_control_press(message@) ==> {
            &&& *final(state) == *old(state)
            &&& final(dispatcher)@ == Some(message@[1])
            &&& actions_view(r@) == run_ctl_spec(old(dispatcher)@, message@[1])
        },
        message@.len() == 3 && message@[0] == 144 ==> {
            &&& final(dispatcher)@ == old(dispatcher)@
            &&& *final(state) == sleep_spec(*old(state), 3).0
            &&& actions_view(r@) == send_all(sleep_spec(*old(state), 3).1)
        },
        !(message@.len() == 3 && message@[0] == 144) && !(message@.len() == 3 && message@[0] == 176
            && old(state).sleeping == 0 && is_control_press(message@)) ==> {
            &&& final(dispatcher)@ == old(dispatcher)@
            &&& *final(state) == *old(state)
            &&& r@.len() == 0
        },
{
    if message.len() == 3 {
        if message[0] == 176 {
            if !state.sleeping() {
                let array: [u8; 3] = [message[0], message[1], message[2]];
                assert(array@ =~= message@);
                return process_message(&array, dispatcher);
            }
        } else if message[0] == 144 {
            let msgs = state.sleep(3);
            let mut r: Vec<ControlAction> = Vec::new();
            let mut i: usize = 0;
            while i < msgs.len()
                invariant
                    i <= msgs@.len(),
                    r@.len() == i,
                    actions_view(r@) == send_all(messages_view(msgs@).take(i as int)),
                decreases msgs.len() - i,
            {
                let ghost before = r@;
                let c = msgs[i].clone();
                assert(c@ =~= msgs@[i as int]@);
                r.push(ControlAction::Send(c));
                let ghost mv = messages_view(msgs@);
                assert forall|k: int| 0 <= k < i + 1 implies #[trigger] actions_view(r@)[k]
                    == send_all(mv.take(i + 1))[k] by {
                    assert(send_all(mv.take(i + 1))[k] == ActionView::Send(mv[k]));
                    if k < i {
                        assert(r@[k] == before[k]);
                        assert(actions_view(before)[k] == send_all(mv.take(i as int))[k]);
                        assert(send_all(mv.take(i as int))[k] == ActionView::Send(mv[k]));
                    } else {
                        assert(actions_view(r@)[k] == ActionView::Send(c@));
                        assert(mv[k] == msgs@[k]@);
                    }
                }
                assert(actions_view(r@) =~= send_all(mv.take(i + 1)));
                i = i + 1;
            }
            assert(messages_view(msgs@).take(msgs@.len() as int) =~= messages_view(msgs@));
            return r;
        }
    }
    Vec::new()
}

proof fn lemma_asleep_ticks(st: LpxState, s: usize, j: nat)
    requires
        st.counter + s <= usize::MAX,
        j <= s,
        st.sleeping == st.counter + s,
    ensures
        ticks(st, j) == (LpxState { counter: (st.counter + j) as usize, ..st }),
    decreases j,
{
    if j > 0 {
        let st1 = tick_spec(st).0;
        assert(st1 == (LpxState { counter: (st.counter + 1) as usize, ..st }));
        lemma_asleep_ticks(st1, (s - 1) as usize, (j - 1) as nat);
        assert(st1.sleeping == st1.counter + (s - 1));
    }
}

/// A note puts the pads to sleep for `s` seconds: through the first `s`
/// ticks they stay asleep and shown disabled; at the next tick the
/// counter passes the waking count, and they wake and show enabled.
pub proof fn lemma_sleep_lasts(st: LpxState, s: usize)
    requires
        st.counter + s < usize::MAX,
        s >= 1,
    ensures
        forall|j: nat| j <= s ==> {
            let t = #[trigger] ticks(sleep_spec(st, s).0, j);
            t.sleeping != 0 && !t.enabled
        },
        ticks(sleep_spec(st, s).0, (s + 1) as nat).sleeping == 0,
        ticks(sleep_spec(st, s).0, (s + 1) as nat).enabled,
{
    let st2 = sleep_spec(st, s).0;
    assert forall|j: nat| j <= s implies {
        let t = #[trigger] ticks(st2, j);
        t.sleeping != 0 && !t.enabled
    } by {
        lemma_asleep_ticks(st2, s, j);
    }
    lemma_asleep_ticks(st2, s, s as nat);
    let last = ticks(st2, s as nat);
    lemma_ticks_split(st2, s as nat);
    assert(ticks(st2, (s + 1) as nat) == ticks(tick_spec(last).0, 0));
}

/// The waking rule of each tick of the second counter: when the counter,
/// one second on, passes the waking count, both restart from zero and the
/// pads are shown enabled (the selected pad restored); otherwise the
/// counter moves on one second, the waking count stays, and the pads stay
/// as they were (disabled while asleep), with nothing sent.
pub proof fn lemma_tick_wakes_past_the_mark(st: LpxState)
    requires
        st.counter < usize::MAX,
    ensures
        st.counter + 1 > st.sleeping ==> {
            &&& tick_spec(st).0.counter == 0
            &&& tick_spec(st).0.sleeping == 0
            &&& tick_spec(st).0.enabled
            &&& tick_spec(st).0.selected == st.selected
            &&& tick_spec(st).1 == enable_spec(LpxState { counter: 0, sleeping: 0, ..st }, true).1
        },
        st.counter + 1 <= st.sleeping ==> {
            &&& tick_spec(st).0 == (LpxState { counter: (st.counter + 1) as usize, ..st })
            &&& tick_spec(st).1.len() == 0
        },
{
}

proof fn lemma_ticks_split(st: LpxState, k: nat)
    ensures
        ticks(st, k + 1) == tick_spec(ticks(st, k)).0,
    decreases k,
{
    reveal_with_fuel(ticks, 2);
    if k > 0 {
        lemma_ticks_split(tick_spec(st).0, (k - 1) as nat);
    }
}

} // verus!

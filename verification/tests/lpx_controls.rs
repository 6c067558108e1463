use one20proof::dialogue::{Dialogue, DialogueError, DialogueValue, Key};
use one20proof::key_scan::{scan_keys, test_bit};
use one20proof::lpx_control::{on_midi, ControlAction, Dispatcher, LpxState};
use one20proof::midi_ports::{find_accepted_port, find_port_containing, port_name_accepted};
use one20proof::pad_launcher::{
    pad_colour_msg, startup_messages, subs_command, Dispatcher as Launcher,
};
use one20proof::pad_reporter::Dispatcher as Reporter;

fn pad(mode: u8, pad: u8, colour: u8) -> Vec<u8> {
    vec![240, 0, 32, 41, 2, 12, 3, mode, pad, colour, 247]
}

fn sent(a: &ControlAction) -> Option<Vec<u8>> {
    match a {
        ControlAction::Send(m) => Some(m.clone()),
        ControlAction::Run(_) => None,
    }
}

fn ran(a: &ControlAction) -> Option<String> {
    match a {
        ControlAction::Send(_) => None,
        ControlAction::Run(c) => Some(c.clone()),
    }
}

#[test]
fn control_press_runs_and_stops() {
    let mut d = Dispatcher::new();
    let r = d.run_ctl(19);
    assert_eq!(r.len(), 3);
    assert_eq!(sent(&r[0]), Some(pad(2, 19, 67)));
    assert_eq!(ran(&r[1]), Some("ON-CTL.19".to_string()));
    assert_eq!(sent(&r[2]), Some(pad(0, 19, 67)));
    let r = d.run_ctl(29);
    assert_eq!(r.len(), 6);
    assert_eq!(sent(&r[0]), Some(pad(2, 19, 67)));
    assert_eq!(ran(&r[1]), Some("OFF-CTL.19".to_string()));
    assert_eq!(sent(&r[2]), Some(pad(0, 19, 87)));
    assert_eq!(ran(&r[4]), Some("ON-CTL.29".to_string()));
    // A pad without programmes does nothing, but is remembered.
    let r = d.run_ctl(95);
    assert_eq!(r.len(), 3);
    assert_eq!(ran(&r[1]), Some("OFF-CTL.29".to_string()));
    assert!(d.run_ctl(19).len() == 3);
}

#[test]
fn control_state_sleeps_and_wakes() {
    let mut st = LpxState::new();
    assert!(!st.sleeping());
    let msgs = st.sleep(3);
    assert_eq!(msgs.len(), 8);
    assert_eq!(msgs[0], pad(0, 19, 5));
    assert_eq!(msgs[7], pad(0, 89, 5));
    assert!(st.sleeping());
    // Asleep for three ticks; the fourth passes the waking count.
    assert!(st.tick().is_empty());
    assert!(st.tick().is_empty());
    assert!(st.tick().is_empty());
    assert!(st.sleeping());
    let msgs = st.tick();
    assert_eq!(msgs.len(), 8);
    assert_eq!(msgs[3], pad(0, 49, 87));
    assert!(!st.sleeping());
    assert!(st.enabled);
    // Enabling again sends nothing.
    assert!(st.enable_lpx(true).is_empty());
}

#[test]
fn control_state_restores_selected() {
    let mut st = LpxState::new();
    st.selected = Some(39);
    st.enable_lpx(false);
    let msgs = st.enable_lpx(true);
    assert_eq!(msgs.len(), 9);
    assert_eq!(msgs[8], pad(0, 39, 87));
    let msgs = st.start();
    assert_eq!(msgs.len(), 8);
    assert_eq!(st.selected, None);
}

#[test]
fn midi_drives_control_state() {
    let mut st = LpxState::new();
    let mut d = Dispatcher::new();
    let r = on_midi(&mut st, &mut d, &[176, 19, 127]);
    assert_eq!(r.len(), 3);
    // A note puts the pads to sleep; presses are then ignored.
    let r = on_midi(&mut st, &mut d, &[144, 11, 100]);
    assert_eq!(r.len(), 8);
    assert!(st.sleeping());
    assert!(on_midi(&mut st, &mut d, &[176, 29, 127]).is_empty());
    // Noise below key 19, releases and short messages do nothing.
    let mut st2 = LpxState::new();
    assert!(on_midi(&mut st2, &mut d, &[176, 7, 127]).is_empty());
    assert!(on_midi(&mut st2, &mut d, &[176, 29, 0]).is_empty());
    assert!(on_midi(&mut st2, &mut d, &[176, 29]).is_empty());
}

#[test]
fn launcher_runs_programmes() {
    let mut d = Launcher::new();
    assert_eq!(d.run(19), vec!["ON-CTL.19".to_string()]);
    assert_eq!(d.run(29), vec!["OFF-CTL.19".to_string(), "ON-CTL.29".to_string()]);
    assert_eq!(d.run(18), vec!["OFF-CTL.29".to_string()]);
    assert!(d.run(17).is_empty());
    assert!(one20proof::pad_launcher::process_message(&[176, 7, 1], &mut d).is_empty());
    assert_eq!(
        one20proof::pad_launcher::process_message(&[176, 39, 1], &mut d),
        vec!["ON-CTL.39".to_string()]
    );
    assert_eq!(subs_command("/home/patch", "ON-CTL.19"), "/home/patch/subs/ON-CTL.19");
}

#[test]
fn launcher_colour_messages() {
    assert_eq!(pad_colour_msg(19, 5), vec![240, 0, 32, 42, 12, 3, 0, 19, 5, 247]);
    let m = startup_messages();
    assert_eq!(m.len(), 4);
    assert_eq!(m[1], vec![240, 0, 32, 42, 12, 3, 0, 18, 61, 247]);
    assert_eq!(m[3], vec![240, 0, 32, 42, 12, 3, 0, 11, 5, 247]);
}

#[test]
fn reporter_names_programmes() {
    let d = Reporter::new();
    assert_eq!(d.run(89), Some("CTL.89".to_string()));
    assert_eq!(d.run(18), None);
    assert_eq!(
        one20proof::pad_reporter::process_message(&[176, 49, 64], &d),
        Some("CTL.49".to_string())
    );
    assert_eq!(one20proof::pad_reporter::process_message(&[144, 49, 64], &d), None);
    assert_eq!(one20proof::pad_reporter::process_message(&[176, 49, 0], &d), None);
}

#[test]
fn ports_by_prefix() {
    let source = b"Launchpad X:Launchpad X MIDI 2";
    assert!(port_name_accepted(source, b"Launchpad X:Launchpad X MIDI 2 24:1"));
    assert!(port_name_accepted(source, b"Launchpad"));
    assert!(!port_name_accepted(source, b"Launchpad X:Launchpad X MIDI 1"));
    let names: Vec<Option<Vec<u8>>> = vec![
        Some(b"Midi Through:Midi Through Port-0".to_vec()),
        None,
        Some(b"Launchpad X:Launchpad X MIDI 2 28:1".to_vec()),
        Some(b"Launchpad X:Launchpad X MIDI 2".to_vec()),
    ];
    assert_eq!(find_accepted_port(source, &names), Some(2));
    assert_eq!(find_accepted_port(b"Pure Data", &names), None);
}

#[test]
fn ports_by_keyword() {
    let names: Vec<Option<String>> = vec![
        Some("Midi Through".to_string()),
        None,
        Some("Launchpad X:Launchpad X LPX MIDI In 28:0".to_string()),
    ];
    assert_eq!(find_port_containing(&names, "LPX MIDI In"), Some(2));
    assert_eq!(find_port_containing(&names, "Pure Data"), None);
}

#[test]
fn key_bits() {
    let mut keys = [0u8; 33];
    assert!(!test_bit(0x1e, &keys));
    keys[3] = 0b0100_0000;
    assert!(test_bit(0x1e, &keys));
    assert_eq!(scan_keys(&keys, 5), 0x1e);
    keys[6] = 0b0000_0001;
    assert_eq!(scan_keys(&keys, 5), 0x30);
    assert_eq!(scan_keys(&[0u8; 33], 5), 5);
}

#[test]
fn dialogue_edits() {
    let mut d = Dialogue::new("Port value");
    assert_eq!(d.prompt(), "Port value");
    for c in "abd".chars() {
        assert!(matches!(d.handle_key(&Key::Char(c)), Ok(DialogueValue::Continue)));
    }
    d.handle_key(&Key::Left);
    d.handle_key(&Key::Char('c'));
    assert_eq!(d.input(), "abcd");
    assert_eq!(d.cursor(), 3);
    d.handle_key(&Key::Backspace);
    assert_eq!(d.input(), "abd");
    assert_eq!(d.cursor(), 2);
    d.handle_key(&Key::Right);
    d.handle_key(&Key::Right);
    assert_eq!(d.cursor(), 3);
    d.handle_key(&Key::Other);
    match d.handle_key(&Key::Enter) {
        Ok(DialogueValue::Final(s)) => assert_eq!(s, "abd"),
        _ => panic!("Enter should give the input"),
    }
    assert!(matches!(d.handle_key(&Key::Esc), Err(DialogueError::Close)));
}

#[test]
fn dialogue_backspace_undoes_typing() {
    let mut d = Dialogue::new("p");
    d.handle_key(&Key::Char('x'));
    d.handle_key(&Key::Char('y'));
    d.handle_key(&Key::Left);
    let before = (d.input(), d.cursor());
    d.handle_key(&Key::Char('é'));
    d.handle_key(&Key::Backspace);
    assert_eq!((d.input(), d.cursor()), before);
    // Backspace at the start does nothing, Left stops there too.
    let mut e = Dialogue::new("p");
    e.handle_key(&Key::Backspace);
    e.handle_key(&Key::Left);
    assert_eq!(e.input(), "");
    assert_eq!(e.cursor(), 0);
}

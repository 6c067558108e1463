use one20proof::aseq_pedal::{pedal_for_captures, pedal_for_line, Midi as AseqMidi, PedalLine};
use one20proof::midi_pedal::{
    program_message, program_number, replace_connections, select_pedal, Midi, MidiData,
};
use one20proof::pipes::{pipe_text_valid, pipes_from_text};
use one20proof::text::{
    decimal_string, lines, parse_unsigned_str, split_str, str_contains, strip_prefix,
};

fn pair(a: &str, b: &str) -> (String, String) {
    (a.to_string(), b.to_string())
}

#[test]
fn midi_inputs_start_empty() {
    let m = Midi::new("USB MIDI".to_string()).ok().unwrap();
    assert_eq!(m.name, "USB MIDI");
    let a = AseqMidi::new("20".to_string()).ok().unwrap();
    assert_eq!(a.name, "20");
    assert!(a.connection_cache.is_none());
    let d = MidiData::default();
    assert!(d.connection_cache.is_empty());
    assert_eq!(d.last, 0);
}

#[test]
fn foot_switch_banks_fold() {
    assert_eq!(program_number(0), 0);
    assert_eq!(program_number(3), 3);
    assert_eq!(program_number(4), 0);
    assert_eq!(program_number(13), 1);
    assert_eq!(program_number(31), 3);
    assert_eq!(program_number(32), 32);
    assert_eq!(program_message(&[192, 22]), [192, 2]);
}

#[test]
fn pedal_selection_is_idempotent() {
    let mut d = MidiData::default();
    assert_eq!(select_pedal(&[192, 0], &mut d), None);
    assert_eq!(select_pedal(&[192, 2], &mut d), Some("C".to_string()));
    assert_eq!(d.last, 2);
    assert_eq!(select_pedal(&[192, 2], &mut d), None);
    assert_eq!(select_pedal(&[192, 3], &mut d), Some("D".to_string()));
    assert_eq!(select_pedal(&[192, 1], &mut d), Some("B".to_string()));
    assert_eq!(select_pedal(&[192, 0], &mut d), Some("A".to_string()));
}

#[test]
fn connections_are_replaced() {
    let mut d = MidiData::default();
    let old = replace_connections(&mut d, vec![pair("a:out", "b:in")]);
    assert!(old.is_empty());
    let old = replace_connections(&mut d, vec![pair("c:out", "d:in"), pair("e:out", "f:in")]);
    assert_eq!(old, vec![pair("a:out", "b:in")]);
    assert_eq!(d.connection_cache.len(), 2);
}

#[test]
fn aseqdump_lines() {
    let l = " 32:0   Program change          0, program 16";
    match pedal_for_line(l) {
        PedalLine::Pedal(p) => assert_eq!(p, "Q"),
        _ => panic!("program change not read"),
    }
    match pedal_for_line("Program change 0, program 0") {
        PedalLine::Pedal(p) => assert_eq!(p, "A"),
        _ => panic!("program change not read"),
    }
    assert!(matches!(pedal_for_line(" 32:0   Note on 0, note 60"), PedalLine::NoMatch));
    assert!(matches!(pedal_for_line("Program change 0, program 16 "), PedalLine::NoMatch));
    assert!(matches!(
        pedal_for_line("Program change 0, program 99999999999"),
        PedalLine::Unreadable
    ));
    // 'A' + 55232 lies among the surrogates: no character.
    assert!(matches!(pedal_for_line("Program change 0, program 55232"), PedalLine::Unreadable));
}

#[test]
fn pipe_files() {
    let text = "system:capture_1 pd:in_1\nsystem:capture_2 pd:in_2\n";
    assert!(pipe_text_valid(text, false));
    assert_eq!(
        pipes_from_text(text, false),
        vec![pair("system:capture_1", "pd:in_1"), pair("system:capture_2", "pd:in_2")]
    );
    let gappy = "a b\n\nc d";
    assert!(!pipe_text_valid(gappy, false));
    assert!(pipe_text_valid(gappy, true));
    assert_eq!(pipes_from_text(gappy, true), vec![pair("a", "b"), pair("c", "d")]);
    assert!(!pipe_text_valid("a b c", true));
    assert!(!pipe_text_valid("ab", true));
}

#[test]
fn text_helpers() {
    assert_eq!(split_str("a b  c", ' '), vec!["a", "b", "", "c"]);
    assert_eq!(split_str("", ' '), vec![""]);
    assert_eq!(decimal_string(0), "0");
    assert_eq!(decimal_string(48000), "48000");
    assert_eq!(decimal_string(u64::MAX), u64::MAX.to_string());
    assert_eq!(parse_unsigned_str("+42", 100), Some(42));
    assert_eq!(parse_unsigned_str("101", 100), None);
    assert_eq!(parse_unsigned_str("", 100), None);
    assert_eq!(parse_unsigned_str("4a", 100), None);
    assert_eq!(lines("a\r\nb\n\nc\n"), vec!["a", "b", "", "c"]);
    assert_eq!(strip_prefix("midi_sink_lpx:X", "midi_sink_lpx:"), Some("X".to_string()));
    assert_eq!(strip_prefix("midi", "midi_sink_lpx:"), None);
    assert!(str_contains("Launchpad X LPX MIDI In", "LPX MIDI"));
    assert!(!str_contains("Launchpad", "LPX"));
    assert!(str_contains("x", ""));
}

#[test]
fn pedal_from_captures() {
    let c = |g: &str| Some(vec![Some("line".to_string()), Some(g.to_string())]);
    assert!(matches!(pedal_for_captures(&c("2")), PedalLine::Pedal(p) if p == "C"));
    assert!(matches!(pedal_for_captures(&c("x")), PedalLine::Unreadable));
    assert!(matches!(pedal_for_captures(&c("4294967295")), PedalLine::Unreadable));
    assert!(matches!(pedal_for_captures(&None), PedalLine::NoMatch));
}

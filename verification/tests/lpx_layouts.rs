use one20proof::lpx_drums::{LpxDrumError, Section};
use one20proof::lpx_manager::{Adapter, DeviceNames};
use one20proof::lpx_messages::{
    blank_screen_msg, get_colour, parse_byte, programmers_mode_msg, rgb_msg,
};
use one20proof::note_adapter::Adapter as ProofAdapter;

#[test]
fn test_valid() {
    let test = move || -> Result<Section, LpxDrumError> {
        let section = Section::new(1, 1, 1, [0, 0, 0], [0, 0, 0])?;
        Ok(section)
    };
    assert!(test().is_err());

    let test = move || -> Result<Section, LpxDrumError> {
        let section = Section::new(11, 1, 1, [128, 0, 0], [0, 0, 0])?;
        Ok(section)
    };
    let test = test();
    assert!(test.is_err());

    let test = move || -> Result<Section, LpxDrumError> {
        let section = Section::new(11, 1, 1, [0, 0, 0], [0, 128, 0])?;
        Ok(section)
    };
    assert!(test().is_err());

    let test = move || -> Result<Section, LpxDrumError> {
        let section = Section::new(11, 1, 1, [0, 0, 0], [0, 12, 0])?;
        Ok(section)
    };
    assert!(test().is_ok());
}

#[test]
fn test_intersect() {
    let test = move || -> Result<bool, LpxDrumError> {
        let section_1 = Section::new(11, 8, 8, [0, 0, 0], [0, 0, 0])?;
        let section_2 = Section::new(11, 8, 8, [0, 0, 0], [0, 0, 0])?;
        Ok(section_1.intersect(&section_2))
    };
    let test = test();
    assert!(test.is_ok());
    assert!(test.unwrap());

    let test = move || -> Result<bool, LpxDrumError> {
        let section_1 = Section::new(11, 4, 3, [0, 0, 0], [0, 0, 0])?;
        let section_2 = Section::new(15, 3, 3, [0, 0, 0], [0, 0, 0])?;
        Ok(section_1.intersect(&section_2))
    };
    let test = test();
    assert!(test.is_ok());
    assert!(!test.unwrap());
}

#[test]
fn section_edges() {
    // A section may reach the last column and row, not beyond.
    assert!(Section::new(85, 4, 1, [0, 0, 0], [0, 0, 0]).is_ok());
    assert!(Section::new(58, 1, 4, [0, 0, 0], [0, 0, 0]).is_ok());
    assert!(Section::new(85, 5, 1, [0, 0, 0], [0, 0, 0]).is_err());
    assert!(Section::new(58, 1, 5, [0, 0, 0], [0, 0, 0]).is_err());
    assert!(Section::new(19, 1, 1, [0, 0, 0], [0, 0, 0]).is_err());
    assert!(Section::new(20, 1, 1, [0, 0, 0], [0, 0, 0]).is_err());
    assert!(Section::new(89, 1, 1, [0, 0, 0], [0, 0, 0]).is_err());
    assert!(Section::new(11, 1, 1, [127, 127, 127], [127, 0, 0]).is_ok());
    let s = Section::new(34, 2, 3, [1, 2, 3], [4, 5, 6]).unwrap();
    assert_eq!(s.row(), 3);
    assert_eq!(s.col(), 4);
    assert!(s.valid());
}

#[test]
fn section_intersection_is_symmetric() {
    let a = Section::new(11, 2, 2, [0, 0, 0], [0, 0, 0]).unwrap();
    let b = Section::new(33, 1, 1, [0, 0, 0], [0, 0, 0]).unwrap();
    let c = Section::new(44, 1, 1, [0, 0, 0], [0, 0, 0]).unwrap();
    assert_eq!(a.intersect(&b), b.intersect(&a));
    assert!(a.intersect(&b));
    assert!(!a.intersect(&c));
    assert!(!c.intersect(&a));
    assert!(c.intersect(&c));
}

#[test]
fn section_and_error_text() {
    let s = Section::new(11, 1, 1, [0, 0, 0], [0, 12, 0]).unwrap();
    assert_eq!(
        s.describe(),
        "Section - Pad: 11, Width: 1, Height: 1, Main Colour:[0, 0, 0], Active Colour: [0, 12, 0]"
    );
    let e = Section::new(1, 1, 1, [0, 0, 0], [0, 0, 0]).err().unwrap();
    assert!(matches!(e, LpxDrumError::InvalidSection));
    assert_eq!(e.describe(), "invalid section");
}

#[test]
fn manager_layout_notes() {
    let adapter = Adapter::new(&[3, 5, 8, 10, 12], 60, 5, 21, 0);
    // The centre pad 45 (row 4, column 5) plays the root.
    assert_eq!(adapter.adapt(45), 60);
    assert_eq!(adapter.adapt(11), 41);
    assert_eq!(adapter.adapt(46), 61);
    assert_eq!(adapter.adapt(55), 65);
    assert_eq!(adapter.adapt(54), 64);
    assert_eq!(adapter.adapt(88), 83);
    assert_eq!(adapter.adapt(19), 0);
    assert_eq!(adapter.adapt(10), 0);
}

#[test]
fn manager_pad_colours() {
    let adapter = Adapter::new(&[3, 5, 8, 10, 12], 60, 5, 21, 9);
    // Root note on pad 45, its octaves on pads 72 and 67 (72), 18 and 23 (48).
    assert_eq!(adapter.pad_colour(45), Some(5));
    assert_eq!(adapter.pad_colour(72), Some(5));
    assert_eq!(adapter.pad_colour(67), Some(5));
    assert_eq!(adapter.pad_colour(18), Some(5));
    assert_eq!(adapter.pad_colour(23), Some(5));
    // Degree 3 (note 62) is in the scale, degree 2 (61) is not.
    assert_eq!(adapter.pad_colour(47), Some(21));
    assert_eq!(adapter.pad_colour(46), Some(9));
    // Below the root: note 59 is degree 12.
    assert_eq!(adapter.pad_colour(44), Some(21));
    assert_eq!(adapter.pad_colour(19), None);
    assert_eq!(adapter.initial_colour_messages().len(), 64);
    assert_eq!(
        adapter.initial_colour_messages()[0],
        vec![240, 0, 32, 41, 2, 12, 3, 0, 11, adapter.pad_colour(11).unwrap(), 247]
    );
}

#[test]
fn manager_handles_messages() {
    let adapter = Adapter::new(&[3, 5, 8, 10, 12], 60, 5, 21, 9);
    // A press on pad 47: note 62 to the synthesiser, both pads that play
    // it (52 and 47) flash.
    let r = adapter.handle_message(&[144, 47, 100]);
    assert_eq!(r.to_synth, vec![vec![144, 62, 100]]);
    assert_eq!(
        r.to_lpx,
        vec![vec![240, 0, 32, 41, 2, 12, 3, 0, 52, 50, 247], vec![240, 0, 32, 41, 2, 12, 3, 0, 47, 50, 247]]
    );
    // The release restores the resting colour.
    let r = adapter.handle_message(&[144, 47, 0]);
    assert_eq!(r.to_synth, vec![vec![144, 62, 0]]);
    assert_eq!(r.to_lpx[0], vec![240, 0, 32, 41, 2, 12, 3, 0, 52, 21, 247]);
    assert_eq!(r.to_lpx[1], vec![240, 0, 32, 41, 2, 12, 3, 0, 47, 21, 247]);
    // A pad in the middle columns has no twin: only it flashes.
    let r = adapter.handle_message(&[144, 45, 100]);
    assert_eq!(r.to_lpx, vec![vec![240, 0, 32, 41, 2, 12, 3, 0, 45, 50, 247]]);
    // A control pad press plays nothing.
    let r = adapter.handle_message(&[144, 19, 100]);
    assert!(r.to_synth.is_empty());
    assert!(r.to_lpx.is_empty());
    // Anything else is echoed to the LPX.
    let r = adapter.handle_message(&[176, 19, 127]);
    assert!(r.to_synth.is_empty());
    assert_eq!(r.to_lpx, vec![vec![176, 19, 127]]);
}

#[test]
fn device_names_parse() {
    let d = DeviceNames::parse(
        "midi_source_lpx:Launchpad X:Launchpad X MIDI 2\nmidi_sink_lpx:Launchpad X:Launchpad X MIDI 1\nmidi_sink_synth:Pure Data:Pure Data Midi-In 2\n",
    )
    .ok()
    .unwrap();
    assert_eq!(d.midi_source_lpx, "Launchpad X:Launchpad X MIDI 2");
    assert_eq!(d.midi_sink_lpx, "Launchpad X:Launchpad X MIDI 1");
    assert_eq!(d.midi_sink_synth, "Pure Data:Pure Data Midi-In 2");
    assert_eq!(d.midi_source_lpx_120, "120-Proof-MIDI-In-LPX");
    assert_eq!(d.midi_sink_lpx_120, "120-Proof-MIDI-Out-LPX");
    assert_eq!(d.midi_sink_synth_120, "120-Proof-MIDI-Out-PD");
}

#[test]
fn device_names_refuse_unknown_line() {
    let r = DeviceNames::parse("midi_sink_lpx:a\nbogus line\nmidi_sink_synth:b");
    assert_eq!(r.err(), Some("bogus line".to_string()));
    let d = DeviceNames::parse("midi_sink_lpx:a\nmidi_sink_lpx:b").ok().unwrap();
    assert_eq!(d.midi_sink_lpx, "b");
    assert_eq!(d.midi_source_lpx, "");
}

#[test]
fn proof_layout_notes() {
    // The table of the original: note = delta + 36 for MIDI 11..=90.
    let delta: [u8; 80] = [
        1, 2, 3, 4, 5, 6, 7, 8, 0, 0, 6, 7, 8, 9, 10, 11, 12, 13, 0, 0, 11, 12, 13, 14, 15, 16,
        17, 18, 0, 0, 16, 17, 18, 19, 20, 21, 22, 23, 0, 0, 21, 22, 23, 24, 25, 26, 27, 28, 0,
        0, 26, 27, 28, 29, 30, 31, 32, 33, 0, 0, 31, 32, 33, 34, 35, 36, 37, 38, 0, 0, 36, 37,
        38, 39, 40, 41, 42, 43, 0, 0,
    ];
    let adapter = ProofAdapter::new();
    for i in 0..99u8 {
        let expected = if (11..=90).contains(&i) { delta[(i - 11) as usize] + 36 } else { 0 };
        assert_eq!(adapter.adapt(i), expected, "pad {}", i);
    }
}

#[test]
fn proof_layout_translates_note_on_only() {
    let adapter = ProofAdapter::new();
    assert_eq!(adapter.translate(&[144, 11, 90]), [144, 37, 90]);
    assert_eq!(adapter.translate(&[144, 54, 0]), [144, 60, 0]);
    assert_eq!(adapter.translate(&[128, 54, 0]), [128, 54, 0]);
    assert_eq!(adapter.translate(&[176, 19, 127, 5]), [176, 19, 127]);
}

#[test]
fn lpx_sysex_messages() {
    assert_eq!(programmers_mode_msg(), vec![240, 0, 32, 41, 2, 12, 0, 127, 247]);
    assert_eq!(rgb_msg(11, 1, 2, 3), vec![240, 0, 32, 41, 2, 12, 3, 3, 11, 1, 2, 3, 247]);
    let blank = blank_screen_msg();
    assert_eq!(blank.len(), 8 + 64 * 3);
    assert_eq!(&blank[0..7], &[240, 0, 32, 41, 2, 12, 3]);
    assert_eq!(&blank[7..10], &[0, 11, 0]);
    assert_eq!(&blank[28..31], &[0, 18, 0]);
    assert_eq!(&blank[31..34], &[0, 21, 0]);
    assert_eq!(&blank[196..199], &[0, 88, 0]);
    assert_eq!(blank[199], 247);
}

#[test]
fn colour_from_arguments() {
    let args: Vec<String> =
        vec!["lpx_colour".into(), "11".into(), "1".into(), "2".into(), "3".into()];
    assert!(matches!(get_colour(&args), Ok((1, 2, 3))));
    let args: Vec<String> =
        vec!["lpx_colour".into(), "11".into(), "20".into(), "+30".into(), "0".into()];
    assert!(matches!(get_colour(&args), Ok((20, 30, 0))));
    let args: Vec<String> =
        vec!["lpx_colour".into(), "11".into(), "1".into(), "256".into(), "x".into()];
    assert_eq!(get_colour(&args).err().unwrap().index, 3);
    let args: Vec<String> = vec!["lpx_colour".into(), "11".into(), "".into(), "1".into(), "2".into()];
    assert_eq!(get_colour(&args).err().unwrap().index, 2);
    assert_eq!(parse_byte("255"), Some(255));
    assert_eq!(parse_byte("256"), None);
    assert_eq!(parse_byte("-1"), None);
}

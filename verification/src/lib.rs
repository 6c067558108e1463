//! Verified logic of the 120Proof music rig: text filters for the
//! monitor, the LPX pad layouts and colour messages, pedal selection
//! and the small state machines that drive them.
pub mod text;
pub mod lpx_drums;
pub mod lpx_manager;
pub mod filter_rules;
pub mod monitor;
pub mod output_filters;
pub mod lpx_control;
pub mod midi_ports;
pub mod pipes;
pub mod midi_pedal;
pub mod aseq_pedal;
pub mod pad_launcher;
pub mod pad_reporter;
pub mod lpx_messages;
pub mod note_adapter;
pub mod dialogue;
pub mod key_scan;

//! The text console protocols over the in-memory devices.

use uefi_boot::boot::BootServices;
use uefi_boot::sim::{SimFirmware, SimTextInput, SimTextOutput};
use uefi_boot::status::{Error, Warning};
use uefi_boot::text::{
    utf16_chunks, BackgroundColor, Color, ForegroundColor, TextInput, TextInputKey, TextOutput,
};
use uefi_boot::Event;

#[test]
fn empty_string_is_one_terminated_chunk() {
    let chunks = utf16_chunks("");
    assert_eq!(chunks, vec![vec![0u16]]);
}

#[test]
fn ascii_string_encodes_one_unit_per_character() {
    let chunks = utf16_chunks("hi!");
    assert_eq!(chunks, vec![vec![0x68, 0x69, 0x21, 0]]);
}

#[test]
fn supplementary_plane_character_becomes_a_surrogate_pair() {
    // U+1D11E, the musical G clef
    let chunks = utf16_chunks("\u{1D11E}");
    assert_eq!(chunks, vec![vec![0xD834, 0xDD1E, 0]]);
}

#[test]
fn long_strings_are_split_into_terminated_chunks() {
    let text: String = std::iter::repeat('a').take(300).collect();
    let chunks = utf16_chunks(&text);
    assert_eq!(chunks.len(), 2);
    // the fixed buffer holds 255 units plus the terminator
    assert_eq!(chunks[0].len(), 256);
    assert_eq!(chunks[0][255], 0);
    assert_eq!(chunks[1].len(), 46);
    assert_eq!(chunks[1][45], 0);
    let payload: usize = chunks.iter().map(|c| c.len() - 1).sum();
    assert_eq!(payload, 300);
}

#[test]
fn surrogate_pairs_are_never_split_across_chunks() {
    // 127 one-unit characters leave room for one more unit only; the
    // two-unit character must move whole into the next chunk
    let mut text: String = std::iter::repeat('x').take(254).collect();
    text.push('\u{1D11E}');
    let chunks = utf16_chunks(&text);
    assert_eq!(chunks.len(), 2);
    assert_eq!(chunks[0].len(), 255); // 254 units + terminator
    assert_eq!(chunks[1], vec![0xD834, 0xDD1E, 0]);
}

#[test]
fn output_string_delivers_the_units() {
    let mut out = TextOutput { device: SimTextOutput::new() };
    let w = out.output_string("boot").unwrap();
    assert_eq!(w, Warning::Success);
    assert_eq!(out.device.written, vec![0x62, 0x6f, 0x6f, 0x74]);
    assert_eq!(out.device.call_count, 1);
}

#[test]
fn long_output_takes_several_device_calls() {
    let text: String = std::iter::repeat('a').take(300).collect();
    let mut out = TextOutput { device: SimTextOutput::new() };
    out.output_string(&text).unwrap();
    assert_eq!(out.device.call_count, 2);
    assert_eq!(out.device.written.len(), 300);
}

#[test]
fn missing_glyphs_raise_the_first_warning() {
    let mut device = SimTextOutput::new();
    device.warn_unsupported = true;
    let mut out = TextOutput { device };
    let w = out.output_string("caf\u{e9}").unwrap();
    assert_eq!(w, Warning::UnknownGlyph);
    // a pure seven-bit string stays warning-free
    let w = out.output_string("cafe").unwrap();
    assert_eq!(w, Warning::Success);
}

#[test]
fn test_string_reports_unsupported_text() {
    let mut device = SimTextOutput::new();
    device.warn_unsupported = true;
    let mut out = TextOutput { device };
    assert!(out.test_string("plain").is_ok());
    assert_eq!(out.test_string("caf\u{e9}").err(), Some(Error::Unsupported));
    // testing writes nothing
    assert_eq!(out.device.written, Vec::<u16>::new());
}

#[test]
fn modes_cursor_and_attributes() {
    let mut out = TextOutput { device: SimTextOutput::new() };
    assert_eq!(out.query_mode(0).unwrap(), (80, 25));
    assert_eq!(out.query_mode(3).err(), Some(Error::Unsupported));
    assert!(out.set_mode(0).is_ok());
    assert_eq!(out.set_mode(1).err(), Some(Error::Unsupported));
    assert!(out.set_attribute(Color::new(ForegroundColor::White, BackgroundColor::Blue)).is_ok());
    assert_eq!(out.device.attribute, 0x1f);
    assert!(out.set_cursor_position(3, 7).is_ok());
    assert_eq!((out.device.cursor_column, out.device.cursor_row), (3, 7));
    assert!(out.enable_cursor(false).is_ok());
    assert!(!out.device.cursor_visible);
    assert!(out.clear_screen().is_ok());
    assert_eq!(out.device.clear_count, 1);
    assert!(out.reset(false).is_ok());
    assert_eq!(out.device.reset_count, 1);
}

#[test]
fn color_codes_combine_foreground_and_background() {
    assert_eq!(Color::new(ForegroundColor::Black, BackgroundColor::Black).0, 0x00);
    assert_eq!(Color::new(ForegroundColor::White, BackgroundColor::Blue).0, 0x1f);
    assert_eq!(Color::new(ForegroundColor::Yellow, BackgroundColor::Red).0, 0x4e);
    assert_eq!(
        Color::new(ForegroundColor::LightGray, BackgroundColor::LightGray).0,
        0x77
    );
}

#[test]
fn keystrokes_come_out_in_order() {
    let keys = vec![
        TextInputKey { ScanCode: 0, UnicodeChar: 0x61 },
        TextInputKey { ScanCode: 0x17, UnicodeChar: 0 },
    ];
    let mut input = TextInput { device: SimTextInput::new(keys), wait_for_key: Event(9) };
    assert_eq!(input.try_read_key_stroke().unwrap().UnicodeChar, 0x61);
    assert_eq!(input.try_read_key_stroke().unwrap().ScanCode, 0x17);
    assert_eq!(input.try_read_key_stroke().err(), Some(Error::NotReady));
    assert!(input.reset(false).is_ok());
    assert_eq!(input.device.reset_count, 1);
}

#[test]
fn read_key_stroke_waits_for_the_key_event() {
    let keys = vec![TextInputKey { ScanCode: 0, UnicodeChar: 0x7a }];
    let mut input = TextInput { device: SimTextInput::new(keys), wait_for_key: Event(4) };
    let mut boot = BootServices::new(SimFirmware::new(40, 1));
    let key = input.read_key_stroke(&mut boot).unwrap();
    assert_eq!(key.UnicodeChar, 0x7a);
}

#[test]
fn waiting_on_events_returns_the_fired_one() {
    let mut boot = BootServices::new(SimFirmware::new(40, 1));
    let events = [Event(1), Event(2)];
    let fired = boot.wait_for_events(&events).unwrap();
    assert_eq!(*fired, Event(1));
    let none: [Event; 0] = [];
    assert_eq!(boot.wait_for_events(&none).err(), Some(Error::InvalidParameter));
    assert!(boot.wait_for_event(&Event(5)).is_ok());
}

//! Text console protocols: keyboard input and character output.
//!
//! Like the boot services, the console devices are opaque firmware
//! services; [`TextInputDevice`] and [`TextOutputDevice`] shape them as
//! capability traits with one method per raw call.  Strings cross the
//! boundary encoded as null-terminated UTF-16 runs of at most 256 units,
//! produced by a fixed-size buffer so that no allocation depends on the
//! string's length; [`utf16_chunks`] carries the full encoding contract.

use vstd::prelude::*;
use vstd::std_specs::iter::IteratorSpec;

use crate::boot::{BootServices, FirmwareServices};
use crate::status::{Error, Status, Warning};
use crate::Event;

verus! {

broadcast use vstd::string::axiom_spec_iter, vstd::string::next_postcondition;

/// The device half of the keyboard protocol: one method per raw call.
pub trait TextInputDevice: Sized {
    /// Resets the input device.
    fn reset(&mut self, extended_verification: bool) -> (r: Status);

    /// Reads the next keystroke, if one is pending.
    fn read_key_stroke(&mut self) -> (r: (Status, TextInputKey));
}

/// The device half of the console output protocol: one method per raw
/// call.  Strings arrive as null-terminated UTF-16 buffers.
pub trait TextOutputDevice: Sized {
    /// Resets the output device.
    fn reset(&mut self, extended_verification: bool) -> (r: Status);

    /// Displays a null-terminated UTF-16 string at the cursor.
    fn output_string(&mut self, utf16: &Vec<u16>) -> (r: Status);

    /// Tests whether the device supports every character of the string.
    fn test_string(&mut self, utf16: &Vec<u16>) -> (r: Status);

    /// Reports the columns and rows of a supported text mode.
    fn query_mode(&mut self, mode_number: usize) -> (r: (Status, usize, usize));

    /// Switches the device to a supported text mode.
    fn set_mode(&mut self, mode: usize) -> (r: Status);

    /// Sets the foreground and background of subsequent output.
    fn set_attribute(&mut self, attribute: usize) -> (r: Status);

    /// Clears the screen with the current background.
    fn clear_screen(&mut self) -> (r: Status);

    /// Moves the cursor.
    fn set_cursor_position(&mut self, column: usize, row: usize) -> (r: Status);

    /// Shows or hides the cursor.
    fn enable_cursor(&mut self, enable: bool) -> (r: Status);
}

/// Keystroke information for a pressed key.
#[derive(Clone, Copy, Debug, Default, PartialEq, Eq, Structural)]
#[allow(non_snake_case)]
pub struct TextInputKey {
    /// The scan code of the key.
    pub ScanCode: u16,
    /// The printable character, or zero for a control or function key.
    pub UnicodeChar: u16,
}

/// The keyboard protocol over an opaque input device.
pub struct TextInput<D: TextInputDevice> {
    /// The underlying device.
    pub device: D,
    /// Event to wait on for a key to become available.
    pub wait_for_key: Event,
}

impl<D: TextInputDevice> TextInput<D> {
    /// Resets the input device.
    pub fn reset(&mut self, extended_verification: bool) -> (r: Result<(), Error>) {
        let status = self.device.reset(extended_verification);
        match status.into_result() {
            Err(e) => Err(e),
            Ok(_) => Ok(()),
        }
    }

    /// Returns the next keystroke if one is pending; otherwise the
    /// device answers that it is not ready.
    pub fn try_read_key_stroke(&mut self) -> (r: Result<TextInputKey, Error>) {
        let (status, key) = self.device.read_key_stroke();
        match status.into_result() {
            Err(e) => Err(e),
            Ok(_) => Ok(key),
        }
    }

    /// Waits until a key is available, then reads it.
    pub fn read_key_stroke<S: FirmwareServices>(
        &mut self,
        boot_services: &mut BootServices<S>,
    ) -> (r: Result<TextInputKey, Error>) {
        match boot_services.wait_for_event(&self.wait_for_key) {
            Err(e) => Err(e),
            Ok(_) => self.try_read_key_stroke(),
        }
    }
}

/// The read-only mode block of an output device.
#[derive(Clone, Copy, Debug, PartialEq, Eq, Structural)]
#[allow(non_snake_case)]
pub struct TextOutputMode {
    /// The number of modes the device supports.
    pub MaxMode: i32,
    /// The current text mode.
    pub Mode: i32,
    /// The current output attribute.
    pub Attribute: i32,
    /// The cursor's column.
    pub CursorColumn: i32,
    /// The cursor's row.
    pub CursorRow: i32,
    /// Whether the cursor is visible.
    pub CursorVisible: bool,
}

/// The console output protocol over an opaque output device.
pub struct TextOutput<D: TextOutputDevice> {
    /// The underlying device.
    pub device: D,
}

impl<D: TextOutputDevice> TextOutput<D> {
    /// Resets the output device.
    pub fn reset(&mut self, extended_verification: bool) -> (r: Result<(), Error>) {
        let status = self.device.reset(extended_verification);
        match status.into_result() {
            Err(e) => Err(e),
            Ok(_) => Ok(()),
        }
    }

    /// Displays the string at the current cursor location, reporting the
    /// first warning the device raised, if any.
    pub fn output_string(&mut self, string: &str) -> (r: Result<Warning, Error>) {
        with_utf16_str(&mut self.device, string, false)
    }

    /// Tests whether the device supports every character of the string.
    pub fn test_string(&mut self, string: &str) -> (r: Result<(), Error>) {
        match with_utf16_str(&mut self.device, string, true) {
            Err(e) => Err(e),
            Ok(_) => Ok(()),
        }
    }

    /// Reports the columns and rows of a supported text mode.
    pub fn query_mode(&mut self, mode_number: usize) -> (r: Result<(usize, usize), Error>) {
        let (status, columns, rows) = self.device.query_mode(mode_number);
        match status.into_result() {
            Err(e) => Err(e),
            Ok(_) => Ok((columns, rows)),
        }
    }

    /// Switches the device to a supported text mode.
    pub fn set_mode(&mut self, mode: usize) -> (r: Result<(), Error>) {
        let status = self.device.set_mode(mode);
        match status.into_result() {
            Err(e) => Err(e),
            Ok(_) => Ok(()),
        }
    }

    /// Sets the foreground and background of subsequent output.
    pub fn set_attribute(&mut self, attribute: Color) -> (r: Result<(), Error>) {
        let status = self.device.set_attribute(attribute.0);
        match status.into_result() {
            Err(e) => Err(e),
            Ok(_) => Ok(()),
        }
    }

    /// Clears the screen with the current background.
    pub fn clear_screen(&mut self) -> (r: Result<(), Error>) {
        let status = self.device.clear_screen();
        match status.into_result() {
            Err(e) => Err(e),
            Ok(_) => Ok(()),
        }
    }

    /// Moves the cursor.
    pub fn set_cursor_position(&mut self, column: usize, row: usize) -> (r: Result<(), Error>) {
        let status = self.device.set_cursor_position(column, row);
        match status.into_result() {
            Err(e) => Err(e),
            Ok(_) => Ok(()),
        }
    }

    /// Shows or hides the cursor.
    pub fn enable_cursor(&mut self, enable: bool) -> (r: Result<(), Error>) {
        let status = self.device.enable_cursor(enable);
        match status.into_result() {
            Err(e) => Err(e),
            Ok(_) => Ok(()),
        }
    }
}

/// The UTF-16 units of one character: one unit below the supplementary
/// planes, a surrogate pair above them.
pub open spec fn spec_utf16_units(c: char) -> Seq<u16> {
    let cv = (c as u32) as int;
    if cv < 0x1_0000 {
        seq![cv as u16]
    } else {
        seq![
            ((0xD800 + ((cv - 0x1_0000) / 0x400)) % 0x1_0000) as u16,
            (0xDC00 + ((cv - 0x1_0000) % 0x400)) as u16,
        ]
    }
}

/// The UTF-16 encoding of a character sequence.
pub open spec fn spec_utf16(s: Seq<char>) -> Seq<u16>
    decreases s.len(),
{
    if s.len() == 0 {
        Seq::empty()
    } else {
        spec_utf16_units(s[0]) + spec_utf16(s.skip(1))
    }
}

/// Encoding distributes over appending one character at the end.
proof fn lemma_utf16_push(s: Seq<char>, c: char)
    ensures
        spec_utf16(s.push(c)) == spec_utf16(s) + spec_utf16_units(c),
    decreases s.len(),
{
    let t = s.push(c);
    if s.len() == 0 {
        assert(t[0] == c);
        assert(t.skip(1) =~= Seq::<char>::empty());
        assert(spec_utf16(t.skip(1)) == Seq::<u16>::empty());
        assert(spec_utf16(t) == spec_utf16_units(c) + spec_utf16(t.skip(1)));
        assert(spec_utf16(s) == Seq::<u16>::empty());
        assert(spec_utf16_units(c) + Seq::<u16>::empty() =~= spec_utf16_units(c));
        assert(spec_utf16(s) + spec_utf16_units(c) =~= spec_utf16_units(c));
    } else {
        assert(t[0] == s[0]);
        assert(t.skip(1) =~= s.skip(1).push(c));
        lemma_utf16_push(s.skip(1), c);
        assert(spec_utf16(t) == spec_utf16_units(s[0]) + (spec_utf16(s.skip(1))
            + spec_utf16_units(c)));
        assert(spec_utf16_units(s[0]) + (spec_utf16(s.skip(1)) + spec_utf16_units(c)) =~= (
        spec_utf16_units(s[0]) + spec_utf16(s.skip(1))) + spec_utf16_units(c));
        assert(spec_utf16(s) == spec_utf16_units(s[0]) + spec_utf16(s.skip(1)));
    }
}

/// The payload of a run of null-terminated chunks: each chunk with its
/// terminator removed, concatenated in order.
pub open spec fn spec_chunk_payload(chunks: Seq<Seq<u16>>) -> Seq<u16>
    decreases chunks.len(),
{
    if chunks.len() == 0 {
        Seq::empty()
    } else {
        chunks[0].drop_last() + spec_chunk_payload(chunks.skip(1))
    }
}

/// The payload of one more chunk is the payload so far plus that chunk's
/// units.
proof fn lemma_chunk_payload_push(chunks: Seq<Seq<u16>>, chunk: Seq<u16>)
    requires
        chunk.len() >= 1,
    ensures
        spec_chunk_payload(chunks.push(chunk)) == spec_chunk_payload(chunks) + chunk.drop_last(),
    decreases chunks.len(),
{
    let t = chunks.push(chunk);
    if chunks.len() == 0 {
        assert(t[0] == chunk);
        assert(t.skip(1) =~= Seq::<Seq<u16>>::empty());
        assert(spec_chunk_payload(t.skip(1)) == Seq::<u16>::empty());
        assert(spec_chunk_payload(t) == chunk.drop_last() + spec_chunk_payload(t.skip(1)));
        assert(chunk.drop_last() + Seq::<u16>::empty() =~= chunk.drop_last());
        assert(spec_chunk_payload(chunks) == Seq::<u16>::empty());
        assert(spec_chunk_payload(chunks) + chunk.drop_last() =~= chunk.drop_last());
    } else {
        assert(t[0] == chunks[0]);
        assert(t.skip(1) =~= chunks.skip(1).push(chunk));
        lemma_chunk_payload_push(chunks.skip(1), chunk);
        assert(spec_chunk_payload(t) == chunks[0].drop_last() + (spec_chunk_payload(
            chunks.skip(1),
        ) + chunk.drop_last()));
        assert(chunks[0].drop_last() + (spec_chunk_payload(chunks.skip(1)) + chunk.drop_last())
            =~= (chunks[0].drop_last() + spec_chunk_payload(chunks.skip(1))) + chunk.drop_last());
        assert(spec_chunk_payload(chunks) == chunks[0].drop_last() + spec_chunk_payload(
            chunks.skip(1),
        ));
    }
}

/// Encodes a string as null-terminated UTF-16 chunks of at most 256 units
/// each, as a fixed 256-unit conversion buffer produces them: a character's
/// units are never split across two chunks, and every chunk ends with the
/// terminator.  The chunks' payload — terminators removed — is exactly the
/// string's UTF-16 encoding.
pub fn utf16_chunks(string: &str) -> (chunks: Vec<Vec<u16>>)
    ensures
        chunks@.len() >= 1,
        forall|i: int|
            0 <= i < chunks@.len() ==> 1 <= (#[trigger] chunks@[i])@.len() <= 256
                && chunks@[i]@.last() == 0,
        spec_chunk_payload(chunks@.map_values(|c: Vec<u16>| c@)) == spec_utf16(string@),
{
    let mut chunks: Vec<Vec<u16>> = Vec::new();
    let mut current: Vec<u16> = Vec::new();
    let ghost all = string@;
    let ghost mut done = Seq::<char>::empty();
    let mut it = string.chars();
    loop
        invariant
            current@.len() <= 255,
            forall|i: int|
                0 <= i < chunks@.len() ==> 1 <= (#[trigger] chunks@[i])@.len() <= 256
                    && chunks@[i]@.last() == 0,
            done + it.remaining() == all,
            spec_chunk_payload(chunks@.map_values(|c: Vec<u16>| c@)) + current@ == spec_utf16(
                done,
            ),
            it.decrease() is Some,
        ensures
            current@.len() <= 255,
            forall|i: int|
                0 <= i < chunks@.len() ==> 1 <= (#[trigger] chunks@[i])@.len() <= 256
                    && chunks@[i]@.last() == 0,
            spec_chunk_payload(chunks@.map_values(|c: Vec<u16>| c@)) + current@ == spec_utf16(
                all,
            ),
        decreases it.decrease()->0,
    {
        let ghost remaining_before = it.remaining();
        let next = it.next();
        if next.is_none() {
            proof {
                assert(done =~= all);
            }
            break ;
        }
        let c = next.unwrap();
        let u = c as u32;
        let unit_count: usize = if u < 0x1_0000 {
            1
        } else {
            2
        };
        if current.len() + unit_count + 1 > 256 {
            let ghost payload_before = current@;
            current.push(0);
            let ghost closed = current@;
            let ghost chunks_before = chunks@;
            chunks.push(current);
            current = Vec::new();
            proof {
                assert(closed.drop_last() =~= payload_before);
                assert(chunks@.drop_last() =~= chunks_before);
                assert(chunks@.map_values(|ch: Vec<u16>| ch@) =~= chunks_before.map_values(
                    |ch: Vec<u16>| ch@,
                ).push(closed));
                lemma_chunk_payload_push(chunks_before.map_values(|ch: Vec<u16>| ch@), closed);
                assert(spec_chunk_payload(chunks@.map_values(|ch: Vec<u16>| ch@)) + current@
                    =~= spec_utf16(done));
            }
        }
        let ghost current_before = current@;
        if u < 0x1_0000 {
            current.push(u as u16);
        } else {
            let v = u - 0x1_0000;
            let hi = (0xD800 + v / 0x400) % 0x1_0000;
            let lo = 0xDC00 + v % 0x400;
            current.push(hi as u16);
            current.push(lo as u16);
        }
        proof {
            assert(current@ =~= current_before + spec_utf16_units(c));
            lemma_utf16_push(done, c);
            assert(spec_chunk_payload(chunks@.map_values(|ch: Vec<u16>| ch@)) + current@
                =~= spec_utf16(done.push(c)));
            assert(remaining_before[0] == c);
            done = done.push(c);
            assert(done + it.remaining() =~= all);
        }
    }
    let ghost payload_before = current@;
    current.push(0);
    let ghost closed = current@;
    let ghost chunks_before = chunks@;
    chunks.push(current);
    proof {
        assert(closed.drop_last() =~= payload_before);
        assert(chunks@.drop_last() =~= chunks_before);
        assert(chunks@.map_values(|ch: Vec<u16>| ch@) =~= chunks_before.map_values(
            |ch: Vec<u16>| ch@,
        ).push(closed));
        lemma_chunk_payload_push(chunks_before.map_values(|ch: Vec<u16>| ch@), closed);
    }
    chunks
}

/// Hands the string to the device as null-terminated UTF-16 chunks, calling
/// it once per chunk: the fixed conversion buffer means a long string takes
/// several calls.  With `test_only` the device is only asked whether it
/// supports the text.  The first warning the device raises is kept and
/// reported; any error stops the calls and is returned.
pub fn with_utf16_str<D: TextOutputDevice>(device: &mut D, string: &str, test_only: bool) -> (r:
    Result<Warning, Error>) {
    let chunks = utf16_chunks(string);
    let mut warning = Warning::Success;
    let mut i: usize = 0;
    while i < chunks.len()
        invariant
            i <= chunks@.len(),
        decreases chunks@.len() - i,
    {
        let status = if test_only {
            device.test_string(&chunks[i])
        } else {
            device.output_string(&chunks[i])
        };
        match status.into_result() {
            Err(e) => {
                return Err(e);
            },
            Ok(w) => {
                if warning == Warning::Success {
                    warning = w;
                }
            },
        }
        i = i + 1;
    }
    Ok(warning)
}

/// Color information for text output: a foreground combined with a
/// background.
#[derive(Clone, Copy, Debug, PartialEq, Eq, Structural)]
pub struct Color(pub usize);

/// The attribute value of a foreground color.
pub open spec fn spec_foreground_code(foreground: ForegroundColor) -> usize {
    match foreground {
        ForegroundColor::Black => 0x00,
        ForegroundColor::Blue => 0x01,
        ForegroundColor::Green => 0x02,
        ForegroundColor::Cyan => 0x03,
        ForegroundColor::Red => 0x04,
        ForegroundColor::Magenta => 0x05,
        ForegroundColor::Brown => 0x06,
        ForegroundColor::LightGray => 0x07,
        ForegroundColor::DarkGray => 0x08,
        ForegroundColor::LightBlue => 0x09,
        ForegroundColor::LightGreen => 0x0a,
        ForegroundColor::LightCyan => 0x0b,
        ForegroundColor::LightRed => 0x0c,
        ForegroundColor::LightMagenta => 0x0d,
        ForegroundColor::Yellow => 0x0e,
        ForegroundColor::White => 0x0f,
    }
}

/// The attribute value of a background color.
pub open spec fn spec_background_code(background: BackgroundColor) -> usize {
    match background {
        BackgroundColor::Black => 0x00,
        BackgroundColor::Blue => 0x10,
        BackgroundColor::Green => 0x20,
        BackgroundColor::Cyan => 0x30,
        BackgroundColor::Red => 0x40,
        BackgroundColor::Magenta => 0x50,
        BackgroundColor::Brown => 0x60,
        BackgroundColor::LightGray => 0x70,
    }
}

impl Color {
    /// Combines a foreground and a background color into one attribute
    /// value: the foreground in the low nibble, the background above it.
    pub fn new(foreground: ForegroundColor, background: BackgroundColor) -> (r: Color)
        ensures
            r.0 == spec_foreground_code(foreground) + spec_background_code(background),
    {
        let f: usize = match foreground {
            ForegroundColor::Black => 0x00,
            ForegroundColor::Blue => 0x01,
            ForegroundColor::Green => 0x02,
            ForegroundColor::Cyan => 0x03,
            ForegroundColor::Red => 0x04,
            ForegroundColor::Magenta => 0x05,
            ForegroundColor::Brown => 0x06,
            ForegroundColor::LightGray => 0x07,
            ForegroundColor::DarkGray => 0x08,
            ForegroundColor::LightBlue => 0x09,
            ForegroundColor::LightGreen => 0x0a,
            ForegroundColor::LightCyan => 0x0b,
            ForegroundColor::LightRed => 0x0c,
            ForegroundColor::LightMagenta => 0x0d,
            ForegroundColor::Yellow => 0x0e,
            ForegroundColor::White => 0x0f,
        };
        let b: usize = match background {
            BackgroundColor::Black => 0x00,
            BackgroundColor::Blue => 0x10,
            BackgroundColor::Green => 0x20,
            BackgroundColor::Cyan => 0x30,
            BackgroundColor::Red => 0x40,
            BackgroundColor::Magenta => 0x50,
            BackgroundColor::Brown => 0x60,
            BackgroundColor::LightGray => 0x70,
        };
        Color(f + b)
    }
}

/// A foreground color for text.
#[derive(Clone, Copy, Debug, PartialEq, Eq, Structural)]
pub enum ForegroundColor {
    /// Black.
    Black,
    /// Blue.
    Blue,
    /// Green.
    Green,
    /// Cyan.
    Cyan,
    /// Red.
    Red,
    /// Magenta.
    Magenta,
    /// Brown.
    Brown,
    /// Light gray.
    LightGray,
    /// Dark gray.
    DarkGray,
    /// Light blue.
    LightBlue,
    /// Light green.
    LightGreen,
    /// Light cyan.
    LightCyan,
    /// Light red.
    LightRed,
    /// Light magenta.
    LightMagenta,
    /// Yellow.
    Yellow,
    /// White.
    White,
}

/// A background color for text.
#[derive(Clone, Copy, Debug, PartialEq, Eq, Structural)]
pub enum BackgroundColor {
    /// Black.
    Black,
    /// Blue.
    Blue,
    /// Green.
    Green,
    /// Cyan.
    Cyan,
    /// Red.
    Red,
    /// Magenta.
    Magenta,
    /// Brown.
    Brown,
    /// Light gray.
    LightGray,
}

} // verus!

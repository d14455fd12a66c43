//! The shell: the keyboard line discipline (echo, Backspace, Enter) and the
//! state it keeps between keystrokes.

use vstd::prelude::*;
use vstd::string::StringSliceAdditionalSpecFns;
use crate::command::{parse_command, parse_line, printable_line, is_printable, Command, CommandSpec};
use crate::keyboard::{decoded_after, keyboard_feed_byte, keyboard_new, scancodes_fed, KeyDecoder};
use crate::vga_buffer::{blank, lemma_erase_undoes_put, Screen, Writer};

verus! {

/// The most characters a command line holds; further characters are ignored.
pub const MAX_LINE: usize = 128;

/// The kinds of region in the physical memory map the bootloader reports.
#[derive(Debug, Clone, Copy, PartialEq, Eq, Structural)]
pub enum RegionKind {
    Usable,
    InUse,
    Reserved,
    AcpiReclaimable,
    AcpiNvs,
    BadMemory,
    Kernel,
    KernelStack,
    PageTable,
    Bootloader,
    FrameZero,
    Empty,
    BootInfo,
    Package,
    /// A kind this shell does not know.
    NonExhaustive,
}

/// One region of the physical memory map: `[start, end)` and its kind.
#[derive(Debug, Clone, Copy, PartialEq, Eq, Structural)]
pub struct MemoryRegion {
    pub start: u64,
    pub end: u64,
    pub kind: RegionKind,
}

/// A character the line discipline stores: printable ASCII, `' '` to `'~'`
/// (ASCII and not a control character).
pub open spec fn is_line_char(c: char) -> bool {
    0x20 <= (c as u32) && (c as u32) <= 0x7e
}

/// The command line after the character `c` arrives: Enter empties it,
/// Backspace drops its last byte, and a printable character is appended
/// while the line has room. Every other character leaves it as it is.
pub open spec fn line_after(line: Seq<u8>, c: char) -> Seq<u8> {
    if c == '\n' {
        Seq::empty()
    } else if c == '\u{8}' {
        if line.len() > 0 {
            line.drop_last()
        } else {
            line
        }
    } else if is_line_char(c) && line.len() < MAX_LINE {
        line.push(c as u8)
    } else {
        line
    }
}

/// The screen after the character `c` arrives on the line `line`: Enter
/// starts a new line, Backspace erases the last echoed character when the
/// line was not empty, and a stored character is echoed.
pub open spec fn screen_after(screen: Screen, line: Seq<u8>, c: char) -> Screen {
    if c == '\n' {
        screen.put_byte(10)
    } else if c == '\u{8}' {
        if line.len() > 0 {
            screen.erased_back()
        } else {
            screen
        }
    } else if is_line_char(c) && line.len() < MAX_LINE {
        screen.put_byte(c as u8)
    } else {
        screen
    }
}

/// The command to run after `c` arrives: the parsed line on Enter, nothing
/// otherwise.
pub open spec fn command_after(line: Seq<u8>, c: char) -> Option<CommandSpec> {
    if c == '\n' {
        Some(parse_line(line))
    } else {
        None
    }
}

/// The view of an optional command.
pub open spec fn opt_command_view(r: Option<Command>) -> Option<CommandSpec> {
    match r {
        Some(c) => Some(c@),
        None => None,
    }
}

/// The runtime state of the shell: the scancode decoder, the command line
/// being typed, and the bootloader's memory map.
pub struct Shell {
    decoder: KeyDecoder,
    line: Vec<u8>,
    memory_map: Vec<MemoryRegion>,
}

impl Shell {
    /// The command line typed so far.
    pub closed spec fn line(&self) -> Seq<u8> {
        self.line@
    }

    /// The scancodes the shell has been fed, oldest first.
    pub closed spec fn scancodes(&self) -> Seq<u8> {
        scancodes_fed(self.decoder)
    }

    /// The memory map the shell was given.
    pub closed spec fn regions(&self) -> Seq<MemoryRegion> {
        self.memory_map@
    }

    /// The line fits the buffer and holds printable ASCII only.
    pub closed spec fn wf(&self) -> bool {
        self.line@.len() <= MAX_LINE && printable_line(self.line@)
    }

    /// A shell with an empty command line, a fresh scancode decoder (scancode
    /// set 1, US layout, Ctrl combinations passed through) and the given
    /// memory map.
    pub fn new(memory_map: Vec<MemoryRegion>) -> (s: Shell)
        ensures
            s.wf(),
            s.line() == Seq::<u8>::empty(),
            s.scancodes() == Seq::<u8>::empty(),
            s.regions() == memory_map@,
    {
        Shell { decoder: keyboard_new(), line: Vec::new(), memory_map }
    }

    /// The command line typed so far.
    pub fn line_bytes(&self) -> (r: &Vec<u8>)
        ensures
            r@ == self.line(),
    {
        &self.line
    }

    /// The memory map the shell was given.
    pub fn memory_map(&self) -> (r: &Vec<MemoryRegion>)
        ensures
            r@ == self.regions(),
    {
        &self.memory_map
    }

    /// Prints the start-up banner, then the first prompt.
    pub fn start(&self, writer: &mut Writer)
        requires
            old(writer)@.wf(),
        ensures
            final(writer)@ == old(writer)@.put_str_bytes(
                "=============================================\n".spec_bytes(),
            ).put_str_bytes("  mini kernel shell  -  type 'help' to begin\n".spec_bytes()).put_str_bytes(
                "=============================================\n".spec_bytes(),
            ).put_str_bytes("kernel> ".spec_bytes()),
            final(writer)@.wf(),
    {
        writer.write_string("=============================================\n");
        writer.write_string("  mini kernel shell  -  type 'help' to begin\n");
        writer.write_string("=============================================\n");
        self.prompt(writer);
    }

    /// Prints the prompt shown before every command.
    pub fn prompt(&self, writer: &mut Writer)
        requires
            old(writer)@.wf(),
        ensures
            final(writer)@ == old(writer)@.put_str_bytes("kernel> ".spec_bytes()),
            final(writer)@.wf(),
    {
        writer.write_string("kernel> ");
    }

    /// Feeds one raw scancode to the decoder. When, after the scancodes fed
    /// before, it yields a character, the line discipline handles that
    /// character (see `on_char`); otherwise nothing changes and `None` comes
    /// back.
    pub fn feed_scancode(&mut self, writer: &mut Writer, scancode: u8) -> (r: Option<Command>)
        requires
            old(self).wf(),
            old(writer)@.wf(),
        ensures
            final(self).wf(),
            final(writer)@.wf(),
            final(self).regions() == old(self).regions(),
            final(self).scancodes() == old(self).scancodes().push(scancode),
            final(self).line().len() <= MAX_LINE,
            printable_line(final(self).line()),
            match decoded_after(final(self).scancodes()) {
                Some(c) => {
                    &&& final(self).line() == line_after(old(self).line(), c)
                    &&& final(writer)@ == screen_after(old(writer)@, old(self).line(), c)
                    &&& opt_command_view(r) == command_after(old(self).line(), c)
                },
                None => {
                    &&& r is None
                    &&& final(self).line() == old(self).line()
                    &&& final(writer)@ == old(writer)@
                },
            },
    {
        match keyboard_feed_byte(&mut self.decoder, scancode) {
            Some(c) => self.on_char(writer, c),
            None => None,
        }
    }

    /// Handles one decoded character: Enter finishes the line and returns
    /// the command it holds, Backspace removes the last character, and a
    /// printable ASCII character is stored and echoed while the line has
    /// room. Other characters are ignored.
    pub fn on_char(&mut self, writer: &mut Writer, c: char) -> (r: Option<Command>)
        requires
            old(self).wf(),
            old(writer)@.wf(),
        ensures
            final(self).wf(),
            final(writer)@.wf(),
            final(self).regions() == old(self).regions(),
            final(self).scancodes() == old(self).scancodes(),
            final(self).line().len() <= MAX_LINE,
            printable_line(final(self).line()),
            final(self).line() == line_after(old(self).line(), c),
            final(writer)@ == screen_after(old(writer)@, old(self).line(), c),
            opt_command_view(r) == command_after(old(self).line(), c),
    {
        if c == '\n' {
            Some(self.on_enter(writer))
        } else if c == '\u{8}' {
            self.on_backspace(writer);
            None
        } else {
            let code = c as u32;
            if 0x20 <= code && code <= 0x7e {
                self.push_char(writer, c);
            }
            None
        }
    }

    /// Stores a printable character and echoes it, unless the line is full.
    fn push_char(&mut self, writer: &mut Writer, c: char)
        requires
            old(self).wf(),
            old(writer)@.wf(),
            is_line_char(c),
        ensures
            final(self).wf(),
            final(writer)@.wf(),
            final(self).regions() == old(self).regions(),
            final(self).scancodes() == old(self).scancodes(),
            final(self).line() == (if old(self).line().len() < MAX_LINE {
                old(self).line().push(c as u8)
            } else {
                old(self).line()
            }),
            final(writer)@ == (if old(self).line().len() < MAX_LINE {
                old(writer)@.put_byte(c as u8)
            } else {
                old(writer)@
            }),
    {
        if self.line.len() < MAX_LINE {
            let b = (c as u32) as u8;
            assert(b == c as u8);
            self.line.push(b);
            writer.write_byte(b);
            assert(printable_line(self.line@)) by {
                assert forall|i: int| 0 <= i < self.line@.len() implies is_printable(
                    #[trigger] self.line@[i],
                ) by {
                    if i < old(self).line@.len() {
                        assert(self.line@[i] == old(self).line@[i]);
                    }
                }
            }
        }
    }

    /// Removes the last character of the line and erases it on screen; does
    /// nothing on an empty line.
    fn on_backspace(&mut self, writer: &mut Writer)
        requires
            old(self).wf(),
            old(writer)@.wf(),
        ensures
            final(self).wf(),
            final(writer)@.wf(),
            final(self).regions() == old(self).regions(),
            final(self).scancodes() == old(self).scancodes(),
            final(self).line() == (if old(self).line().len() > 0 {
                old(self).line().drop_last()
            } else {
                old(self).line()
            }),
            final(writer)@ == (if old(self).line().len() > 0 {
                old(writer)@.erased_back()
            } else {
                old(writer)@
            }),
    {
        if self.line.len() > 0 {
            self.line.pop();
            writer.backspace();
        }
    }

    /// Finishes the line: moves to the next screen line, empties the line
    /// and returns the command it held.
    fn on_enter(&mut self, writer: &mut Writer) -> (r: Command)
        requires
            old(self).wf(),
            old(writer)@.wf(),
        ensures
            final(self).wf(),
            final(writer)@.wf(),
            final(self).regions() == old(self).regions(),
            final(self).scancodes() == old(self).scancodes(),
            final(self).line() == Seq::<u8>::empty(),
            final(writer)@ == old(writer)@.put_byte(10),
            r@ == parse_line(old(self).line()),
    {
        writer.write_byte(0x0au8);
        let command = parse_command(&self.line);
        self.line = Vec::new();
        command
    }
}


/// Backspace undoes typing: after a printable character is stored on a line
/// with room, Backspace gives back the line as it was, and on screen the
/// cursor returns to where it was with that cell blank (when the echo did not
/// wrap the bottom row).
pub proof fn lemma_backspace_undoes_char(line: Seq<u8>, screen: Screen, c: char)
    requires
        line.len() < MAX_LINE,
        is_line_char(c),
        screen.wf(),
        screen.column < 80,
    ensures
        line_after(line_after(line, c), '\u{8}') == line,
        screen_after(screen_after(screen, line, c), line_after(line, c), '\u{8}').column
            == screen.column,
        screen_after(screen_after(screen, line, c), line_after(line, c), '\u{8}').cells
            == screen.cells.update(1920 + screen.column as int, blank(screen.color)),
{
    assert(line.push(c as u8).drop_last() =~= line);
    lemma_erase_undoes_put(screen, c as u8);
}

/// The line never holds more than `MAX_LINE` bytes, whatever arrives.
pub proof fn lemma_line_bounded(line: Seq<u8>, c: char)
    requires
        line.len() <= MAX_LINE,
    ensures
        line_after(line, c).len() <= MAX_LINE,
{
}


/// Every printable ASCII character (code point 0x20 to 0x7e: letters,
/// digits, punctuation, space) typed on a line with room is stored at the
/// end of the line and echoed at the cursor.
pub proof fn lemma_printable_chars_are_stored(line: Seq<u8>, screen: Screen, c: char)
    requires
        0x20 <= (c as u32) <= 0x7e,
        line.len() < 128,
    ensures
        line_after(line, c) == line.push(c as u8),
        screen_after(screen, line, c) == screen.put_byte(c as u8),
        command_after(line, c) is None,
{
}

} // verus!

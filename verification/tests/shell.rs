use kernel_shell::command::Command;
use kernel_shell::shell::{MemoryRegion, RegionKind, Shell, MAX_LINE};
use kernel_shell::vga_buffer::{ColorCode, ScreenChar, Writer, BUFFER_CELLS, BUFFER_WIDTH};

fn blank_screen() -> Writer {
    Writer::new(vec![ScreenChar { ascii_character: b' ', color_code: ColorCode(0x07) }; BUFFER_CELLS])
}

fn row(w: &Writer, r: usize) -> String {
    let bytes: Vec<u8> = (0..BUFFER_WIDTH).map(|c| w.cell(r, c).ascii_character).collect();
    String::from_utf8(bytes).unwrap().trim_end().to_string()
}

fn type_str(shell: &mut Shell, w: &mut Writer, s: &str) -> Option<Command> {
    let mut last = None;
    for c in s.chars() {
        last = shell.on_char(w, c);
    }
    last
}

#[test]
fn start_prints_banner_and_prompt() {
    let shell = Shell::new(Vec::new());
    let mut w = blank_screen();
    shell.start(&mut w);
    assert_eq!(row(&w, 21), "=============================================");
    assert_eq!(row(&w, 22), "  mini kernel shell  -  type 'help' to begin");
    assert_eq!(row(&w, 23), "=============================================");
    assert_eq!(row(&w, 24), "kernel>");
    assert_eq!(w.column_position(), 8);
}

#[test]
fn typed_characters_are_stored_and_echoed() {
    let mut shell = Shell::new(Vec::new());
    let mut w = blank_screen();
    assert_eq!(type_str(&mut shell, &mut w, "help"), None);
    assert_eq!(shell.line_bytes(), &b"help".to_vec());
    assert_eq!(row(&w, 24), "help");
}

#[test]
fn enter_returns_the_command_and_empties_the_line() {
    let mut shell = Shell::new(Vec::new());
    let mut w = blank_screen();
    type_str(&mut shell, &mut w, "echo hi");
    let cmd = shell.on_char(&mut w, '\n');
    assert_eq!(cmd, Some(Command::Echo(b"hi".to_vec())));
    assert!(shell.line_bytes().is_empty());
    assert_eq!(row(&w, 23), "echo hi");
    assert_eq!(w.column_position(), 0);
}

#[test]
fn backspace_removes_last_character() {
    let mut shell = Shell::new(Vec::new());
    let mut w = blank_screen();
    type_str(&mut shell, &mut w, "helpx\u{8}");
    assert_eq!(shell.line_bytes(), &b"help".to_vec());
    assert_eq!(row(&w, 24), "help");
    assert_eq!(w.column_position(), 4);
    assert_eq!(shell.on_char(&mut w, '\n'), Some(Command::Help));
}

#[test]
fn backspace_on_empty_line_does_nothing() {
    let mut shell = Shell::new(Vec::new());
    let mut w = blank_screen();
    w.write_string("kernel> ");
    shell.on_char(&mut w, '\u{8}');
    assert!(shell.line_bytes().is_empty());
    assert_eq!(w.column_position(), 8);
    assert_eq!(row(&w, 24), "kernel>");
}

#[test]
fn other_characters_are_ignored() {
    let mut shell = Shell::new(Vec::new());
    let mut w = blank_screen();
    type_str(&mut shell, &mut w, "a\u{e9}\tb\u{1b}\u{7f}");
    assert_eq!(shell.line_bytes(), &b"ab".to_vec());
    assert_eq!(row(&w, 24), "ab");
}

#[test]
fn line_holds_at_most_128_characters() {
    let mut shell = Shell::new(Vec::new());
    let mut w = blank_screen();
    for _ in 0..200 {
        shell.on_char(&mut w, 'x');
    }
    assert_eq!(shell.line_bytes().len(), MAX_LINE);
    assert_eq!(w.column_position(), 128 - 80);
}

#[test]
fn enter_on_blank_line_gives_empty_command() {
    let mut shell = Shell::new(Vec::new());
    let mut w = blank_screen();
    type_str(&mut shell, &mut w, "   ");
    assert_eq!(shell.on_char(&mut w, '\n'), Some(Command::Empty));
}

#[test]
fn scancodes_are_decoded_into_characters() {
    let mut shell = Shell::new(Vec::new());
    let mut w = blank_screen();
    // 'h' press and release, 'i' press and release (scancode set 1).
    for sc in [0x23u8, 0xA3, 0x17, 0x97] {
        assert_eq!(shell.feed_scancode(&mut w, sc), None);
    }
    assert_eq!(shell.line_bytes(), &b"hi".to_vec());
    assert_eq!(row(&w, 24), "hi");
    // Enter.
    assert_eq!(shell.feed_scancode(&mut w, 0x1C), Some(Command::Unknown(b"hi".to_vec())));
    assert!(shell.line_bytes().is_empty());
}

#[test]
fn shift_and_backspace_scancodes() {
    let mut shell = Shell::new(Vec::new());
    let mut w = blank_screen();
    // Left Shift down, 'h', Left Shift up, 'i', Backspace.
    for sc in [0x2Au8, 0x23, 0xAA, 0x17, 0x0E] {
        shell.feed_scancode(&mut w, sc);
    }
    assert_eq!(shell.line_bytes(), &b"H".to_vec());
    assert_eq!(row(&w, 24), "H");
}

#[test]
fn raw_keys_change_nothing() {
    let mut shell = Shell::new(Vec::new());
    let mut w = blank_screen();
    // F1 press, an arrow key (extended), release codes.
    for sc in [0x3Bu8, 0xBB, 0x9E, 0xE0, 0x48, 0xE0, 0xC8] {
        assert_eq!(shell.feed_scancode(&mut w, sc), None);
    }
    assert!(shell.line_bytes().is_empty());
    assert_eq!(w.column_position(), 0);
}

#[test]
fn shell_keeps_its_memory_map() {
    let map = vec![MemoryRegion { start: 0, end: 0x1000, kind: RegionKind::FrameZero }];
    let shell = Shell::new(map.clone());
    assert_eq!(shell.memory_map(), &map);
}

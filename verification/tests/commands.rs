use kernel_shell::command::{parse_command, Command};
use kernel_shell::commands::{
    sleep_keep_waiting, ControlRegisters,
    bit, decode_rtc, panic_message, peek_rows, usable_bytes, vendor_bytes, CpuidRegisters,
    PeekRow, RtcRegisters, RtcTime,
};
use kernel_shell::format::{format_decimal, format_hex, format_hex_alt, format_hex_alt_12, zero_pad};
use kernel_shell::shell::{MemoryRegion, RegionKind, Shell};
use kernel_shell::vga_buffer::{Color, ColorCode, ScreenChar, Writer, BUFFER_CELLS, BUFFER_WIDTH};

fn blank_screen() -> Writer {
    Writer::new(vec![ScreenChar { ascii_character: b' ', color_code: ColorCode(0x07) }; BUFFER_CELLS])
}

fn row(w: &Writer, r: usize) -> String {
    let bytes: Vec<u8> = (0..BUFFER_WIDTH).map(|c| w.cell(r, c).ascii_character).collect();
    String::from_utf8_lossy(&bytes).trim_end().to_string()
}

fn text(v: Vec<u8>) -> String {
    String::from_utf8(v).unwrap()
}

#[test]
fn number_formats_match_rust_formatting() {
    for n in [0u64, 7, 10, 255, 4096, 0xb8000, u64::MAX] {
        assert_eq!(text(format_decimal(n)), format!("{}", n));
        assert_eq!(text(format_hex(n)), format!("{:x}", n));
        assert_eq!(text(format_hex_alt(n)), format!("{:#x}", n));
        assert_eq!(text(format_hex_alt_12(n)), format!("{:#012x}", n));
    }
    for n in [0u8, 5, 0x7f, 0xff] {
        assert_eq!(text(zero_pad(format_hex(n as u64), 2)), format!("{:02x}", n));
        assert_eq!(text(zero_pad(format_decimal(n as u64), 2)), format!("{:02}", n));
    }
}

#[test]
fn bit_names_flags() {
    assert_eq!(bit(0b1, 0), "yes");
    assert_eq!(bit(0b1, 4), "no");
    assert_eq!(bit(1 << 25, 25), "yes");
    assert_eq!(bit(u32::MAX, 31), "yes");
    assert_eq!(bit(0, 26), "no");
}

#[test]
fn vendor_string_is_ebx_edx_ecx_little_endian() {
    let leaf0 = CpuidRegisters { eax: 0x16, ebx: 0x756e_6547, ecx: 0x6c65_746e, edx: 0x4965_6e69 };
    assert_eq!(vendor_bytes(&leaf0), b"GenuineIntel".to_vec());
}

#[test]
fn cpuid_prints_vendor_and_features() {
    let shell = Shell::new(Vec::new());
    let mut w = blank_screen();
    let leaf0 = CpuidRegisters { eax: 0x16, ebx: 0x6874_7541, ecx: 0x444d_4163, edx: 0x6974_6e65 };
    let leaf1 = CpuidRegisters { eax: 0, ebx: 0, ecx: 0, edx: (1 << 0) | (1 << 25) };
    shell.cmd_cpuid(&mut w, leaf0, leaf1);
    assert_eq!(row(&w, 16), "CPU vendor: AuthenticAMD");
    assert_eq!(row(&w, 17), "max cpuid leaf: 22");
    assert_eq!(row(&w, 18), "features:");
    assert_eq!(row(&w, 19), "  FPU   (x87 float)  : yes");
    assert_eq!(row(&w, 20), "  TSC   (timestamp)  : no");
    assert_eq!(row(&w, 21), "  APIC  (local APIC) : no");
    assert_eq!(row(&w, 22), "  SSE                : yes");
    assert_eq!(row(&w, 23), "  SSE2               : no");
}

#[test]
fn cpuid_shows_question_mark_for_invalid_vendor() {
    let shell = Shell::new(Vec::new());
    let mut w = blank_screen();
    let leaf0 = CpuidRegisters { eax: 1, ebx: 0xffff_ffff, ecx: 0, edx: 0 };
    shell.cmd_cpuid(&mut w, leaf0, leaf0);
    assert_eq!(row(&w, 16), "CPU vendor: ?");
}

#[test]
fn usable_memory_sums_usable_regions_only() {
    let map = vec![
        MemoryRegion { start: 0, end: 0x1000, kind: RegionKind::FrameZero },
        MemoryRegion { start: 0x1000, end: 0x5000, kind: RegionKind::Usable },
        MemoryRegion { start: 0x5000, end: 0x15000, kind: RegionKind::Bootloader },
        MemoryRegion { start: 0x446000, end: 0x7fe0000, kind: RegionKind::Usable },
    ];
    assert_eq!(usable_bytes(&map), Some(0x4000 + 0x7fe0000 - 0x446000));
    let bad = vec![MemoryRegion { start: 0x2000, end: 0x1000, kind: RegionKind::Usable }];
    assert_eq!(usable_bytes(&bad), None);
    let huge = vec![
        MemoryRegion { start: 0, end: u64::MAX, kind: RegionKind::Usable },
        MemoryRegion { start: 0, end: 1, kind: RegionKind::Usable },
    ];
    assert_eq!(usable_bytes(&huge), None);
    let odd_but_unused = vec![MemoryRegion { start: 0x2000, end: 0x1000, kind: RegionKind::Reserved }];
    assert_eq!(usable_bytes(&odd_but_unused), Some(0));
}

#[test]
fn mem_prints_map_and_total() {
    let map = vec![
        MemoryRegion { start: 0, end: 0x1000, kind: RegionKind::FrameZero },
        MemoryRegion { start: 0x446000, end: 0x7fe0000, kind: RegionKind::Usable },
    ];
    let shell = Shell::new(map);
    let mut w = blank_screen();
    assert!(shell.cmd_mem(&mut w));
    assert_eq!(row(&w, 20), "physical memory map (from bootloader):");
    assert_eq!(row(&w, 21), "  0x0000000000 - 0x0000001000  FrameZero");
    assert_eq!(row(&w, 22), "  0x0000446000 - 0x0007fe0000  Usable");
    assert_eq!(row(&w, 23), "  usable RAM: 126568 KiB");
}

#[test]
fn mem_stops_where_the_sum_overflows() {
    let map = vec![
        MemoryRegion { start: 0, end: u64::MAX, kind: RegionKind::Usable },
        MemoryRegion { start: 0, end: 2, kind: RegionKind::Usable },
        MemoryRegion { start: 0, end: 4, kind: RegionKind::Kernel },
    ];
    let shell = Shell::new(map);
    let mut w = blank_screen();
    assert!(!shell.cmd_mem(&mut w));
    assert_eq!(row(&w, 21), "physical memory map (from bootloader):");
    assert_eq!(row(&w, 22), "  0x0000000000 - 0xffffffffffffffff  Usable");
    assert_eq!(row(&w, 23), "  0x0000000000 - 0x0000000002  Usable");
    assert_eq!(w.column_position(), 0);
    assert_eq!(row(&w, 24), "");
}

#[test]
fn uptime_in_tenths_of_seconds() {
    let shell = Shell::new(Vec::new());
    let mut w = blank_screen();
    shell.cmd_uptime(&mut w, 182);
    assert_eq!(row(&w, 23), "uptime: 182 ticks  (~1.0 seconds at ~18.2 Hz)");
    shell.cmd_uptime(&mut w, 1000);
    assert_eq!(row(&w, 23), "uptime: 1000 ticks  (~5.4 seconds at ~18.2 Hz)");
}

#[test]
fn tsc_prints_cycles() {
    let shell = Shell::new(Vec::new());
    let mut w = blank_screen();
    shell.cmd_tsc(&mut w, 123456789);
    assert_eq!(row(&w, 22), "timestamp counter: 123456789 cycles since CPU reset");
    // The em dash is three UTF-8 bytes, each shown as a block character.
    let expected: Vec<u8> = b"(run again \xfe\xfe\xfe value always increases)".to_vec();
    let bytes: Vec<u8> = (0..expected.len()).map(|c| w.cell(23, c).ascii_character).collect();
    assert_eq!(bytes, expected);
}

#[test]
fn sleep_messages() {
    let shell = Shell::new(Vec::new());
    let mut w = blank_screen();
    shell.cmd_sleep_start(&mut w, 18);
    shell.cmd_sleep_done(&mut w, 19);
    shell.cmd_sleep_usage(&mut w);
    assert_eq!(row(&w, 21), "sleeping 18 ticks...");
    assert_eq!(row(&w, 22), "awake after 19 ticks");
    assert_eq!(row(&w, 23), "usage: sleep <ticks> (~18 ticks = 1 second)");
}

#[test]
fn rtc_bcd_values_are_decoded() {
    let regs = RtcRegisters {
        second: 0x59,
        minute: 0x30,
        hour: 0x23,
        day: 0x31,
        month: 0x12,
        year: 0x24,
        status_b: 0x02,
    };
    assert_eq!(
        decode_rtc(regs),
        RtcTime { year: 24, month: 12, day: 31, hour: 23, minute: 30, second: 59 }
    );
}

#[test]
fn rtc_binary_twelve_hour_mode() {
    let pm = RtcRegisters { second: 5, minute: 7, hour: 0x80 | 3, day: 1, month: 2, year: 9, status_b: 0x04 };
    assert_eq!(decode_rtc(pm).hour, 15);
    let noon = RtcRegisters { hour: 0x80 | 12, ..pm };
    assert_eq!(decode_rtc(noon).hour, 12);
    let am = RtcRegisters { hour: 11, ..pm };
    assert_eq!(decode_rtc(am).hour, 11);
    let twenty_four = RtcRegisters { hour: 0x80 | 3, status_b: 0x06, ..pm };
    assert_eq!(decode_rtc(twenty_four).hour, 3);
}

#[test]
fn time_prints_date_and_time() {
    let shell = Shell::new(Vec::new());
    let mut w = blank_screen();
    let regs = RtcRegisters { second: 0x05, minute: 0x04, hour: 0x03, day: 0x02, month: 0x01, year: 0x09, status_b: 0x02 };
    shell.cmd_time(&mut w, regs);
    assert_eq!(row(&w, 23), "RTC time (UTC): 2009-01-02 03:04:05");
}

#[test]
fn help_lists_commands() {
    let shell = Shell::new(Vec::new());
    let mut w = blank_screen();
    shell.cmd_help(&mut w);
    assert_eq!(row(&w, 2), "available commands:");
    assert_eq!(row(&w, 3), "  help            show this help text");
    assert_eq!(row(&w, 9), "  regs            show control registers and RFLAGS");
    assert_eq!(row(&w, 21), "  outb <port> <b> write a byte to an I/O port");
    assert_eq!(row(&w, 23), "  panic [msg]     trigger a kernel panic (halts the CPU)");
}

#[test]
fn echo_and_unknown_messages() {
    let shell = Shell::new(Vec::new());
    let mut w = blank_screen();
    shell.cmd_echo(&mut w, &b"hello   world".to_vec());
    shell.cmd_unknown(&mut w, &b"foo".to_vec());
    assert_eq!(row(&w, 22), "hello   world");
    assert_eq!(row(&w, 23), "unknown command: 'foo'  (type 'help')");
}

#[test]
fn colors_shows_the_palette() {
    let shell = Shell::new(Vec::new());
    let mut w = blank_screen();
    shell.cmd_colors(&mut w);
    assert_eq!(row(&w, 7), "VGA text-mode palette (16 colors, 4-bit):");
    assert_eq!(row(&w, 8), "       Black  (code 0)");
    assert_eq!(row(&w, 23), "       White  (code 15)");
    // Swatch: background is the colour, on black text.
    assert_eq!(w.cell(12, 2), ScreenChar { ascii_character: b' ', color_code: ColorCode(0x40) });
    // Name in its own colour.
    assert_eq!(w.cell(12, 7).color_code, ColorCode::new(Color::Red, Color::Black));
    assert_eq!(w.color_code(), ColorCode(0x0e));
}

#[test]
fn peek_rows_split_into_sixteen_byte_lines() {
    assert_eq!(
        peek_rows(0xb8000, 40),
        vec![
            PeekRow { base: 0xb8000, len: 16 },
            PeekRow { base: 0xb8010, len: 16 },
            PeekRow { base: 0xb8020, len: 8 },
        ]
    );
    assert_eq!(peek_rows(0x10, 32).len(), 2);
    assert_eq!(peek_rows(0x10, 0), vec![]);
    assert_eq!(peek_rows(u64::MAX, 1), vec![PeekRow { base: u64::MAX, len: 1 }]);
}

#[test]
fn peek_output_lines() {
    let shell = Shell::new(Vec::new());
    let mut w = blank_screen();
    shell.cmd_peek_header(&mut w, 0xb8000);
    shell.cmd_peek_row_start(&mut w, 0xb8000);
    shell.cmd_peek_byte(&mut w, 0x20);
    shell.cmd_peek_byte(&mut w, 0x07);
    w.write_string("\n");
    shell.cmd_peek_usage(&mut w);
    assert_eq!(row(&w, 21), "memory at 0xb8000:");
    assert_eq!(row(&w, 22), "  0x00000b8000: 20 07");
    assert_eq!(row(&w, 23), "usage: peek <hex-address> [count]   e.g. peek 0xb8000 32");
}

#[test]
fn panic_message_defaults_when_empty() {
    assert_eq!(panic_message(&Vec::new()), b"manual panic triggered from the shell".to_vec());
    assert_eq!(panic_message(&b"boom".to_vec()), b"boom".to_vec());
}

#[test]
fn help_lists_exactly_the_commands() {
    let shell = Shell::new(Vec::new());
    let mut w = blank_screen();
    shell.cmd_help(&mut w);
    let mut listed = 0;
    for r in 3..24 {
        let line = row(&w, r);
        let word: String = line.trim_start().split(' ').next().unwrap().to_string();
        let cmd = parse_command(&word.as_bytes().to_vec());
        assert!(!matches!(cmd, Command::Unknown(_)), "{}", word);
        listed += 1;
    }
    assert_eq!(listed, 21);
}

#[test]
fn regs_prints_control_registers() {
    let shell = Shell::new(Vec::new());
    let mut w = blank_screen();
    let regs = ControlRegisters { cr0: 0x8001_0011, cr2: 0, cr3: 0x1000, cr4: 0x20, rflags: 0x246 };
    shell.cmd_regs(&mut w, regs);
    assert_eq!(row(&w, 17), "CPU registers:");
    assert_eq!(row(&w, 18), "  CR0    = 0x0000000080010011");
    assert_eq!(row(&w, 19), "  CR2    = 0x0000000000000000");
    assert_eq!(row(&w, 20), "  CR3    = 0x0000000000001000  (page table root)");
    assert_eq!(row(&w, 21), "  CR4    = 0x0000000000000020");
    assert_eq!(row(&w, 22), "  RFLAGS = 0x0000000000000246");
    assert_eq!(row(&w, 23), "    interrupts: enabled");
    shell.cmd_regs(&mut w, ControlRegisters { rflags: 0x46, ..regs });
    assert_eq!(row(&w, 23), "    interrupts: disabled");
}

#[test]
fn gdt_and_idt_print_base_and_limit() {
    let shell = Shell::new(Vec::new());
    let mut w = blank_screen();
    shell.cmd_gdt(&mut w, 0x1234, 23);
    shell.cmd_idt(&mut w, 0xffff_8000_0000_0000, 4095);
    assert_eq!(row(&w, 20), "  base  = 0x0000000000001234");
    assert_eq!(row(&w, 21), "  limit = 23 bytes");
    assert_eq!(row(&w, 22), "  base  = 0xffff800000000000");
    assert_eq!(row(&w, 23), "  limit = 4095 bytes");
}

#[test]
fn poke_inb_outb_messages() {
    let shell = Shell::new(Vec::new());
    let mut w = blank_screen();
    shell.cmd_poke_done(&mut w, 0xb8000, 0x41);
    shell.cmd_inb(&mut w, 0x64, 0x1c);
    shell.cmd_poke_usage(&mut w);
    shell.cmd_inb_usage(&mut w);
    shell.cmd_outb_usage(&mut w);
    assert_eq!(row(&w, 19), "wrote 0x41 to 0xb8000");
    assert_eq!(row(&w, 20), "inb 0x64 = 0x1c");
    assert_eq!(row(&w, 21), "usage: poke <hex-address> <hex-byte>   e.g. poke 0xb8000 0x41");
    assert_eq!(row(&w, 22), "usage: inb <hex-port>   e.g. inb 0x64");
    assert_eq!(row(&w, 23), "usage: outb <hex-port> <hex-byte>   e.g. outb 0x80 0x00");
}

#[test]
fn sleep_waits_until_start_plus_n() {
    assert!(sleep_keep_waiting(100, 18, 100));
    assert!(sleep_keep_waiting(100, 18, 117));
    assert!(!sleep_keep_waiting(100, 18, 118));
    assert!(!sleep_keep_waiting(100, 0, 100));
}

#[test]
fn peek_row_end_starts_a_new_line() {
    let shell = Shell::new(Vec::new());
    let mut w = blank_screen();
    w.write_string("  0x00000b8000: 20 ");
    shell.cmd_peek_row_end(&mut w);
    assert_eq!(row(&w, 23), "  0x00000b8000: 20");
    assert_eq!(w.column_position(), 0);
}

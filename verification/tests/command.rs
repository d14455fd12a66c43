use kernel_shell::format::{format_decimal, format_hex};
use kernel_shell::command::{
    parse_command, parse_inb_args, parse_outb_args, parse_peek_args, parse_poke_args, parse_sleep_args, parse_unsigned_exec, trim_exec,
    trim_start_exec, Command, OutbRequest, PeekRequest, PokeRequest,
};

fn parse(s: &str) -> Command {
    parse_command(&s.as_bytes().to_vec())
}

#[test]
fn echo_keeps_inner_spacing() {
    assert_eq!(parse("echo hello   world"), Command::Echo(b"hello   world".to_vec()));
}

#[test]
fn echo_arguments_lose_leading_spaces() {
    assert_eq!(parse("   echo    hi there  "), Command::Echo(b"hi there".to_vec()));
    assert_eq!(parse("echo"), Command::Echo(Vec::new()));
}

#[test]
fn blank_lines_run_nothing() {
    assert_eq!(parse(""), Command::Empty);
    assert_eq!(parse("     "), Command::Empty);
}

#[test]
fn command_words_are_recognised() {
    assert_eq!(parse("help"), Command::Help);
    assert_eq!(parse("  help  "), Command::Help);
    assert_eq!(parse("clear"), Command::Clear);
    assert_eq!(parse("reboot"), Command::Reboot);
    assert_eq!(parse("shutdown"), Command::Shutdown);
    assert_eq!(parse("mem"), Command::Mem);
    assert_eq!(parse("cpuid"), Command::Cpuid);
    assert_eq!(parse("tsc"), Command::Tsc);
    assert_eq!(parse("uptime"), Command::Uptime);
    assert_eq!(parse("time"), Command::Time);
    assert_eq!(parse("colors"), Command::Colors);
    assert_eq!(parse("int3"), Command::Int3);
    assert_eq!(parse("help me"), Command::Help);
}

#[test]
fn unknown_commands_report_their_word() {
    assert_eq!(parse("foo bar"), Command::Unknown(b"foo".to_vec()));
    assert_eq!(parse("HELP"), Command::Unknown(b"HELP".to_vec()));
    assert_eq!(parse("helpme"), Command::Unknown(b"helpme".to_vec()));
}

#[test]
fn panic_takes_its_message() {
    assert_eq!(parse("panic"), Command::Panic(Vec::new()));
    assert_eq!(parse("panic oh no"), Command::Panic(b"oh no".to_vec()));
}

#[test]
fn sleep_arguments() {
    assert_eq!(parse("sleep 18"), Command::Sleep(Some(18)));
    assert_eq!(parse("sleep 999999"), Command::Sleep(Some(100_000)));
    assert_eq!(parse("sleep +5"), Command::Sleep(Some(5)));
    assert_eq!(parse("sleep abc"), Command::Sleep(None));
    assert_eq!(parse("sleep"), Command::Sleep(None));
    assert_eq!(parse("sleep -1"), Command::Sleep(None));
    assert_eq!(parse("sleep 1 2"), Command::Sleep(None));
    assert_eq!(parse_sleep_args(&b"  42  ".to_vec()), Some(42));
}

#[test]
fn peek_arguments() {
    assert_eq!(
        parse("peek 0xb8000 32"),
        Command::Peek(Some(PeekRequest { addr: 0xb8000, count: 32 }))
    );
    assert_eq!(parse("peek b8000"), Command::Peek(Some(PeekRequest { addr: 0xb8000, count: 16 })));
    assert_eq!(
        parse("peek 0xB8000 1000"),
        Command::Peek(Some(PeekRequest { addr: 0xb8000, count: 256 }))
    );
    assert_eq!(parse("peek 0x10 abc"), Command::Peek(Some(PeekRequest { addr: 0x10, count: 16 })));
    assert_eq!(parse("peek zz"), Command::Peek(None));
    assert_eq!(parse("peek"), Command::Peek(None));
    assert_eq!(parse("peek 0x"), Command::Peek(None));
    assert_eq!(
        parse_peek_args(&b"  ff   3 extra".to_vec()),
        Some(PeekRequest { addr: 0xff, count: 3 })
    );
}

#[test]
fn unsigned_parsing_follows_from_str_radix() {
    let p = |s: &str, r: u32| parse_unsigned_exec(&s.as_bytes().to_vec(), r);
    for s in ["0", "7", "+7", "123", "18446744073709551615", "00012"] {
        assert_eq!(p(s, 10), s.parse::<u64>().ok(), "{}", s);
    }
    for s in ["", "+", "-", "18446744073709551616", "1a", " 1", "+-1"] {
        assert_eq!(p(s, 10), None, "{}", s);
        assert_eq!(s.parse::<u64>().ok(), None, "{}", s);
    }
    for s in ["ff", "FF", "+dead", "ffffffffffffffff", "0"] {
        assert_eq!(p(s, 16), u64::from_str_radix(s, 16).ok(), "{}", s);
    }
    assert_eq!(p("10000000000000000", 16), None);
    assert_eq!(p("g", 16), None);
}

#[test]
fn trimming() {
    assert_eq!(trim_exec(&b"  a b  ".to_vec()), b"a b".to_vec());
    assert_eq!(trim_exec(&b"    ".to_vec()), Vec::<u8>::new());
    assert_eq!(trim_start_exec(&b"  a b  ".to_vec()), b"a b  ".to_vec());
}

#[test]
fn formatted_numbers_parse_back() {
    for n in [0u64, 9, 10, 16, 255, 0xb8000, 123_456_789, u64::MAX] {
        assert_eq!(parse_unsigned_exec(&format_decimal(n), 10), Some(n));
        assert_eq!(parse_unsigned_exec(&format_hex(n), 16), Some(n));
    }
}

#[test]
fn register_and_table_commands() {
    assert_eq!(parse("regs"), Command::Regs);
    assert_eq!(parse("gdt"), Command::Gdt);
    assert_eq!(parse("idt"), Command::Idt);
}

#[test]
fn poke_arguments() {
    assert_eq!(
        parse("poke 0xb8000 0x41"),
        Command::Poke(Some(PokeRequest { addr: 0xb8000, value: 0x41 }))
    );
    assert_eq!(parse("poke b8000 41"), Command::Poke(Some(PokeRequest { addr: 0xb8000, value: 0x41 })));
    assert_eq!(parse("poke 0xb8000 0x141"), Command::Poke(None));
    assert_eq!(parse("poke 0xb8000"), Command::Poke(None));
    assert_eq!(parse("poke"), Command::Poke(None));
    assert_eq!(parse_poke_args(&b"zz 1".to_vec()), None);
}

#[test]
fn inb_and_outb_arguments() {
    assert_eq!(parse("inb 0x64"), Command::Inb(Some(0x64)));
    assert_eq!(parse("inb 10000"), Command::Inb(None));
    assert_eq!(parse("inb"), Command::Inb(None));
    assert_eq!(parse_inb_args(&b"ffff".to_vec()), Some(0xffff));
    assert_eq!(parse("outb 0x80 0x00"), Command::Outb(Some(OutbRequest { port: 0x80, value: 0 })));
    assert_eq!(parse("outb 0x80"), Command::Outb(None));
    assert_eq!(parse_outb_args(&b"0x10000 1".to_vec()), None);
}

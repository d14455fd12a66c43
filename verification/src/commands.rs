//! The built-in commands: what each one computes from the values the
//! hardware reports (read by the caller) and what it prints on the console.

use vstd::prelude::*;
use vstd::bytes::{spec_u32_to_le_bytes, u32_to_le_bytes};
use vstd::string::StringSliceAdditionalSpecFns;
use vstd::utf8::valid_utf8;
use crate::format::{
    format_hex_alt_padded, hex_alt_padded,
    decimal, format_decimal, format_hex, format_hex_alt, format_hex_alt_12, hex, hex_alt,
    hex_alt_12, zero_pad, zero_padded,
};
use crate::command::command_for;
use crate::interrupts::TIMER_HZ_X10;
use crate::shell::{MemoryRegion, RegionKind, Shell};
use crate::vga_buffer::{
    color_code_of, color_name, color_value, color_with_value, print_colored, Color, Screen, Writer,
};

verus! {

// ---------------------------------------------------------------------------
// help, echo, unknown commands
// ---------------------------------------------------------------------------

/// The `i`-th command `help` lists: its command word and the rest of its
/// line (its arguments and what it does).
pub open spec fn help_entry(i: int) -> (Seq<u8>, Seq<u8>) {
    if i == 0 {
        ("help".spec_bytes(), "            show this help text\n".spec_bytes())
    } else if i == 1 {
        ("clear".spec_bytes(), "           clear the screen\n".spec_bytes())
    } else if i == 2 {
        ("echo".spec_bytes(), " <text>     print the given text back\n".spec_bytes())
    } else if i == 3 {
        ("reboot".spec_bytes(), "          reset the machine\n".spec_bytes())
    } else if i == 4 {
        ("shutdown".spec_bytes(), "        power off (QEMU/ACPI)\n".spec_bytes())
    } else if i == 5 {
        ("mem".spec_bytes(), "             show the real physical memory map\n".spec_bytes())
    } else if i == 6 {
        ("regs".spec_bytes(), "            show control registers and RFLAGS\n".spec_bytes())
    } else if i == 7 {
        ("cpuid".spec_bytes(), "           show CPU vendor and features\n".spec_bytes())
    } else if i == 8 {
        ("tsc".spec_bytes(), "             read the CPU timestamp counter (cycles)\n".spec_bytes())
    } else if i == 9 {
        ("uptime".spec_bytes(), "          time since boot (from the timer interrupt)\n".spec_bytes())
    } else if i == 10 {
        ("sleep".spec_bytes(), " <ticks>   wait n timer ticks (~18 ticks = 1 second)\n".spec_bytes())
    } else if i == 11 {
        ("time".spec_bytes(), "            wall-clock time from the RTC (CMOS clock)\n".spec_bytes())
    } else if i == 12 {
        ("colors".spec_bytes(), "          show the 16 VGA text colors\n".spec_bytes())
    } else if i == 13 {
        ("gdt".spec_bytes(), "             show where the GDT lives\n".spec_bytes())
    } else if i == 14 {
        ("idt".spec_bytes(), "             show where the IDT lives\n".spec_bytes())
    } else if i == 15 {
        ("peek".spec_bytes(), " <hex> [n]  read n bytes from a memory address\n".spec_bytes())
    } else if i == 16 {
        ("poke".spec_bytes(), " <hex> <b>  write a byte to a memory address\n".spec_bytes())
    } else if i == 17 {
        ("inb".spec_bytes(), " <port>      read a byte from an I/O port\n".spec_bytes())
    } else if i == 18 {
        ("outb".spec_bytes(), " <port> <b> write a byte to an I/O port\n".spec_bytes())
    } else if i == 19 {
        ("int3".spec_bytes(), "            fire a breakpoint exception and recover\n".spec_bytes())
    } else {
        ("panic".spec_bytes(), " [msg]     trigger a kernel panic (halts the CPU)\n".spec_bytes())
    }
}

/// How many commands `help` lists.
pub open spec fn help_count() -> nat {
    21
}

/// The `i`-th command `help` lists, as text.
fn help_text(i: usize) -> (r: (&'static str, &'static str))
    requires
        i < help_count(),
    ensures
        (r.0.spec_bytes(), r.1.spec_bytes()) == help_entry(i as int),
{
    if i == 0 {
        ("help", "            show this help text\n")
    } else if i == 1 {
        ("clear", "           clear the screen\n")
    } else if i == 2 {
        ("echo", " <text>     print the given text back\n")
    } else if i == 3 {
        ("reboot", "          reset the machine\n")
    } else if i == 4 {
        ("shutdown", "        power off (QEMU/ACPI)\n")
    } else if i == 5 {
        ("mem", "             show the real physical memory map\n")
    } else if i == 6 {
        ("regs", "            show control registers and RFLAGS\n")
    } else if i == 7 {
        ("cpuid", "           show CPU vendor and features\n")
    } else if i == 8 {
        ("tsc", "             read the CPU timestamp counter (cycles)\n")
    } else if i == 9 {
        ("uptime", "          time since boot (from the timer interrupt)\n")
    } else if i == 10 {
        ("sleep", " <ticks>   wait n timer ticks (~18 ticks = 1 second)\n")
    } else if i == 11 {
        ("time", "            wall-clock time from the RTC (CMOS clock)\n")
    } else if i == 12 {
        ("colors", "          show the 16 VGA text colors\n")
    } else if i == 13 {
        ("gdt", "             show where the GDT lives\n")
    } else if i == 14 {
        ("idt", "             show where the IDT lives\n")
    } else if i == 15 {
        ("peek", " <hex> [n]  read n bytes from a memory address\n")
    } else if i == 16 {
        ("poke", " <hex> <b>  write a byte to a memory address\n")
    } else if i == 17 {
        ("inb", " <port>      read a byte from an I/O port\n")
    } else if i == 18 {
        ("outb", " <port> <b> write a byte to an I/O port\n")
    } else if i == 19 {
        ("int3", "            fire a breakpoint exception and recover\n")
    } else {
        ("panic", " [msg]     trigger a kernel panic (halts the CPU)\n")
    }
}

/// One line of the help text: two spaces, the command word, the rest.
pub open spec fn help_line(s: Screen, entry: (Seq<u8>, Seq<u8>)) -> Screen {
    s.put_str_bytes("  ".spec_bytes()).put_str_bytes(entry.0).put_str_bytes(entry.1)
}

/// The first `k` lines of the help text.
pub open spec fn help_lines(s: Screen, k: nat) -> Screen
    decreases k,
{
    if k == 0 {
        s
    } else {
        help_line(help_lines(s, (k - 1) as nat), help_entry(k - 1))
    }
}

/// The screen after the help text is printed.
pub open spec fn help_screen(s: Screen) -> Screen {
    help_lines(s.put_str_bytes("available commands:\n".spec_bytes()), help_count())
}

/// `help` lists exactly the commands there are: a word is the command word
/// of a help line if and only if the shell runs a command for it rather
/// than reporting it unknown.
pub proof fn lemma_help_lists_every_command(word: Seq<u8>, args: Seq<u8>)
    ensures
        (exists|i: int| 0 <= i < help_count() && #[trigger] help_entry(i).0 == word)
            <==> !(command_for(word, args) is Unknown),
{
    if word == "help".spec_bytes() {
        assert(help_entry(0).0 == word);
    } else if word == "clear".spec_bytes() {
        assert(help_entry(1).0 == word);
    } else if word == "echo".spec_bytes() {
        assert(help_entry(2).0 == word);
    } else if word == "reboot".spec_bytes() {
        assert(help_entry(3).0 == word);
    } else if word == "shutdown".spec_bytes() {
        assert(help_entry(4).0 == word);
    } else if word == "mem".spec_bytes() {
        assert(help_entry(5).0 == word);
    } else if word == "regs".spec_bytes() {
        assert(help_entry(6).0 == word);
    } else if word == "cpuid".spec_bytes() {
        assert(help_entry(7).0 == word);
    } else if word == "tsc".spec_bytes() {
        assert(help_entry(8).0 == word);
    } else if word == "uptime".spec_bytes() {
        assert(help_entry(9).0 == word);
    } else if word == "sleep".spec_bytes() {
        assert(help_entry(10).0 == word);
    } else if word == "time".spec_bytes() {
        assert(help_entry(11).0 == word);
    } else if word == "colors".spec_bytes() {
        assert(help_entry(12).0 == word);
    } else if word == "gdt".spec_bytes() {
        assert(help_entry(13).0 == word);
    } else if word == "idt".spec_bytes() {
        assert(help_entry(14).0 == word);
    } else if word == "peek".spec_bytes() {
        assert(help_entry(15).0 == word);
    } else if word == "poke".spec_bytes() {
        assert(help_entry(16).0 == word);
    } else if word == "inb".spec_bytes() {
        assert(help_entry(17).0 == word);
    } else if word == "outb".spec_bytes() {
        assert(help_entry(18).0 == word);
    } else if word == "int3".spec_bytes() {
        assert(help_entry(19).0 == word);
    } else if word == "panic".spec_bytes() {
        assert(help_entry(20).0 == word);
    } else {
        assert forall|i: int| 0 <= i < help_count() implies #[trigger] help_entry(i).0 != word by {
            assert(help_entry(0).0 == "help".spec_bytes());
            assert(help_entry(1).0 == "clear".spec_bytes());
            assert(help_entry(2).0 == "echo".spec_bytes());
            assert(help_entry(3).0 == "reboot".spec_bytes());
            assert(help_entry(4).0 == "shutdown".spec_bytes());
            assert(help_entry(5).0 == "mem".spec_bytes());
            assert(help_entry(6).0 == "regs".spec_bytes());
            assert(help_entry(7).0 == "cpuid".spec_bytes());
            assert(help_entry(8).0 == "tsc".spec_bytes());
            assert(help_entry(9).0 == "uptime".spec_bytes());
            assert(help_entry(10).0 == "sleep".spec_bytes());
            assert(help_entry(11).0 == "time".spec_bytes());
            assert(help_entry(12).0 == "colors".spec_bytes());
            assert(help_entry(13).0 == "gdt".spec_bytes());
            assert(help_entry(14).0 == "idt".spec_bytes());
            assert(help_entry(15).0 == "peek".spec_bytes());
            assert(help_entry(16).0 == "poke".spec_bytes());
            assert(help_entry(17).0 == "inb".spec_bytes());
            assert(help_entry(18).0 == "outb".spec_bytes());
            assert(help_entry(19).0 == "int3".spec_bytes());
            assert(help_entry(20).0 == "panic".spec_bytes());
        }
    }
}

/// The message of `panic [msg]`: the argument, or a fixed message when it
/// is empty.
pub open spec fn panic_text(args: Seq<u8>) -> Seq<u8> {
    if args.len() == 0 {
        "manual panic triggered from the shell".spec_bytes()
    } else {
        args
    }
}

/// The message of `panic [msg]`: the argument, or a fixed message when it
/// is empty.
pub fn panic_message(args: &Vec<u8>) -> (r: Vec<u8>)
    ensures
        r@ == panic_text(args@),
{
    if args.len() == 0 {
        vstd::string::StrSliceExecFns::as_bytes_vec("manual panic triggered from the shell")
    } else {
        args.clone()
    }
}

impl Shell {
    /// `help`: lists the commands.
    pub fn cmd_help(&self, writer: &mut Writer)
        requires
            old(writer)@.wf(),
        ensures
            final(writer)@ == help_screen(old(writer)@),
            final(writer)@.wf(),
    {
        writer.write_string("available commands:\n");
        let ghost s0 = writer@;
        let mut i: usize = 0;
        while i < 21
            invariant
                i <= help_count(),
                help_count() == 21,
                writer@ == help_lines(s0, i as nat),
                writer@.wf(),
            decreases 21 - i,
        {
            let (word, rest) = help_text(i);
            self.help_entry(writer, word, rest);
            i = i + 1;
        }
    }

    /// Prints one help line: two spaces, the command word, the rest.
    fn help_entry(&self, writer: &mut Writer, word: &str, rest: &str)
        requires
            old(writer)@.wf(),
        ensures
            final(writer)@ == help_line(old(writer)@, (word.spec_bytes(), rest.spec_bytes())),
            final(writer)@.wf(),
    {
        writer.write_string("  ");
        writer.write_string(word);
        writer.write_string(rest);
    }

    /// `echo <text>`: prints the text back on a line of its own.
    pub fn cmd_echo(&self, writer: &mut Writer, args: &Vec<u8>)
        requires
            old(writer)@.wf(),
        ensures
            final(writer)@ == old(writer)@.put_str_bytes(args@).put_str_bytes("\n".spec_bytes()),
            final(writer)@.wf(),
    {
        writer.write_str_bytes(args);
        writer.write_string("\n");
    }

    /// An unknown command word: says so and points at `help`.
    pub fn cmd_unknown(&self, writer: &mut Writer, word: &Vec<u8>)
        requires
            old(writer)@.wf(),
        ensures
            final(writer)@ == old(writer)@.put_str_bytes("unknown command: '".spec_bytes()).put_str_bytes(
                word@,
            ).put_str_bytes("'  (type 'help')\n".spec_bytes()),
            final(writer)@.wf(),
    {
        writer.write_string("unknown command: '");
        writer.write_str_bytes(word);
        writer.write_string("'  (type 'help')\n");
    }
}

// ---------------------------------------------------------------------------
// mem
// ---------------------------------------------------------------------------

/// The name the memory map uses for a region kind.
pub open spec fn region_kind_label(kind: RegionKind) -> Seq<u8> {
    match kind {
        RegionKind::Usable => "Usable".spec_bytes(),
        RegionKind::InUse => "InUse".spec_bytes(),
        RegionKind::Reserved => "Reserved".spec_bytes(),
        RegionKind::AcpiReclaimable => "AcpiReclaimable".spec_bytes(),
        RegionKind::AcpiNvs => "AcpiNvs".spec_bytes(),
        RegionKind::BadMemory => "BadMemory".spec_bytes(),
        RegionKind::Kernel => "Kernel".spec_bytes(),
        RegionKind::KernelStack => "KernelStack".spec_bytes(),
        RegionKind::PageTable => "PageTable".spec_bytes(),
        RegionKind::Bootloader => "Bootloader".spec_bytes(),
        RegionKind::FrameZero => "FrameZero".spec_bytes(),
        RegionKind::Empty => "Empty".spec_bytes(),
        RegionKind::BootInfo => "BootInfo".spec_bytes(),
        RegionKind::Package => "Package".spec_bytes(),
        RegionKind::NonExhaustive => "NonExhaustive".spec_bytes(),
    }
}

impl RegionKind {
    /// The kind's name.
    pub fn name(self) -> (r: &'static str)
        ensures
            r.spec_bytes() == region_kind_label(self),
    {
        match self {
            RegionKind::Usable => "Usable",
            RegionKind::InUse => "InUse",
            RegionKind::Reserved => "Reserved",
            RegionKind::AcpiReclaimable => "AcpiReclaimable",
            RegionKind::AcpiNvs => "AcpiNvs",
            RegionKind::BadMemory => "BadMemory",
            RegionKind::Kernel => "Kernel",
            RegionKind::KernelStack => "KernelStack",
            RegionKind::PageTable => "PageTable",
            RegionKind::Bootloader => "Bootloader",
            RegionKind::FrameZero => "FrameZero",
            RegionKind::Empty => "Empty",
            RegionKind::BootInfo => "BootInfo",
            RegionKind::Package => "Package",
            RegionKind::NonExhaustive => "NonExhaustive",
        }
    }
}

/// The total size of the usable regions, summed in order as `mem` does;
/// `None` when a usable region ends before it starts or a partial sum
/// exceeds 64 bits (where that arithmetic overflows).
pub open spec fn usable_total(regions: Seq<MemoryRegion>) -> Option<int>
    decreases regions.len(),
{
    if regions.len() == 0 {
        Some(0)
    } else {
        match usable_total(regions.drop_last()) {
            None => None,
            Some(t) => {
                let r = regions.last();
                if r.kind == RegionKind::Usable {
                    if r.end < r.start || t + (r.end - r.start) > u64::MAX {
                        None
                    } else {
                        Some(t + (r.end - r.start))
                    }
                } else {
                    Some(t)
                }
            },
        }
    }
}

proof fn lemma_usable_total_bounds(regions: Seq<MemoryRegion>)
    ensures
        usable_total(regions) matches Some(t) ==> 0 <= t <= u64::MAX,
    decreases regions.len(),
{
    if regions.len() > 0 {
        lemma_usable_total_bounds(regions.drop_last());
    }
}

/// The total size in bytes of the usable regions of `regions`, or `None`
/// where summing them overflows.
pub fn usable_bytes(regions: &Vec<MemoryRegion>) -> (r: Option<u64>)
    ensures
        r matches Some(v) ==> usable_total(regions@) == Some(v as int),
        r is None ==> usable_total(regions@) is None,
{
    let mut total: u64 = 0;
    let mut i: usize = 0;
    while i < regions.len()
        invariant
            i <= regions.len(),
            usable_total(regions@.take(i as int)) == Some(total as int),
        decreases regions.len() - i,
    {
        let r = regions[i];
        proof {
            assert(regions@.take(i + 1).drop_last() =~= regions@.take(i as int));
        }
        if r.kind == RegionKind::Usable {
            if r.end < r.start {
                proof {
                    lemma_usable_total_none_extends(regions@, i as int + 1);
                }
                return None;
            }
            match total.checked_add(r.end - r.start) {
                None => {
                    proof {
                        lemma_usable_total_none_extends(regions@, i as int + 1);
                    }
                    return None;
                },
                Some(t) => {
                    total = t;
                },
            }
        }
        i = i + 1;
    }
    assert(regions@.take(regions.len() as int) =~= regions@);
    Some(total)
}

/// Once the sum fails on a prefix it fails on the whole map.
proof fn lemma_usable_total_none_extends(regions: Seq<MemoryRegion>, k: int)
    requires
        0 <= k <= regions.len(),
        usable_total(regions.take(k)) is None,
    ensures
        usable_total(regions) is None,
    decreases regions.len() - k,
{
    if k < regions.len() {
        assert(regions.take(k + 1).drop_last() =~= regions.take(k));
        lemma_usable_total_none_extends(regions, k + 1);
    } else {
        assert(regions.take(k) =~= regions);
    }
}

/// The line `mem` prints for one region.
pub open spec fn region_line(s: Screen, r: MemoryRegion) -> Screen {
    s.put_str_bytes("  ".spec_bytes()).put_str_bytes(hex_alt_12(r.start as nat)).put_str_bytes(
        " - ".spec_bytes(),
    ).put_str_bytes(hex_alt_12(r.end as nat)).put_str_bytes("  ".spec_bytes()).put_str_bytes(
        region_kind_label(r.kind),
    ).put_str_bytes("\n".spec_bytes())
}

/// The lines `mem` prints for the regions, in order.
pub open spec fn region_lines(s: Screen, regions: Seq<MemoryRegion>) -> Screen
    decreases regions.len(),
{
    if regions.len() == 0 {
        s
    } else {
        region_line(region_lines(s, regions.drop_last()), regions.last())
    }
}

/// The screen after `mem` with the heading printed.
pub open spec fn mem_heading(s: Screen) -> Screen {
    s.put_str_bytes("physical memory map (from bootloader):\n".spec_bytes())
}

impl Shell {
    /// `mem`: prints each region of the memory map (start, end, kind) and the
    /// total usable RAM in KiB. The sum is taken as the regions are printed;
    /// where it overflows (`usable_total` is `None`) printing stops after the
    /// region at fault and `false` comes back, the point at which the
    /// arithmetic would overflow.
    pub fn cmd_mem(&self, writer: &mut Writer) -> (ok: bool)
        requires
            old(writer)@.wf(),
        ensures
            final(writer)@.wf(),
            ok == (usable_total(self.regions()) is Some),
            usable_total(self.regions()) matches Some(t) ==> final(writer)@ == region_lines(
                mem_heading(old(writer)@),
                self.regions(),
            ).put_str_bytes("  usable RAM: ".spec_bytes()).put_str_bytes(decimal((t / 1024) as nat))
                .put_str_bytes(" KiB\n".spec_bytes()),
            !ok ==> exists|k: int|
                0 <= k < self.regions().len() && #[trigger] usable_total(self.regions().take(k)) is Some
                    && usable_total(self.regions().take(k + 1)) is None && final(writer)@
                    == region_lines(mem_heading(old(writer)@), self.regions().take(k + 1)),
    {
        let regions = self.memory_map();
        writer.write_string("physical memory map (from bootloader):\n");
        let ghost start = writer@;
        let mut usable: u64 = 0;
        let mut i: usize = 0;
        while i < regions.len()
            invariant
                i <= regions.len(),
                regions@ == self.regions(),
                start == mem_heading(old(writer)@),
                usable_total(regions@.take(i as int)) == Some(usable as int),
                writer@ == region_lines(start, regions@.take(i as int)),
                writer@.wf(),
            decreases regions.len() - i,
        {
            let region = regions[i];
            proof {
                assert(regions@.take(i + 1).drop_last() =~= regions@.take(i as int));
            }
            writer.write_string("  ");
            writer.write_str_bytes(&format_hex_alt_12(region.start));
            writer.write_string(" - ");
            writer.write_str_bytes(&format_hex_alt_12(region.end));
            writer.write_string("  ");
            writer.write_string(region.kind.name());
            writer.write_string("\n");
            if region.kind == RegionKind::Usable {
                if region.end < region.start {
                    proof {
                        lemma_usable_total_none_extends(regions@, i as int + 1);
                    }
                    return false;
                }
                match usable.checked_add(region.end - region.start) {
                    None => {
                        proof {
                            lemma_usable_total_none_extends(regions@, i as int + 1);
                        }
                        return false;
                    },
                    Some(t) => {
                        usable = t;
                    },
                }
            }
            i = i + 1;
        }
        assert(regions@.take(regions.len() as int) =~= regions@);
        writer.write_string("  usable RAM: ");
        writer.write_str_bytes(&format_decimal(usable / 1024));
        writer.write_string(" KiB\n");
        true
    }
}

// ---------------------------------------------------------------------------
// cpuid
// ---------------------------------------------------------------------------

/// The four registers one `cpuid` leaf returns.
#[derive(Debug, Clone, Copy, PartialEq, Eq, Structural)]
pub struct CpuidRegisters {
    pub eax: u32,
    pub ebx: u32,
    pub ecx: u32,
    pub edx: u32,
}

/// The 12-byte vendor string of leaf 0: EBX, EDX, ECX, each little-endian.
pub open spec fn vendor_bytes_of(leaf0: CpuidRegisters) -> Seq<u8> {
    spec_u32_to_le_bytes(leaf0.ebx) + spec_u32_to_le_bytes(leaf0.edx) + spec_u32_to_le_bytes(
        leaf0.ecx,
    )
}

/// The 12-byte vendor string of leaf 0: EBX, EDX, ECX, each little-endian.
pub fn vendor_bytes(leaf0: &CpuidRegisters) -> (r: Vec<u8>)
    ensures
        r@ == vendor_bytes_of(*leaf0),
{
    let a = u32_to_le_bytes(leaf0.ebx);
    let b = u32_to_le_bytes(leaf0.edx);
    let c = u32_to_le_bytes(leaf0.ecx);
    crate::format::concat(crate::format::concat(a, &b), &c)
}

/// `core::str::from_utf8`: the bytes as a string when they are valid UTF-8,
/// `None` otherwise (the error is dropped).
#[verifier::external_body]
fn str_from_utf8(bytes: &Vec<u8>) -> (r: Option<&str>)
    ensures
        r is Some <==> valid_utf8(bytes@),
        r matches Some(s) ==> s.spec_bytes() == bytes@,
{
    core::str::from_utf8(bytes).ok()
}

/// What `cpuid` prints as the vendor: the bytes when they are valid UTF-8,
/// `?` otherwise.
pub open spec fn vendor_text(bytes: Seq<u8>) -> Seq<u8> {
    if valid_utf8(bytes) {
        bytes
    } else {
        "?".spec_bytes()
    }
}

/// Whether bit `n` of `value` is set, in words.
pub open spec fn bit_text(value: u32, n: u32) -> Seq<char> {
    if value & (1u32 << n) != 0 {
        "yes"@
    } else {
        "no"@
    }
}

/// `"yes"` when bit `n` of `value` is set, `"no"` otherwise.
pub fn bit(value: u32, n: u32) -> (r: &'static str)
    requires
        n < 32,
    ensures
        r@ == bit_text(value, n),
{
    if value & (1u32 << n) != 0 {
        "yes"
    } else {
        "no"
    }
}

/// One feature line of `cpuid`.
pub open spec fn feature_line(s: Screen, label: Seq<u8>, edx: u32, n: u32) -> Screen {
    s.put_str_bytes(label).put_str_bytes(
        if edx & (1u32 << n) != 0 {
            "yes".spec_bytes()
        } else {
            "no".spec_bytes()
        },
    ).put_str_bytes("\n".spec_bytes())
}

/// The screen after `cpuid` prints the vendor, the highest leaf and the
/// feature flags of leaf 1's EDX.
pub open spec fn cpuid_screen(s: Screen, leaf0: CpuidRegisters, leaf1: CpuidRegisters) -> Screen {
    let s1 = s.put_str_bytes("CPU vendor: ".spec_bytes()).put_str_bytes(
        vendor_text(vendor_bytes_of(leaf0)),
    ).put_str_bytes("\n".spec_bytes()).put_str_bytes("max cpuid leaf: ".spec_bytes()).put_str_bytes(
        decimal(leaf0.eax as nat),
    ).put_str_bytes("\n".spec_bytes()).put_str_bytes("features:\n".spec_bytes());
    let s2 = feature_line(s1, "  FPU   (x87 float)  : ".spec_bytes(), leaf1.edx, 0);
    let s3 = feature_line(s2, "  TSC   (timestamp)  : ".spec_bytes(), leaf1.edx, 4);
    let s4 = feature_line(s3, "  APIC  (local APIC) : ".spec_bytes(), leaf1.edx, 9);
    let s5 = feature_line(s4, "  SSE                : ".spec_bytes(), leaf1.edx, 25);
    feature_line(s5, "  SSE2               : ".spec_bytes(), leaf1.edx, 26)
}

impl Shell {
    /// Prints a feature line: the label, then whether the bit is set.
    fn print_feature(&self, writer: &mut Writer, label: &str, edx: u32, n: u32)
        requires
            old(writer)@.wf(),
            n < 32,
        ensures
            final(writer)@ == feature_line(old(writer)@, label.spec_bytes(), edx, n),
            final(writer)@.wf(),
    {
        writer.write_string(label);
        writer.write_string(bit(edx, n));
        writer.write_string("\n");
    }

    /// `cpuid`: prints the vendor string and highest leaf of leaf 0, and some
    /// feature flags of leaf 1's EDX, given the registers the two leaves
    /// returned.
    pub fn cmd_cpuid(&self, writer: &mut Writer, leaf0: CpuidRegisters, leaf1: CpuidRegisters)
        requires
            old(writer)@.wf(),
        ensures
            final(writer)@ == cpuid_screen(old(writer)@, leaf0, leaf1),
            final(writer)@.wf(),
    {
        let vendor = vendor_bytes(&leaf0);
        writer.write_string("CPU vendor: ");
        match str_from_utf8(&vendor) {
            Some(s) => writer.write_string(s),
            None => writer.write_string("?"),
        }
        writer.write_string("\n");
        writer.write_string("max cpuid leaf: ");
        writer.write_str_bytes(&format_decimal(leaf0.eax as u64));
        writer.write_string("\n");
        writer.write_string("features:\n");
        let edx = leaf1.edx;
        self.print_feature(writer, "  FPU   (x87 float)  : ", edx, 0);
        self.print_feature(writer, "  TSC   (timestamp)  : ", edx, 4);
        self.print_feature(writer, "  APIC  (local APIC) : ", edx, 9);
        self.print_feature(writer, "  SSE                : ", edx, 25);
        self.print_feature(writer, "  SSE2               : ", edx, 26);
    }
}


// ---------------------------------------------------------------------------
// tsc, uptime, sleep
// ---------------------------------------------------------------------------

/// The screen after `tsc` prints a timestamp-counter reading.
pub open spec fn tsc_screen(s: Screen, cycles: u64) -> Screen {
    s.put_str_bytes("timestamp counter: ".spec_bytes()).put_str_bytes(decimal(cycles as nat))
        .put_str_bytes(" cycles since CPU reset\n".spec_bytes()).put_str_bytes(
        "(run again \u{2014} value always increases)\n".spec_bytes(),
    )
}

/// Timer ticks as tenths of a second at 18.2 Hz.
pub open spec fn uptime_tenths(ticks: u64) -> int {
    (ticks * 10) / (TIMER_HZ_X10 as int)
}

/// The screen after `uptime` prints a tick count.
pub open spec fn uptime_screen(s: Screen, ticks: u64) -> Screen {
    s.put_str_bytes("uptime: ".spec_bytes()).put_str_bytes(decimal(ticks as nat)).put_str_bytes(
        " ticks  (~".spec_bytes(),
    ).put_str_bytes(decimal((uptime_tenths(ticks) / 10) as nat)).put_str_bytes(".".spec_bytes())
        .put_str_bytes(decimal((uptime_tenths(ticks) % 10) as nat)).put_str_bytes(
        " seconds at ~18.2 Hz)\n".spec_bytes(),
    )
}

impl Shell {
    /// `tsc`: prints the timestamp counter value `cycles`.
    pub fn cmd_tsc(&self, writer: &mut Writer, cycles: u64)
        requires
            old(writer)@.wf(),
        ensures
            final(writer)@ == tsc_screen(old(writer)@, cycles),
            final(writer)@.wf(),
    {
        writer.write_string("timestamp counter: ");
        writer.write_str_bytes(&format_decimal(cycles));
        writer.write_string(" cycles since CPU reset\n");
        writer.write_string("(run again \u{2014} value always increases)\n");
    }

    /// `uptime`: prints the tick count and the time it stands for, in
    /// seconds and tenths at 18.2 Hz. (Ten times the tick count must fit in
    /// 64 bits, where the computation overflows.)
    pub fn cmd_uptime(&self, writer: &mut Writer, ticks: u64)
        requires
            old(writer)@.wf(),
            ticks * 10 <= u64::MAX,
        ensures
            final(writer)@ == uptime_screen(old(writer)@, ticks),
            final(writer)@.wf(),
    {
        let tenths = ticks * 10 / TIMER_HZ_X10;
        writer.write_string("uptime: ");
        writer.write_str_bytes(&format_decimal(ticks));
        writer.write_string(" ticks  (~");
        writer.write_str_bytes(&format_decimal(tenths / 10));
        writer.write_string(".");
        writer.write_str_bytes(&format_decimal(tenths % 10));
        writer.write_string(" seconds at ~18.2 Hz)\n");
    }

    /// `sleep` with an argument that is not a number: prints the usage.
    pub fn cmd_sleep_usage(&self, writer: &mut Writer)
        requires
            old(writer)@.wf(),
        ensures
            final(writer)@ == old(writer)@.put_str_bytes(
                "usage: sleep <ticks> (~18 ticks = 1 second)\n".spec_bytes(),
            ),
            final(writer)@.wf(),
    {
        writer.write_string("usage: sleep <ticks> (~18 ticks = 1 second)\n");
    }

    /// `sleep`: announces the wait for `n` ticks (the caller then waits).
    pub fn cmd_sleep_start(&self, writer: &mut Writer, n: u64)
        requires
            old(writer)@.wf(),
        ensures
            final(writer)@ == old(writer)@.put_str_bytes("sleeping ".spec_bytes()).put_str_bytes(
                decimal(n as nat),
            ).put_str_bytes(" ticks...\n".spec_bytes()),
            final(writer)@.wf(),
    {
        writer.write_string("sleeping ");
        writer.write_str_bytes(&format_decimal(n));
        writer.write_string(" ticks...\n");
    }

    /// `sleep`: reports the ticks that passed while waiting.
    pub fn cmd_sleep_done(&self, writer: &mut Writer, elapsed: u64)
        requires
            old(writer)@.wf(),
        ensures
            final(writer)@ == old(writer)@.put_str_bytes("awake after ".spec_bytes()).put_str_bytes(
                decimal(elapsed as nat),
            ).put_str_bytes(" ticks\n".spec_bytes()),
            final(writer)@.wf(),
    {
        writer.write_string("awake after ");
        writer.write_str_bytes(&format_decimal(elapsed));
        writer.write_string(" ticks\n");
    }
}

// ---------------------------------------------------------------------------
// time
// ---------------------------------------------------------------------------

/// The CMOS real-time-clock registers `time` reads.
#[derive(Debug, Clone, Copy, PartialEq, Eq, Structural)]
pub struct RtcRegisters {
    pub second: u8,
    pub minute: u8,
    pub hour: u8,
    pub day: u8,
    pub month: u8,
    pub year: u8,
    /// Status register B: bit 2 set means binary (not BCD) values, bit 1 set
    /// means 24-hour mode.
    pub status_b: u8,
}

/// A decoded wall-clock time; `year` is the year within the century.
#[derive(Debug, Clone, Copy, PartialEq, Eq, Structural)]
pub struct RtcTime {
    pub year: u8,
    pub month: u8,
    pub day: u8,
    pub hour: u8,
    pub minute: u8,
    pub second: u8,
}

/// A register value in binary: BCD values (one decimal digit per nibble)
/// are converted, binary ones kept.
pub open spec fn from_bcd(v: u8, is_bcd: bool) -> u8 {
    if is_bcd {
        ((v / 16) * 10 + v % 16) as u8
    } else {
        v
    }
}

/// The time the RTC registers hold. The values are BCD unless bit 2 of
/// status register B is set. Unless bit 1 of it is set (24-hour mode), bit 7
/// of the hour register marks PM, and a PM hour other than 12 gains 12.
pub open spec fn rtc_time(r: RtcRegisters) -> RtcTime {
    let is_bcd = r.status_b & 4 == 0;
    let is_24h = r.status_b & 2 != 0;
    let pm = !is_24h && r.hour & 0x80 != 0;
    let h = from_bcd(r.hour & 0x7f, is_bcd);
    RtcTime {
        year: from_bcd(r.year, is_bcd),
        month: from_bcd(r.month, is_bcd),
        day: from_bcd(r.day, is_bcd),
        hour: if pm && h != 12 {
            (h + 12) as u8
        } else {
            h
        },
        minute: from_bcd(r.minute, is_bcd),
        second: from_bcd(r.second, is_bcd),
    }
}

/// A register value in binary (see `from_bcd`).
fn from_bcd_exec(v: u8, is_bcd: bool) -> (r: u8)
    ensures
        r == from_bcd(v, is_bcd),
        v <= 127 ==> r <= 127,
{
    if is_bcd {
        assert(v >> 4u8 == v / 16 && v & 0x0fu8 == v % 16) by (bit_vector);
        (v >> 4u8) * 10 + (v & 0x0fu8)
    } else {
        v
    }
}

/// Decodes the RTC registers into a wall-clock time.
pub fn decode_rtc(regs: RtcRegisters) -> (t: RtcTime)
    ensures
        t == rtc_time(regs),
{
    let is_bcd = regs.status_b & 0x04 == 0;
    let is_24h = regs.status_b & 0x02 != 0;
    let pm = !is_24h && (regs.hour & 0x80 != 0);
    let hour_raw = regs.hour;
    assert(hour_raw & 0x7fu8 <= 127) by (bit_vector);
    let mut hour = from_bcd_exec(regs.hour & 0x7f, is_bcd);
    if pm && hour != 12 {
        hour = hour + 12;
    }
    RtcTime {
        year: from_bcd_exec(regs.year, is_bcd),
        month: from_bcd_exec(regs.month, is_bcd),
        day: from_bcd_exec(regs.day, is_bcd),
        hour,
        minute: from_bcd_exec(regs.minute, is_bcd),
        second: from_bcd_exec(regs.second, is_bcd),
    }
}

/// `{:02}` of a byte.
pub open spec fn two_digits(v: u8) -> Seq<u8> {
    zero_padded(decimal(v as nat), 2)
}

/// The screen after `time` prints a decoded time.
pub open spec fn time_screen(s: Screen, t: RtcTime) -> Screen {
    s.put_str_bytes("RTC time (UTC): 20".spec_bytes()).put_str_bytes(two_digits(t.year))
        .put_str_bytes("-".spec_bytes()).put_str_bytes(two_digits(t.month)).put_str_bytes(
        "-".spec_bytes(),
    ).put_str_bytes(two_digits(t.day)).put_str_bytes(" ".spec_bytes()).put_str_bytes(
        two_digits(t.hour),
    ).put_str_bytes(":".spec_bytes()).put_str_bytes(two_digits(t.minute)).put_str_bytes(
        ":".spec_bytes(),
    ).put_str_bytes(two_digits(t.second)).put_str_bytes("\n".spec_bytes())
}

/// `{:02}` of a byte.
fn format_two_digits(v: u8) -> (r: Vec<u8>)
    ensures
        r@ == two_digits(v),
{
    zero_pad(format_decimal(v as u64), 2)
}

impl Shell {
    /// `time`: decodes the RTC registers and prints the date and time.
    pub fn cmd_time(&self, writer: &mut Writer, regs: RtcRegisters)
        requires
            old(writer)@.wf(),
        ensures
            final(writer)@ == time_screen(old(writer)@, rtc_time(regs)),
            final(writer)@.wf(),
    {
        let t = decode_rtc(regs);
        writer.write_string("RTC time (UTC): 20");
        writer.write_str_bytes(&format_two_digits(t.year));
        writer.write_string("-");
        writer.write_str_bytes(&format_two_digits(t.month));
        writer.write_string("-");
        writer.write_str_bytes(&format_two_digits(t.day));
        writer.write_string(" ");
        writer.write_str_bytes(&format_two_digits(t.hour));
        writer.write_string(":");
        writer.write_str_bytes(&format_two_digits(t.minute));
        writer.write_string(":");
        writer.write_str_bytes(&format_two_digits(t.second));
        writer.write_string("\n");
    }
}

// ---------------------------------------------------------------------------
// colors
// ---------------------------------------------------------------------------

/// The line `colors` prints for one colour: a swatch of four spaces in the
/// colour as background, the colour's name in the colour, and its number.
pub open spec fn color_line(s: Screen, c: Color) -> Screen {
    let s1 = s.put_str_bytes("  ".spec_bytes());
    let s2 = s1.with_color(color_code_of(Color::Black, c)).put_str_bytes("    ".spec_bytes())
        .with_color(s1.color);
    let s3 = s2.put_str_bytes(" ".spec_bytes());
    let s4 = s3.with_color(color_code_of(c, Color::Black)).put_str_bytes(color_name(c)).with_color(
        s3.color,
    );
    s4.put_str_bytes("  (code ".spec_bytes()).put_str_bytes(decimal(color_value(c) as nat))
        .put_str_bytes(")\n".spec_bytes())
}

/// The lines for the colours numbered below `n`, in order.
pub open spec fn color_lines(s: Screen, n: nat) -> Screen
    decreases n,
{
    if n == 0 {
        s
    } else {
        color_line(color_lines(s, (n - 1) as nat), color_with_value(n - 1))
    }
}

/// The screen after `colors`: a heading, then one line per colour, 0 to 15.
pub open spec fn colors_screen(s: Screen) -> Screen {
    color_lines(s.put_str_bytes("VGA text-mode palette (16 colors, 4-bit):\n".spec_bytes()), 16)
}

impl Shell {
    /// `colors`: shows the 16-colour palette.
    pub fn cmd_colors(&self, writer: &mut Writer)
        requires
            old(writer)@.wf(),
        ensures
            final(writer)@ == colors_screen(old(writer)@),
            final(writer)@.wf(),
    {
        writer.write_string("VGA text-mode palette (16 colors, 4-bit):\n");
        let ghost start = writer@;
        let mut n: u8 = 0;
        while n < 16
            invariant
                n <= 16,
                writer@ == color_lines(start, n as nat),
                writer@.wf(),
            decreases 16 - n,
        {
            let color = Color::from_code(n);
            writer.write_string("  ");
            print_colored(writer, "    ", Color::Black, color);
            writer.write_string(" ");
            print_colored(writer, color.name(), color, Color::Black);
            writer.write_string("  (code ");
            writer.write_str_bytes(&format_decimal(color.code() as u64));
            writer.write_string(")\n");
            n = n + 1;
        }
    }
}

// ---------------------------------------------------------------------------
// peek
// ---------------------------------------------------------------------------

/// One line of a `peek` dump: its first address and how many bytes it shows.
#[derive(Debug, Clone, Copy, PartialEq, Eq, Structural)]
pub struct PeekRow {
    pub base: u64,
    pub len: u64,
}

/// The lines of a `peek` dump of `count` bytes from `addr`: 16 bytes a line,
/// the last line holding the rest. (Every address read must fit in 64 bits,
/// where the address arithmetic overflows.)
pub fn peek_rows(addr: u64, count: u64) -> (r: Vec<PeekRow>)
    requires
        count == 0 || addr + (count - 1) <= u64::MAX,
    ensures
        r@.len() == (count + 15) / 16,
        forall|i: int|
            0 <= i < r@.len() ==> #[trigger] r@[i] == (PeekRow {
                base: (addr + 16 * i) as u64,
                len: (if count - 16 * i < 16 {
                    count - 16 * i
                } else {
                    16
                }) as u64,
            }),
{
    let rows = count / 16 + if count % 16 == 0 {
        0
    } else {
        1
    };
    let mut r: Vec<PeekRow> = Vec::new();
    let mut row: u64 = 0;
    while row < rows
        invariant
            rows == (count + 15) / 16,
            row <= rows,
            count == 0 || addr + (count - 1) <= u64::MAX,
            r@.len() == row,
            forall|i: int|
                0 <= i < row ==> #[trigger] r@[i] == (PeekRow {
                    base: (addr + 16 * i) as u64,
                    len: (if count - 16 * i < 16 {
                        count - 16 * i
                    } else {
                        16
                    }) as u64,
                }),
        decreases rows - row,
    {
        let base = addr + row * 16;
        let left = count - row * 16;
        let len = if left < 16 {
            left
        } else {
            16
        };
        r.push(PeekRow { base, len });
        row = row + 1;
    }
    r
}

impl Shell {
    /// `peek` with an address that is not hexadecimal: prints the usage.
    pub fn cmd_peek_usage(&self, writer: &mut Writer)
        requires
            old(writer)@.wf(),
        ensures
            final(writer)@ == old(writer)@.put_str_bytes(
                "usage: peek <hex-address> [count]   e.g. peek 0xb8000 32\n".spec_bytes(),
            ),
            final(writer)@.wf(),
    {
        writer.write_string("usage: peek <hex-address> [count]   e.g. peek 0xb8000 32\n");
    }

    /// `peek`: the heading naming the start address.
    pub fn cmd_peek_header(&self, writer: &mut Writer, addr: u64)
        requires
            old(writer)@.wf(),
        ensures
            final(writer)@ == old(writer)@.put_str_bytes("memory at ".spec_bytes()).put_str_bytes(
                hex_alt(addr as nat),
            ).put_str_bytes(":\n".spec_bytes()),
            final(writer)@.wf(),
    {
        writer.write_string("memory at ");
        writer.write_str_bytes(&format_hex_alt(addr));
        writer.write_string(":\n");
    }

    /// `peek`: the start of a dump line, its address.
    pub fn cmd_peek_row_start(&self, writer: &mut Writer, base: u64)
        requires
            old(writer)@.wf(),
        ensures
            final(writer)@ == old(writer)@.put_str_bytes("  ".spec_bytes()).put_str_bytes(
                hex_alt_12(base as nat),
            ).put_str_bytes(": ".spec_bytes()),
            final(writer)@.wf(),
    {
        writer.write_string("  ");
        writer.write_str_bytes(&format_hex_alt_12(base));
        writer.write_string(": ");
    }

    /// `peek`: one byte of a dump line, two hexadecimal digits and a space.
    pub fn cmd_peek_byte(&self, writer: &mut Writer, byte: u8)
        requires
            old(writer)@.wf(),
        ensures
            final(writer)@ == old(writer)@.put_str_bytes(zero_padded(hex(byte as nat), 2))
                .put_str_bytes(" ".spec_bytes()),
            final(writer)@.wf(),
    {
        writer.write_str_bytes(&zero_pad(format_hex(byte as u64), 2));
        writer.write_string(" ");
    }
}


/// BCD decoding reads each nibble as a decimal digit: the BCD form of any
/// number below 100 decodes back to it.
pub proof fn lemma_bcd_roundtrip(n: u8)
    requires
        n < 100,
    ensures
        from_bcd(((n / 10) * 16 + n % 10) as u8, true) == n,
{
    let v = ((n / 10) * 16 + n % 10) as u8;
    assert(v / 16 == n / 10 && v % 16 == n % 10);
}

/// In 12-hour mode an hour register with the PM bit set and hour `h`
/// between 1 and 11 decodes to `h + 12`; 12 PM stays 12.
pub proof fn lemma_pm_hour(r: RtcRegisters)
    requires
        r.status_b & 2 == 0,
        r.status_b & 4 != 0,
        r.hour & 0x80 != 0,
        1 <= r.hour & 0x7f <= 12,
    ensures
        rtc_time(r).hour == (if r.hour & 0x7f == 12 {
            12
        } else {
            (r.hour & 0x7f) + 12
        }),
{
}

/// A `peek` dump shows exactly the bytes asked for: every line but the last
/// holds 16 bytes, and the last ends at `addr + count`.
pub proof fn lemma_peek_rows_cover(count: u64)
    requires
        count > 0,
    ensures
        ({
            let k = (count + 15) / 16 - 1;
            &&& 16 * k < count
            &&& 16 * k + (if count - 16 * k < 16 {
                count - 16 * k
            } else {
                16
            }) == count
            &&& (k == 0 || count - 16 * (k - 1) > 16)
        }),
{
}


// ---------------------------------------------------------------------------
// peek (end of a line), sleep (waiting)
// ---------------------------------------------------------------------------

impl Shell {
    /// `peek`: the end of a dump line.
    pub fn cmd_peek_row_end(&self, writer: &mut Writer)
        requires
            old(writer)@.wf(),
        ensures
            final(writer)@ == old(writer)@.put_str_bytes("\n".spec_bytes()),
            final(writer)@.wf(),
    {
        writer.write_string("\n");
    }
}

/// Whether `sleep n`, begun at tick `start`, still waits at tick `now`: it
/// waits until the tick count reaches `start + n`. (`start + n` must fit in
/// 64 bits, where that sum overflows.)
pub fn sleep_keep_waiting(start: u64, n: u64, now: u64) -> (r: bool)
    requires
        start + n <= u64::MAX,
    ensures
        r == (now < start + n),
{
    now < start + n
}

// ---------------------------------------------------------------------------
// regs, gdt, idt
// ---------------------------------------------------------------------------

/// The control registers and flags `regs` shows.
#[derive(Debug, Clone, Copy, PartialEq, Eq, Structural)]
pub struct ControlRegisters {
    pub cr0: u64,
    pub cr2: u64,
    /// The physical address of the top-level page table.
    pub cr3: u64,
    pub cr4: u64,
    pub rflags: u64,
}

/// `{:#018x}`.
pub open spec fn hex_18(n: u64) -> Seq<u8> {
    hex_alt_padded(n as nat, 16)
}

/// The screen after `regs`: each register in `{:#018x}`, then whether the
/// interrupt flag (bit 9 of RFLAGS) is set.
pub open spec fn regs_screen(s: Screen, r: ControlRegisters) -> Screen {
    s.put_str_bytes("CPU registers:\n".spec_bytes()).put_str_bytes("  CR0    = ".spec_bytes())
        .put_str_bytes(hex_18(r.cr0)).put_str_bytes("\n".spec_bytes()).put_str_bytes(
        "  CR2    = ".spec_bytes(),
    ).put_str_bytes(hex_18(r.cr2)).put_str_bytes("\n".spec_bytes()).put_str_bytes(
        "  CR3    = ".spec_bytes(),
    ).put_str_bytes(hex_18(r.cr3)).put_str_bytes("  (page table root)\n".spec_bytes())
        .put_str_bytes("  CR4    = ".spec_bytes()).put_str_bytes(hex_18(r.cr4)).put_str_bytes(
        "\n".spec_bytes(),
    ).put_str_bytes("  RFLAGS = ".spec_bytes()).put_str_bytes(hex_18(r.rflags)).put_str_bytes(
        "\n".spec_bytes(),
    ).put_str_bytes("    interrupts: ".spec_bytes()).put_str_bytes(
        if r.rflags & 0x200 != 0 {
            "enabled".spec_bytes()
        } else {
            "disabled".spec_bytes()
        },
    ).put_str_bytes("\n".spec_bytes())
}

/// The screen after `gdt` or `idt` shows a descriptor-table register: the
/// table's base address and its limit (size - 1) in bytes.
pub open spec fn table_register_screen(s: Screen, base: u64, limit: u16) -> Screen {
    s.put_str_bytes("  base  = ".spec_bytes()).put_str_bytes(hex_18(base)).put_str_bytes(
        "\n".spec_bytes(),
    ).put_str_bytes("  limit = ".spec_bytes()).put_str_bytes(decimal(limit as nat)).put_str_bytes(
        " bytes\n".spec_bytes(),
    )
}

impl Shell {
    /// Prints a register line: the label, the value in `{:#018x}`, the tail.
    fn print_register(&self, writer: &mut Writer, label: &str, value: u64, tail: &str)
        requires
            old(writer)@.wf(),
        ensures
            final(writer)@ == old(writer)@.put_str_bytes(label.spec_bytes()).put_str_bytes(
                hex_18(value),
            ).put_str_bytes(tail.spec_bytes()),
            final(writer)@.wf(),
    {
        writer.write_string(label);
        writer.write_str_bytes(&format_hex_alt_padded(value, 16));
        writer.write_string(tail);
    }

    /// `regs`: shows the control registers and RFLAGS read by the caller,
    /// and whether interrupts are enabled.
    pub fn cmd_regs(&self, writer: &mut Writer, regs: ControlRegisters)
        requires
            old(writer)@.wf(),
        ensures
            final(writer)@ == regs_screen(old(writer)@, regs),
            final(writer)@.wf(),
    {
        writer.write_string("CPU registers:\n");
        self.print_register(writer, "  CR0    = ", regs.cr0, "\n");
        self.print_register(writer, "  CR2    = ", regs.cr2, "\n");
        self.print_register(writer, "  CR3    = ", regs.cr3, "  (page table root)\n");
        self.print_register(writer, "  CR4    = ", regs.cr4, "\n");
        self.print_register(writer, "  RFLAGS = ", regs.rflags, "\n");
        writer.write_string("    interrupts: ");
        if regs.rflags & 0x200 != 0 {
            writer.write_string("enabled");
        } else {
            writer.write_string("disabled");
        }
        writer.write_string("\n");
    }

    /// Prints a descriptor-table register (base and limit).
    fn print_table_register(&self, writer: &mut Writer, base: u64, limit: u16)
        requires
            old(writer)@.wf(),
        ensures
            final(writer)@ == table_register_screen(old(writer)@, base, limit),
            final(writer)@.wf(),
    {
        self.print_register(writer, "  base  = ", base, "\n");
        writer.write_string("  limit = ");
        writer.write_str_bytes(&format_decimal(limit as u64));
        writer.write_string(" bytes\n");
    }

    /// `gdt`: shows where the GDT lives, from the GDTR the caller read.
    pub fn cmd_gdt(&self, writer: &mut Writer, base: u64, limit: u16)
        requires
            old(writer)@.wf(),
        ensures
            final(writer)@ == table_register_screen(old(writer)@, base, limit),
            final(writer)@.wf(),
    {
        self.print_table_register(writer, base, limit);
    }

    /// `idt`: shows where the IDT lives, from the IDTR the caller read.
    pub fn cmd_idt(&self, writer: &mut Writer, base: u64, limit: u16)
        requires
            old(writer)@.wf(),
        ensures
            final(writer)@ == table_register_screen(old(writer)@, base, limit),
            final(writer)@.wf(),
    {
        self.print_table_register(writer, base, limit);
    }
}

// ---------------------------------------------------------------------------
// poke, inb, outb
// ---------------------------------------------------------------------------

impl Shell {
    /// `poke` with a missing or malformed argument: prints the usage.
    pub fn cmd_poke_usage(&self, writer: &mut Writer)
        requires
            old(writer)@.wf(),
        ensures
            final(writer)@ == old(writer)@.put_str_bytes(
                "usage: poke <hex-address> <hex-byte>   e.g. poke 0xb8000 0x41\n".spec_bytes(),
            ),
            final(writer)@.wf(),
    {
        writer.write_string("usage: poke <hex-address> <hex-byte>   e.g. poke 0xb8000 0x41\n");
    }

    /// `poke`: reports the byte written and where (the caller wrote it).
    pub fn cmd_poke_done(&self, writer: &mut Writer, addr: u64, value: u8)
        requires
            old(writer)@.wf(),
        ensures
            final(writer)@ == old(writer)@.put_str_bytes("wrote ".spec_bytes()).put_str_bytes(
                hex_alt_padded(value as nat, 2),
            ).put_str_bytes(" to ".spec_bytes()).put_str_bytes(hex_alt(addr as nat)).put_str_bytes(
                "\n".spec_bytes(),
            ),
            final(writer)@.wf(),
    {
        writer.write_string("wrote ");
        writer.write_str_bytes(&format_hex_alt_padded(value as u64, 2));
        writer.write_string(" to ");
        writer.write_str_bytes(&format_hex_alt(addr));
        writer.write_string("\n");
    }

    /// `inb` with a missing or malformed port: prints the usage.
    pub fn cmd_inb_usage(&self, writer: &mut Writer)
        requires
            old(writer)@.wf(),
        ensures
            final(writer)@ == old(writer)@.put_str_bytes(
                "usage: inb <hex-port>   e.g. inb 0x64\n".spec_bytes(),
            ),
            final(writer)@.wf(),
    {
        writer.write_string("usage: inb <hex-port>   e.g. inb 0x64\n");
    }

    /// `inb`: reports the byte the caller read from the port.
    pub fn cmd_inb(&self, writer: &mut Writer, port: u16, value: u8)
        requires
            old(writer)@.wf(),
        ensures
            final(writer)@ == old(writer)@.put_str_bytes("inb ".spec_bytes()).put_str_bytes(
                hex_alt(port as nat),
            ).put_str_bytes(" = ".spec_bytes()).put_str_bytes(hex_alt_padded(value as nat, 2))
                .put_str_bytes("\n".spec_bytes()),
            final(writer)@.wf(),
    {
        writer.write_string("inb ");
        writer.write_str_bytes(&format_hex_alt(port as u64));
        writer.write_string(" = ");
        writer.write_str_bytes(&format_hex_alt_padded(value as u64, 2));
        writer.write_string("\n");
    }

    /// `outb` with a missing or malformed argument: prints the usage.
    pub fn cmd_outb_usage(&self, writer: &mut Writer)
        requires
            old(writer)@.wf(),
        ensures
            final(writer)@ == old(writer)@.put_str_bytes(
                "usage: outb <hex-port> <hex-byte>   e.g. outb 0x80 0x00\n".spec_bytes(),
            ),
            final(writer)@.wf(),
    {
        writer.write_string("usage: outb <hex-port> <hex-byte>   e.g. outb 0x80 0x00\n");
    }
}


/// `uptime` prints the tick count, then a whole-seconds part `w` and a
/// tenths digit `d` with `w * 10 + d == ticks * 10 / 182`: together they
/// read as the tick count divided by 18.2 Hz, to one decimal. (2000 ticks
/// print `10.9`.)
pub proof fn lemma_uptime_reading(s: Screen, ticks: u64) -> (r: (nat, nat))
    ensures
        r.0 * 10 + r.1 == (ticks * 10) / 182,
        r.1 < 10,
        uptime_screen(s, ticks) == s.put_str_bytes("uptime: ".spec_bytes()).put_str_bytes(
            decimal(ticks as nat),
        ).put_str_bytes(" ticks  (~".spec_bytes()).put_str_bytes(decimal(r.0)).put_str_bytes(
            ".".spec_bytes(),
        ).put_str_bytes(decimal(r.1)).put_str_bytes(" seconds at ~18.2 Hz)\n".spec_bytes()),
{
    let t: int = (ticks * 10) / 182;
    assert(t >= 0) by (nonlinear_arith)
        requires
            ticks >= 0,
            t == (ticks * 10) / 182,
    ;
    let w = (t / 10) as nat;
    let d = (t % 10) as nat;
    assert(w * 10 + d == t);
    (w, d)
}

/// `yes` or `no` for a flag.
pub open spec fn yes_no(set: bool) -> Seq<u8> {
    if set {
        "yes".spec_bytes()
    } else {
        "no".spec_bytes()
    }
}

/// `cpuid` ends with five feature lines, each `yes` exactly when its bit of
/// leaf 1's EDX is set: FPU bit 0, TSC bit 4, APIC bit 9, SSE bit 25, SSE2
/// bit 26. What comes before them (`p`, the vendor and highest leaf) does not
/// depend on leaf 1.
pub proof fn lemma_cpuid_feature_bits(s: Screen, leaf0: CpuidRegisters, leaf1: CpuidRegisters) -> (p: Screen)
    ensures
        forall|other: CpuidRegisters| #[trigger]
            cpuid_screen(s, leaf0, other) == p.put_str_bytes(
                "  FPU   (x87 float)  : ".spec_bytes(),
            ).put_str_bytes(yes_no(other.edx & 0x1 != 0)).put_str_bytes("\n".spec_bytes())
                .put_str_bytes("  TSC   (timestamp)  : ".spec_bytes()).put_str_bytes(
                yes_no(other.edx & 0x10 != 0),
            ).put_str_bytes("\n".spec_bytes()).put_str_bytes("  APIC  (local APIC) : ".spec_bytes())
                .put_str_bytes(yes_no(other.edx & 0x200 != 0)).put_str_bytes("\n".spec_bytes())
                .put_str_bytes("  SSE                : ".spec_bytes()).put_str_bytes(
                yes_no(other.edx & 0x200_0000 != 0),
            ).put_str_bytes("\n".spec_bytes()).put_str_bytes("  SSE2               : ".spec_bytes())
                .put_str_bytes(yes_no(other.edx & 0x400_0000 != 0)).put_str_bytes(
                "\n".spec_bytes(),
            ),
{
    assert(1u32 << 0u32 == 0x1u32 && 1u32 << 4u32 == 0x10u32 && 1u32 << 9u32 == 0x200u32 && 1u32
        << 25u32 == 0x200_0000u32 && 1u32 << 26u32 == 0x400_0000u32) by (bit_vector);
    s.put_str_bytes("CPU vendor: ".spec_bytes()).put_str_bytes(vendor_text(vendor_bytes_of(leaf0)))
        .put_str_bytes("\n".spec_bytes()).put_str_bytes("max cpuid leaf: ".spec_bytes())
        .put_str_bytes(decimal(leaf0.eax as nat)).put_str_bytes("\n".spec_bytes()).put_str_bytes(
        "features:\n".spec_bytes(),
    )
}

/// The BCD form of a number below 100: tens digit in the high nibble, units
/// in the low one.
pub open spec fn bcd(n: int) -> int {
    (n / 10) * 16 + n % 10
}

/// In BCD mode (bit 2 of status register B clear) every field holding the
/// BCD form of a number below 100 decodes to that number, and in 24-hour
/// mode (bit 1 set) so does the hour.
pub proof fn lemma_bcd_fields(r: RtcRegisters, year: int, month: int, day: int, hour: int, minute: int, second: int)
    requires
        r.status_b & 4 == 0,
        r.status_b & 2 != 0,
        0 <= year < 100 && r.year == bcd(year),
        0 <= month < 100 && r.month == bcd(month),
        0 <= day < 100 && r.day == bcd(day),
        0 <= hour < 80 && r.hour == bcd(hour),
        0 <= minute < 100 && r.minute == bcd(minute),
        0 <= second < 100 && r.second == bcd(second),
    ensures
        rtc_time(r).year == year,
        rtc_time(r).month == month,
        rtc_time(r).day == day,
        rtc_time(r).hour == hour,
        rtc_time(r).minute == minute,
        rtc_time(r).second == second,
{
    lemma_bcd_roundtrip(year as u8);
    lemma_bcd_roundtrip(month as u8);
    lemma_bcd_roundtrip(day as u8);
    lemma_bcd_roundtrip(minute as u8);
    lemma_bcd_roundtrip(second as u8);
    lemma_bcd_roundtrip(hour as u8);
    let v = r.hour;
    assert(v < 0x80u8 ==> v & 0x7fu8 == v) by (bit_vector);
}

/// In 12-hour BCD mode (bits 1 and 2 of status register B clear) an hour
/// register holding the PM bit and the BCD form of an hour `h` from 1 to 11
/// decodes to `h + 12`, and 12 PM decodes to 12: the PM bit is taken off
/// before the BCD digits are read.
pub proof fn lemma_pm_hour_bcd(r: RtcRegisters, h: int)
    requires
        r.status_b & 2 == 0,
        r.status_b & 4 == 0,
        1 <= h <= 12,
        r.hour == 0x80 + bcd(h),
    ensures
        rtc_time(r).hour == (if h == 12 {
            12
        } else {
            h + 12
        }),
{
    let b = bcd(h) as u8;
    lemma_bcd_roundtrip(h as u8);
    assert(b < 0x80u8 ==> (0x80u8 + b) as u8 & 0x7fu8 == b && (0x80u8 + b) as u8 & 0x80u8 != 0) by (bit_vector);
}

} // verus!

# kernel_shell

The verified core of a small bare-metal x86-64 kernel shell: a VGA text
console, a keyboard line discipline with command parsing, and the built-in
commands' computations and output, with their behaviour stated in contracts
and proved.

Layout:

- `src/vga_buffer.rs` — the 80x25 VGA text console (`Writer`) and its
  abstract screen model (`Screen`): writing, scrolling, Backspace, clearing,
  colours.
- `src/command.rs` — parsing a finished command line into a `Command`, and
  the numeric argument parsing of `sleep` and `peek`.
- `src/shell.rs` — the `Shell`: line editing on each decoded character,
  scancode decoding, banner and prompt.
- `src/commands.rs` — what each built-in command prints, given the values the
  hardware reported (`mem`, `cpuid`, `tsc`, `uptime`, `sleep`, `time`,
  `colors`, `peek`, `help`, `echo`).
- `src/format.rs` — decimal and hexadecimal text of numbers.
- `src/interrupts.rs` — loading the IDT and the scancode ring buffer.
- `src/keyboard.rs` — the `pc_keyboard` decoder the shell drives.
- `app/` — the kernel around it: boot entry, GDT/TSS, interrupt handlers,
  the PIC, the global console mirrored into VGA memory, and the hardware
  side of each command.
- `tests/` — tests of the library on concrete inputs.

//! Parsing a completed command line into a command, and the argument parsing
//! of the commands that take arguments.
//!
//! A command line holds printable ASCII only (the line discipline admits
//! nothing else), so the only whitespace in it is the space byte `0x20`.

use vstd::prelude::*;
use vstd::string::StrSliceExecFns;
use vstd::string::StringSliceAdditionalSpecFns;
use crate::format::{decimal, hex, hex_digit};

verus! {

/// The space byte, the one whitespace character a command line can hold.
pub const SPACE: u8 = 0x20;

/// A byte of printable ASCII (`' '` to `'~'`).
pub open spec fn is_printable(b: u8) -> bool {
    0x20 <= b && b <= 0x7e
}

/// Every byte of `s` is printable ASCII.
pub open spec fn printable_line(s: Seq<u8>) -> bool {
    forall|i: int| 0 <= i < s.len() ==> is_printable(#[trigger] s[i])
}

/// The index of the first non-space byte of `s` at or after `i` (or the
/// length of `s`).
pub open spec fn skip_spaces(s: Seq<u8>, i: int) -> int
    recommends
        0 <= i <= s.len(),
    decreases s.len() - i,
{
    if i >= s.len() || i < 0 {
        s.len() as int
    } else if s[i] == SPACE {
        skip_spaces(s, i + 1)
    } else {
        i
    }
}

/// The index of the first space byte of `s` at or after `i` (or the length
/// of `s`).
pub open spec fn word_end_from(s: Seq<u8>, i: int) -> int
    recommends
        0 <= i <= s.len(),
    decreases s.len() - i,
{
    if i >= s.len() || i < 0 {
        s.len() as int
    } else if s[i] == SPACE {
        i
    } else {
        word_end_from(s, i + 1)
    }
}

/// The length of the first `j` bytes of `s` without their trailing spaces.
pub open spec fn trim_end_len(s: Seq<u8>, j: int) -> int
    recommends
        0 <= j <= s.len(),
    decreases j,
{
    if j <= 0 {
        0
    } else if s[j - 1] == SPACE {
        trim_end_len(s, j - 1)
    } else {
        j
    }
}

/// `s` without its leading spaces.
pub open spec fn trim_start(s: Seq<u8>) -> Seq<u8> {
    s.skip(skip_spaces(s, 0))
}

/// `s` without its leading and trailing spaces.
pub open spec fn trim(s: Seq<u8>) -> Seq<u8> {
    trim_start(s.take(trim_end_len(s, s.len() as int)))
}

/// The value of a digit character in any radix up to 36: `0`-`9`, then the
/// letters in either case; 36 for any other byte.
pub open spec fn digit_of(b: u8) -> int {
    if 48 <= b && b <= 57 {
        b - 48
    } else if 97 <= b && b <= 122 {
        b - 87
    } else if 65 <= b && b <= 90 {
        b - 55
    } else {
        36
    }
}

/// Every byte of `s` is a digit of `radix`.
pub open spec fn all_digits(s: Seq<u8>, radix: int) -> bool {
    forall|i: int| 0 <= i < s.len() ==> digit_of(#[trigger] s[i]) < radix
}

/// The number that the digits `s` denote in `radix`, most significant first.
pub open spec fn digits_value(s: Seq<u8>, radix: int) -> int
    decreases s.len(),
{
    if s.len() == 0 {
        0
    } else {
        digits_value(s.drop_last(), radix) * radix + digit_of(s.last())
    }
}

/// Parsing an unsigned 64-bit number as `u64::from_str_radix` does: an
/// optional `+`, then at least one digit of `radix`, and a value that fits
/// in 64 bits.
pub open spec fn parse_unsigned(s: Seq<u8>, radix: int) -> Option<u64> {
    let d = if s.len() > 0 && s[0] == 43 {
        s.drop_first()
    } else {
        s
    };
    if d.len() > 0 && all_digits(d, radix) && digits_value(d, radix) <= u64::MAX {
        Some(digits_value(d, radix) as u64)
    } else {
        None
    }
}

/// The most ticks the `sleep` command waits.
pub const MAX_SLEEP_TICKS: u64 = 100_000;

/// The number of ticks `sleep <args>` waits, or `None` (the usage message)
/// when the trimmed argument is not a decimal `u64`.
pub open spec fn sleep_ticks(args: Seq<u8>) -> Option<u64> {
    match parse_unsigned(trim(args), 10) {
        Some(n) => Some(if n < MAX_SLEEP_TICKS { n } else { MAX_SLEEP_TICKS }),
        None => None,
    }
}

/// The bytes a `peek` reads when no count is given.
pub const PEEK_DEFAULT_COUNT: u64 = 16;

/// The most bytes a `peek` reads.
pub const PEEK_MAX_COUNT: u64 = 256;

/// What `peek <hex-address> [count]` asks to read.
#[derive(Debug, Clone, Copy, PartialEq, Eq, Structural)]
pub struct PeekRequest {
    pub addr: u64,
    pub count: u64,
}

/// The first space-separated token of `s`, and the index just after it.
pub open spec fn first_token(s: Seq<u8>) -> (Seq<u8>, int) {
    let a = skip_spaces(s, 0);
    let b = word_end_from(s, a);
    (s.subrange(a, b), b)
}

/// The second space-separated token of `s` (empty if there is none).
pub open spec fn second_token(s: Seq<u8>) -> Seq<u8> {
    let rest = s.skip(first_token(s).1);
    first_token(rest).0
}

/// `t` without a leading `0x`.
pub open spec fn strip_hex_prefix(t: Seq<u8>) -> Seq<u8> {
    if t.len() >= 2 && t[0] == 48 && t[1] == 120 {
        t.skip(2)
    } else {
        t
    }
}

/// The request `peek <args>` makes: the first token, without a leading `0x`,
/// is the hexadecimal address (`None`, the usage message, when it is not
/// one); the second token is the decimal count, 16 when it is missing or not
/// a number, and at most 256.
pub open spec fn peek_request(args: Seq<u8>) -> Option<PeekRequest> {
    match parse_unsigned(strip_hex_prefix(first_token(args).0), 16) {
        None => None,
        Some(addr) => {
            let n = match parse_unsigned(second_token(args), 10) {
                Some(n) => n,
                None => PEEK_DEFAULT_COUNT,
            };
            Some(PeekRequest { addr, count: if n < PEEK_MAX_COUNT { n } else { PEEK_MAX_COUNT } })
        },
    }
}

/// `parse_unsigned`, for a type whose largest value is `max`: numbers above
/// it are refused, as `from_str_radix` of a narrower type refuses them.
pub open spec fn parse_bounded(s: Seq<u8>, radix: int, max: int) -> Option<u64> {
    match parse_unsigned(s, radix) {
        Some(v) => if v <= max {
            Some(v)
        } else {
            None
        },
        None => None,
    }
}

/// What `poke <hex-address> <hex-byte>` asks to write.
#[derive(Debug, Clone, Copy, PartialEq, Eq, Structural)]
pub struct PokeRequest {
    pub addr: u64,
    pub value: u8,
}

/// What `outb <hex-port> <hex-byte>` asks to write.
#[derive(Debug, Clone, Copy, PartialEq, Eq, Structural)]
pub struct OutbRequest {
    pub port: u16,
    pub value: u8,
}

/// The request `poke <args>` makes: the first token is the hexadecimal
/// address and the second the hexadecimal byte, each with an optional `0x`;
/// `None` (the usage message) when either is missing or not a number that
/// fits.
pub open spec fn poke_request(args: Seq<u8>) -> Option<PokeRequest> {
    match (
        parse_bounded(strip_hex_prefix(first_token(args).0), 16, u64::MAX as int),
        parse_bounded(strip_hex_prefix(second_token(args)), 16, 0xff),
    ) {
        (Some(addr), Some(v)) => Some(PokeRequest { addr, value: v as u8 }),
        _ => None,
    }
}

/// The port `inb <args>` reads: the first token, a hexadecimal number with
/// an optional `0x` that fits in 16 bits; `None` (the usage message)
/// otherwise.
pub open spec fn inb_port(args: Seq<u8>) -> Option<u16> {
    match parse_bounded(strip_hex_prefix(first_token(args).0), 16, 0xffff) {
        Some(p) => Some(p as u16),
        None => None,
    }
}

/// The request `outb <args>` makes: the first token is the hexadecimal port
/// (16 bits) and the second the hexadecimal byte, each with an optional
/// `0x`; `None` (the usage message) when either is missing or does not fit.
pub open spec fn outb_request(args: Seq<u8>) -> Option<OutbRequest> {
    match (
        parse_bounded(strip_hex_prefix(first_token(args).0), 16, 0xffff),
        parse_bounded(strip_hex_prefix(second_token(args)), 16, 0xff),
    ) {
        (Some(p), Some(v)) => Some(OutbRequest { port: p as u16, value: v as u8 }),
        _ => None,
    }
}

/// A parsed command line.
#[derive(Debug, Clone, PartialEq, Eq)]
pub enum Command {
    /// A blank line: nothing to run.
    Empty,
    Help,
    Clear,
    /// `echo <text>`: the text to print back.
    Echo(Vec<u8>),
    Reboot,
    Shutdown,
    Mem,
    Cpuid,
    Tsc,
    Uptime,
    /// `sleep <ticks>`: the ticks to wait, or `None` for the usage message.
    Sleep(Option<u64>),
    Time,
    Colors,
    /// `peek <hex-address> [count]`, or `None` for the usage message.
    Peek(Option<PeekRequest>),
    Int3,
    /// `panic [msg]`: the message argument (possibly empty).
    Panic(Vec<u8>),
    Regs,
    Gdt,
    Idt,
    /// `poke <hex-address> <hex-byte>`, or `None` for the usage message.
    Poke(Option<PokeRequest>),
    /// `inb <hex-port>`, or `None` for the usage message.
    Inb(Option<u16>),
    /// `outb <hex-port> <hex-byte>`, or `None` for the usage message.
    Outb(Option<OutbRequest>),
    /// Any other command word.
    Unknown(Vec<u8>),
}

/// The abstract value of a command.
pub enum CommandSpec {
    Empty,
    Help,
    Clear,
    Echo(Seq<u8>),
    Reboot,
    Shutdown,
    Mem,
    Cpuid,
    Tsc,
    Uptime,
    Sleep(Option<u64>),
    Time,
    Colors,
    Peek(Option<PeekRequest>),
    Int3,
    Panic(Seq<u8>),
    Regs,
    Gdt,
    Idt,
    Poke(Option<PokeRequest>),
    Inb(Option<u16>),
    Outb(Option<OutbRequest>),
    Unknown(Seq<u8>),
}

impl View for Command {
    type V = CommandSpec;

    open spec fn view(&self) -> CommandSpec {
        match self {
            Command::Empty => CommandSpec::Empty,
            Command::Help => CommandSpec::Help,
            Command::Clear => CommandSpec::Clear,
            Command::Echo(t) => CommandSpec::Echo(t@),
            Command::Reboot => CommandSpec::Reboot,
            Command::Shutdown => CommandSpec::Shutdown,
            Command::Mem => CommandSpec::Mem,
            Command::Cpuid => CommandSpec::Cpuid,
            Command::Tsc => CommandSpec::Tsc,
            Command::Uptime => CommandSpec::Uptime,
            Command::Sleep(n) => CommandSpec::Sleep(*n),
            Command::Time => CommandSpec::Time,
            Command::Colors => CommandSpec::Colors,
            Command::Peek(p) => CommandSpec::Peek(*p),
            Command::Int3 => CommandSpec::Int3,
            Command::Panic(m) => CommandSpec::Panic(m@),
            Command::Regs => CommandSpec::Regs,
            Command::Gdt => CommandSpec::Gdt,
            Command::Idt => CommandSpec::Idt,
            Command::Poke(p) => CommandSpec::Poke(*p),
            Command::Inb(p) => CommandSpec::Inb(*p),
            Command::Outb(o) => CommandSpec::Outb(*o),
            Command::Unknown(w) => CommandSpec::Unknown(w@),
        }
    }
}

/// The command that the word `word` names, with its argument string `args`.
pub open spec fn command_for(word: Seq<u8>, args: Seq<u8>) -> CommandSpec {
    if word == "help".spec_bytes() {
        CommandSpec::Help
    } else if word == "clear".spec_bytes() {
        CommandSpec::Clear
    } else if word == "echo".spec_bytes() {
        CommandSpec::Echo(args)
    } else if word == "reboot".spec_bytes() {
        CommandSpec::Reboot
    } else if word == "shutdown".spec_bytes() {
        CommandSpec::Shutdown
    } else if word == "mem".spec_bytes() {
        CommandSpec::Mem
    } else if word == "cpuid".spec_bytes() {
        CommandSpec::Cpuid
    } else if word == "tsc".spec_bytes() {
        CommandSpec::Tsc
    } else if word == "uptime".spec_bytes() {
        CommandSpec::Uptime
    } else if word == "sleep".spec_bytes() {
        CommandSpec::Sleep(sleep_ticks(args))
    } else if word == "time".spec_bytes() {
        CommandSpec::Time
    } else if word == "colors".spec_bytes() {
        CommandSpec::Colors
    } else if word == "peek".spec_bytes() {
        CommandSpec::Peek(peek_request(args))
    } else if word == "int3".spec_bytes() {
        CommandSpec::Int3
    } else if word == "panic".spec_bytes() {
        CommandSpec::Panic(args)
    } else if word == "regs".spec_bytes() {
        CommandSpec::Regs
    } else if word == "gdt".spec_bytes() {
        CommandSpec::Gdt
    } else if word == "idt".spec_bytes() {
        CommandSpec::Idt
    } else if word == "poke".spec_bytes() {
        CommandSpec::Poke(poke_request(args))
    } else if word == "inb".spec_bytes() {
        CommandSpec::Inb(inb_port(args))
    } else if word == "outb".spec_bytes() {
        CommandSpec::Outb(outb_request(args))
    } else {
        CommandSpec::Unknown(word)
    }
}

/// The command a line holds: the line is trimmed; a blank line is no
/// command; otherwise the text up to the first space names the command and
/// the rest, without leading spaces, is its argument string.
pub open spec fn parse_line(line: Seq<u8>) -> CommandSpec {
    let input = trim(line);
    if input.len() == 0 {
        CommandSpec::Empty
    } else {
        let w = word_end_from(input, 0);
        command_for(input.take(w), trim_start(input.skip(w)))
    }
}

proof fn lemma_skip_spaces_bounds(s: Seq<u8>, i: int)
    requires
        0 <= i <= s.len(),
    ensures
        i <= skip_spaces(s, i) <= s.len(),
        forall|k: int| i <= k < skip_spaces(s, i) ==> s[k] == SPACE,
        skip_spaces(s, i) < s.len() ==> s[skip_spaces(s, i)] != SPACE,
    decreases s.len() - i,
{
    if i < s.len() && s[i] == SPACE {
        lemma_skip_spaces_bounds(s, i + 1);
    }
}

proof fn lemma_word_end_bounds(s: Seq<u8>, i: int)
    requires
        0 <= i <= s.len(),
    ensures
        i <= word_end_from(s, i) <= s.len(),
        forall|k: int| i <= k < word_end_from(s, i) ==> s[k] != SPACE,
        word_end_from(s, i) < s.len() ==> s[word_end_from(s, i)] == SPACE,
    decreases s.len() - i,
{
    if i < s.len() && s[i] != SPACE {
        lemma_word_end_bounds(s, i + 1);
    }
}

proof fn lemma_trim_end_bounds(s: Seq<u8>, j: int)
    requires
        0 <= j <= s.len(),
    ensures
        0 <= trim_end_len(s, j) <= j,
        trim_end_len(s, j) > 0 ==> s[trim_end_len(s, j) - 1] != SPACE,
    decreases j,
{
    if j > 0 && s[j - 1] == SPACE {
        lemma_trim_end_bounds(s, j - 1);
    }
}

/// `v[a..b]` as a new vector.
fn copy_range(v: &Vec<u8>, a: usize, b: usize) -> (r: Vec<u8>)
    requires
        a <= b <= v.len(),
    ensures
        r@ == v@.subrange(a as int, b as int),
{
    let mut r: Vec<u8> = Vec::new();
    let mut i: usize = a;
    while i < b
        invariant
            a <= i <= b <= v.len(),
            r@ == v@.subrange(a as int, i as int),
        decreases b - i,
    {
        r.push(v[i]);
        i = i + 1;
        assert(r@ =~= v@.subrange(a as int, i as int));
    }
    r
}

/// The index of the first non-space byte of `v` at or after `i`.
fn skip_spaces_exec(v: &Vec<u8>, i: usize) -> (r: usize)
    requires
        i <= v.len(),
    ensures
        r == skip_spaces(v@, i as int),
{
    let mut k: usize = i;
    while k < v.len() && v[k] == SPACE
        invariant
            i <= k <= v.len(),
            skip_spaces(v@, k as int) == skip_spaces(v@, i as int),
        decreases v.len() - k,
    {
        k = k + 1;
    }
    k
}

/// The index of the first space byte of `v` at or after `i`.
fn word_end_exec(v: &Vec<u8>, i: usize) -> (r: usize)
    requires
        i <= v.len(),
    ensures
        r == word_end_from(v@, i as int),
{
    let mut k: usize = i;
    while k < v.len() && v[k] != SPACE
        invariant
            i <= k <= v.len(),
            word_end_from(v@, k as int) == word_end_from(v@, i as int),
        decreases v.len() - k,
    {
        k = k + 1;
    }
    k
}

/// What is left of a printable line after dropping its first `k` bytes is
/// printable.
proof fn lemma_skip_printable(s: Seq<u8>, k: int)
    requires
        printable_line(s),
        0 <= k <= s.len(),
    ensures
        printable_line(s.skip(k)),
{
    assert forall|i: int| 0 <= i < s.skip(k).len() implies is_printable(#[trigger] s.skip(k)[i]) by {
        assert(s.skip(k)[i] == s[k + i]);
    }
}

/// A trimmed printable line is printable.
proof fn lemma_trim_printable(s: Seq<u8>)
    requires
        printable_line(s),
    ensures
        printable_line(trim(s)),
{
    lemma_trim_end_bounds(s, s.len() as int);
    let t = s.take(trim_end_len(s, s.len() as int));
    assert forall|i: int| 0 <= i < t.len() implies is_printable(#[trigger] t[i]) by {
        assert(t[i] == s[i]);
    }
    lemma_skip_spaces_bounds(t, 0);
    lemma_skip_printable(t, skip_spaces(t, 0));
}

/// `v` without its leading spaces.
pub fn trim_start_exec(v: &Vec<u8>) -> (r: Vec<u8>)
    ensures
        r@ == trim_start(v@),
{
    let a = skip_spaces_exec(v, 0);
    proof {
        lemma_skip_spaces_bounds(v@, 0);
    }
    let r = copy_range(v, a, v.len());
    assert(r@ =~= trim_start(v@));
    r
}

/// `v` without its leading and trailing spaces.
pub fn trim_exec(v: &Vec<u8>) -> (r: Vec<u8>)
    ensures
        r@ == trim(v@),
{
    let mut j: usize = v.len();
    while j > 0 && v[j - 1] == SPACE
        invariant
            j <= v.len(),
            trim_end_len(v@, j as int) == trim_end_len(v@, v.len() as int),
        decreases j,
    {
        j = j - 1;
    }
    let head = copy_range(v, 0, j);
    assert(head@ =~= v@.take(j as int));
    trim_start_exec(&head)
}

/// Whether `v` holds exactly the bytes of `word`.
fn bytes_equal(v: &Vec<u8>, word: &Vec<u8>) -> (r: bool)
    ensures
        r == (v@ == word@),
{
    if v.len() != word.len() {
        return false;
    }
    let mut i: usize = 0;
    while i < v.len()
        invariant
            v.len() == word.len(),
            i <= v.len(),
            forall|k: int| 0 <= k < i ==> v@[k] == word@[k],
        decreases v.len() - i,
    {
        if v[i] != word[i] {
            return false;
        }
        i = i + 1;
    }
    assert(v@ =~= word@);
    true
}

/// Whether `v` spells the command word `word`.
fn is_word(v: &Vec<u8>, word: &str) -> (r: bool)
    ensures
        r == (v@ == word.spec_bytes()),
{
    let w = word.as_bytes_vec();
    bytes_equal(v, &w)
}

proof fn lemma_digits_value_nonneg(s: Seq<u8>, radix: int)
    requires
        all_digits(s, radix),
        radix >= 1,
    ensures
        digits_value(s, radix) >= 0,
    decreases s.len(),
{
    if s.len() > 0 {
        lemma_digits_value_nonneg(s.drop_last(), radix);
        assert(digits_value(s.drop_last(), radix) * radix >= 0) by (nonlinear_arith)
            requires
                digits_value(s.drop_last(), radix) >= 0,
                radix >= 1,
        ;
        assert(digit_of(s.last()) >= 0);
    }
}

/// A prefix of a digit string never denotes more than the whole string.
proof fn lemma_digits_value_prefix(s: Seq<u8>, k: int, radix: int)
    requires
        all_digits(s, radix),
        radix >= 1,
        0 <= k <= s.len(),
    ensures
        digits_value(s.take(k), radix) <= digits_value(s, radix),
    decreases s.len(),
{
    if k < s.len() {
        let p = s.drop_last();
        assert(s.take(k) =~= p.take(k));
        lemma_digits_value_prefix(p, k, radix);
        lemma_digits_value_nonneg(p, radix);
        assert(digit_of(s.last()) >= 0);
        assert(digits_value(p, radix) <= digits_value(p, radix) * radix) by (nonlinear_arith)
            requires
                digits_value(p, radix) >= 0,
                radix >= 1,
        ;
    } else {
        assert(s.take(k) =~= s);
    }
}

/// The value of a digit character (36 for a non-digit).
fn digit_exec(b: u8) -> (r: u32)
    ensures
        r == digit_of(b),
{
    if 48 <= b && b <= 57 {
        (b - 48) as u32
    } else if 97 <= b && b <= 122 {
        (b - 87) as u32
    } else if 65 <= b && b <= 90 {
        (b - 55) as u32
    } else {
        36
    }
}

/// Parses `s` as an unsigned number in `radix` (10 or 16), as
/// `u64::from_str_radix` does.
pub fn parse_unsigned_exec(s: &Vec<u8>, radix: u32) -> (r: Option<u64>)
    requires
        radix == 10 || radix == 16,
    ensures
        r == parse_unsigned(s@, radix as int),
{
    let start: usize = if s.len() > 0 && s[0] == 43 {
        1
    } else {
        0
    };
    let ghost d = if s@.len() > 0 && s@[0] == 43 {
        s@.drop_first()
    } else {
        s@
    };
    assert(d =~= s@.skip(start as int));
    if start >= s.len() {
        return None;
    }
    let mut value: u64 = 0;
    let mut i: usize = start;
    while i < s.len()
        invariant
            start <= i <= s.len(),
            d =~= s@.skip(start as int),
            d == (if s@.len() > 0 && s@[0] == 43 {
                s@.drop_first()
            } else {
                s@
            }),
            d.len() > 0,
            radix == 10 || radix == 16,
            all_digits(d.take(i - start), radix as int),
            value == digits_value(d.take(i - start), radix as int),
        decreases s.len() - i,
    {
        let ghost k = i - start;
        let digit = digit_exec(s[i]);
        if digit >= radix {
            assert(digit_of(d[k]) >= radix);
            return None;
        }
        proof {
            assert(d.take(k + 1).drop_last() =~= d.take(k));
            assert(d.take(k + 1).last() == s@[i as int]);
            assert(all_digits(d.take(k + 1), radix as int));
            assert(digits_value(d.take(k + 1), radix as int) == value * radix + digit);
        }
        match value.checked_mul(radix as u64) {
            None => {
                proof {
                    if all_digits(d, radix as int) {
                        lemma_digits_value_prefix(d, k + 1, radix as int);
                        assert(digits_value(d, radix as int) > u64::MAX);
                    }
                    assert(parse_unsigned(s@, radix as int) is None);
                }
                return None;
            },
            Some(m) => match m.checked_add(digit as u64) {
                None => {
                    proof {
                        if all_digits(d, radix as int) {
                            lemma_digits_value_prefix(d, k + 1, radix as int);
                        }
                    }
                    return None;
                },
                Some(v) => {
                    value = v;
                },
            },
        }
        i = i + 1;
    }
    assert(d.take(i - start) =~= d);
    Some(value)
}

/// The ticks `sleep <args>` waits (at most 100 000), or `None` when the
/// argument is not a decimal number.
pub fn parse_sleep_args(args: &Vec<u8>) -> (r: Option<u64>)
    requires
        printable_line(args@),
    ensures
        r == sleep_ticks(args@),
{
    let t = trim_exec(args);
    match parse_unsigned_exec(&t, 10) {
        Some(n) => Some(if n < MAX_SLEEP_TICKS { n } else { MAX_SLEEP_TICKS }),
        None => None,
    }
}

/// The address and byte count `peek <args>` reads, or `None` when the
/// address is not hexadecimal.
pub fn parse_peek_args(args: &Vec<u8>) -> (r: Option<PeekRequest>)
    requires
        printable_line(args@),
    ensures
        r == peek_request(args@),
{
    let a = skip_spaces_exec(args, 0);
    proof {
        lemma_skip_spaces_bounds(args@, 0);
    }
    let b = word_end_exec(args, a);
    proof {
        lemma_word_end_bounds(args@, a as int);
    }
    let tok = copy_range(args, a, b);
    let hex = if tok.len() >= 2 && tok[0] == 48 && tok[1] == 120 {
        copy_range(&tok, 2, tok.len())
    } else {
        tok
    };
    proof {
        assert(hex@ =~= strip_hex_prefix(first_token(args@).0));
    }
    match parse_unsigned_exec(&hex, 16) {
        None => None,
        Some(addr) => {
            let rest = copy_range(args, b, args.len());
            let c = skip_spaces_exec(&rest, 0);
            proof {
                lemma_skip_spaces_bounds(rest@, 0);
            }
            let e = word_end_exec(&rest, c);
            proof {
                lemma_word_end_bounds(rest@, c as int);
            }
            let tok2 = copy_range(&rest, c, e);
            assert(rest@ =~= args@.skip(first_token(args@).1));
            assert(tok2@ =~= second_token(args@));
            let n = match parse_unsigned_exec(&tok2, 10) {
                Some(n) => n,
                None => PEEK_DEFAULT_COUNT,
            };
            Some(PeekRequest { addr, count: if n < PEEK_MAX_COUNT { n } else { PEEK_MAX_COUNT } })
        },
    }
}

/// The first and second space-separated tokens of `args`.
fn two_tokens(args: &Vec<u8>) -> (r: (Vec<u8>, Vec<u8>))
    ensures
        r.0@ == first_token(args@).0,
        r.1@ == second_token(args@),
{
    let a = skip_spaces_exec(args, 0);
    proof {
        lemma_skip_spaces_bounds(args@, 0);
    }
    let b = word_end_exec(args, a);
    proof {
        lemma_word_end_bounds(args@, a as int);
    }
    let tok = copy_range(args, a, b);
    let rest = copy_range(args, b, args.len());
    let c = skip_spaces_exec(&rest, 0);
    proof {
        lemma_skip_spaces_bounds(rest@, 0);
    }
    let e = word_end_exec(&rest, c);
    proof {
        lemma_word_end_bounds(rest@, c as int);
    }
    let tok2 = copy_range(&rest, c, e);
    assert(rest@ =~= args@.skip(first_token(args@).1));
    assert(tok2@ =~= second_token(args@));
    (tok, tok2)
}

/// `t` without a leading `0x`.
fn strip_hex_prefix_exec(t: Vec<u8>) -> (r: Vec<u8>)
    ensures
        r@ == strip_hex_prefix(t@),
{
    if t.len() >= 2 && t[0] == 48 && t[1] == 120 {
        let r = copy_range(&t, 2, t.len());
        assert(r@ =~= t@.skip(2));
        r
    } else {
        t
    }
}

/// A hexadecimal token with an optional `0x`, at most `max`.
fn parse_hex_bounded(t: Vec<u8>, max: u64) -> (r: Option<u64>)
    ensures
        r == parse_bounded(strip_hex_prefix(t@), 16, max as int),
{
    let h = strip_hex_prefix_exec(t);
    match parse_unsigned_exec(&h, 16) {
        Some(v) => if v <= max {
            Some(v)
        } else {
            None
        },
        None => None,
    }
}

/// The address and byte `poke <args>` writes, or `None` when either is
/// missing or not hexadecimal.
pub fn parse_poke_args(args: &Vec<u8>) -> (r: Option<PokeRequest>)
    requires
        printable_line(args@),
    ensures
        r == poke_request(args@),
{
    let (t1, t2) = two_tokens(args);
    match (parse_hex_bounded(t1, u64::MAX), parse_hex_bounded(t2, 0xff)) {
        (Some(addr), Some(v)) => Some(PokeRequest { addr, value: v as u8 }),
        _ => None,
    }
}

/// The port `inb <args>` reads, or `None` when it is missing, not
/// hexadecimal or above 16 bits.
pub fn parse_inb_args(args: &Vec<u8>) -> (r: Option<u16>)
    requires
        printable_line(args@),
    ensures
        r == inb_port(args@),
{
    let (t1, _t2) = two_tokens(args);
    match parse_hex_bounded(t1, 0xffff) {
        Some(p) => Some(p as u16),
        None => None,
    }
}

/// The port and byte `outb <args>` writes, or `None` when either is missing
/// or does not fit.
pub fn parse_outb_args(args: &Vec<u8>) -> (r: Option<OutbRequest>)
    requires
        printable_line(args@),
    ensures
        r == outb_request(args@),
{
    let (t1, t2) = two_tokens(args);
    match (parse_hex_bounded(t1, 0xffff), parse_hex_bounded(t2, 0xff)) {
        (Some(p), Some(v)) => Some(OutbRequest { port: p as u16, value: v as u8 }),
        _ => None,
    }
}

/// The command that the word `word` names, with the argument string `args`.
fn command_for_exec(word: Vec<u8>, args: Vec<u8>) -> (r: Command)
    requires
        printable_line(args@),
    ensures
        r@ == command_for(word@, args@),
{
    if is_word(&word, "help") {
        Command::Help
    } else if is_word(&word, "clear") {
        Command::Clear
    } else if is_word(&word, "echo") {
        Command::Echo(args)
    } else if is_word(&word, "reboot") {
        Command::Reboot
    } else if is_word(&word, "shutdown") {
        Command::Shutdown
    } else if is_word(&word, "mem") {
        Command::Mem
    } else if is_word(&word, "cpuid") {
        Command::Cpuid
    } else if is_word(&word, "tsc") {
        Command::Tsc
    } else if is_word(&word, "uptime") {
        Command::Uptime
    } else if is_word(&word, "sleep") {
        Command::Sleep(parse_sleep_args(&args))
    } else if is_word(&word, "time") {
        Command::Time
    } else if is_word(&word, "colors") {
        Command::Colors
    } else if is_word(&word, "peek") {
        Command::Peek(parse_peek_args(&args))
    } else if is_word(&word, "int3") {
        Command::Int3
    } else if is_word(&word, "panic") {
        Command::Panic(args)
    } else if is_word(&word, "regs") {
        Command::Regs
    } else if is_word(&word, "gdt") {
        Command::Gdt
    } else if is_word(&word, "idt") {
        Command::Idt
    } else if is_word(&word, "poke") {
        Command::Poke(parse_poke_args(&args))
    } else if is_word(&word, "inb") {
        Command::Inb(parse_inb_args(&args))
    } else if is_word(&word, "outb") {
        Command::Outb(parse_outb_args(&args))
    } else {
        Command::Unknown(word)
    }
}

/// Parses a completed command line (the shell's dispatch): trims it, takes
/// the text up to the first space as the command word and the rest, without
/// leading spaces, as its argument string. A command line holds printable
/// ASCII only, as the line discipline keeps it.
pub fn parse_command(line: &Vec<u8>) -> (r: Command)
    requires
        printable_line(line@),
    ensures
        r@ == parse_line(line@),
{
    let input = trim_exec(line);
    if input.len() == 0 {
        return Command::Empty;
    }
    let w = word_end_exec(&input, 0);
    proof {
        lemma_word_end_bounds(input@, 0);
    }
    let word = copy_range(&input, 0, w);
    let rest = copy_range(&input, w, input.len());
    let args = trim_start_exec(&rest);
    proof {
        lemma_trim_printable(line@);
        lemma_skip_printable(input@, w as int);
        lemma_skip_spaces_bounds(rest@, 0);
        lemma_skip_printable(rest@, skip_spaces(rest@, 0));
    }
    assert(word@ =~= input@.take(w as int));
    assert(rest@ =~= input@.skip(w as int));
    command_for_exec(word, args)
}


proof fn lemma_decimal_digits(n: nat)
    ensures
        decimal(n).len() > 0,
        all_digits(decimal(n), 10),
        digits_value(decimal(n), 10) == n,
        48 <= decimal(n)[0] <= 57,
    decreases n,
{
    if n >= 10 {
        lemma_decimal_digits(n / 10);
        let d = decimal(n);
        assert(d.drop_last() =~= decimal(n / 10));
        assert(d.last() == (48 + n % 10) as u8);
        assert(digit_of(d.last()) == n % 10);
        assert(digits_value(d, 10) == digits_value(decimal(n / 10), 10) * 10 + digit_of(d.last()));
        assert((n / 10) * 10 + n % 10 == n) by (nonlinear_arith);
        assert forall|i: int| 0 <= i < d.len() implies digit_of(#[trigger] d[i]) < 10 by {
            if i < d.len() - 1 {
                assert(d[i] == decimal(n / 10)[i]);
            }
        }
    } else {
        assert(decimal(n).drop_last() =~= Seq::<u8>::empty());
        assert(digits_value(Seq::<u8>::empty(), 10) == 0);
        assert(digit_of(decimal(n).last()) == n);
        assert(digits_value(decimal(n), 10) == digits_value(decimal(n).drop_last(), 10) * 10 + digit_of(decimal(n).last()));
    }
}

proof fn lemma_hex_digits(n: nat)
    ensures
        hex(n).len() > 0,
        all_digits(hex(n), 16),
        digits_value(hex(n), 16) == n,
        hex(n)[0] != 43,
    decreases n,
{
    if n >= 16 {
        lemma_hex_digits(n / 16);
        let d = hex(n);
        assert(d.drop_last() =~= hex(n / 16));
        assert(d.last() == hex_digit(n % 16));
        assert(digit_of(hex_digit(n % 16)) == n % 16);
        assert(digits_value(d, 16) == digits_value(hex(n / 16), 16) * 16 + digit_of(d.last()));
        assert((n / 16) * 16 + n % 16 == n) by (nonlinear_arith);
        assert forall|i: int| 0 <= i < d.len() implies digit_of(#[trigger] d[i]) < 16 by {
            if i < d.len() - 1 {
                assert(d[i] == hex(n / 16)[i]);
            }
        }
    } else {
        assert(hex(n).drop_last() =~= Seq::<u8>::empty());
        assert(digit_of(hex_digit(n)) == n);
        assert(digits_value(Seq::<u8>::empty(), 16) == 0);
        assert(digits_value(hex(n), 16) == digits_value(hex(n).drop_last(), 16) * 16 + digit_of(hex(n).last()));
    }
}

/// Parsing undoes formatting: the decimal text of a number parses back to
/// that number.
pub proof fn lemma_parse_decimal_roundtrip(n: u64)
    ensures
        parse_unsigned(decimal(n as nat), 10) == Some(n),
{
    lemma_decimal_digits(n as nat);
}

/// Parsing undoes formatting: the hexadecimal text of a number parses back
/// to that number.
pub proof fn lemma_parse_hex_roundtrip(n: u64)
    ensures
        parse_unsigned(hex(n as nat), 16) == Some(n),
{
    lemma_hex_digits(n as nat);
}


proof fn lemma_trim_end_all_spaces(s: Seq<u8>, j: int)
    requires
        0 <= j <= s.len(),
        forall|k: int| 0 <= k < j ==> s[k] == SPACE,
    ensures
        trim_end_len(s, j) == 0,
    decreases j,
{
    if j > 0 {
        lemma_trim_end_all_spaces(s, j - 1);
    }
}

/// A blank line (spaces only, or nothing) runs no command.
pub proof fn lemma_blank_line_runs_nothing(line: Seq<u8>)
    requires
        forall|i: int| 0 <= i < line.len() ==> line[i] == SPACE,
    ensures
        parse_line(line) == CommandSpec::Empty,
{
    lemma_trim_end_all_spaces(line, line.len() as int);
    assert(line.take(0) =~= Seq::<u8>::empty());
}

/// The bytes of an ASCII string literal are its characters.
proof fn lemma_ascii_bytes(s: &str)
    requires
        vstd::string::is_ascii(s),
    ensures
        s.spec_bytes() =~= Seq::new(s@.len(), |i: int| s@[i] as u8),
{
    vstd::string::is_ascii_spec_bytes(s);
}

/// `echo` prints its text back exactly: the line `echo`, a space, then a
/// text with no leading or trailing space parses to that very text, inner
/// spacing included.
pub proof fn lemma_echo_gives_text_back(text: Seq<u8>)
    requires
        printable_line(text),
        text.len() > 0 ==> text[0] != SPACE && text.last() != SPACE,
    ensures
        parse_line("echo".spec_bytes() + seq![SPACE] + text) == CommandSpec::Echo(text),
{
    reveal_strlit("echo");
    reveal_strlit("help");
    reveal_strlit("clear");
    lemma_ascii_bytes("echo");
    lemma_ascii_bytes("help");
    lemma_ascii_bytes("clear");
    let e = "echo".spec_bytes();
    assert(e =~= seq![101u8, 99u8, 104u8, 111u8]);
    assert("help".spec_bytes() =~= seq![104u8, 101u8, 108u8, 112u8]);
    assert("clear".spec_bytes().len() == 5);
    let line = e + seq![SPACE] + text;
    let n = line.len() as int;
    let l = trim_end_len(line, n);
    if text.len() > 0 {
        assert(line[n - 1] == text.last());
        assert(l == n);
    } else {
        assert(line[n - 1] == SPACE);
        assert(trim_end_len(line, n) == trim_end_len(line, n - 1));
        assert(l == 4);
    }
    let pre = line.take(l);
    assert(pre[0] == 101u8);
    assert(skip_spaces(pre, 0) == 0);
    let input = trim(line);
    assert(input =~= pre);
    assert(word_end_from(input, 0) == word_end_from(input, 1));
    assert(word_end_from(input, 1) == word_end_from(input, 2));
    assert(word_end_from(input, 2) == word_end_from(input, 3));
    assert(word_end_from(input, 3) == word_end_from(input, 4));
    assert(word_end_from(input, 4) == 4);
    assert(input.take(4) =~= e);
    let rest = input.skip(4);
    if text.len() > 0 {
        assert(rest =~= seq![SPACE] + text);
        assert(skip_spaces(rest, 0) == skip_spaces(rest, 1));
        assert(rest[1] == text[0]);
        assert(skip_spaces(rest, 1) == 1);
        assert(trim_start(rest) =~= text);
    } else {
        assert(rest =~= Seq::<u8>::empty());
        assert(trim_start(rest) =~= text);
    }
}

} // verus!

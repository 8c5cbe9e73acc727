//! The system monitor: its commands, what each one does to the system, and what it
//! shows. Reading the commands and showing the output is left to the caller.
use vstd::prelude::*;

use crate::assembler::disassemble::dis_line;
use crate::assembler::token::{
    hex_digit_val, hex_digit_value, hex_value, is_hex_digit, is_hex_digit_char, is_whitespace,
    is_whitespace_char,
};
use crate::cpu::{wrap16, CpuView, State};
use crate::system::{status_header, status_line, System, SystemView};
use crate::text::{chars_of, hex_digits, hex_digits_of, push_str, string_from};

verus! {

/// A user command.
#[non_exhaustive]
#[derive(Copy, Clone, Debug, PartialEq, Eq, Structural)]
pub enum Command {
    /// Run continuously.
    Go,
    /// Show help information.
    Help,
    /// Dump memory.
    Memory,
    /// Quit the monitor.
    Quit,
    /// Step the system by one instruction.
    Step,
}

/// What the monitor does in answer to a command.
#[derive(Debug)]
pub enum Reply {
    /// End the session.
    Quit,
    /// Show these lines.
    Show(Vec<String>),
    /// Run the system, from this address if one is given, then show the result.
    Run(Option<u16>),
}

/// `c` in upper case, if it is an ASCII letter.
pub open spec fn upper(c: char) -> char {
    if 'a' <= c <= 'z' {
        ((c as u32) - 32) as char
    } else {
        c
    }
}

/// The position of the first character at or after `i` that is not whitespace.
pub open spec fn lead(s: Seq<char>, i: int) -> int
    decreases s.len() - i,
{
    if 0 <= i < s.len() && is_whitespace(s[i]) {
        lead(s, i + 1)
    } else {
        i
    }
}

/// The position just after the last character before `j` that is not whitespace.
pub open spec fn trail(s: Seq<char>, j: int) -> int
    decreases j,
{
    if 0 < j <= s.len() && is_whitespace(s[j - 1]) {
        trail(s, j - 1)
    } else {
        j
    }
}

/// `s` without leading and trailing whitespace.
pub open spec fn trimmed(s: Seq<char>) -> Seq<char> {
    let a = lead(s, 0);
    let b = trail(s, s.len() as int);
    if a < b {
        s.subrange(a, b)
    } else {
        Seq::empty()
    }
}

/// A command line as the monitor reads it: in upper case, without surrounding
/// whitespace.
pub open spec fn command_text(input: Seq<char>) -> Seq<char> {
    trimmed(input.map_values(|c: char| upper(c)))
}

/// The position of the first space at or after `i`, or the length of `s` if none.
pub open spec fn first_space(s: Seq<char>, i: int) -> int
    decreases s.len() - i,
{
    if 0 <= i < s.len() {
        if s[i] == ' ' {
            i
        } else {
            first_space(s, i + 1)
        }
    } else {
        s.len() as int
    }
}

/// True if every character of `d` is a hex digit.
pub open spec fn all_hex(d: Seq<char>) -> bool {
    forall|i: int| 0 <= i < d.len() ==> is_hex_digit(#[trigger] d[i])
}

/// The characters of a number after an optional leading `+`.
pub open spec fn unsigned_digits(s: Seq<char>) -> Seq<char> {
    if s.len() > 0 && s[0] == '+' {
        s.drop_first()
    } else {
        s
    }
}

/// A hex number as `u16::from_str_radix` reads it: an optional `+`, then one or more hex
/// digits, with a value that fits 16 bits.
pub open spec fn parse_hex16(s: Seq<char>) -> Option<u16> {
    let d = unsigned_digits(s);
    if d.len() > 0 && all_hex(d) && hex_value(d) <= 0xFFFF {
        Some(hex_value(d) as u16)
    } else {
        None
    }
}

/// The argument of a command: the hex number after its first space, if there is one.
pub open spec fn command_arg(cmd: Seq<char>) -> Option<u16> {
    let i = first_space(cmd, 0);
    if i < cmd.len() {
        parse_hex16(cmd.skip(i + 1))
    } else {
        None
    }
}

/// The command and argument that `input` gives: an empty line repeats the last command
/// (or steps), otherwise the first letter picks the command.
pub open spec fn parse_command(input: Seq<char>, last: Option<Command>) -> (Command, Option<u16>) {
    let t = command_text(input);
    if t.len() == 0 {
        (
            match last {
                Some(c) => c,
                None => Command::Step,
            },
            None,
        )
    } else if t[0] == 'G' {
        (Command::Go, command_arg(t))
    } else if t[0] == 'M' {
        (Command::Memory, command_arg(t))
    } else if t[0] == 'S' {
        (Command::Step, command_arg(t))
    } else if t[0] == 'Q' {
        (Command::Quit, None)
    } else {
        (Command::Help, None)
    }
}

/// An empty line (or one of only whitespace) repeats the last command, or steps if
/// there was none, and never takes an argument.
pub proof fn lemma_blank_line_repeats(input: Seq<char>, last: Option<Command>)
    requires
        forall|i: int| 0 <= i < input.len() ==> is_whitespace(#[trigger] input[i]),
    ensures
        parse_command(input, last) == (
            match last {
                Some(c) => c,
                None => Command::Step,
            },
            None::<u16>,
        ),
{
    let s = input.map_values(|c: char| upper(c));
    assert forall|i: int| 0 <= i < s.len() implies is_whitespace(#[trigger] s[i]) by {
        assert(s[i] == upper(input[i]));
    }
    lemma_all_space_lead(s, 0);
    lemma_trail_within(s, s.len() as int);
    assert(command_text(input) =~= Seq::<char>::empty());
}

/// A hex digit reads the same in upper case.
proof fn lemma_upper_hex_digit(c: char)
    requires
        is_hex_digit(c),
    ensures
        is_hex_digit(upper(c)),
        hex_digit_value(upper(c)) == hex_digit_value(c),
        upper(c) != '+',
{
}

/// A hex number reads the same in upper case.
pub proof fn lemma_hex_value_case_blind(d: Seq<char>)
    requires
        all_hex(d),
    ensures
        all_hex(d.map_values(|c: char| upper(c))),
        hex_value(d.map_values(|c: char| upper(c))) == hex_value(d),
    decreases d.len(),
{
    let u = d.map_values(|c: char| upper(c));
    assert forall|i: int| 0 <= i < u.len() implies is_hex_digit(#[trigger] u[i]) by {
        lemma_upper_hex_digit(d[i]);
    }
    if d.len() > 0 {
        let front = d.drop_last();
        assert(all_hex(front)) by {
            assert forall|i: int| 0 <= i < front.len() implies is_hex_digit(#[trigger] front[i]) by {
                assert(front[i] == d[i]);
            }
        }
        lemma_hex_value_case_blind(front);
        assert(u.drop_last() =~= front.map_values(|c: char| upper(c)));
        lemma_upper_hex_digit(d.last());
    }
}

/// A number of `n` hex digits is below 16 to the `n`.
proof fn lemma_hex_value_below(d: Seq<char>)
    requires
        all_hex(d),
    ensures
        hex_value(d) < crate::assembler::tokenizer::pow16(d.len()),
    decreases d.len(),
{
    if d.len() > 0 {
        assert(all_hex(d.drop_last())) by {
            assert forall|i: int| 0 <= i < d.len() - 1 implies is_hex_digit(
                #[trigger] d.drop_last()[i],
            ) by {
                assert(d.drop_last()[i] == d[i]);
            }
        }
        assert(is_hex_digit(d.last()));
        lemma_hex_value_below(d.drop_last());
        let h = hex_value(d.drop_last());
        let p = crate::assembler::tokenizer::pow16(d.drop_last().len());
        let v = hex_digit_value(d.last());
        assert(v < 16);
        assert(h * 16 + v < p * 16) by (nonlinear_arith)
            requires
                h < p,
                v < 16,
        ;
    }
}

/// A command that takes an address (`G`, `M` or `S`, in either case), then a space and a
/// hex number of one to four digits (in either case), is that command with that number
/// as its address, the same for all three.
pub proof fn lemma_address_argument(x: char, d: Seq<char>, last: Option<Command>)
    requires
        x == 'G' || x == 'g' || x == 'M' || x == 'm' || x == 'S' || x == 's',
        0 < d.len() <= 4,
        all_hex(d),
    ensures
        parse_command(seq![x, ' '] + d, last) == (
            if upper(x) == 'G' {
                Command::Go
            } else if upper(x) == 'M' {
                Command::Memory
            } else {
                Command::Step
            },
            Some(hex_value(d) as u16),
        ),
{
    let input = seq![x, ' '] + d;
    let s = input.map_values(|c: char| upper(c));
    let du = d.map_values(|c: char| upper(c));
    lemma_hex_value_case_blind(d);
    lemma_upper_hex_digit(d.last());
    assert(s =~= seq![upper(x), ' '] + du);
    assert(lead(s, 0) == 0);
    assert(s[s.len() - 1] == du[du.len() - 1]);
    assert(trail(s, s.len() as int) == s.len());
    assert(trimmed(s) =~= s);
    assert(first_space(s, 1) == 1);
    assert(first_space(s, 0) == 1);
    assert(s.skip(2) =~= du);
    lemma_upper_hex_digit(d[0]);
    assert(du[0] != '+');
    assert(unsigned_digits(du) == du);
    lemma_hex_value_below(d);
    assert(crate::assembler::tokenizer::pow16(d.len()) <= 65536) by {
        reveal_with_fuel(crate::assembler::tokenizer::pow16, 5);
    }
}

/// The cells of a dump line: `n` cells of three characters, cell `k` a space and then the
/// byte at `base + k` in two hex digits.
#[verifier::spinoff_prover]
#[verifier::rlimit(40)]
proof fn lemma_dump_cells(mem: crate::memory::MemoryView, base: u16, n: nat, k: int)
    requires
        0 <= k < n,
    ensures
        dump_cells(mem, base, n).len() == 3 * n,
        dump_cells(mem, base, n)[3 * k] == ' ',
        dump_cells(mem, base, n).subrange(3 * k + 1, 3 * k + 3) == hex_digits(
            mem.get(wrap16(base + k)) as nat,
            2,
        ),
    decreases n,
{
    reveal_strlit(" ");
    let m = (n - 1) as nat;
    let front = dump_cells(mem, base, m);
    let cell = hex_digits(mem.get(wrap16(base + m)) as nat, 2);
    crate::assembler::roundtrip::lemma_hex_digits(mem.get(wrap16(base + m)) as nat, 2);
    if m > 0 {
        lemma_dump_cells(mem, base, m, if k < m {
            k
        } else {
            0
        });
    } else {
        assert(front.len() == 0);
    }
    let all = dump_cells(mem, base, n);
    assert(all == front + " "@ + cell);
    if k < m {
        assert(all[3 * k] == front[3 * k]);
        assert(all.subrange(3 * k + 1, 3 * k + 3) =~= front.subrange(3 * k + 1, 3 * k + 3));
    } else {
        assert(all.subrange(3 * k + 1, 3 * k + 3) =~= cell);
    }
}

/// A memory dump shows on line `r` the address `base + 16 r`, a colon, and then the 16
/// bytes from that address, each after a space; the address and every byte read back
/// from their hex digits.
#[verifier::spinoff_prover]
#[verifier::rlimit(40)]
pub proof fn lemma_dump_shows_memory(mem: crate::memory::MemoryView, base: u16, r: int, k: int)
    requires
        0 <= r < 8,
        0 <= k < 16,
    ensures
        ({
            let line = dump_lines(mem, base)[r];
            &&& line.len() == 53
            &&& hex_value(line.subrange(0, 4)) == (base + 16 * r) % 65536
            &&& line[4] == ':'
            &&& line[5 + 3 * k] == ' '
            &&& hex_value(line.subrange(6 + 3 * k, 8 + 3 * k)) == mem.get(
                ((base + 16 * r + k) % 65536) as u16,
            )
        }),
{
    reveal_strlit(":");
    let a = wrap16(base + 16 * r);
    let line = dump_lines(mem, base)[r];
    let head = hex_digits(a as nat, 4);
    let cells = dump_cells(mem, a, 16);
    crate::assembler::roundtrip::lemma_hex_digits(a as nat, 4);
    lemma_dump_cells(mem, a, 16, k);
    assert(line == head + ":"@ + cells);
    assert(line.subrange(0, 4) =~= head);
    assert(line[5 + 3 * k] == cells[3 * k]);
    assert(line.subrange(6 + 3 * k, 8 + 3 * k) =~= cells.subrange(3 * k + 1, 3 * k + 3));
    let b = mem.get(wrap16(a + k));
    crate::assembler::roundtrip::lemma_hex_digits(b as nat, 2);
    assert(crate::assembler::tokenizer::pow16(4) == 65536) by {
        reveal_with_fuel(crate::assembler::tokenizer::pow16, 5);
    }
    assert(crate::assembler::tokenizer::pow16(2) == 256) by {
        reveal_with_fuel(crate::assembler::tokenizer::pow16, 3);
    }
    assert(wrap16(a + k) == ((base + 16 * r + k) % 65536) as u16);
}

/// Trimming from the end never moves past where it started.
proof fn lemma_trail_within(s: Seq<char>, j: int)
    ensures
        trail(s, j) <= j,
    decreases j,
{
    if 0 < j <= s.len() && is_whitespace(s[j - 1]) {
        lemma_trail_within(s, j - 1);
    }
}

/// In a string of whitespace, the first non-whitespace character is past the end.
proof fn lemma_all_space_lead(s: Seq<char>, i: int)
    requires
        0 <= i <= s.len(),
        forall|k: int| 0 <= k < s.len() ==> is_whitespace(#[trigger] s[k]),
    ensures
        lead(s, i) == s.len(),
    decreases s.len() - i,
{
    if i < s.len() {
        lemma_all_space_lead(s, i + 1);
    }
}

/// True when a monitor run stops: the CPU has halted, or, single-stepping, it has
/// reached the execute state.
pub open spec fn stopped(s: SystemView, single: bool) -> bool {
    s.cpu.halt || (single && s.cpu.state == State::Execute)
}

/// The system at the start of a monitor run: the CPU un-halted, and PC set to `addr`
/// if given.
pub open spec fn run_start(s: SystemView, addr: Option<u16>) -> SystemView {
    let t = s.with_halt(false);
    match addr {
        Some(a) => SystemView { cpu: CpuView { pc: a, ..t.cpu }, ..t },
        None => t,
    }
}

/// A monitor run from `start` ends at `fin`: one cycle at least, then cycles until the
/// run stops, or until the (practically unreachable) limit of `u64::MAX` cycles.
#[verifier::opaque]
pub open spec fn ran_until(start: SystemView, fin: SystemView, single: bool) -> bool {
    exists|n: nat|
        1 <= n <= u64::MAX && fin == start.steps(n) && (stopped(fin, single) || n == u64::MAX)
            && (forall|k: nat| 1 <= k < n ==> !#[trigger] stopped(start.steps(k), single))
}

/// What the monitor shows after a run that ended at `fin`: `halted` if the CPU halted,
/// then the status display.
pub open spec fn run_output(fin: SystemView) -> Seq<Seq<char>> {
    let (code, after) = fin.peek_next();
    (if fin.cpu.halt {
        seq!["halted"@]
    } else {
        Seq::empty()
    }) + seq![status_header(), status_line(after.cpu, dis_line(code, 0).0)]
}

/// One line of a memory dump: the address, then the 16 bytes from it.
pub open spec fn dump_line(mem: crate::memory::MemoryView, base: u16) -> Seq<char> {
    hex_digits(base as nat, 4) + ":"@ + dump_cells(mem, base, 16)
}

/// The first `n` bytes of a dump line.
pub open spec fn dump_cells(mem: crate::memory::MemoryView, base: u16, n: nat) -> Seq<char>
    decreases n,
{
    if n == 0 {
        Seq::empty()
    } else {
        dump_cells(mem, base, (n - 1) as nat) + " "@ + hex_digits(
            mem.get(wrap16(base + n - 1)) as nat,
            2,
        )
    }
}

/// A memory dump: eight lines of 16 bytes from `base` (wrapping round memory).
pub open spec fn dump_lines(mem: crate::memory::MemoryView, base: u16) -> Seq<Seq<char>> {
    Seq::new(8, |r: int| dump_line(mem, wrap16(base + 16 * r)))
}

/// The monitor's greeting.
pub open spec fn banner_text() -> Seq<char> {
    "RMON v1.0 (C) 1977 Solid State Technologies, Inc."@
}

/// The monitor's help text.
pub open spec fn usage_text() -> Seq<char> {
    "Commands:\nG [<address>] = Go (run till halted)\nH             = Help\nM [<address>] = Memory dump\nS [<address>] = Single step\nQ             = Quit\nEnter         = Repeat last command"@
}

/// The interactive CLI system monitor.
#[non_exhaustive]
pub struct Monitor {
    /// Last address referenced.
    pub last_addr: Option<u16>,
    /// Last command entered.
    pub last_cmd: Option<Command>,
    /// Enables single-step mode.
    pub step: bool,
    /// The running system.
    pub sys: System,
}

impl Default for Monitor {
    /// A monitor on a power-on system, with no command or address remembered.
    fn default() -> (m: Monitor)
        ensures
            m.last_addr is None,
            m.last_cmd is None,
            !m.step,
            m.sys@ == SystemView::initial(),
    {
        Monitor { last_addr: None, last_cmd: None, step: false, sys: System::default() }
    }
}

/// Returns `input` in upper case (ASCII letters only), without surrounding whitespace.
fn trim_upper(input: &str) -> (t: Vec<char>)
    ensures
        t@ == command_text(input@),
{
    let chars = chars_of(input);
    let ghost s = input@.map_values(|c: char| upper(c));
    let mut up: Vec<char> = Vec::new();
    let mut i: usize = 0;
    while i < chars.len()
        invariant
            chars@ == input@,
            s == input@.map_values(|c: char| upper(c)),
            i <= chars@.len(),
            up@ == s.take(i as int),
        decreases chars.len() - i,
    {
        let c = chars[i];
        let u = if 'a' <= c && c <= 'z' {
            ((c as u32 - 32) as u8) as char
        } else {
            c
        };
        assert(u == upper(c));
        assert(s[i as int] == upper(c));
        up.push(u);
        i = i + 1;
        assert(up@ =~= s.take(i as int));
    }
    assert(up@ =~= s);
    let n = up.len();
    let mut a: usize = 0;
    while a < n && is_whitespace_char(up[a])
        invariant
            up@ == s,
            n == s.len(),
            a <= n,
            lead(s, 0) == lead(s, a as int),
        decreases n - a,
    {
        a = a + 1;
    }
    let mut b: usize = n;
    while b > 0 && is_whitespace_char(up[b - 1])
        invariant
            up@ == s,
            n == s.len(),
            b <= n,
            trail(s, n as int) == trail(s, b as int),
        decreases b,
    {
        b = b - 1;
    }
    let mut t: Vec<char> = Vec::new();
    if a < b {
        let mut k = a;
        while k < b
            invariant
                up@ == s,
                a <= k <= b <= n,
                n == s.len(),
                t@ == s.subrange(a as int, k as int),
            decreases b - k,
        {
            t.push(up[k]);
            k = k + 1;
            assert(t@ =~= s.subrange(a as int, k as int));
        }
    }
    assert(t@ =~= command_text(input@));
    t
}

/// A prefix of a string of hex digits is worth no more than the whole.
proof fn lemma_hex_value_prefix(d: Seq<char>, k: int)
    requires
        0 <= k <= d.len(),
    ensures
        hex_value(d.take(k)) <= hex_value(d),
    decreases d.len(),
{
    if k < d.len() {
        lemma_hex_value_prefix(d.drop_last(), k);
        assert(d.drop_last().take(k) =~= d.take(k));
    } else {
        assert(d.take(k) =~= d);
    }
}

/// Reads the hex number in `s` from position `from` on, as [`parse_hex16`] states.
fn parse_hex_from(s: &Vec<char>, from: usize) -> (r: Option<u16>)
    requires
        from <= s@.len(),
    ensures
        r == parse_hex16(s@.skip(from as int)),
{
    let ghost rest = s@.skip(from as int);
    let mut i = from;
    if i < s.len() && s[i] == '+' {
        i = i + 1;
    }
    let start = i;
    let ghost d = s@.skip(start as int);
    assert(d =~= unsigned_digits(rest));
    if i >= s.len() {
        return None;
    }
    let mut v: u32 = 0;
    while i < s.len()
        invariant
            start <= i <= s@.len(),
            start < s@.len(),
            d == s@.skip(start as int),
            rest == s@.skip(from as int),
            d == unsigned_digits(rest),
            v == hex_value(d.take(i - start)),
            v <= 0xFFFF,
            forall|j: int| 0 <= j < i - start ==> is_hex_digit(#[trigger] d[j]),
        decreases s.len() - i,
    {
        let c = s[i];
        if !is_hex_digit_char(c) {
            assert(!is_hex_digit(d[i - start]));
            assert(!all_hex(d));
            return None;
        }
        let ghost k = i - start;
        assert(d.take(k + 1).drop_last() =~= d.take(k));
        v = v * 16 + hex_digit_val(c) as u32;
        i = i + 1;
        if v > 0xFFFF {
            proof {
                if all_hex(d) {
                    lemma_hex_value_prefix(d, k + 1);
                }
            }
            return None;
        }
    }
    assert(d.take(i - start) =~= d);
    Some(v as u16)
}

/// Returns the argument after the first space of `cmd`, if there is one.
fn parse_arg(cmd: &Vec<char>) -> (r: Option<u16>)
    ensures
        r == command_arg(cmd@),
{
    let mut i: usize = 0;
    while i < cmd.len() && cmd[i] != ' '
        invariant
            i <= cmd@.len(),
            first_space(cmd@, 0) == first_space(cmd@, i as int),
        decreases cmd.len() - i,
    {
        i = i + 1;
    }
    if i < cmd.len() {
        parse_hex_from(cmd, i + 1)
    } else {
        None
    }
}

/// Returns the monitor's greeting.
pub fn banner() -> (s: &'static str)
    ensures
        s@ == banner_text(),
{
    "RMON v1.0 (C) 1977 Solid State Technologies, Inc."
}

impl Monitor {
    /// Reads the user's command from the line `input`, remembering it as the last
    /// command.
    pub fn get_command(&mut self, input: &str) -> (r: (Command, Option<u16>))
        ensures
            r == parse_command(input@, old(self).last_cmd),
            final(self).last_cmd == Some(r.0),
            final(self).last_addr == old(self).last_addr,
            final(self).step == old(self).step,
            final(self).sys@ == old(self).sys@,
    {
        let t = trim_upper(input);
        let r = if t.len() == 0 {
            (
                match self.last_cmd {
                    Some(c) => c,
                    None => Command::Step,
                },
                None,
            )
        } else if t[0] == 'G' {
            (Command::Go, parse_arg(&t))
        } else if t[0] == 'M' {
            (Command::Memory, parse_arg(&t))
        } else if t[0] == 'S' {
            (Command::Step, parse_arg(&t))
        } else if t[0] == 'Q' {
            (Command::Quit, None)
        } else {
            (Command::Help, None)
        };
        self.last_cmd = Some(r.0);
        r
    }

    /// Runs the system until halted.
    pub fn go(&mut self, addr: Option<u16>) -> (lines: Vec<String>)
        ensures
            !final(self).step,
            final(self).last_cmd == old(self).last_cmd,
            exists|fin: SystemView|
                {
                    &&& ran_until(run_start(old(self).sys@, addr), fin, false)
                    &&& final(self).sys@ == fin.peek_next().1
                    &&& final(self).last_addr == Some(fin.cpu.pc)
                    &&& lines@.map_values(|l: String| l@) == run_output(fin)
                },
    {
        self.step = false;
        self.run(addr)
    }

    /// Returns the usage information.
    pub fn help(&self) -> (s: &'static str)
        ensures
            s@ == usage_text(),
    {
        "Commands:\nG [<address>] = Go (run till halted)\nH             = Help\nM [<address>] = Memory dump\nS [<address>] = Single step\nQ             = Quit\nEnter         = Repeat last command"
    }

    /// Dumps 128 bytes of memory from `addr` (default: the address after the last dump,
    /// or else PC), and remembers the address after them.
    pub fn memory(&mut self, addr: Option<u16>) -> (lines: Vec<String>)
        ensures
            ({
                let base = match addr {
                    Some(a) => a,
                    None => match old(self).last_addr {
                        Some(a) => a,
                        None => old(self).sys@.cpu.pc,
                    },
                };
                &&& lines@.map_values(|l: String| l@) == dump_lines(old(self).sys@.mem, base)
                &&& final(self).last_addr == Some(wrap16(base + 128))
            }),
            final(self).sys@ == old(self).sys@,
            final(self).step == old(self).step,
            final(self).last_cmd == old(self).last_cmd,
    {
        let start = match addr {
            Some(a) => a,
            None => match self.last_addr {
                Some(a) => a,
                None => self.sys.cpu.pc,
            },
        };
        let ghost mem = self.sys@.mem;
        let mut base = start;
        let mut lines: Vec<String> = Vec::new();
        let mut r: u8 = 0;
        while r < 8
            invariant
                r <= 8,
                mem == self.sys@.mem,
                base == wrap16(start + 16 * r),
                lines@.map_values(|l: String| l@) == Seq::new(
                    r as nat,
                    |i: int| dump_line(mem, wrap16(start + 16 * i)),
                ),
            decreases 8 - r,
        {
            let mut line = hex_digits_of(base, 4);
            push_str(&mut line, ":");
            let ghost prefix = line@;
            let mut offset: u16 = 0;
            let mut c: u8 = 0;
            while c < 16
                invariant
                    c <= 16,
                    offset == c,
                    mem == self.sys@.mem,
                    line@ == prefix + dump_cells(mem, base, c as nat),
                decreases 16 - c,
            {
                let byte = self.sys.mem.get(base.wrapping_add(offset));
                push_str(&mut line, " ");
                push_str(&mut line, hex_digits_of(byte as u16, 2).as_str());
                offset = offset.wrapping_add(1);
                c = c + 1;
            }
            let ghost before = lines@.map_values(|l: String| l@);
            lines.push(line);
            proof {
                assert(lines@.map_values(|l: String| l@) =~= before.push(dump_line(mem, base)));
                assert(Seq::new((r + 1) as nat, |i: int| dump_line(mem, wrap16(start + 16 * i)))
                    =~= Seq::new(r as nat, |i: int| dump_line(mem, wrap16(start + 16 * i))).push(
                    dump_line(mem, base),
                ));
            }
            base = base.wrapping_add(16);
            r = r + 1;
        }
        self.last_addr = Some(base);
        assert(Seq::new(8 as nat, |i: int| dump_line(mem, wrap16(start + 16 * i))) =~= dump_lines(
            mem,
            start,
        ));
        lines
    }

    /// Starts a run: the CPU un-halted, and PC set to `addr` if given.
    pub fn begin_run(&mut self, addr: Option<u16>)
        ensures
            final(self).sys@ == run_start(old(self).sys@, addr),
            final(self).step == old(self).step,
            final(self).last_cmd == old(self).last_cmd,
            final(self).last_addr == old(self).last_addr,
    {
        self.sys.cpu.halt = false;
        if let Some(a) = addr {
            self.sys.cpu.pc = a;
        }
        assert(self.sys@ =~= run_start(old(self).sys@, addr));
    }

    /// Runs one clock cycle of a run, and says whether the run stops here: the CPU has
    /// halted, or, single-stepping, the next instruction is about to execute.
    pub fn run_cycle(&mut self) -> (stop: bool)
        ensures
            final(self).sys@ == old(self).sys@.step(),
            stop == stopped(final(self).sys@, old(self).step),
            final(self).step == old(self).step,
            final(self).last_cmd == old(self).last_cmd,
            final(self).last_addr == old(self).last_addr,
    {
        self.sys.tick();
        self.sys.cpu.halt || (self.step && self.sys.cpu.state == State::Execute)
    }

    /// Ends a run: remembers PC as the last address, and returns what the monitor shows
    /// (`halted` if the CPU halted, then the status display).
    pub fn end_run(&mut self) -> (lines: Vec<String>)
        ensures
            final(self).sys@ == old(self).sys@.peek_next().1,
            final(self).last_addr == Some(old(self).sys@.cpu.pc),
            lines@.map_values(|l: String| l@) == run_output(old(self).sys@),
            final(self).step == old(self).step,
            final(self).last_cmd == old(self).last_cmd,
    {
        let ghost fin = self.sys@;
        let halted = self.sys.cpu.halt;
        self.last_addr = Some(self.sys.cpu.pc);
        let mut status = self.sys.debug_print();
        let mut lines: Vec<String> = Vec::new();
        if halted {
            lines.push(string_from("halted"));
        }
        lines.append(&mut status);
        assert(lines@.map_values(|l: String| l@) =~= run_output(fin));
        lines
    }

    /// Runs the system: until the next instruction is about to execute in single-step
    /// mode, or else until halted. Returns what the monitor shows afterwards.
    pub fn run(&mut self, addr: Option<u16>) -> (lines: Vec<String>)
        ensures
            final(self).step == old(self).step,
            final(self).last_cmd == old(self).last_cmd,
            exists|fin: SystemView|
                {
                    &&& ran_until(run_start(old(self).sys@, addr), fin, old(self).step)
                    &&& final(self).sys@ == fin.peek_next().1
                    &&& final(self).last_addr == Some(fin.cpu.pc)
                    &&& lines@.map_values(|l: String| l@) == run_output(fin)
                },
    {
        self.begin_run(addr);
        let ghost start = self.sys@;
        let single = self.step;
        let mut count: u64 = 0;
        loop
            invariant_except_break
                count < u64::MAX,
                self.sys@ == start.steps(count as nat),
                forall|k: nat| 1 <= k <= count ==> !#[trigger] stopped(start.steps(k), single),
            invariant
                single == self.step,
                self.step == old(self).step,
                self.last_cmd == old(self).last_cmd,
            ensures
                1 <= count <= u64::MAX,
                self.sys@ == start.steps(count as nat),
                stopped(self.sys@, single) || count == u64::MAX,
                forall|k: nat| 1 <= k < count ==> !#[trigger] stopped(start.steps(k), single),
            decreases u64::MAX - count,
        {
            let stop = self.run_cycle();
            proof {
                assert(start.steps((count + 1) as nat) == start.steps(count as nat).step());
            }
            count = count + 1;
            if stop || count == u64::MAX {
                break;
            }
        }
        let ghost fin = self.sys@;
        proof {
            reveal(ran_until);
            assert(1 <= count <= u64::MAX && fin == start.steps(count as nat) && (stopped(
                fin,
                single,
            ) || count == u64::MAX) && (forall|k: nat|
                1 <= k < count ==> !#[trigger] stopped(start.steps(k), single)));
        }
        self.end_run()
    }

    /// Steps the system by one instruction.
    pub fn step(&mut self, addr: Option<u16>) -> (lines: Vec<String>)
        ensures
            final(self).step,
            final(self).last_cmd == old(self).last_cmd,
            exists|fin: SystemView|
                {
                    &&& ran_until(run_start(old(self).sys@, addr), fin, true)
                    &&& final(self).sys@ == fin.peek_next().1
                    &&& final(self).last_addr == Some(fin.cpu.pc)
                    &&& lines@.map_values(|l: String| l@) == run_output(fin)
                },
    {
        self.step = true;
        self.run(addr)
    }
    /// Starts an interactive session in single-step mode, with `step` as the command
    /// that an empty line repeats. Returns the greeting and the status display.
    pub fn start(&mut self) -> (lines: Vec<String>)
        ensures
            final(self).step,
            final(self).last_cmd == Some(Command::Step),
            final(self).last_addr == old(self).last_addr,
            final(self).sys@ == old(self).sys@.peek_next().1,
            lines@.map_values(|l: String| l@) == seq![
                banner_text(),
                status_header(),
                status_line(final(self).sys@.cpu, dis_line(old(self).sys@.peek_next().0, 0).0),
            ],
    {
        self.step = true;
        self.last_cmd = Some(Command::Step);
        let mut status = self.sys.debug_print();
        let ghost st = status@;
        assert(st.map_values(|l: String| l@).len() == 2);
        assert(st.map_values(|l: String| l@)[0] == status_header());
        assert(st[0]@ == status_header());
        assert(st[1]@ == status_line(
            self.sys@.cpu,
            dis_line(old(self).sys@.peek_next().0, 0).0,
        ));
        let mut lines: Vec<String> = Vec::new();
        lines.push(string_from(banner()));
        lines.append(&mut status);
        assert(lines@.map_values(|l: String| l@) =~= seq![
            banner_text(),
            status_header(),
            status_line(self.sys@.cpu, dis_line(old(self).sys@.peek_next().0, 0).0),
        ]);
        lines
    }

    /// Answers the command `cmd` with argument `arg`: sets the stepping mode for `go`
    /// and `step` and asks for a run, dumps memory, shows help, or ends the session.
    pub fn respond(&mut self, cmd: Command, arg: Option<u16>) -> (r: Reply)
        ensures
            final(self).last_cmd == old(self).last_cmd,
            cmd == Command::Go ==> (r matches Reply::Run(a) && a == arg),
            cmd == Command::Step ==> (r matches Reply::Run(a) && a == arg),
            (cmd == Command::Go || cmd == Command::Step) ==> final(self).step == (cmd
                == Command::Step) && final(self).sys@ == old(self).sys@ && final(self).last_addr
                == old(self).last_addr,
            cmd == Command::Quit ==> r is Quit,
            cmd == Command::Help ==> (r matches Reply::Show(v) && v@.map_values(|l: String| l@)
                == seq![usage_text()]),
            (cmd == Command::Quit || cmd == Command::Help) ==> final(self).sys@ == old(self).sys@
                && final(self).last_addr == old(self).last_addr && final(self).step == old(
                self,
            ).step,
            cmd == Command::Memory ==> {
                let base = match arg {
                    Some(a) => a,
                    None => match old(self).last_addr {
                        Some(a) => a,
                        None => old(self).sys@.cpu.pc,
                    },
                };
                &&& (r matches Reply::Show(v) && v@.map_values(|l: String| l@) == dump_lines(
                    old(self).sys@.mem,
                    base,
                ))
                &&& final(self).last_addr == Some(wrap16(base + 128))
                &&& final(self).sys@ == old(self).sys@
                &&& final(self).step == old(self).step
            },
    {
        match cmd {
            Command::Go => {
                self.step = false;
                Reply::Run(arg)
            },
            Command::Step => {
                self.step = true;
                Reply::Run(arg)
            },
            Command::Help => {
                let mut v: Vec<String> = Vec::new();
                v.push(string_from(self.help()));
                assert(v@.map_values(|l: String| l@) =~= seq![usage_text()]);
                Reply::Show(v)
            },
            Command::Memory => Reply::Show(self.memory(arg)),
            Command::Quit => Reply::Quit,
        }
    }

    /// Handles one command line: returns `None` if the user quits, or else what to show.
    pub fn handle(&mut self, input: &str) -> (r: Option<Vec<String>>)
        ensures
            ({
                let (cmd, arg) = parse_command(input@, old(self).last_cmd);
                &&& final(self).last_cmd == Some(cmd)
                &&& (r is None) == (cmd == Command::Quit)
                &&& (cmd == Command::Quit || cmd == Command::Help) ==> final(self).sys@ == old(
                    self,
                ).sys@ && final(self).last_addr == old(self).last_addr && final(self).step == old(
                    self,
                ).step
                &&& cmd == Command::Help ==> (r matches Some(v) && v@.map_values(|l: String| l@)
                    == seq![usage_text()])
                &&& cmd == Command::Memory ==> {
                    let base = match arg {
                        Some(a) => a,
                        None => match old(self).last_addr {
                            Some(a) => a,
                            None => old(self).sys@.cpu.pc,
                        },
                    };
                    &&& (r matches Some(v) && v@.map_values(|l: String| l@) == dump_lines(
                        old(self).sys@.mem,
                        base,
                    ))
                    &&& final(self).last_addr == Some(wrap16(base + 128))
                    &&& final(self).sys@ == old(self).sys@
                    &&& final(self).step == old(self).step
                }
                &&& (cmd == Command::Go || cmd == Command::Step) ==> {
                    &&& final(self).step == (cmd == Command::Step)
                    &&& exists|fin: SystemView|
                        {
                            &&& ran_until(
                                run_start(old(self).sys@, arg),
                                fin,
                                cmd == Command::Step,
                            )
                            &&& final(self).sys@ == fin.peek_next().1
                            &&& final(self).last_addr == Some(fin.cpu.pc)
                            &&& (r matches Some(v) && v@.map_values(|l: String| l@) == run_output(
                                fin,
                            ))
                        }
                }
            }),
    {
        let (cmd, arg) = self.get_command(input);
        match self.respond(cmd, arg) {
            Reply::Quit => None,
            Reply::Show(v) => Some(v),
            Reply::Run(a) => Some(self.run(a)),
        }
    }
}

} // verus!

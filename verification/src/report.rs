//! What is printed after a run: the result line and the memory dump.
use vstd::prelude::*;

use crate::fields::{
    field_line, field_value, field_word, field_words, joined, law_field_line_is_first_line,
    law_field_line_lacks_other_keys, law_field_reads_back, law_words_of_joined, lemma_field_words,
    lemma_joined_push, proper_key, push_field,
};
use crate::number::{
    digit, digits, hex_number, law_decimal_reads_back, law_hex_reads_back, lemma_digits_read_back,
    lemma_padded_length, number, push_decimal, push_hex, push_plain_hex, zero_padded,
    NumberErrorView,
};
use crate::text::{first_line_of, is_white_space, no_white_space, words};

verus! {

/// What is known after a run.
#[derive(Clone, Copy, Debug, PartialEq, Eq, Structural)]
pub struct RunResult {
    /// The 80286 estimate was asked for.
    pub est286: bool,
    /// 80286 clocks charged.
    pub cyc286: u64,
    /// All cycles of the core.
    pub total: u64,
    /// Those of them spent halted.
    pub halt: u64,
    /// Instructions executed.
    pub insns: u64,
    pub al: u8,
    pub ax: u16,
    pub ip: u16,
    /// The program has executed HLT.
    pub halted: bool,
}

// ---------------------------------------------------------------------------
// The model
// ---------------------------------------------------------------------------

/// Cycles of the core spent on the program: those spent halted do not count.
pub open spec fn core_cycles(r: RunResult) -> int {
    if r.total >= r.halt {
        r.total - r.halt
    } else {
        0
    }
}

/// The cycles that are reported: the 80286 estimate where it was asked for,
/// else those of the core.
pub open spec fn cycles(r: RunResult) -> int {
    if r.est286 {
        r.cyc286 as int
    } else {
        core_cycles(r)
    }
}

/// `n` in hexadecimal behind `0x`, with at least `width` digits.
pub open spec fn hex(n: int, width: int) -> Seq<char> {
    "0x"@ + zero_padded(digits(n, 16), width)
}

/// The fields of every result line.
pub open spec fn common_fields(r: RunResult) -> Seq<(Seq<char>, Seq<char>)> {
    seq![
        ("cycles"@, digits(cycles(r), 10)),
        ("insns"@, digits(r.insns as int, 10)),
        ("al"@, hex(r.al as int, 2)),
        ("ax"@, hex(r.ax as int, 4)),
        ("ip"@, hex(r.ip as int, 4)),
        ("halted"@, if r.halted { seq!['1'] } else { seq!['0'] }),
    ]
}

/// The fields of the result line: with the 80286 estimate also the model and,
/// in brackets, the cycles of the core.
pub open spec fn result_fields(r: RunResult) -> Seq<(Seq<char>, Seq<char>)> {
    if r.est286 {
        common_fields(r).push(("model"@, "80286-datasheet"@)).push(
            ("(v30_bus_cycles"@, digits(core_cycles(r), 10).push(')')),
        )
    } else {
        common_fields(r)
    }
}

/// What is printed: all fields, or the cycle count alone.
pub open spec fn result_text(r: RunResult, quiet: bool) -> Seq<char> {
    if quiet {
        digits(cycles(r), 10)
    } else {
        field_line(result_fields(r))
    }
}

/// A byte as two hexadecimal digits.
pub open spec fn byte_text(b: u8) -> Seq<char> {
    zero_padded(digits(b as int, 16), 2)
}

/// The bytes as words of two hexadecimal digits.
pub open spec fn byte_words(bytes: Seq<u8>) -> Seq<Seq<char>> {
    bytes.map_values(|b: u8| byte_text(b))
}

/// The number of rows that hold `len` bytes, 16 in each.
pub open spec fn row_count(len: int) -> int {
    (len + 15) / 16
}

/// The bytes of row `i`.
pub open spec fn row_bytes(bytes: Seq<u8>, i: int) -> Seq<u8> {
    bytes.subrange(i * 16, if i * 16 + 16 <= bytes.len() { i * 16 + 16 } else { bytes.len() as int })
}

/// Row `i` of a dump: the address of its first byte and its bytes.
pub open spec fn dump_row(addr: int, bytes: Seq<u8>, i: int) -> Seq<char> {
    zero_padded(digits(addr + i * 16, 16), 4) + ": "@ + joined(byte_words(row_bytes(bytes, i)))
}

/// What is said of a dump that went to a file.
pub open spec fn dump_note_text(addr: int, len: int, file: Seq<char>) -> Seq<char> {
    "dumped "@ + digits(len, 10) + " bytes from 0x"@ + digits(addr, 16) + " to "@ + file
}

// ---------------------------------------------------------------------------
// The code
// ---------------------------------------------------------------------------

/// `n` in decimal.
fn decimal(n: u64) -> (s: String)
    ensures
        s@ == digits(n as int, 10),
{
    let mut s = String::new();
    push_decimal(&mut s, n);
    assert(Seq::<char>::empty() + digits(n as int, 10) == digits(n as int, 10));
    s
}

/// `n` in hexadecimal behind `0x`.
fn hexadecimal(n: u64, width: usize) -> (s: String)
    ensures
        s@ == hex(n as int, width as int),
{
    let mut s = "0x".to_owned();
    push_hex(&mut s, n, width);
    s
}

/// Appends a field to a line that holds the fields `pairs`.
proof fn lemma_field_appended(
    line: Seq<char>,
    pairs: Seq<(Seq<char>, Seq<char>)>,
    key: Seq<char>,
    value: Seq<char>,
)
    requires
        pairs.len() > 0,
        line == field_line(pairs),
    ensures
        field_line(pairs.push((key, value))) == line + seq![' '] + field_word(key, value),
{
    let ws = field_words(pairs);
    assert(field_words(pairs.push((key, value))) =~= ws.push(field_word(key, value)));
    lemma_joined_push(ws, field_word(key, value));
}

/// A line of one field.
proof fn lemma_one_field(key: Seq<char>, value: Seq<char>)
    ensures
        field_line(seq![(key, value)]) == field_word(key, value),
{
    let pairs = seq![(key, value)];
    assert(field_words(pairs)[0] == field_word(key, value));
}

impl RunResult {
    /// Cycles of the core spent on the program.
    pub fn core_cycles(&self) -> (n: u64)
        ensures
            n == core_cycles(*self),
            self.halt <= self.total ==> n == self.total - self.halt,
            self.halt > self.total ==> n == 0,
    {
        self.total.saturating_sub(self.halt)
    }

    /// The cycles that are reported.
    pub fn cycles(&self) -> (n: u64)
        ensures
            n == cycles(*self),
            self.est286 ==> n == self.cyc286,
            !self.est286 && self.halt <= self.total ==> n == self.total - self.halt,
    {
        if self.est286 {
            self.cyc286
        } else {
            self.core_cycles()
        }
    }

    /// What is printed after the run.
    pub fn line(&self, quiet: bool) -> (s: String)
        ensures
            s@ == result_text(*self, quiet),
    {
        let count = decimal(self.cycles());
        if quiet {
            return count;
        }
        let insns = decimal(self.insns);
        let al = hexadecimal(self.al as u64, 2);
        let ax = hexadecimal(self.ax as u64, 4);
        let ip = hexadecimal(self.ip as u64, 4);
        let mut halted = String::new();
        halted.push(if self.halted { '1' } else { '0' });
        assert(halted@ =~= if self.halted { seq!['1'] } else { seq!['0'] });

        let mut out = "cycles".to_owned();
        out.push('=');
        out.append(count.as_str());
        let ghost mut pairs = seq![("cycles"@, count@)];
        proof {
            lemma_one_field("cycles"@, count@);
            assert(out@ == field_line(pairs));
            lemma_field_appended(out@, pairs, "insns"@, insns@);
            pairs = pairs.push(("insns"@, insns@));
        }
        push_field(&mut out, "insns", insns.as_str());
        proof {
            lemma_field_appended(out@, pairs, "al"@, al@);
            pairs = pairs.push(("al"@, al@));
        }
        push_field(&mut out, "al", al.as_str());
        proof {
            lemma_field_appended(out@, pairs, "ax"@, ax@);
            pairs = pairs.push(("ax"@, ax@));
        }
        push_field(&mut out, "ax", ax.as_str());
        proof {
            lemma_field_appended(out@, pairs, "ip"@, ip@);
            pairs = pairs.push(("ip"@, ip@));
        }
        push_field(&mut out, "ip", ip.as_str());
        proof {
            lemma_field_appended(out@, pairs, "halted"@, halted@);
            pairs = pairs.push(("halted"@, halted@));
            assert(pairs =~= common_fields(*self));
        }
        push_field(&mut out, "halted", halted.as_str());
        if self.est286 {
            let mut core = decimal(self.core_cycles());
            core.push(')');
            proof {
                lemma_field_appended(out@, pairs, "model"@, "80286-datasheet"@);
                pairs = pairs.push(("model"@, "80286-datasheet"@));
            }
            push_field(&mut out, "model", "80286-datasheet");
            proof {
                lemma_field_appended(out@, pairs, "(v30_bus_cycles"@, core@);
            }
            push_field(&mut out, "(v30_bus_cycles", core.as_str());
        }
        out
    }
}

/// One row of a dump.
fn dump_line(addr: usize, bytes: &[u8], from: usize, to: usize) -> (s: String)
    requires
        from < to <= bytes@.len(),
        addr + from <= usize::MAX,
    ensures
        s@ == zero_padded(digits(addr + from, 16), 4) + ": "@ + joined(
            byte_words(bytes@.subrange(from as int, to as int)),
        ),
{
    let mut s = String::new();
    push_hex(&mut s, (addr + from) as u64, 4);
    s.append(": ");
    let ghost head = zero_padded(digits(addr + from, 16), 4) + ": "@;
    assert(s@ =~= head);
    let mut i: usize = from;
    while i < to
        invariant
            from <= i <= to <= bytes@.len(),
            s@ == head + joined(byte_words(bytes@.subrange(from as int, i as int))),
        decreases to - i,
    {
        let ghost done = byte_words(bytes@.subrange(from as int, i as int));
        proof {
            assert(byte_words(bytes@.subrange(from as int, i + 1)) =~= done.push(
                byte_text(bytes@[i as int]),
            ));
            lemma_joined_push(done, byte_text(bytes@[i as int]));
        }
        if i > from {
            s.push(' ');
        }
        push_hex(&mut s, bytes[i] as u64, 2);
        i = i + 1;
        assert(s@ =~= head + joined(byte_words(bytes@.subrange(from as int, i as int))));
    }
    s
}

/// The rows of a dump of `bytes`, which were read at `addr`.
pub fn dump_lines(addr: usize, bytes: &[u8]) -> (rows: Vec<String>)
    requires
        bytes@.len() > 0 ==> addr + bytes@.len() - 1 <= usize::MAX,
    ensures
        rows@.len() == row_count(bytes@.len() as int),
        forall|i: int|
            0 <= i < rows@.len() ==> (#[trigger] rows@[i])@ == dump_row(addr as int, bytes@, i),
{
    let mut rows: Vec<String> = Vec::new();
    let mut from: usize = 0;
    while from < bytes.len()
        invariant
            bytes@.len() > 0 ==> addr + bytes@.len() - 1 <= usize::MAX,
            from <= bytes@.len(),
            from == rows@.len() * 16 || from == bytes@.len(),
            rows@.len() == row_count(from as int),
            forall|i: int|
                0 <= i < rows@.len() ==> (#[trigger] rows@[i])@ == dump_row(
                    addr as int,
                    bytes@,
                    i,
                ),
        decreases bytes@.len() - from,
    {
        let to = if bytes.len() - from > 16 { from + 16 } else { bytes.len() };
        let row = dump_line(addr, bytes, from, to);
        assert(row@ == dump_row(addr as int, bytes@, rows@.len() as int));
        rows.push(row);
        from = to;
    }
    rows
}

/// What to say of a dump of `len` bytes at `addr` that went to a file.
pub fn dump_note(addr: usize, len: usize, file: &str) -> (s: String)
    ensures
        s@ == dump_note_text(addr as int, len as int, file@),
{
    let mut s = "dumped ".to_owned();
    push_decimal(&mut s, len as u64);
    s.append(" bytes from 0x");
    push_plain_hex(&mut s, addr as u64);
    s.append(" to ");
    s.append(file);
    s
}

// ---------------------------------------------------------------------------
// Laws
// ---------------------------------------------------------------------------

/// Digits are no white space, with zeros in front or without.
proof fn lemma_digits_no_white_space(n: int, radix: int, width: int)
    requires
        n >= 0,
        radix == 10 || radix == 16,
    ensures
        no_white_space(zero_padded(digits(n, radix), width)),
        no_white_space(digits(n, radix)),
{
    lemma_digits_read_back(n, radix);
    let d = digits(n, radix);
    assert forall|i: int| 0 <= i < d.len() implies !is_white_space(#[trigger] d[i]) by {
        assert(digit(d[i]) < radix);
    }
    let p = zero_padded(d, width);
    assert forall|i: int| 0 <= i < p.len() implies !is_white_space(#[trigger] p[i]) by {
        let pad = p.len() - d.len();
        if i >= pad {
            assert(p[i] == d[i - pad]);
        }
    }
}

/// The keys and values of a result line are proper, and no key occurs twice.
proof fn lemma_result_fields(r: RunResult)
    ensures
        forall|i: int|
            0 <= i < result_fields(r).len() ==> proper_key((#[trigger] result_fields(r)[i]).0),
        forall|i: int|
            0 <= i < result_fields(r).len() ==> no_white_space((#[trigger] result_fields(r)[i]).1),
        forall|i: int, j: int|
            0 <= i < j < result_fields(r).len() ==> (#[trigger] result_fields(r)[i]).0 != (
            #[trigger] result_fields(r)[j]).0,
{
    reveal_strlit("cycles");
    reveal_strlit("insns");
    reveal_strlit("al");
    reveal_strlit("ax");
    reveal_strlit("ip");
    reveal_strlit("halted");
    reveal_strlit("model");
    reveal_strlit("(v30_bus_cycles");
    reveal_strlit("80286-datasheet");
    reveal_strlit("0x");
    lemma_digits_no_white_space(cycles(r), 10, 0);
    lemma_digits_no_white_space(r.insns as int, 10, 0);
    lemma_digits_no_white_space(core_cycles(r), 10, 0);
    lemma_digits_no_white_space(r.al as int, 16, 2);
    lemma_digits_no_white_space(r.ax as int, 16, 4);
    lemma_digits_no_white_space(r.ip as int, 16, 4);
    assert("al"@ != "ax"@) by {
        assert("al"@[1] != "ax"@[1]);
    }
    assert("al"@ != "ip"@) by {
        assert("al"@[0] != "ip"@[0]);
    }
    assert("ax"@ != "ip"@) by {
        assert("ax"@[0] != "ip"@[0]);
    }
    assert("cycles"@ != "halted"@) by {
        assert("cycles"@[0] != "halted"@[0]);
    }
    assert("insns"@ != "model"@) by {
        assert("insns"@[0] != "model"@[0]);
    }
    let pairs = result_fields(r);
    assert forall|i: int, j: int| 0 <= i < j < pairs.len() implies (#[trigger] pairs[i]).0 != (
    #[trigger] pairs[j]).0 by {
        if pairs[i].0 == pairs[j].0 {
            assert(pairs[i].0.len() == pairs[j].0.len());
        }
    }
}

/// The result line reads back: each field of the result is found under its
/// key. A program that reads the line gets the cycles, the instructions, the
/// registers and whether the program halted.
pub proof fn law_result_line_reads_back(r: RunResult)
    ensures
        field_value(result_text(r, false), "cycles"@) == Some(digits(cycles(r), 10)),
        field_value(result_text(r, false), "insns"@) == Some(digits(r.insns as int, 10)),
        field_value(result_text(r, false), "al"@) == Some(hex(r.al as int, 2)),
        field_value(result_text(r, false), "ax"@) == Some(hex(r.ax as int, 4)),
        field_value(result_text(r, false), "ip"@) == Some(hex(r.ip as int, 4)),
        field_value(result_text(r, false), "halted"@) == Some(
            if r.halted { seq!['1'] } else { seq!['0'] },
        ),
        r.est286 ==> field_value(result_text(r, false), "model"@) == Some("80286-datasheet"@),
{
    lemma_result_fields(r);
    let pairs = result_fields(r);
    law_field_reads_back(pairs, 0);
    law_field_reads_back(pairs, 1);
    law_field_reads_back(pairs, 2);
    law_field_reads_back(pairs, 3);
    law_field_reads_back(pairs, 4);
    law_field_reads_back(pairs, 5);
    if r.est286 {
        law_field_reads_back(pairs, 6);
    }
}

/// The numbers in the result line are the numbers of the result: read as the
/// command line reads a number, they give the cycles, the instructions and the
/// registers.
pub proof fn law_result_numbers_read_back(r: RunResult)
    ensures
        number(result_text(r, true)) == Ok::<u64, NumberErrorView>(cycles(r) as u64),
        number(field_value(result_text(r, false), "cycles"@)->0) == Ok::<u64, NumberErrorView>(
            cycles(r) as u64,
        ),
        number(field_value(result_text(r, false), "insns"@)->0) == Ok::<u64, NumberErrorView>(
            r.insns,
        ),
        number(field_value(result_text(r, false), "al"@)->0) == Ok::<u64, NumberErrorView>(
            r.al as u64,
        ),
        number(field_value(result_text(r, false), "ax"@)->0) == Ok::<u64, NumberErrorView>(
            r.ax as u64,
        ),
        number(field_value(result_text(r, false), "ip"@)->0) == Ok::<u64, NumberErrorView>(
            r.ip as u64,
        ),
{
    law_result_line_reads_back(r);
    law_decimal_reads_back(cycles(r) as u64);
    law_decimal_reads_back(r.insns);
    law_hex_reads_back(r.al as u64, 2);
    law_hex_reads_back(r.ax as u64, 4);
    law_hex_reads_back(r.ip as u64, 4);
}

/// The result line is the first line of what is printed from it on.
pub proof fn law_result_is_first_line(r: RunResult, rest: Seq<char>)
    ensures
        first_line_of(result_text(r, false) + seq!['\n'] + rest) == result_text(r, false),
{
    lemma_result_fields(r);
    law_field_line_is_first_line(result_fields(r), rest);
}

/// Cycles spent halted are never reported.
pub proof fn law_halted_cycles_do_not_count(r: RunResult)
    ensures
        core_cycles(r) <= r.total,
        r.halt <= r.total ==> core_cycles(r) + r.halt == r.total,
{
}

/// Taken apart into words, a row of a dump is its address, with a colon, and
/// its bytes in order, two digits each.
pub proof fn law_dump_row_shows_its_bytes(addr: int, bytes: Seq<u8>, i: int)
    requires
        addr >= 0,
        0 <= i < row_count(bytes.len() as int),
    ensures
        words(dump_row(addr, bytes, i)) == seq![
            zero_padded(digits(addr + i * 16, 16), 4).push(':'),
        ] + byte_words(row_bytes(bytes, i)),
{
    reveal_strlit(": ");
    let first = zero_padded(digits(addr + i * 16, 16), 4).push(':');
    let rest = byte_words(row_bytes(bytes, i));
    let ws = seq![first] + rest;
    lemma_digits_no_white_space(addr + i * 16, 16, 4);
    assert(row_bytes(bytes, i).len() > 0);
    assert forall|k: int| 0 <= k < ws.len() implies (#[trigger] ws[k]).len() > 0 && no_white_space(
        ws[k],
    ) by {
        if k > 0 {
            let b = row_bytes(bytes, i)[k - 1];
            assert(ws[k] == rest[k - 1]);
            assert(rest[k - 1] == byte_text(b));
            lemma_digits_no_white_space(b as int, 16, 2);
            lemma_digits_read_back(b as int, 16);
        }
    }
    assert(ws[0] == first);
    assert(ws.drop_first() =~= rest);
    assert(dump_row(addr, bytes, i) =~= joined(ws)) by {
        assert(first + seq![' '] =~= zero_padded(digits(addr + i * 16, 16), 4) + ": "@);
    }
    law_words_of_joined(ws);
}

/// Every byte of a dump stands in exactly one place: byte `k` is byte `k % 16`
/// of row `k / 16`.
pub proof fn law_dump_holds_every_byte(bytes: Seq<u8>, k: int)
    requires
        0 <= k < bytes.len(),
    ensures
        0 <= k / 16 < row_count(bytes.len() as int),
        k % 16 < row_bytes(bytes, k / 16).len(),
        row_bytes(bytes, k / 16)[k % 16] == bytes[k],
{
}

/// The count that is printed, alone or under `cycles`, is the 80286 estimate
/// where one was asked for; else it is all cycles of the core without those
/// spent halted, and 0 where more were spent halted than in all.
pub proof fn law_printed_count(r: RunResult)
    ensures
        ({
            let alone = number(result_text(r, true));
            let field = field_value(result_text(r, false), "cycles"@);
            &&& field is Some
            &&& r.est286 ==> alone == Ok::<u64, NumberErrorView>(r.cyc286) && number(field->0)
                == Ok::<u64, NumberErrorView>(r.cyc286)
            &&& !r.est286 && r.halt <= r.total ==> {
                &&& alone == Ok::<u64, NumberErrorView>((r.total - r.halt) as u64)
                &&& number(field->0) == Ok::<u64, NumberErrorView>((r.total - r.halt) as u64)
            }
            &&& !r.est286 && r.halt > r.total ==> {
                &&& alone == Ok::<u64, NumberErrorView>(0)
                &&& number(field->0) == Ok::<u64, NumberErrorView>(0)
            }
        }),
{
    law_result_line_reads_back(r);
    law_result_numbers_read_back(r);
}

/// The count alone is written in decimal digits and nothing else.
pub proof fn law_quiet_line_is_the_count(r: RunResult)
    ensures
        r.est286 ==> result_text(r, true) == digits(r.cyc286 as int, 10),
        !r.est286 && r.halt <= r.total ==> result_text(r, true) == digits(r.total - r.halt, 10),
{
}

/// The words of the result line, in order: the count and the instructions in
/// decimal, AL in two and AX and IP in four hexadecimal digits behind `0x`, and
/// whether the program halted. With the 80286 estimate the model and, in
/// brackets, the cycles of the core follow.
pub proof fn law_words_of_the_result_line(r: RunResult)
    ensures
        ({
            let ws = words(result_text(r, false));
            let core = if r.halt <= r.total { r.total - r.halt } else { 0 };
            let count = if r.est286 { r.cyc286 as int } else { core };
            &&& ws.len() == if r.est286 { 8int } else { 6 }
            &&& ws[0] == "cycles"@ + seq!['='] + digits(count, 10)
            &&& ws[1] == "insns"@ + seq!['='] + digits(r.insns as int, 10)
            &&& ws[2] == "al"@ + seq!['='] + ("0x"@ + zero_padded(digits(r.al as int, 16), 2))
            &&& ws[3] == "ax"@ + seq!['='] + ("0x"@ + zero_padded(digits(r.ax as int, 16), 4))
            &&& ws[4] == "ip"@ + seq!['='] + ("0x"@ + zero_padded(digits(r.ip as int, 16), 4))
            &&& r.halted ==> ws[5] == "halted"@ + seq!['='] + seq!['1']
            &&& !r.halted ==> ws[5] == "halted"@ + seq!['='] + seq!['0']
            &&& r.est286 ==> ws[6] == "model"@ + seq!['='] + "80286-datasheet"@
            &&& r.est286 ==> ws[7] == "(v30_bus_cycles"@ + seq!['='] + digits(core, 10).push(')')
            &&& joined(ws) == result_text(r, false)
        }),
{
    lemma_result_fields(r);
    lemma_field_words(result_fields(r));
    law_words_of_joined(field_words(result_fields(r)));
}

/// The registers and the halt are found in the result line under their keys,
/// with exactly as many digits as they have; the model is found only with the
/// 80286 estimate.
pub proof fn law_printed_registers(r: RunResult)
    ensures
        ({
            let line = result_text(r, false);
            let al = field_value(line, "al"@);
            let ax = field_value(line, "ax"@);
            let ip = field_value(line, "ip"@);
            let insns = field_value(line, "insns"@);
            &&& al is Some && al->0.len() == 4 && number(al->0) == Ok::<u64, NumberErrorView>(
                r.al as u64,
            )
            &&& ax is Some && ax->0.len() == 6 && number(ax->0) == Ok::<u64, NumberErrorView>(
                r.ax as u64,
            )
            &&& ip is Some && ip->0.len() == 6 && number(ip->0) == Ok::<u64, NumberErrorView>(
                r.ip as u64,
            )
            &&& insns is Some && number(insns->0) == Ok::<u64, NumberErrorView>(r.insns)
            &&& r.halted ==> field_value(line, "halted"@) == Some("1"@)
            &&& !r.halted ==> field_value(line, "halted"@) == Some("0"@)
            &&& r.est286 ==> field_value(line, "model"@) == Some("80286-datasheet"@)
            &&& !r.est286 ==> field_value(line, "model"@) is None
        }),
{
    reveal_strlit("1");
    reveal_strlit("0");
    reveal_strlit("0x");
    assert("1"@ =~= seq!['1']);
    assert("0"@ =~= seq!['0']);
    law_result_line_reads_back(r);
    law_result_numbers_read_back(r);
    lemma_padded_length(r.al as int, 2);
    lemma_padded_length(r.ax as int, 4);
    lemma_padded_length(r.ip as int, 4);
    if !r.est286 {
        lemma_result_fields(r);
        let pairs = result_fields(r);
        let s = RunResult { est286: true, ..r };
        lemma_result_fields(s);
        assert(result_fields(s)[6].0 == "model"@);
        assert forall|i: int| 0 <= i < pairs.len() implies (#[trigger] pairs[i]).0 != "model"@ by {
            assert(pairs[i].0 == result_fields(s)[i].0);
            assert(result_fields(s)[i].0 != result_fields(s)[6].0);
        }
        assert(proper_key(result_fields(s)[6].0));
        law_field_line_lacks_other_keys(pairs, "model"@);
    }
}

/// A dump shows its bytes and where they were read: row `i` starts with the
/// address of its first byte, in at least four hexadecimal digits and with a
/// colon, and byte `16 * i + j` of the dump is word `j` behind it, in two
/// digits. All is separated by single spaces.
pub proof fn law_dump_reads_back(addr: usize, bytes: Seq<u8>, i: int, j: int)
    requires
        addr + bytes.len() <= u64::MAX,
        0 <= i,
        0 <= j < 16,
        16 * i + j < bytes.len(),
    ensures
        ({
            let row = dump_row(addr as int, bytes, i);
            let ws = words(row);
            let left = bytes.len() - 16 * i;
            let n = if left < 16 { left } else { 16 };
            &&& i < row_count(bytes.len() as int)
            &&& ws.len() == 1 + n
            &&& ws[0].len() >= 5
            &&& ws[0].last() == ':'
            &&& hex_number(ws[0].drop_last()) == Ok::<u64, NumberErrorView>((addr + 16 * i) as u64)
            &&& ws[1 + j].len() == 2
            &&& hex_number(ws[1 + j]) == Ok::<u64, NumberErrorView>(bytes[16 * i + j] as u64)
            &&& row.len() == ws[0].len() + 3 * n
        }),
{
    law_dump_row_shows_its_bytes(addr as int, bytes, i);
    let row = row_bytes(bytes, i);
    let b = bytes[16 * i + j];
    assert(row[j] == b);
    let first = zero_padded(digits(addr + i * 16, 16), 4);
    assert(first.push(':').drop_last() =~= first);
    law_hex_reads_back((addr + i * 16) as u64, 4);
    law_hex_reads_back(b as u64, 2);
    lemma_padded_length(b as int, 2);
    reveal_strlit(": ");
    assert forall|k: int| 0 <= k < row.len() implies (#[trigger] byte_words(row)[k]).len() == 2 by {
        lemma_padded_length(row[k] as int, 2);
    }
    lemma_joined_pairs(byte_words(row));
}

/// Joined words of two characters.
proof fn lemma_joined_pairs(ws: Seq<Seq<char>>)
    requires
        forall|k: int| 0 <= k < ws.len() ==> (#[trigger] ws[k]).len() == 2,
    ensures
        ws.len() > 0 ==> joined(ws).len() == 3 * ws.len() - 1,
    decreases ws.len(),
{
    if ws.len() > 1 {
        assert(ws[0].len() == 2);
        assert forall|k: int| 0 <= k < ws.drop_first().len() implies (#[trigger] ws.drop_first()[k]).len()
            == 2 by {
            assert(ws.drop_first()[k] == ws[k + 1]);
        }
        lemma_joined_pairs(ws.drop_first());
    } else if ws.len() == 1 {
        assert(ws[0].len() == 2);
    }
}

/// There are as many rows as the bytes fill, the last of them perhaps in part.
pub proof fn law_rows_hold_the_dump(len: int)
    requires
        len >= 0,
    ensures
        16 * row_count(len) >= len,
        16 * row_count(len) < len + 16,
{
}

/// The note on a dump shows its length in decimal, its address in hexadecimal
/// and its file, whatever its name.
pub proof fn law_dump_note_shows_the_dump(addr: usize, len: usize, file: Seq<char>)
    ensures
        dump_note_text(addr as int, len as int, file) == "dumped "@ + digits(len as int, 10)
            + " bytes from 0x"@ + digits(addr as int, 16) + " to "@ + file,
{
}

} // verus!

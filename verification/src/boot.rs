//! Placing a program in memory and starting it.
use vstd::prelude::*;

use crate::args::{command_line, Args, ArgsView};
use crate::number::{digits, push_decimal, push_plain_hex, zero_padded};
use crate::options::{
    law_entry_option, law_sp_option, law_unnamed_options_are_at_their_default,
};

verus! {

/// Size of the address space: 1 MiB.
pub const ADDRESS_SPACE: usize = 0x10_0000;

/// Why a program cannot be placed or entered.
#[derive(Clone, Copy, Debug, PartialEq, Eq, Structural)]
pub enum LoadError {
    /// The program runs past the end of the address space.
    TooLarge { len: usize, load: usize },
    /// The entry is not in the address space.
    EntryOutside { entry: usize },
}

impl LoadError {
    /// The message for the user.
    pub open spec fn message_text(self) -> Seq<char> {
        match self {
            LoadError::TooLarge { len, load } => "program ("@ + digits(len as int, 10)
                + " bytes @ 0x"@ + digits(load as int, 16)
                + ") overflows the 1 MiB address space"@,
            LoadError::EntryOutside { entry } => "entry 0x"@ + digits(entry as int, 16)
                + " outside address space"@,
        }
    }

    /// The message for the user.
    pub fn message(&self) -> (m: String)
        ensures
            m@ == self.message_text(),
    {
        match *self {
            LoadError::TooLarge { len, load } => {
                let mut m = "program (".to_owned();
                push_decimal(&mut m, len as u64);
                m.append(" bytes @ 0x");
                push_plain_hex(&mut m, load as u64);
                m.append(") overflows the 1 MiB address space");
                m
            },
            LoadError::EntryOutside { entry } => {
                let mut m = "entry 0x".to_owned();
                push_plain_hex(&mut m, entry as u64);
                m.append(" outside address space");
                m
            },
        }
    }
}

/// The program of `len` bytes fits where it is to be loaded, and is entered
/// inside the address space. The size is looked at first.
pub open spec fn placement(a: ArgsView, len: int) -> Result<(), LoadError> {
    if a.load + len > ADDRESS_SPACE {
        Err(LoadError::TooLarge { len: len as usize, load: a.load })
    } else if a.entry >= ADDRESS_SPACE {
        Err(LoadError::EntryOutside { entry: a.entry })
    } else {
        Ok(())
    }
}

/// Checks that a program of `len` bytes can be placed and entered.
pub fn check_placement(args: &Args, len: usize) -> (r: Result<(), LoadError>)
    ensures
        r == placement(args@, len as int),
{
    if len > ADDRESS_SPACE || args.load > ADDRESS_SPACE - len {
        return Err(LoadError::TooLarge { len, load: args.load });
    }
    if args.entry >= ADDRESS_SPACE {
        return Err(LoadError::EntryOutside { entry: args.entry });
    }
    Ok(())
}

/// The registers that are set before the first instruction.
#[derive(Clone, Copy, Debug, PartialEq, Eq, Structural)]
pub struct StartState {
    pub cs: u16,
    pub ip: u16,
    pub ss: u16,
    pub sp: u16,
    pub ds: u16,
    pub es: u16,
}

/// All segments start at 0. IP is the low 16 bits of the entry.
pub open spec fn start(a: ArgsView) -> StartState {
    StartState {
        cs: 0,
        ip: (a.entry as int % 0x1_0000) as u16,
        ss: 0,
        sp: a.sp,
        ds: 0,
        es: 0,
    }
}

/// The registers to set before the first instruction.
pub fn start_state(args: &Args) -> (s: StartState)
    ensures
        s == start(args@),
        s.sp == args.sp,
{
    let entry = args.entry;
    assert(entry as u16 == entry % 0x1_0000) by (bit_vector);
    StartState { cs: 0, ip: entry as u16, ss: 0, sp: args.sp, ds: 0, es: 0 }
}

/// The linear address that a segment and an offset name.
pub open spec fn linear(segment: u16, offset: u16) -> int {
    segment * 16 + offset
}

/// Every byte of a program that was accepted has its own address inside the
/// address space.
pub proof fn law_accepted_program_fits(a: ArgsView, len: int, i: int)
    requires
        placement(a, len) is Ok,
        0 <= i < len,
    ensures
        0 <= a.load + i < ADDRESS_SPACE,
{
}

/// A program whose entry is in the first 64 KiB starts at its entry.
pub proof fn law_starts_at_entry(a: ArgsView)
    requires
        a.entry < 0x1_0000,
    ensures
        linear(start(a).cs, start(a).ip) == a.entry,
{
}

/// A program is accepted exactly where its last byte is below 1 MiB and so is
/// its entry. Where it is not, the error names what was asked for, and the size
/// is looked at before the entry.
pub proof fn law_what_is_accepted(a: ArgsView, len: usize)
    ensures
        ({
            let fits = a.load + len <= 0x10_0000;
            let entered_inside = a.entry < 0x10_0000;
            let r = placement(a, len as int);
            &&& r is Ok <==> fits && entered_inside
            &&& !fits ==> r == Err::<(), LoadError>(LoadError::TooLarge { len, load: a.load })
            &&& fits && !entered_inside ==> r == Err::<(), LoadError>(
                LoadError::EntryOutside { entry: a.entry },
            )
        }),
{
}

/// The program starts with SP as it was asked for and with every segment at 0.
/// IP and the entry differ by a multiple of 64 KiB, so an entry in the first
/// 64 KiB is IP.
pub proof fn law_start_registers(a: ArgsView)
    ensures
        start(a).sp == a.sp,
        start(a).cs == 0,
        start(a).ss == 0,
        start(a).ds == 0,
        start(a).es == 0,
        (a.entry - start(a).ip) % 0x1_0000 == 0,
        a.entry < 0x1_0000 ==> start(a).ip == a.entry,
{
}

/// The errors show the size in decimal and the addresses in hexadecimal.
pub proof fn law_load_errors_show_the_numbers(len: usize, load: usize, entry: usize)
    ensures
        (LoadError::TooLarge { len, load }).message_text() == "program ("@ + digits(len as int, 10)
            + " bytes @ 0x"@ + digits(load as int, 16) + ") overflows the 1 MiB address space"@,
        (LoadError::EntryOutside { entry }).message_text() == "entry 0x"@ + digits(entry as int, 16)
            + " outside address space"@,
{
}

/// A command line without `--sp` starts the program with SP at 0x7C00, and one
/// without an address starts it at 0x7E00, whatever else it asks for.
pub proof fn law_default_start(argv: Seq<Seq<char>>)
    requires
        command_line(argv) is Ok,
    ensures
        ({
            let s = start(command_line(argv)->Ok_0);
            &&& !argv.contains("--sp"@) ==> s.sp == 0x7C00
            &&& !argv.contains("--entry"@) && !argv.contains("--load"@) ==> s.ip == 0x7E00
            &&& s.cs == 0 && s.ss == 0 && s.ds == 0 && s.es == 0
        }),
{
    law_unnamed_options_are_at_their_default(argv);
}

/// A program starts with the SP and at the entry that the command line asks
/// for, given as hexadecimal numbers of 16 bits, with or without `0x`.
#[verifier::spinoff_prover]
#[verifier::rlimit(30)]
pub proof fn law_asked_start(x: Seq<Seq<char>>, n: u16, width: int, mark: bool)
    requires
        command_line(x) is Ok,
    ensures
        ({
            let d = zero_padded(digits(n as int, 16), width);
            let v = if mark { "0x"@ + d } else { d };
            let with_sp = command_line(x + seq!["--sp"@, v]);
            let with_entry = command_line(x + seq!["--entry"@, v]);
            &&& with_sp is Ok && start(with_sp->Ok_0).sp == n
            &&& with_entry is Ok && start(with_entry->Ok_0).ip == n
        }),
{
    law_sp_option(x, n as u64, width, mark);
    law_entry_option(x, n as usize, width, mark, Seq::empty());
}

} // verus!

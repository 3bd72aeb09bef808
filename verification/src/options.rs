//! What each option of the command line does, from its text to its effect.
use vstd::prelude::*;

use crate::args::{
    after_arguments, command_line, completed, cpu_named, defaults,
    law_accepted_command_line, law_arguments_are_taken_in_order, law_option_at_the_end,
    value_option, with_value, ArgErrorView, ArgsView, CpuType, DraftView,
    ValueOption,
};
use crate::number::{
    digit, digits, hex_number, law_decimal_reads_back, law_hex_reads_back, lemma_digits_read_back,
    number, zero_padded, NumberErrorView,
};
use crate::settings::{lemma_option_names, option_name};
use crate::text::{before, behind, lemma_span_is, other_than};

verus! {

/// An option behind an accepted command line sets its value.
proof fn lemma_option_behind(x: Seq<Seq<char>>, o: ValueOption, v: Seq<char>)
    requires
        command_line(x) is Ok,
    ensures
        after_arguments(x, defaults()) is Ok,
        command_line(x) == completed(after_arguments(x, defaults())->Ok_0),
        command_line(x + seq![option_name(o), v]) == match with_value(
            o,
            v,
            after_arguments(x, defaults())->Ok_0,
        ) {
            Ok(b) => completed(b),
            Err(e) => Err(e),
        },
{
    lemma_option_names(o);
    law_option_at_the_end(x, option_name(o), v, defaults());
}

/// What is written in digits is no name of an option.
proof fn lemma_digits_are_no_option(n: u64, width: int)
    ensures
        "0x"@ + zero_padded(digits(n as int, 16), width) != "--entry"@,
        zero_padded(digits(n as int, 16), width) != "--entry"@,
{
    reveal_strlit("0x");
    reveal_strlit("--entry");
    let d = digits(n as int, 16);
    lemma_digits_read_back(n as int, 16);
    assert(digit(d[0]) < 16);
    assert(("0x"@ + zero_padded(d, width))[0] == '0');
    assert(zero_padded(d, width)[0] != '-');
    assert("--entry"@[0] == '-');
}

/// `--load` sets the load address to the hexadecimal number that follows, with
/// or without `0x` and with any zeros in front. Nothing else changes but the
/// entry, which follows the load address where none was given.
#[verifier::spinoff_prover]
pub proof fn law_load_option(x: Seq<Seq<char>>, n: usize, width: int, mark: bool)
    requires
        command_line(x) is Ok,
    ensures
        ({
            let d = zero_padded(digits(n as int, 16), width);
            let v = if mark { "0x"@ + d } else { d };
            let old_args = command_line(x)->Ok_0;
            let r = command_line(x + seq!["--load"@, v]);
            &&& r is Ok
            &&& r->Ok_0 == (ArgsView { load: n, entry: r->Ok_0.entry, ..old_args })
            &&& r->Ok_0.entry == n || r->Ok_0.entry == old_args.entry
            &&& !x.contains("--entry"@) ==> r->Ok_0.entry == n
        }),
{
    let d = zero_padded(digits(n as int, 16), width);
    let v = if mark { "0x"@ + d } else { d };
    law_hex_reads_back(n as u64, width);
    lemma_load_behind(x, v, n as u64);
    lemma_digits_are_no_option(n as u64, width);
    let y = x + seq!["--load"@, v];
    law_accepted_command_line(y);
    reveal_strlit("--load");
    reveal_strlit("--entry");
    assert("--load"@.len() != "--entry"@.len());
    if !x.contains("--entry"@) && y.contains("--entry"@) {
        let k = choose|k: int| 0 <= k < y.len() && y[k] == "--entry"@;
        if k < x.len() {
            assert(x[k] == "--entry"@);
        }
        assert(false);
    }
}

/// `--entry` sets the entry to the hexadecimal number that follows, whatever it
/// is, and changes nothing else. It stays when the load address changes later.
#[verifier::spinoff_prover]
pub proof fn law_entry_option(
    x: Seq<Seq<char>>,
    n: usize,
    width: int,
    mark: bool,
    load: Seq<char>,
)
    requires
        command_line(x) is Ok,
    ensures
        ({
            let d = zero_padded(digits(n as int, 16), width);
            let v = if mark { "0x"@ + d } else { d };
            let with_entry = x + seq!["--entry"@, v];
            let both = with_entry + seq!["--load"@, load];
            &&& command_line(with_entry) == Ok::<ArgsView, ArgErrorView>(
                (ArgsView { entry: n, ..command_line(x)->Ok_0 }),
            )
            &&& command_line(both) is Ok ==> command_line(both)->Ok_0.entry == n
        }),
{
    let d = zero_padded(digits(n as int, 16), width);
    let v = if mark { "0x"@ + d } else { d };
    law_hex_reads_back(n as u64, width);
    lemma_entry_behind(x, v, n as u64, load);
}

/// `--sp` with a number behind an accepted command line.
#[verifier::spinoff_prover]
proof fn lemma_sp_behind(x: Seq<Seq<char>>, v: Seq<char>, n: u64)
    requires
        command_line(x) is Ok,
        hex_number(v) == Ok::<u64, NumberErrorView>(n),
    ensures
        command_line(x + seq!["--sp"@, v]) == Ok::<ArgsView, ArgErrorView>(
            (ArgsView { sp: (n as int % 0x1_0000) as u16, ..command_line(x)->Ok_0 }),
        ),
{
    lemma_option_behind(x, ValueOption::Sp, v);
}

/// `--load` with a number behind an accepted command line.
#[verifier::spinoff_prover]
proof fn lemma_load_behind(x: Seq<Seq<char>>, v: Seq<char>, n: u64)
    requires
        command_line(x) is Ok,
        hex_number(v) == Ok::<u64, NumberErrorView>(n),
    ensures
        ({
            let old_args = command_line(x)->Ok_0;
            let r = command_line(x + seq!["--load"@, v]);
            &&& r is Ok
            &&& r->Ok_0 == (ArgsView { load: n as usize, entry: r->Ok_0.entry, ..old_args })
            &&& r->Ok_0.entry == n as usize || r->Ok_0.entry == old_args.entry
        }),
{
    lemma_option_behind(x, ValueOption::Load, v);
}

/// `--entry` with a number behind an accepted command line, and `--load` behind
/// that.
#[verifier::spinoff_prover]
proof fn lemma_entry_behind(x: Seq<Seq<char>>, v: Seq<char>, n: u64, load: Seq<char>)
    requires
        command_line(x) is Ok,
        hex_number(v) == Ok::<u64, NumberErrorView>(n),
    ensures
        ({
            let with_entry = x + seq!["--entry"@, v];
            let both = with_entry + seq!["--load"@, load];
            &&& command_line(with_entry) == Ok::<ArgsView, ArgErrorView>(
                (ArgsView { entry: n as usize, ..command_line(x)->Ok_0 }),
            )
            &&& command_line(both) is Ok ==> command_line(both)->Ok_0.entry == n as usize
        }),
{
    let with_entry = x + seq!["--entry"@, v];
    let a = after_arguments(x, defaults())->Ok_0;
    let b = DraftView { entry: Some(n as usize), ..a };
    lemma_value_of_entry(v, n, a);
    lemma_option_names(ValueOption::Entry);
    law_option_at_the_end(x, "--entry"@, v, defaults());
    assert(after_arguments(with_entry, defaults()) == Ok::<DraftView, ArgErrorView>(b));
    lemma_value_of_load(load, b);
    lemma_option_behind(with_entry, ValueOption::Load, load);
}

/// What `--entry` sets.
proof fn lemma_value_of_entry(v: Seq<char>, n: u64, a: DraftView)
    requires
        hex_number(v) == Ok::<u64, NumberErrorView>(n),
    ensures
        with_value(ValueOption::Entry, v, a) == Ok::<DraftView, ArgErrorView>(
            (DraftView { entry: Some(n as usize), ..a }),
        ),
{
}

/// `--load` leaves an entry that was given.
proof fn lemma_value_of_load(v: Seq<char>, a: DraftView)
    ensures
        with_value(ValueOption::Load, v, a) matches Ok(b) ==> b.entry == a.entry,
{
}

/// `--max` with a number behind an accepted command line.
#[verifier::spinoff_prover]
proof fn lemma_max_behind(x: Seq<Seq<char>>, v: Seq<char>, n: u64)
    requires
        command_line(x) is Ok,
        number(v) == Ok::<u64, NumberErrorView>(n),
    ensures
        command_line(x + seq!["--max"@, v]) == Ok::<ArgsView, ArgErrorView>(
            (ArgsView { max: n, ..command_line(x)->Ok_0 }),
        ),
{
    lemma_option_behind(x, ValueOption::Max, v);
}

/// `--sp` sets SP to the hexadecimal number that follows and changes nothing
/// else. Of a number over 16 bits the low ones are kept.
#[verifier::spinoff_prover]
pub proof fn law_sp_option(x: Seq<Seq<char>>, n: u64, width: int, mark: bool)
    requires
        command_line(x) is Ok,
    ensures
        ({
            let d = zero_padded(digits(n as int, 16), width);
            let v = if mark { "0x"@ + d } else { d };
            let r = command_line(x + seq!["--sp"@, v]);
            &&& r is Ok
            &&& r->Ok_0 == (ArgsView { sp: r->Ok_0.sp, ..command_line(x)->Ok_0 })
            &&& n <= 0xFFFF ==> r->Ok_0.sp == n
            &&& (n - r->Ok_0.sp) % 0x1_0000 == 0
        }),
{
    let d = zero_padded(digits(n as int, 16), width);
    let v = if mark { "0x"@ + d } else { d };
    law_hex_reads_back(n, width);
    lemma_sp_behind(x, v, n);
}

/// `--max` sets the cycle cap to the number that follows, in decimal or in
/// hexadecimal behind `0x`, and changes nothing else.
#[verifier::spinoff_prover]
#[verifier::rlimit(30)]
pub proof fn law_max_option(x: Seq<Seq<char>>, n: u64, width: int)
    requires
        command_line(x) is Ok,
    ensures
        command_line(x + seq!["--max"@, digits(n as int, 10)]) == Ok::<ArgsView, ArgErrorView>(
            (ArgsView { max: n, ..command_line(x)->Ok_0 }),
        ),
        command_line(x + seq!["--max"@, "0x"@ + zero_padded(digits(n as int, 16), width)]) == Ok::<
            ArgsView,
            ArgErrorView,
        >((ArgsView { max: n, ..command_line(x)->Ok_0 })),
{
    law_decimal_reads_back(n);
    law_hex_reads_back(n, width);
    lemma_max_behind(x, digits(n as int, 10), n);
    lemma_max_behind(x, "0x"@ + zero_padded(digits(n as int, 16), width), n);
}

/// Names of different CPUs are different texts.
proof fn lemma_cpu_names()
    ensures
        cpu_named("8086"@) == Some(CpuType::Intel8086),
        cpu_named("8088"@) == Some(CpuType::Intel8088),
        cpu_named("v20"@) == Some(CpuType::NecV20),
        cpu_named("v30"@) == Some(CpuType::NecV30),
        cpu_named("286"@) == Some(CpuType::NecV30),
        "286"@ != "8086"@,
        "286"@ != "8088"@,
        "286"@ != "v20"@,
        "286"@ != "v30"@,
{
    reveal_strlit("8086");
    reveal_strlit("8088");
    reveal_strlit("v20");
    reveal_strlit("v30");
    reveal_strlit("286");
    assert("8086"@[3] == '6' && "8088"@[3] == '8');
    assert("v20"@[1] == '2' && "v30"@[1] == '3');
    assert("286"@[0] == '2' && "v20"@[0] == 'v' && "v30"@[0] == 'v');
    assert("286"@.len() == 3 && "8086"@.len() == 4 && "8088"@.len() == 4 && "v20"@.len() == 3
        && "v30"@.len() == 3);
}

/// `--cpu` chooses the core by its name and changes nothing else; the 286 runs
/// on the V30, and it alone is timed by the datasheet. Any other name is
/// refused.
#[verifier::spinoff_prover]
pub proof fn law_cpu_option(x: Seq<Seq<char>>, name: Seq<char>)
    requires
        command_line(x) is Ok,
    ensures
        ({
            let r = command_line(x + seq!["--cpu"@, name]);
            let a = command_line(x)->Ok_0;
            &&& name == "8086"@ ==> r == Ok::<ArgsView, ArgErrorView>(
                (ArgsView { cpu: CpuType::Intel8086, est286: false, ..a }),
            )
            &&& name == "8088"@ ==> r == Ok::<ArgsView, ArgErrorView>(
                (ArgsView { cpu: CpuType::Intel8088, est286: false, ..a }),
            )
            &&& name == "v20"@ ==> r == Ok::<ArgsView, ArgErrorView>(
                (ArgsView { cpu: CpuType::NecV20, est286: false, ..a }),
            )
            &&& name == "v30"@ ==> r == Ok::<ArgsView, ArgErrorView>(
                (ArgsView { cpu: CpuType::NecV30, est286: false, ..a }),
            )
            &&& name == "286"@ ==> r == Ok::<ArgsView, ArgErrorView>(
                (ArgsView { cpu: CpuType::NecV30, est286: true, ..a }),
            )
            &&& name != "8086"@ && name != "8088"@ && name != "v20"@ && name != "v30"@ && name
                != "286"@ ==> r == Err::<ArgsView, ArgErrorView>(ArgErrorView::UnknownCpu(name))
        }),
{
    lemma_cpu_names();
    lemma_option_behind(x, ValueOption::Cpu, name);
}

/// The text before the first colon, and behind it.
proof fn lemma_cut_at_colon(s: Seq<char>, rest: Seq<char>)
    requires
        forall|i: int| 0 <= i < s.len() ==> #[trigger] s[i] != ':',
    ensures
        before(s + seq![':'] + rest, ':') == s,
        behind(s + seq![':'] + rest, ':') == Some(rest),
        before(s, ':') == s,
        behind(s, ':') is None,
{
    let t = s + seq![':'] + rest;
    assert forall|i: int| 0 <= i < s.len() implies other_than(':')(#[trigger] t[i]) by {
        assert(t[i] == s[i]);
    }
    lemma_span_is(t, other_than(':'), s.len() as int);
    lemma_span_is(s, other_than(':'), s.len() as int);
    assert(t.take(s.len() as int) =~= s);
    assert(t.skip(s.len() as int + 1) =~= rest);
    assert(s.take(s.len() as int) =~= s);
}

/// Digits hold no colon.
proof fn lemma_no_colon(n: int, radix: int, width: int)
    requires
        radix == 10 || radix == 16,
        n >= 0,
    ensures
        forall|i: int| 0 <= i < digits(n, radix).len() ==> #[trigger] digits(n, radix)[i] != ':',
        forall|i: int|
            0 <= i < zero_padded(digits(n, radix), width).len() ==> #[trigger] zero_padded(
                digits(n, radix),
                width,
            )[i] != ':',
{
    lemma_digits_read_back(n, radix);
    let d = digits(n, radix);
    assert forall|i: int| 0 <= i < d.len() implies #[trigger] d[i] != ':' by {
        assert(digit(d[i]) < radix);
    }
    let p = zero_padded(d, width);
    assert forall|i: int| 0 <= i < p.len() implies #[trigger] p[i] != ':' by {
        let pad = p.len() - d.len();
        if i >= pad {
            assert(p[i] == d[i - pad]);
        }
    }
}

/// `--dump` takes an address, a length and, behind a further colon, a file,
/// whatever its name, and changes nothing else.
#[verifier::spinoff_prover]
pub proof fn law_dump_option(
    x: Seq<Seq<char>>,
    addr: usize,
    len: usize,
    width: int,
    file: Seq<char>,
)
    requires
        command_line(x) is Ok,
    ensures
        ({
            let a = "0x"@ + zero_padded(digits(addr as int, 16), width);
            let n = digits(len as int, 10);
            &&& command_line(x + seq!["--dump"@, a + seq![':'] + n]) == Ok::<
                ArgsView,
                ArgErrorView,
            >((ArgsView { dump: Some((addr, len, None)), ..command_line(x)->Ok_0 }))
            &&& command_line(x + seq!["--dump"@, a + seq![':'] + n + seq![':'] + file]) == Ok::<
                ArgsView,
                ArgErrorView,
            >((ArgsView { dump: Some((addr, len, Some(file))), ..command_line(x)->Ok_0 }))
        }),
{
    let d = zero_padded(digits(addr as int, 16), width);
    let a = "0x"@ + d;
    let n = digits(len as int, 10);
    law_hex_reads_back(addr as u64, width);
    law_decimal_reads_back(len as u64);
    lemma_no_colon(addr as int, 16, width);
    lemma_no_colon(len as int, 10, 0);
    reveal_strlit("0x");
    assert forall|i: int| 0 <= i < a.len() implies #[trigger] a[i] != ':' by {
        if i >= 2 {
            assert(a[i] == d[i - 2]);
        }
    }
    law_dump_parts(x, a, n, file);
}

/// What `--dump` takes is read by its parts: before the first colon a number
/// for the address, before the second one for the length, and behind that a
/// file.
#[verifier::spinoff_prover]
pub proof fn law_dump_parts(x: Seq<Seq<char>>, a: Seq<char>, n: Seq<char>, file: Seq<char>)
    requires
        command_line(x) is Ok,
        forall|i: int| 0 <= i < a.len() ==> #[trigger] a[i] != ':',
        forall|i: int| 0 <= i < n.len() ==> #[trigger] n[i] != ':',
    ensures
        ({
            let old_args = command_line(x)->Ok_0;
            let alone = command_line(x + seq!["--dump"@, a]);
            let short = command_line(x + seq!["--dump"@, a + seq![':'] + n]);
            let long = command_line(x + seq!["--dump"@, a + seq![':'] + n + seq![':'] + file]);
            &&& number(a) matches Err(e) ==> {
                &&& alone == Err::<ArgsView, ArgErrorView>(ArgErrorView::BadNumber(e))
                &&& short == alone
                &&& long == alone
            }
            &&& number(a) is Ok ==> alone == Err::<ArgsView, ArgErrorView>(
                ArgErrorView::MissingDumpLength,
            )
            &&& number(a) is Ok ==> (number(n) matches Err(e) ==> {
                &&& short == Err::<ArgsView, ArgErrorView>(ArgErrorView::BadNumber(e))
                &&& long == short
            })
            &&& number(a) is Ok && number(n) is Ok ==> {
                let addr = number(a)->Ok_0 as usize;
                let len = number(n)->Ok_0 as usize;
                &&& short == Ok::<ArgsView, ArgErrorView>(
                    (ArgsView { dump: Some((addr, len, None)), ..old_args }),
                )
                &&& long == Ok::<ArgsView, ArgErrorView>(
                    (ArgsView { dump: Some((addr, len, Some(file))), ..old_args }),
                )
            }
        }),
{
    let tail = n + seq![':'] + file;
    lemma_cut_at_colon(a, n);
    lemma_cut_at_colon(a, tail);
    lemma_cut_at_colon(n, file);
    assert(a + seq![':'] + n + seq![':'] + file =~= a + seq![':'] + tail);
    lemma_option_behind(x, ValueOption::Dump, a);
    lemma_option_behind(x, ValueOption::Dump, a + seq![':'] + n);
    lemma_option_behind(x, ValueOption::Dump, a + seq![':'] + n + seq![':'] + file);
}

/// A value that is no number is the error, with what is wrong with it.
#[verifier::spinoff_prover]
pub proof fn law_bad_numbers_are_refused(x: Seq<Seq<char>>, v: Seq<char>)
    requires
        command_line(x) is Ok,
    ensures
        hex_number(v) matches Err(e) ==> {
            let r = Err::<ArgsView, ArgErrorView>(ArgErrorView::BadNumber(e));
            &&& command_line(x + seq!["--load"@, v]) == r
            &&& command_line(x + seq!["--entry"@, v]) == r
            &&& command_line(x + seq!["--sp"@, v]) == r
        },
        number(v) matches Err(e) ==> command_line(x + seq!["--max"@, v]) == Err::<
            ArgsView,
            ArgErrorView,
        >(ArgErrorView::BadNumber(e)),
{
    lemma_option_behind(x, ValueOption::Load, v);
    lemma_option_behind(x, ValueOption::Entry, v);
    lemma_option_behind(x, ValueOption::Sp, v);
    lemma_option_behind(x, ValueOption::Max, v);
}

/// One more argument behind those that were taken.
proof fn lemma_argument_behind(x: Seq<Seq<char>>, arg: Seq<char>)
    requires
        after_arguments(x, defaults()) is Ok,
    ensures
        ({
            let a = after_arguments(x, defaults())->Ok_0;
            after_arguments(x + seq![arg], defaults()) == match value_option(arg) {
                Some(o) => Err::<DraftView, ArgErrorView>(ArgErrorView::MissingValue(o)),
                None => if arg == "--quiet"@ {
                    Ok(DraftView { quiet: true, ..a })
                } else if a.bin.len() == 0 && !"--"@.is_prefix_of(arg) {
                    Ok(DraftView { bin: arg, ..a })
                } else {
                    Err(ArgErrorView::Unexpected(arg))
                },
            }
        }),
{
    let a = after_arguments(x, defaults())->Ok_0;
    let y = seq![arg];
    law_arguments_are_taken_in_order(x, y, defaults());
    assert(y[0] == arg);
    assert(y.skip(1) =~= Seq::empty());
    let q = DraftView { quiet: true, ..a };
    let b = DraftView { bin: arg, ..a };
    assert(after_arguments(y.skip(1), q) == Ok::<DraftView, ArgErrorView>(q));
    assert(after_arguments(y.skip(1), b) == Ok::<DraftView, ArgErrorView>(b));
}

/// `--quiet` asks for the count alone and changes nothing else.
pub proof fn law_quiet_option(x: Seq<Seq<char>>)
    requires
        command_line(x) is Ok,
    ensures
        command_line(x + seq!["--quiet"@]) == Ok::<ArgsView, ArgErrorView>(
            (ArgsView { quiet: true, ..command_line(x)->Ok_0 }),
        ),
{
    lemma_option_names(ValueOption::Load);
    lemma_argument_behind(x, "--quiet"@);
}

/// An option that takes a value is refused where it is the last argument, by
/// its own name.
#[verifier::spinoff_prover]
pub proof fn law_missing_values_are_refused(x: Seq<Seq<char>>)
    requires
        command_line(x) is Ok,
    ensures
        command_line(x + seq!["--load"@]) == Err::<ArgsView, ArgErrorView>(
            ArgErrorView::MissingValue(ValueOption::Load),
        ),
        command_line(x + seq!["--entry"@]) == Err::<ArgsView, ArgErrorView>(
            ArgErrorView::MissingValue(ValueOption::Entry),
        ),
        command_line(x + seq!["--sp"@]) == Err::<ArgsView, ArgErrorView>(
            ArgErrorView::MissingValue(ValueOption::Sp),
        ),
        command_line(x + seq!["--max"@]) == Err::<ArgsView, ArgErrorView>(
            ArgErrorView::MissingValue(ValueOption::Max),
        ),
        command_line(x + seq!["--dump"@]) == Err::<ArgsView, ArgErrorView>(
            ArgErrorView::MissingValue(ValueOption::Dump),
        ),
        command_line(x + seq!["--cpu"@]) == Err::<ArgsView, ArgErrorView>(
            ArgErrorView::MissingValue(ValueOption::Cpu),
        ),
{
    lemma_option_names(ValueOption::Load);
    lemma_option_names(ValueOption::Entry);
    lemma_option_names(ValueOption::Sp);
    lemma_option_names(ValueOption::Max);
    lemma_option_names(ValueOption::Dump);
    lemma_option_names(ValueOption::Cpu);
    lemma_argument_behind(x, "--load"@);
    lemma_argument_behind(x, "--entry"@);
    lemma_argument_behind(x, "--sp"@);
    lemma_argument_behind(x, "--max"@);
    lemma_argument_behind(x, "--dump"@);
    lemma_argument_behind(x, "--cpu"@);
}

/// The first argument that is no option is the file to run, and without one
/// the command line is refused. A second file is refused, and so is an option
/// that there is not.
pub proof fn law_the_file(x: Seq<Seq<char>>, arg: Seq<char>)
    requires
        arg != "--load"@,
        arg != "--entry"@,
        arg != "--sp"@,
        arg != "--max"@,
        arg != "--dump"@,
        arg != "--cpu"@,
        arg != "--quiet"@,
    ensures
        command_line(Seq::empty()) == Err::<ArgsView, ArgErrorView>(ArgErrorView::Usage),
        command_line(x) is Ok ==> command_line(x + seq![arg]) == Err::<ArgsView, ArgErrorView>(
            ArgErrorView::Unexpected(arg),
        ),
        command_line(x) == Err::<ArgsView, ArgErrorView>(ArgErrorView::Usage) ==> {
            let r = command_line(x + seq![arg]);
            &&& !"--"@.is_prefix_of(arg) && arg.len() > 0 ==> r is Ok && r->Ok_0.bin == arg
            &&& "--"@.is_prefix_of(arg) ==> r == Err::<ArgsView, ArgErrorView>(
                ArgErrorView::Unexpected(arg),
            )
        },
{
    if after_arguments(x, defaults()) is Ok {
        lemma_argument_behind(x, arg);
    } else if command_line(x) == Err::<ArgsView, ArgErrorView>(ArgErrorView::Usage) {
        lemma_usage_is_no_argument(x, defaults());
    }
}

/// Taking arguments never ends in the error that no file is named.
proof fn lemma_usage_is_no_argument(x: Seq<Seq<char>>, a: DraftView)
    ensures
        after_arguments(x, a) != Err::<DraftView, ArgErrorView>(ArgErrorView::Usage),
    decreases x.len(),
{
    if x.len() > 0 {
        match value_option(x[0]) {
            Some(o) => {
                if x.len() > 1 {
                    if let Ok(b) = with_value(o, x[1], a) {
                        lemma_usage_is_no_argument(x.skip(2), b);
                    }
                }
            },
            None => {
                lemma_usage_is_no_argument(x.skip(1), DraftView { quiet: true, ..a });
                lemma_usage_is_no_argument(x.skip(1), DraftView { bin: x[0], ..a });
            },
        }
    }
}

/// What no argument names keeps its value.
proof fn lemma_unnamed_stays(argv: Seq<Seq<char>>, a: DraftView)
    ensures
        after_arguments(argv, a) matches Ok(b) ==> {
            &&& !argv.contains("--load"@) ==> b.load == a.load
            &&& !argv.contains("--sp"@) ==> b.sp == a.sp
            &&& !argv.contains("--max"@) ==> b.max == a.max
            &&& !argv.contains("--cpu"@) ==> b.cpu == a.cpu && b.est286 == a.est286
            &&& !argv.contains("--dump"@) ==> b.dump == a.dump
            &&& !argv.contains("--quiet"@) ==> b.quiet == a.quiet
        },
    decreases argv.len(),
{
    if argv.len() > 0 && after_arguments(argv, a) is Ok {
        assert(argv.contains(argv[0]));
        match value_option(argv[0]) {
            Some(o) => {
                lemma_later_arguments(argv, 2);
                lemma_unnamed_stays(argv.skip(2), with_value(o, argv[1], a)->Ok_0);
            },
            None => {
                lemma_later_arguments(argv, 1);
                lemma_unnamed_stays(argv.skip(1), DraftView { quiet: true, ..a });
                lemma_unnamed_stays(argv.skip(1), DraftView { bin: argv[0], ..a });
            },
        }
    }
}

/// What is among the later arguments is among the arguments.
proof fn lemma_later_arguments(argv: Seq<Seq<char>>, n: int)
    requires
        0 <= n <= argv.len(),
    ensures
        forall|s: Seq<char>| argv.skip(n).contains(s) ==> #[trigger] argv.contains(s),
{
    assert forall|s: Seq<char>| argv.skip(n).contains(s) implies #[trigger] argv.contains(s) by {
        let k = choose|k: int| 0 <= k < argv.skip(n).len() && argv.skip(n)[k] == s;
        assert(argv[k + n] == s);
    }
}

/// An option that is not named leaves its default, whatever else is asked for:
/// loaded at 0x7E00 and entered where it is loaded, SP at 0x7C00, a cap of 50
/// million cycles, on an 8086 by its own cycles, with no dump and all fields.
pub proof fn law_unnamed_options_are_at_their_default(argv: Seq<Seq<char>>)
    ensures
        command_line(argv) matches Ok(a) ==> {
            &&& !argv.contains("--load"@) ==> a.load == 0x7E00
            &&& !argv.contains("--entry"@) ==> a.entry == a.load
            &&& !argv.contains("--sp"@) ==> a.sp == 0x7C00
            &&& !argv.contains("--max"@) ==> a.max == 50_000_000
            &&& !argv.contains("--cpu"@) ==> a.cpu is Intel8086 && !a.est286
            &&& !argv.contains("--dump"@) ==> a.dump is None
            &&& !argv.contains("--quiet"@) ==> !a.quiet
        },
{
    lemma_unnamed_stays(argv, defaults());
    law_accepted_command_line(argv);
}

} // verus!

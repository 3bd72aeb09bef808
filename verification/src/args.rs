//! The command line of the ticker.
use vstd::prelude::*;

use crate::number::{hex_number, number, parse_hex, parse_num, NumberError, NumberErrorView};
use crate::text::{before, behind, cut, same_text, starts_with};

verus! {

/// The CPU cores that can run a program.
#[derive(Clone, Copy, Debug, PartialEq, Eq, Structural)]
pub enum CpuType {
    Intel8086,
    Intel8088,
    /// 80186 instructions on an 8-bit bus.
    NecV20,
    /// 80186 instructions on a 16-bit bus.
    NecV30,
}

/// What the command line asks for.
#[derive(Debug)]
pub struct Args {
    /// The flat binary to run.
    pub bin: String,
    /// Linear load address of the binary.
    pub load: usize,
    /// Linear entry address.
    pub entry: usize,
    pub cpu: CpuType,
    /// Initial SP.
    pub sp: u16,
    /// Cycle cap before declaring a hang.
    pub max: u64,
    /// Print the cycle count only.
    pub quiet: bool,
    /// Report 80286 datasheet timing instead of the core's own cycles.
    pub est286: bool,
    /// Address and length of the memory to show after the run, and the file
    /// that it goes to.
    pub dump: Option<(usize, usize, Option<String>)>,
}

/// The model of `Args`.
#[verifier::ext_equal]
pub struct ArgsView {
    pub bin: Seq<char>,
    pub load: usize,
    pub entry: usize,
    pub cpu: CpuType,
    pub sp: u16,
    pub max: u64,
    pub quiet: bool,
    pub est286: bool,
    pub dump: Option<(usize, usize, Option<Seq<char>>)>,
}

/// The model of an optional string.
pub open spec fn optional_text(s: Option<String>) -> Option<Seq<char>> {
    match s {
        Some(t) => Some(t@),
        None => None,
    }
}

impl View for Args {
    type V = ArgsView;

    open spec fn view(&self) -> ArgsView {
        ArgsView {
            bin: self.bin@,
            load: self.load,
            entry: self.entry,
            cpu: self.cpu,
            sp: self.sp,
            max: self.max,
            quiet: self.quiet,
            est286: self.est286,
            dump: match self.dump {
                Some((addr, len, file)) => Some((addr, len, optional_text(file))),
                None => None,
            },
        }
    }
}

/// What was read of a command line so far.
struct Draft {
    bin: String,
    load: usize,
    /// The entry, once one was given.
    entry: Option<usize>,
    cpu: CpuType,
    sp: u16,
    max: u64,
    quiet: bool,
    est286: bool,
    dump: Option<(usize, usize, Option<String>)>,
}

/// The model of what was read of a command line so far.
#[verifier::ext_equal]
pub struct DraftView {
    pub bin: Seq<char>,
    pub load: usize,
    pub entry: Option<usize>,
    pub cpu: CpuType,
    pub sp: u16,
    pub max: u64,
    pub quiet: bool,
    pub est286: bool,
    pub dump: Option<(usize, usize, Option<Seq<char>>)>,
}

impl View for Draft {
    type V = DraftView;

    closed spec fn view(&self) -> DraftView {
        DraftView {
            bin: self.bin@,
            load: self.load,
            entry: self.entry,
            cpu: self.cpu,
            sp: self.sp,
            max: self.max,
            quiet: self.quiet,
            est286: self.est286,
            dump: match self.dump {
                Some((addr, len, file)) => Some((addr, len, optional_text(file))),
                None => None,
            },
        }
    }
}

/// The options that take a value.
#[derive(Clone, Copy, Debug, PartialEq, Eq, Structural)]
pub enum ValueOption {
    Load,
    Entry,
    Sp,
    Max,
    Dump,
    Cpu,
}

/// Why a command line is refused.
#[derive(Debug)]
pub enum ArgError {
    /// An option is the last argument, and its value is missing.
    MissingValue(ValueOption),
    /// A dump is asked for without a length.
    MissingDumpLength,
    /// A value that should be a number is none.
    BadNumber(NumberError),
    /// There is no CPU of this name.
    UnknownCpu(String),
    /// An argument that is neither an option nor the one file.
    Unexpected(String),
    /// No file is named.
    Usage,
}

/// The model of an `ArgError`.
pub enum ArgErrorView {
    MissingValue(ValueOption),
    MissingDumpLength,
    BadNumber(NumberErrorView),
    UnknownCpu(Seq<char>),
    Unexpected(Seq<char>),
    Usage,
}

impl View for ArgError {
    type V = ArgErrorView;

    open spec fn view(&self) -> ArgErrorView {
        match *self {
            ArgError::MissingValue(o) => ArgErrorView::MissingValue(o),
            ArgError::MissingDumpLength => ArgErrorView::MissingDumpLength,
            ArgError::BadNumber(e) => ArgErrorView::BadNumber(e@),
            ArgError::UnknownCpu(s) => ArgErrorView::UnknownCpu(s@),
            ArgError::Unexpected(s) => ArgErrorView::Unexpected(s@),
            ArgError::Usage => ArgErrorView::Usage,
        }
    }
}

/// The characters of each argument.
pub open spec fn texts(argv: Seq<String>) -> Seq<Seq<char>> {
    argv.map_values(|s: String| s@)
}

/// What holds where no option says otherwise.
pub open spec fn defaults() -> DraftView {
    DraftView {
        bin: Seq::empty(),
        load: 0x7E00,
        entry: None,
        cpu: CpuType::Intel8086,
        sp: 0x7C00,
        max: 50_000_000,
        quiet: false,
        est286: false,
        dump: None,
    }
}

/// The option that takes a value and has this name.
pub open spec fn value_option(arg: Seq<char>) -> Option<ValueOption> {
    if arg == "--load"@ {
        Some(ValueOption::Load)
    } else if arg == "--entry"@ {
        Some(ValueOption::Entry)
    } else if arg == "--sp"@ {
        Some(ValueOption::Sp)
    } else if arg == "--max"@ {
        Some(ValueOption::Max)
    } else if arg == "--dump"@ {
        Some(ValueOption::Dump)
    } else if arg == "--cpu"@ {
        Some(ValueOption::Cpu)
    } else {
        None
    }
}

/// The core that runs the programs of the CPU with this name.
pub open spec fn cpu_named(name: Seq<char>) -> Option<CpuType> {
    if name == "8086"@ {
        Some(CpuType::Intel8086)
    } else if name == "8088"@ {
        Some(CpuType::Intel8088)
    } else if name == "v20"@ {
        Some(CpuType::NecV20)
    } else if name == "v30"@ || name == "286"@ {
        Some(CpuType::NecV30)
    } else {
        None
    }
}

/// A dump as `ADDR:LEN` or `ADDR:LEN:FILE`; the file may hold further colons.
pub open spec fn dump_request(v: Seq<char>) -> Result<
    (usize, usize, Option<Seq<char>>),
    ArgErrorView,
> {
    match (number(before(v, ':')), behind(v, ':')) {
        (Err(e), _) => Err(ArgErrorView::BadNumber(e)),
        (Ok(_), None) => Err(ArgErrorView::MissingDumpLength),
        (Ok(addr), Some(rest)) => match number(before(rest, ':')) {
            Err(e) => Err(ArgErrorView::BadNumber(e)),
            Ok(len) => Ok((addr as usize, len as usize, behind(rest, ':'))),
        },
    }
}

/// `a`, with option `o` set to the value `v`. Addresses and SP are given in
/// hexadecimal; SP keeps the low 16 bits. The 80286 runs on the V30 core, with
/// its own timing.
pub open spec fn with_value(o: ValueOption, v: Seq<char>, a: DraftView) -> Result<
    DraftView,
    ArgErrorView,
> {
    match o {
        ValueOption::Dump => match dump_request(v) {
            Ok(d) => Ok(DraftView { dump: Some(d), ..a }),
            Err(e) => Err(e),
        },
        ValueOption::Cpu => match cpu_named(v) {
            Some(cpu) => Ok(DraftView { cpu, est286: v == "286"@, ..a }),
            None => Err(ArgErrorView::UnknownCpu(v)),
        },
        ValueOption::Max => match number(v) {
            Ok(n) => Ok(DraftView { max: n, ..a }),
            Err(e) => Err(ArgErrorView::BadNumber(e)),
        },
        _ => match hex_number(v) {
            Err(e) => Err(ArgErrorView::BadNumber(e)),
            Ok(n) => Ok(
                match o {
                    ValueOption::Load => DraftView { load: n as usize, ..a },
                    ValueOption::Entry => DraftView { entry: Some(n as usize), ..a },
                    _ => DraftView { sp: (n % 0x1_0000) as u16, ..a },
                },
            ),
        },
    }
}

/// `a`, after the arguments have been taken from left to right. The first bad
/// one is the error.
pub open spec fn after_arguments(argv: Seq<Seq<char>>, a: DraftView) -> Result<
    DraftView,
    ArgErrorView,
>
    decreases argv.len(),
{
    if argv.len() == 0 {
        Ok(a)
    } else {
        let arg = argv[0];
        match value_option(arg) {
            Some(o) => if argv.len() == 1 {
                Err(ArgErrorView::MissingValue(o))
            } else {
                match with_value(o, argv[1], a) {
                    Ok(b) => after_arguments(argv.skip(2), b),
                    Err(e) => Err(e),
                }
            },
            None => if arg == "--quiet"@ {
                after_arguments(argv.skip(1), DraftView { quiet: true, ..a })
            } else if a.bin.len() == 0 && !"--"@.is_prefix_of(arg) {
                after_arguments(argv.skip(1), DraftView { bin: arg, ..a })
            } else {
                Err(ArgErrorView::Unexpected(arg))
            },
        }
    }
}

/// A file has to be named, and an entry that was not given is the load
/// address.
pub open spec fn completed(a: DraftView) -> Result<ArgsView, ArgErrorView> {
    if a.bin.len() == 0 {
        Err(ArgErrorView::Usage)
    } else {
        Ok(
            ArgsView {
                bin: a.bin,
                load: a.load,
                entry: match a.entry {
                    Some(entry) => entry,
                    None => a.load,
                },
                cpu: a.cpu,
                sp: a.sp,
                max: a.max,
                quiet: a.quiet,
                est286: a.est286,
                dump: a.dump,
            },
        )
    }
}

/// What a command line asks for.
pub open spec fn command_line(argv: Seq<Seq<char>>) -> Result<ArgsView, ArgErrorView> {
    match after_arguments(argv, defaults()) {
        Ok(a) => completed(a),
        Err(e) => Err(e),
    }
}

/// The result of `parse_args`, by its models.
pub open spec fn args_result(r: Result<Args, ArgError>) -> Result<ArgsView, ArgErrorView> {
    match r {
        Ok(a) => Ok(a@),
        Err(e) => Err(e@),
    }
}

// ---------------------------------------------------------------------------
// The code
// ---------------------------------------------------------------------------

/// The option that takes a value and has this name.
fn find_option(arg: &str) -> (o: Option<ValueOption>)
    ensures
        o == value_option(arg@),
{
    if same_text(arg, "--load") {
        Some(ValueOption::Load)
    } else if same_text(arg, "--entry") {
        Some(ValueOption::Entry)
    } else if same_text(arg, "--sp") {
        Some(ValueOption::Sp)
    } else if same_text(arg, "--max") {
        Some(ValueOption::Max)
    } else if same_text(arg, "--dump") {
        Some(ValueOption::Dump)
    } else if same_text(arg, "--cpu") {
        Some(ValueOption::Cpu)
    } else {
        None
    }
}

/// The core that runs the programs of the CPU with this name.
fn find_cpu(name: &str) -> (c: Option<CpuType>)
    ensures
        c == cpu_named(name@),
{
    if same_text(name, "8086") {
        Some(CpuType::Intel8086)
    } else if same_text(name, "8088") {
        Some(CpuType::Intel8088)
    } else if same_text(name, "v20") {
        Some(CpuType::NecV20)
    } else if same_text(name, "v30") || same_text(name, "286") {
        Some(CpuType::NecV30)
    } else {
        None
    }
}

/// The result of `parse_dump`, by its models.
spec fn dump_result(r: Result<(usize, usize, Option<String>), ArgError>) -> Result<
    (usize, usize, Option<Seq<char>>),
    ArgErrorView,
> {
    match r {
        Ok((addr, len, file)) => Ok((addr, len, optional_text(file))),
        Err(e) => Err(e@),
    }
}

/// Reads `ADDR:LEN[:FILE]`.
fn parse_dump(v: &str) -> (r: Result<(usize, usize, Option<String>), ArgError>)
    ensures
        dump_result(r) == dump_request(v@),
{
    let (first, rest) = cut(v, ':');
    let addr = match parse_num(first) {
        Ok(n) => n as usize,
        Err(e) => return Err(ArgError::BadNumber(e)),
    };
    match rest {
        None => Err(ArgError::MissingDumpLength),
        Some(rest) => {
            let (second, third) = cut(rest, ':');
            let len = match parse_num(second) {
                Ok(n) => n as usize,
                Err(e) => return Err(ArgError::BadNumber(e)),
            };
            let file = match third {
                Some(f) => Some(f.to_owned()),
                None => None,
            };
            Ok((addr, len, file))
        },
    }
}

/// Sets option `o` to the value `v`.
fn set_value(a: &mut Draft, o: ValueOption, v: &str) -> (r: Result<(), ArgError>)
    ensures
        match r {
            Ok(()) => with_value(o, v@, old(a)@) == Ok::<DraftView, ArgErrorView>(final(a)@),
            Err(e) => with_value(o, v@, old(a)@) == Err::<DraftView, ArgErrorView>(e@),
        },
{
    match o {
        ValueOption::Dump => {
            match parse_dump(v) {
                Ok(d) => {
                    a.dump = Some(d);
                    Ok(())
                },
                Err(e) => Err(e),
            }
        },
        ValueOption::Cpu => {
            match find_cpu(v) {
                Some(cpu) => {
                    a.cpu = cpu;
                    a.est286 = same_text(v, "286");
                    Ok(())
                },
                None => Err(ArgError::UnknownCpu(v.to_owned())),
            }
        },
        ValueOption::Max => {
            match parse_num(v) {
                Ok(n) => {
                    a.max = n;
                    Ok(())
                },
                Err(e) => Err(ArgError::BadNumber(e)),
            }
        },
        _ => {
            let n = match parse_hex(v) {
                Ok(n) => n,
                Err(e) => return Err(ArgError::BadNumber(e)),
            };
            match o {
                ValueOption::Load => {
                    a.load = n as usize;
                },
                ValueOption::Entry => {
                    a.entry = Some(n as usize);
                },
                _ => {
                    assert(n as u16 == n % 0x1_0000) by (bit_vector);
                    a.sp = n as u16;
                },
            }
            Ok(())
        },
    }
}

/// Reads the command line, without the name of the program.
pub fn parse_args(argv: &[String]) -> (r: Result<Args, ArgError>)
    ensures
        args_result(r) == command_line(texts(argv@)),
{
    let mut a = Draft {
        bin: String::new(),
        load: 0x7E00,
        entry: None,
        cpu: CpuType::Intel8086,
        sp: 0x7C00,
        max: 50_000_000,
        quiet: false,
        est286: false,
        dump: None,
    };
    let ghost all = texts(argv@);
    let mut i: usize = 0;
    assert(all.skip(0) == all);
    while i < argv.len()
        invariant
            all == texts(argv@),
            i <= argv.len(),
            after_arguments(all, defaults()) == after_arguments(all.skip(i as int), a@),
        decreases argv.len() - i,
    {
        let arg = argv[i].as_str();
        let ghost rest = all.skip(i as int);
        assert(rest[0] == arg@);
        match find_option(arg) {
            Some(o) => {
                if i + 1 == argv.len() {
                    return Err(ArgError::MissingValue(o));
                }
                assert(rest[1] == argv@[i + 1]@);
                assert(rest.skip(2) == all.skip(i + 2));
                match set_value(&mut a, o, argv[i + 1].as_str()) {
                    Ok(()) => {},
                    Err(e) => return Err(e),
                }
                i = i + 2;
            },
            None => {
                assert(rest.skip(1) == all.skip(i + 1));
                if same_text(arg, "--quiet") {
                    a.quiet = true;
                } else if a.bin.as_str().is_empty() && !starts_with(arg, "--") {
                    a.bin = arg.to_owned();
                } else {
                    return Err(ArgError::Unexpected(arg.to_owned()));
                }
                i = i + 1;
            },
        }
    }
    assert(all.skip(i as int) =~= Seq::empty());
    if a.bin.as_str().is_empty() {
        return Err(ArgError::Usage);
    }
    let entry = match a.entry {
        Some(entry) => entry,
        None => a.load,
    };
    Ok(
        Args {
            bin: a.bin,
            load: a.load,
            entry,
            cpu: a.cpu,
            sp: a.sp,
            max: a.max,
            quiet: a.quiet,
            est286: a.est286,
            dump: a.dump,
        },
    )
}

impl ArgError {
    /// The message for the user.
    pub open spec fn message_text(e: ArgErrorView) -> Seq<char> {
        match e {
            ArgErrorView::MissingValue(ValueOption::Load) => "--load needs a value"@,
            ArgErrorView::MissingValue(ValueOption::Entry) => "--entry needs a value"@,
            ArgErrorView::MissingValue(ValueOption::Sp) => "--sp needs a value"@,
            ArgErrorView::MissingValue(ValueOption::Max) => "--max needs a value"@,
            ArgErrorView::MissingValue(ValueOption::Dump) => "--dump needs ADDR:LEN[:file]"@,
            ArgErrorView::MissingValue(ValueOption::Cpu) => "--cpu needs a value"@,
            ArgErrorView::MissingDumpLength => "--dump len"@,
            ArgErrorView::BadNumber(n) => NumberError::message_text(n),
            ArgErrorView::UnknownCpu(name) => "unknown cpu: "@ + name
                + " (want 8086, 8088, v20, v30, or 286)"@,
            ArgErrorView::Unexpected(arg) => "unexpected argument: "@ + arg,
            ArgErrorView::Usage =>
                "usage: x8616-cycles <flat.bin> [--load hex] [--entry hex] [--cpu 8086|8088] [--sp hex] [--max N] [--quiet]"@,
        }
    }

    /// The message for the user.
    pub fn message(&self) -> (m: String)
        ensures
            m@ == Self::message_text(self@),
    {
        match self {
            ArgError::MissingValue(o) => match o {
                ValueOption::Load => "--load needs a value".to_owned(),
                ValueOption::Entry => "--entry needs a value".to_owned(),
                ValueOption::Sp => "--sp needs a value".to_owned(),
                ValueOption::Max => "--max needs a value".to_owned(),
                ValueOption::Dump => "--dump needs ADDR:LEN[:file]".to_owned(),
                ValueOption::Cpu => "--cpu needs a value".to_owned(),
            },
            ArgError::MissingDumpLength => "--dump len".to_owned(),
            ArgError::BadNumber(e) => e.message(),
            ArgError::UnknownCpu(name) => {
                let mut m = "unknown cpu: ".to_owned();
                m.append(name.as_str());
                m.append(" (want 8086, 8088, v20, v30, or 286)");
                m
            },
            ArgError::Unexpected(arg) => {
                let mut m = "unexpected argument: ".to_owned();
                m.append(arg.as_str());
                m
            },
            ArgError::Usage => {
                "usage: x8616-cycles <flat.bin> [--load hex] [--entry hex] [--cpu 8086|8088] [--sp hex] [--max N] [--quiet]".to_owned()
            },
        }
    }
}

// ---------------------------------------------------------------------------
// Laws
// ---------------------------------------------------------------------------

/// Arguments are taken from left to right: a command line is its first part
/// followed by the rest, and an error in the first part is the error of the
/// whole, unless it is that the part ends before the value of its last option.
pub proof fn law_arguments_are_taken_in_order(x: Seq<Seq<char>>, y: Seq<Seq<char>>, a: DraftView)
    ensures
        match after_arguments(x, a) {
            Ok(b) => after_arguments(x + y, a) == after_arguments(y, b),
            Err(ArgErrorView::MissingValue(_)) => true,
            Err(e) => after_arguments(x + y, a) == Err::<DraftView, ArgErrorView>(e),
        },
    decreases x.len(),
{
    if x.len() == 0 {
        assert(x + y == y);
    } else {
        assert((x + y)[0] == x[0]);
        match value_option(x[0]) {
            Some(o) => {
                if x.len() > 1 {
                    assert((x + y)[1] == x[1]);
                    assert((x + y).skip(2) == x.skip(2) + y);
                    if let Ok(b) = with_value(o, x[1], a) {
                        law_arguments_are_taken_in_order(x.skip(2), y, b);
                    }
                }
            },
            None => {
                assert((x + y).skip(1) == x.skip(1) + y);
                law_arguments_are_taken_in_order(x.skip(1), y, DraftView { quiet: true, ..a });
                law_arguments_are_taken_in_order(x.skip(1), y, DraftView { bin: x[0], ..a });
            },
        }
    }
}

/// An option at the end of accepted arguments sets its value and changes
/// nothing else.
pub proof fn law_option_at_the_end(
    x: Seq<Seq<char>>,
    name: Seq<char>,
    v: Seq<char>,
    a: DraftView,
)
    requires
        after_arguments(x, a) is Ok,
        value_option(name) is Some,
    ensures
        after_arguments(x + seq![name, v], a) == with_value(
            value_option(name)->0,
            v,
            after_arguments(x, a)->Ok_0,
        ),
{
    let y = seq![name, v];
    law_arguments_are_taken_in_order(x, y, a);
    let b = after_arguments(x, a)->Ok_0;
    assert(y.skip(2) =~= Seq::empty());
    assert(y[0] == name && y[1] == v);
    if let Ok(c) = with_value(value_option(name)->0, v, b) {
        assert(after_arguments(y.skip(2), c) == Ok::<DraftView, ArgErrorView>(c));
    }
}

/// Of an option that is given twice the last value holds.
pub proof fn law_last_value_holds(
    o: ValueOption,
    earlier: Seq<char>,
    later: Seq<char>,
    a: DraftView,
)
    requires
        with_value(o, earlier, a) is Ok,
    ensures
        with_value(o, later, with_value(o, earlier, a)->Ok_0) == with_value(o, later, a),
{
}

/// With a file and nothing else everything is at its default: loaded and
/// entered at 0x7E00, on an 8086, with SP at 0x7C00, capped at 50 million
/// cycles.
pub proof fn law_defaults(file: Seq<char>)
    requires
        file.len() > 0,
        !"--"@.is_prefix_of(file),
    ensures
        command_line(seq![file]) == Ok::<ArgsView, ArgErrorView>(
            (ArgsView {
                bin: file,
                load: 0x7E00,
                entry: 0x7E00,
                cpu: CpuType::Intel8086,
                sp: 0x7C00,
                max: 50_000_000,
                quiet: false,
                est286: false,
                dump: None,
            }),
        ),
{
    let argv = seq![file];
    lemma_options_are_dashed(file);
    assert(argv[0] == file);
    assert(argv.skip(1) =~= Seq::empty());
    let a = DraftView { bin: file, ..defaults() };
    assert(after_arguments(argv.skip(1), a) == Ok::<DraftView, ArgErrorView>(a));
    assert(after_arguments(argv, defaults()) == Ok::<DraftView, ArgErrorView>(a));
}

/// The name of every option starts with two dashes.
pub proof fn lemma_options_are_dashed(arg: Seq<char>)
    requires
        !"--"@.is_prefix_of(arg),
    ensures
        value_option(arg) is None,
        arg != "--quiet"@,
{
    reveal_strlit("--");
    reveal_strlit("--load");
    reveal_strlit("--entry");
    reveal_strlit("--sp");
    reveal_strlit("--max");
    reveal_strlit("--dump");
    reveal_strlit("--cpu");
    reveal_strlit("--quiet");
    if arg.len() >= 2 && arg[0] == '-' && arg[1] == '-' {
        assert("--"@ =~= arg.take(2));
    }
}

/// The 80286 runs on the V30 core.
proof fn lemma_286_is_v30()
    ensures
        cpu_named("286"@) == Some(CpuType::NecV30),
{
    reveal_strlit("286");
    reveal_strlit("8086");
    reveal_strlit("8088");
    reveal_strlit("v20");
    assert("286"@[0] == '2' && "v20"@[0] == 'v');
}

/// What the arguments can change: the file is one of them and is set once,
/// the entry changes only through `--entry`, and 80286 timing comes only from
/// asking for the 286 and only with the V30 core.
proof fn lemma_what_arguments_change(argv: Seq<Seq<char>>, a: DraftView)
    ensures
        after_arguments(argv, a) matches Ok(b) ==> {
            &&& a.bin.len() > 0 ==> b.bin == a.bin
            &&& b.bin == a.bin || (argv.contains(b.bin) && !"--"@.is_prefix_of(b.bin))
            &&& !argv.contains("--entry"@) ==> b.entry == a.entry
            &&& b.est286 ==> a.est286 || argv.contains("286"@)
            &&& (a.est286 ==> a.cpu is NecV30) ==> (b.est286 ==> b.cpu is NecV30)
        },
    decreases argv.len(),
{
    if argv.len() > 0 && after_arguments(argv, a) is Ok {
        lemma_286_is_v30();
        assert(argv.contains(argv[0]));
        match value_option(argv[0]) {
            Some(o) => {
                let rest = argv.skip(2);
                let b = with_value(o, argv[1], a)->Ok_0;
                lemma_what_arguments_change(rest, b);
                assert(argv.contains(argv[1]));
                lemma_contains_skip(argv, 2);
            },
            None => {
                let rest = argv.skip(1);
                lemma_what_arguments_change(rest, DraftView { quiet: true, ..a });
                lemma_what_arguments_change(rest, DraftView { bin: argv[0], ..a });
                lemma_contains_skip(argv, 1);
            },
        }
    }
}

/// What is among the later arguments is among the arguments.
proof fn lemma_contains_skip(argv: Seq<Seq<char>>, n: int)
    requires
        0 <= n <= argv.len(),
    ensures
        forall|x: Seq<char>| argv.skip(n).contains(x) ==> #[trigger] argv.contains(x),
{
    assert forall|x: Seq<char>| argv.skip(n).contains(x) implies #[trigger] argv.contains(x) by {
        let k = choose|k: int| 0 <= k < argv.skip(n).len() && argv.skip(n)[k] == x;
        assert(argv[k + n] == x);
    }
}

/// An accepted command line names a file, which does not look like an option;
/// without `--entry` the program is entered where it is loaded; and 80286
/// timing is reported only where the 286 was asked for, and always runs on the
/// V30 core.
pub proof fn law_accepted_command_line(argv: Seq<Seq<char>>)
    ensures
        command_line(argv) matches Ok(a) ==> {
            &&& a.bin.len() > 0
            &&& argv.contains(a.bin)
            &&& !"--"@.is_prefix_of(a.bin)
            &&& !argv.contains("--entry"@) ==> a.entry == a.load
            &&& a.est286 ==> argv.contains("286"@)
            &&& a.est286 ==> a.cpu is NecV30
        },
{
    lemma_what_arguments_change(argv, defaults());
}

/// An entry that was given stays as it was given, whatever it is.
pub proof fn law_given_entry_stays(x: Seq<Seq<char>>, v: Seq<char>, n: u64)
    requires
        command_line(x) is Ok,
        hex_number(v) == Ok::<u64, NumberErrorView>(n),
    ensures
        command_line(x + seq!["--entry"@, v]) == Ok::<ArgsView, ArgErrorView>(
            (ArgsView { entry: n as usize, ..command_line(x)->Ok_0 }),
        ),
{
    reveal_strlit("--load");
    reveal_strlit("--entry");
    assert("--load"@.len() == 6 && "--entry"@.len() == 7);
    law_option_at_the_end(x, "--entry"@, v, defaults());
}

/// Asking for the 286 last runs the program on the V30 core and reports 80286
/// timing.
pub proof fn law_286_runs_on_v30(x: Seq<Seq<char>>)
    requires
        command_line(x) is Ok,
    ensures
        command_line(x + seq!["--cpu"@, "286"@]) == Ok::<ArgsView, ArgErrorView>(
            (ArgsView {
                cpu: CpuType::NecV30,
                est286: true,
                ..command_line(x)->Ok_0
            }),
        ),
{
    lemma_286_is_v30();
    reveal_strlit("--cpu");
    reveal_strlit("--load");
    reveal_strlit("--entry");
    reveal_strlit("--sp");
    reveal_strlit("--max");
    reveal_strlit("--dump");
    assert(value_option("--cpu"@) == Some(ValueOption::Cpu)) by {
        assert("--cpu"@[2] == 'c' && "--max"@[2] == 'm');
    }
    law_option_at_the_end(x, "--cpu"@, "286"@, defaults());
}

/// The model of the arguments shows each of them as it is.
pub proof fn law_model_shows_the_arguments(a: Args)
    ensures
        a@.bin == a.bin@,
        a@.load == a.load,
        a@.entry == a.entry,
        a@.cpu == a.cpu,
        a@.sp == a.sp,
        a@.max == a.max,
        a@.quiet == a.quiet,
        a@.est286 == a.est286,
        a.dump is None <==> a@.dump is None,
        a.dump matches Some((addr, len, file)) ==> a@.dump matches Some((at, n, name)) && at == addr
            && n == len && (file is None <==> name is None) && (file matches Some(f) ==> name == Some(
            f@,
        )),
        args_result(Ok(a)) == Ok::<ArgsView, ArgErrorView>(a@),
{
}

/// The model of an error shows it as it is.
pub proof fn law_model_shows_the_error(o: ValueOption, e: NumberError, s: String)
    ensures
        ArgError::MissingValue(o)@ == ArgErrorView::MissingValue(o),
        ArgError::MissingDumpLength@ is MissingDumpLength,
        ArgError::BadNumber(e)@ == ArgErrorView::BadNumber(e@),
        ArgError::UnknownCpu(s)@ == ArgErrorView::UnknownCpu(s@),
        ArgError::Unexpected(s)@ == ArgErrorView::Unexpected(s@),
        ArgError::Usage@ is Usage,
        args_result(Err(ArgError::Unexpected(s))) == Err::<ArgsView, ArgErrorView>(
            ArgErrorView::Unexpected(s@),
        ),
{
}

/// The messages show what was refused, whatever it is.
pub proof fn law_messages_show_what_was_refused(s: Seq<char>, e: NumberErrorView)
    ensures
        ArgError::message_text(ArgErrorView::UnknownCpu(s)) == "unknown cpu: "@ + s
            + " (want 8086, 8088, v20, v30, or 286)"@,
        ArgError::message_text(ArgErrorView::Unexpected(s)) == "unexpected argument: "@ + s,
        ArgError::message_text(ArgErrorView::BadNumber(e)) == NumberError::message_text(e),
{
}

/// Each argument is taken with all its characters.
pub proof fn law_arguments_are_whole(argv: Seq<String>, i: int)
    requires
        0 <= i < argv.len(),
    ensures
        texts(argv).len() == argv.len(),
        texts(argv)[i] == argv[i]@,
{
}

} // verus!

use x8616_cycles::args::{parse_args, ArgError, Args, CpuType, ValueOption};

fn parse(words: &[&str]) -> Result<Args, ArgError> {
    let argv: Vec<String> = words.iter().map(|w| w.to_string()).collect();
    parse_args(&argv)
}

fn message(words: &[&str]) -> String {
    parse(words).unwrap_err().message()
}

#[test]
fn defaults() {
    let a = parse(&["prog.bin"]).unwrap();
    assert_eq!(a.bin, "prog.bin");
    assert_eq!((a.load, a.entry, a.sp, a.max), (0x7e00, 0x7e00, 0x7c00, 50_000_000));
    assert_eq!(a.cpu, CpuType::Intel8086);
    assert!(!a.quiet && !a.est286 && a.dump.is_none());
}

#[test]
fn every_option() {
    let a = parse(&[
        "--quiet", "--load", "0x100", "--entry", "0x110", "--sp", "0x1fffe", "p", "--max", "1000",
        "--cpu", "8088", "--dump", "0x200:16:out:1.bin",
    ])
    .unwrap();
    assert_eq!((a.load, a.entry, a.sp, a.max), (0x100, 0x110, 0xfffe, 1000));
    assert_eq!(a.cpu, CpuType::Intel8088);
    assert!(a.quiet);
    assert_eq!(a.dump, Some((0x200, 16, Some("out:1.bin".to_string()))));
}

#[test]
fn entry_follows_load() {
    assert_eq!(parse(&["p", "--load", "0x500"]).unwrap().entry, 0x500);
    // An entry that was given stays, even the largest one.
    let a = parse(&["p", "--entry", "0xffffffffffffffff"]).unwrap();
    assert_eq!((a.load, a.entry), (0x7e00, usize::MAX));
    let a = parse(&["p", "--entry", "0", "--load", "0x500"]).unwrap();
    assert_eq!((a.load, a.entry), (0x500, 0));
}

#[test]
fn cpus() {
    assert_eq!(parse(&["p", "--cpu", "v20"]).unwrap().cpu, CpuType::NecV20);
    assert_eq!(parse(&["p", "--cpu", "v30"]).unwrap().cpu, CpuType::NecV30);
    let a = parse(&["p", "--cpu", "286"]).unwrap();
    assert!(a.est286);
    assert_eq!(a.cpu, CpuType::NecV30);
    // The timing model goes with its core.
    let a = parse(&["p", "--cpu", "286", "--cpu", "8086"]).unwrap();
    assert!(!a.est286);
    assert_eq!(a.cpu, CpuType::Intel8086);
    let a = parse(&["p", "--cpu", "286", "--cpu", "v30"]).unwrap();
    assert!(!a.est286);
    assert_eq!(a.cpu, CpuType::NecV30);
    assert!(parse(&["p", "--cpu", "v20", "--cpu", "286"]).unwrap().est286);
    assert_eq!(
        message(&["p", "--cpu", "386"]),
        "unknown cpu: 386 (want 8086, 8088, v20, v30, or 286)"
    );
}

#[test]
fn last_value_holds() {
    assert_eq!(parse(&["--load", "1", "p", "--load", "2"]).unwrap().load, 2);
    assert_eq!(parse(&["--cpu", "v20", "p", "--cpu", "8088"]).unwrap().cpu, CpuType::Intel8088);
}

#[test]
fn addresses_are_hexadecimal() {
    let a = parse(&["p", "--load", "1000"]).unwrap();
    assert_eq!((a.load, a.entry), (0x1000, 0x1000));
    let a = parse(&["p", "--entry", "7E10", "--sp", "7000", "--load", "0X500"]).unwrap();
    assert_eq!((a.load, a.entry, a.sp), (0x500, 0x7e10, 0x7000));
    // The cap and a dump are decimal where they can be.
    let a = parse(&["p", "--max", "1000", "--dump", "10:20"]).unwrap();
    assert_eq!((a.max, a.dump), (1000, Some((10, 20, None))));
    assert_eq!(message(&["p", "--load", "0xg"]), "bad hex: 0xg");
    assert_eq!(message(&["p", "--sp", "sp"]), "bad number: sp");
    assert_eq!(message(&["p", "--entry", ""]), "bad number: ");
    assert_eq!(message(&["p", "--load", "10000000000000000"]), "bad number: 10000000000000000");
}

#[test]
fn order_does_not_matter() {
    let groups: [&[&str]; 5] = [
        &["prog.bin"],
        &["--quiet"],
        &["--load", "100"],
        &["--cpu", "286"],
        &["--dump", "1:2:f"],
    ];
    let show = |order: [usize; 5]| {
        let words: Vec<&str> = order.iter().flat_map(|&i| groups[i].iter().copied()).collect();
        format!("{:?}", parse(&words).unwrap())
    };
    let first = show([0, 1, 2, 3, 4]);
    for order in [[4, 3, 2, 1, 0], [2, 0, 4, 1, 3], [1, 2, 3, 4, 0], [3, 0, 1, 4, 2]] {
        assert_eq!(show(order), first);
    }
}

#[test]
fn first_error_counts() {
    assert!(matches!(
        parse(&["p", "--load", "x", "--cpu", "386"]),
        Err(ArgError::BadNumber(_))
    ));
    assert!(matches!(parse(&["--bogus", "--cpu", "386"]), Err(ArgError::Unexpected(_))));
}

#[test]
fn missing_values() {
    assert!(matches!(
        parse(&["p", "--load"]),
        Err(ArgError::MissingValue(ValueOption::Load))
    ));
    assert_eq!(message(&["p", "--load"]), "--load needs a value");
    assert_eq!(message(&["p", "--entry"]), "--entry needs a value");
    assert_eq!(message(&["p", "--sp"]), "--sp needs a value");
    assert_eq!(message(&["p", "--max"]), "--max needs a value");
    assert_eq!(message(&["p", "--cpu"]), "--cpu needs a value");
    assert_eq!(message(&["p", "--dump"]), "--dump needs ADDR:LEN[:file]");
}

#[test]
fn dumps() {
    assert_eq!(parse(&["p", "--dump", "10:0x20"]).unwrap().dump, Some((10, 32, None)));
    assert_eq!(
        parse(&["p", "--dump", "10:20:"]).unwrap().dump,
        Some((10, 20, Some(String::new())))
    );
    assert!(matches!(parse(&["p", "--dump", "10"]), Err(ArgError::MissingDumpLength)));
    assert_eq!(message(&["p", "--dump", "10"]), "--dump len");
    assert_eq!(message(&["p", "--dump", "zz"]), "bad number: zz");
    assert_eq!(message(&["p", "--dump", "1:0xq"]), "bad hex: 0xq");
    assert_eq!(message(&["p", "--dump", ""]), "bad number: ");
}

#[test]
fn files() {
    assert!(matches!(parse(&[]), Err(ArgError::Usage)));
    assert!(matches!(parse(&["--quiet"]), Err(ArgError::Usage)));
    assert!(matches!(parse(&[""]), Err(ArgError::Usage)));
    assert_eq!(
        message(&[]),
        "usage: x8616-cycles <flat.bin> [--load hex] [--entry hex] [--cpu 8086|8088] [--sp hex] [--max N] [--quiet]"
    );
    assert_eq!(message(&["a", "b"]), "unexpected argument: b");
    assert_eq!(message(&["--nope"]), "unexpected argument: --nope");
    assert_eq!(parse(&["-x"]).unwrap().bin, "-x");
    assert_eq!(parse(&["", "a"]).unwrap().bin, "a");
    // The value of an option may look like anything.
    assert_eq!(message(&["p", "--load", "--quiet"]), "bad number: --quiet");
}

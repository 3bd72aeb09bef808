use x8616_cycles::fields::field;
use x8616_cycles::number::parse_num;
use x8616_cycles::report::{dump_lines, dump_note, RunResult};
use x8616_cycles::text::first_line;

fn result() -> RunResult {
    RunResult {
        est286: false,
        cyc286: 38,
        total: 12350,
        halt: 5,
        insns: 2001,
        al: 0x17,
        ax: 0x0017,
        ip: 0x7e0c,
        halted: true,
    }
}

#[test]
fn result_line() {
    assert_eq!(
        result().line(false),
        "cycles=12345 insns=2001 al=0x17 ax=0x0017 ip=0x7e0c halted=1"
    );
    assert_eq!(result().line(true), "12345");
    let r = RunResult { halted: false, halt: 0, ..result() };
    assert_eq!(
        r.line(false),
        "cycles=12350 insns=2001 al=0x17 ax=0x0017 ip=0x7e0c halted=0"
    );
}

#[test]
fn estimate_line() {
    let r = RunResult { est286: true, ..result() };
    assert_eq!(
        r.line(false),
        "cycles=38 insns=2001 al=0x17 ax=0x0017 ip=0x7e0c halted=1 model=80286-datasheet (v30_bus_cycles=12345)"
    );
    assert_eq!(r.line(true), "38");
    assert_eq!(r.core_cycles(), 12345);
    assert_eq!(r.cycles(), 38);
}

#[test]
fn halted_cycles_do_not_count() {
    let r = RunResult { total: 3, halt: 5, ..result() };
    assert_eq!(r.cycles(), 0);
}

#[test]
fn fields_read_back() {
    let line = result().line(false);
    assert_eq!(field(&line, "cycles"), Some("12345"));
    assert_eq!(field(&line, "halted"), Some("1"));
    assert_eq!(field(&line, "ax"), Some("0x0017"));
    assert_eq!(field(&line, "model"), None);
    assert_eq!(parse_num(field(&line, "cycles").unwrap()).ok(), Some(12345));
    assert_eq!(parse_num(field(&line, "ip").unwrap()).ok(), Some(0x7e0c));
}

#[test]
fn fields_of_other_lines() {
    assert_eq!(field("a=1 a=2", "a"), Some("1"));
    assert_eq!(field("  \t ab=x\n a=", "a"), Some(""));
    assert_eq!(field("a=b=c", "a"), Some("b=c"));
    assert_eq!(field("xa=1", "a"), None);
    assert_eq!(field("", "a"), None);
    assert_eq!(field("  a=1 \t\n  b=2 ", "b"), Some("2"));
    assert_eq!(field("  a=1 \t\n  b=2 ", "c"), None);
    assert_eq!(field("=5", ""), Some("5"));
    assert_eq!(field("k\u{2003}a=1\u{3000}b=2", "b"), Some("2"));
    for (line, key) in [("cycles=1 halted=0", "halted"), ("a = 1", "a"), ("é=ü x", "é")] {
        let prefix = format!("{key}=");
        let expected = line.split_whitespace().find_map(|kv| kv.strip_prefix(&prefix));
        assert_eq!(field(line, key), expected);
    }
}

#[test]
fn dump() {
    let bytes: Vec<u8> = (0..18).collect();
    assert_eq!(
        dump_lines(0x7f0, &bytes),
        vec![
            "07f0: 00 01 02 03 04 05 06 07 08 09 0a 0b 0c 0d 0e 0f".to_string(),
            "0800: 10 11".to_string(),
        ]
    );
    assert_eq!(dump_lines(0xfffff, &[0xab]), vec!["fffff: ab".to_string()]);
    assert_eq!(dump_lines(usize::MAX, &[1]), vec![format!("{:04x}: 01", usize::MAX)]);
    assert_eq!(dump_lines(usize::MAX, &[]), Vec::<String>::new());
    assert_eq!(dump_lines(0, &[7; 32]).len(), 2);
    assert_eq!(dump_note(0x200, 16, "out.bin"), "dumped 16 bytes from 0x200 to out.bin");
    assert_eq!(dump_note(0, 0, ""), "dumped 0 bytes from 0x0 to ");
}

#[test]
fn first_lines() {
    for s in ["", "\n", "a", "a\nb", "a\r\nb", "a\r", "\r\n", "é\n", "a\r\r\nb"] {
        assert_eq!(first_line(s), s.lines().next().unwrap_or(""), "{s:?}");
    }
}

//! Tracer pure parts: script rendering, record parsing, dump assembly, and
//! the staleness gate in front of the display.

use wachy::controller::{display_updates, latency_state};
use wachy::program::FunctionName;
use wachy::trace_stack::{CallInstruction, FrameInfo, LineCallsites, Snapshot, SnapshotProbe, TraceStack};
use wachy::tracer::{parse_record, render_script, DumpParser, LineAggregate, TraceData};
use wachy::views::TraceState;

#[test]
fn script_for_one_probe() {
    let snap = Snapshot {
        version: 3,
        binary_path: b"/bin/a".to_vec(),
        probes: vec![SnapshotProbe { line: 12, address: 0x1000, return_address: 0x1005 }],
    };
    let script = render_script(&snap);
    let expected = "probe /bin/a:0x1000 { @start[tid] = nsecs; }\n\
                    probe /bin/a:0x1005 { $d = nsecs - @start[tid]; @count[12] = count(); @sum_ns[12] = sum($d); }\n\
                    interval:s:1 { print_dump(); clear(); }\n";
    assert_eq!(script, expected.as_bytes().to_vec());
}

#[test]
fn script_for_no_probes_is_just_the_interval() {
    let snap = Snapshot { version: 1, binary_path: b"/bin/a".to_vec(), probes: vec![] };
    let script = render_script(&snap);
    assert_eq!(script, b"interval:s:1 { print_dump(); clear(); }\n".to_vec());
}

#[test]
fn record_parses_exactly() {
    let r = parse_record(b"line 42 count 7 sum_ns 123456").unwrap();
    assert_eq!(r.line, 42);
    assert_eq!(r.count, 7);
    assert_eq!(r.sum_ns, 123456);
}

#[test]
fn record_rejects_malformed_lines() {
    assert!(parse_record(b"").is_none());
    assert!(parse_record(b"line  count 7 sum_ns 1").is_none());
    assert!(parse_record(b"line 42 count 7").is_none());
    assert!(parse_record(b"line 42 count 7 sum_ns ").is_none());
    assert!(parse_record(b"line 42 count 7 sum_ns 12x").is_none());
    assert!(parse_record(b"line 42 count 7 sum_ns 12 ").is_none());
    assert!(parse_record(b"lines 42 count 7 sum_ns 12").is_none());
    assert!(parse_record(b"line 42 counts 7 sum_ns 12").is_none());
    // a value beyond u64 is refused
    assert!(parse_record(b"line 42 count 7 sum_ns 99999999999999999999999").is_none());
    // u64::MAX itself is fine
    let r = parse_record(b"line 1 count 1 sum_ns 18446744073709551615").unwrap();
    assert_eq!(r.sum_ns, u64::MAX);
    assert!(parse_record(b"line 1 count 1 sum_ns 18446744073709551616").is_none());
}

#[test]
fn dump_parser_collects_one_dump() {
    let mut parser = DumpParser::new();
    assert!(parser.feed_line(b"dump_start").is_none());
    assert!(parser.feed_line(b"line 10 count 2 sum_ns 800").is_none());
    assert!(parser.feed_line(b"line 11 count 0 sum_ns 0").is_none());
    let dump = parser.feed_line(b"dump_end").unwrap();
    assert_eq!(dump.len(), 2);
    assert_eq!(dump[0], LineAggregate { line: 10, count: 2, sum_ns: 800 });
    assert_eq!(dump[1], LineAggregate { line: 11, count: 0, sum_ns: 0 });
    // the accumulator is cleared for the next dump
    assert!(parser.feed_line(b"dump_start").is_none());
    let empty = parser.feed_line(b"dump_end").unwrap();
    assert_eq!(empty.len(), 0);
}

#[test]
fn dump_parser_discards_bad_dump_and_recovers() {
    let mut parser = DumpParser::new();
    assert!(parser.feed_line(b"dump_start").is_none());
    assert!(parser.feed_line(b"line 10 count 2 sum_ns 800").is_none());
    // an unparseable line discards the dump; the tracer continues
    assert!(parser.feed_line(b"garbage").is_none());
    assert!(parser.feed_line(b"dump_end").is_none());
    // lines outside a dump are ignored
    assert!(parser.feed_line(b"line 9 count 1 sum_ns 5").is_none());
    // the next well-formed dump goes through
    assert!(parser.feed_line(b"dump_start").is_none());
    assert!(parser.feed_line(b"line 3 count 1 sum_ns 99").is_none());
    let dump = parser.feed_line(b"dump_end").unwrap();
    assert_eq!(dump, vec![LineAggregate { line: 3, count: 1, sum_ns: 99 }]);
}

fn stack_for_display() -> TraceStack {
    let ci = CallInstruction::function(0x10, 5, FunctionName(1));
    let frame = FrameInfo::new(
        FunctionName(0),
        0x1000,
        0x100,
        b"main.c".to_vec(),
        1,
        vec![LineCallsites { line: 12, callsites: vec![ci] }],
    );
    TraceStack::new(b"/bin/prog".to_vec(), frame)
}

#[test]
fn stale_trace_data_never_reaches_the_display() {
    let mut stack = stack_for_display();
    let ci = CallInstruction::function(0x10, 5, FunctionName(1));
    let data_v1 = TraceData {
        version: 1,
        elapsed_ns: 1_000_000_000,
        lines: vec![LineAggregate { line: 12, count: 4, sum_ns: 2000 }],
    };
    // current data is applied
    assert!(display_updates(&stack, &data_v1).is_some());
    // after a mutation the same data is stale and yields nothing
    stack.add_callsite(12, ci);
    assert!(display_updates(&stack, &data_v1).is_none());
    // data stamped with the new version goes through
    let data_v2 = TraceData { version: 2, elapsed_ns: 1, lines: vec![] };
    assert!(display_updates(&stack, &data_v2).is_some());
}

#[test]
fn display_updates_average_latency() {
    let stack = stack_for_display();
    let data = TraceData {
        version: 1,
        elapsed_ns: 1,
        lines: vec![
            LineAggregate { line: 12, count: 4, sum_ns: 2002 },
            LineAggregate { line: 13, count: 0, sum_ns: 0 },
        ],
    };
    let updates = display_updates(&stack, &data).unwrap();
    assert_eq!(updates.len(), 2);
    assert_eq!(updates[0].0, 12);
    assert!(matches!(updates[0].1, TraceState::Traced(500)));
    assert_eq!(updates[1].0, 13);
    assert!(matches!(updates[1].1, TraceState::Untraced));
}

#[test]
fn latency_state_divides_sum_by_count() {
    assert!(matches!(latency_state(4, 2000), TraceState::Traced(500)));
    assert!(matches!(latency_state(3, 1000), TraceState::Traced(333)));
    assert!(matches!(latency_state(0, 0), TraceState::Untraced));
}

#[test]
fn toggling_a_line_yields_its_probes_in_the_script() {
    let mut stack = stack_for_display();
    let ci = CallInstruction::function(0x10, 5, FunctionName(1));
    stack.add_callsite(12, ci);
    let snap = stack.snapshot();
    assert_eq!(snap.version, 2);
    let script = render_script(&snap);
    let expected = "probe /bin/prog:0x1010 { @start[tid] = nsecs; }\n\
                    probe /bin/prog:0x1015 { $d = nsecs - @start[tid]; @count[12] = count(); @sum_ns[12] = sum($d); }\n\
                    interval:s:1 { print_dump(); clear(); }\n";
    assert_eq!(String::from_utf8(script).unwrap(), expected);
}

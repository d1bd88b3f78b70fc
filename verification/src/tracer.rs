//! The pure half of the tracer: rendering a snapshot into the child
//! tracer's script, and parsing the child's periodic aggregate dumps into
//! per-line measurements. Spawning and supervising the child process is
//! left to the embedding program.

use vstd::prelude::*;

use crate::bytes::{
    all_dec_digits, ascii_bytes, ascii_slice, dec_digits, hex_digits, is_dec_digit, match_at,
    parse_u64, push_ascii, push_bytes, push_dec, push_hex, scan_digits, seq_dec_value, tag_at,
};
use crate::trace_stack::{Snapshot, SnapshotProbe, TraceCounter};
use vstd::utf8::is_ascii_chars;

verus! {

/// The two probes of one call site in the tracing script: the first records
/// a per-thread timestamp at the call instruction, the second, just past the
/// call, adds the elapsed time into the line's count and latency buckets.
pub open spec fn probe_text(path: Seq<u8>, p: SnapshotProbe) -> Seq<u8> {
    ascii_bytes("probe "@) + path + ascii_bytes(":0x"@) + hex_digits(p.address as nat)
        + ascii_bytes(" { @start[tid] = nsecs; }\n"@) + ascii_bytes("probe "@) + path
        + ascii_bytes(":0x"@) + hex_digits(p.return_address as nat) + ascii_bytes(
        " { $d = nsecs - @start[tid]; @count["@,
    ) + dec_digits(p.line as nat) + ascii_bytes("] = count(); @sum_ns["@) + dec_digits(
        p.line as nat,
    ) + ascii_bytes("] = sum($d); }\n"@)
}

/// The probe stanzas of a whole snapshot, in selection order.
pub open spec fn probes_text(path: Seq<u8>, probes: Seq<SnapshotProbe>) -> Seq<u8>
    decreases probes.len(),
{
    if probes.len() == 0 {
        Seq::empty()
    } else {
        probes_text(path, probes.drop_last()) + probe_text(path, probes.last())
    }
}

/// The whole tracing script: one stanza per probe, then the periodic
/// aggregate dump at a one-second interval.
pub open spec fn script_text(path: Seq<u8>, probes: Seq<SnapshotProbe>) -> Seq<u8> {
    probes_text(path, probes) + ascii_bytes("interval:s:1 { print_dump(); clear(); }\n"@)
}

/// Render the tracing script for a snapshot: its probes one-to-one with the
/// snapshot's active call sites, followed by the periodic dump clause.
pub fn render_script(snap: &Snapshot) -> (r: Vec<u8>)
    ensures
        r@ == script_text(snap.binary_path@, snap.probes@),
{
    proof {
        reveal_strlit("probe ");
        reveal_strlit(":0x");
        reveal_strlit(" { @start[tid] = nsecs; }\n");
        reveal_strlit(" { $d = nsecs - @start[tid]; @count[");
        reveal_strlit("] = count(); @sum_ns[");
        reveal_strlit("] = sum($d); }\n");
        reveal_strlit("interval:s:1 { print_dump(); clear(); }\n");
    }
    let mut out: Vec<u8> = Vec::new();
    let n = snap.probes.len();
    let mut i: usize = 0;
    while i < n
        invariant
            0 <= i <= n,
            n == snap.probes@.len(),
            out@ == probes_text(snap.binary_path@, snap.probes@.take(i as int)),
            is_ascii_chars("probe "@),
            is_ascii_chars(":0x"@),
            is_ascii_chars(" { @start[tid] = nsecs; }\n"@),
            is_ascii_chars(" { $d = nsecs - @start[tid]; @count["@),
            is_ascii_chars("] = count(); @sum_ns["@),
            is_ascii_chars("] = sum($d); }\n"@),
            is_ascii_chars("interval:s:1 { print_dump(); clear(); }\n"@),
        decreases n - i,
    {
        let p = snap.probes[i];
        push_ascii("probe ", &mut out);
        push_bytes(snap.binary_path.as_slice(), &mut out);
        push_ascii(":0x", &mut out);
        push_hex(p.address, &mut out);
        push_ascii(" { @start[tid] = nsecs; }\n", &mut out);
        push_ascii("probe ", &mut out);
        push_bytes(snap.binary_path.as_slice(), &mut out);
        push_ascii(":0x", &mut out);
        push_hex(p.return_address, &mut out);
        push_ascii(" { $d = nsecs - @start[tid]; @count[", &mut out);
        push_dec(p.line as u64, &mut out);
        push_ascii("] = count(); @sum_ns[", &mut out);
        push_dec(p.line as u64, &mut out);
        push_ascii("] = sum($d); }\n", &mut out);
        proof {
            assert(snap.probes@.take(i + 1).drop_last() =~= snap.probes@.take(i as int));
            assert(snap.probes@.take(i + 1).last() == snap.probes@[i as int]);
            assert(out@ =~= probes_text(snap.binary_path@, snap.probes@.take(i + 1)));
        }
        i = i + 1;
    }
    proof {
        assert(snap.probes@.take(n as int) =~= snap.probes@);
    }
    push_ascii("interval:s:1 { print_dump(); clear(); }\n", &mut out);
    out
}

/// One parsed aggregate record: a source line, how many calls completed in
/// the period, and their summed latency in nanoseconds.
#[derive(Clone, Copy, Debug, PartialEq, Eq, Structural)]
pub struct LineAggregate {
    /// Source line number.
    pub line: u64,
    /// Number of samples in the period.
    pub count: u64,
    /// Summed latency of the samples, in nanoseconds.
    pub sum_ns: u64,
}

/// One measurement period, tagged with the version of the snapshot the
/// measurements belong to, so that stale data can be dropped.
#[derive(Clone, Debug)]
pub struct TraceData {
    /// Version of the snapshot the child was tracing.
    pub version: TraceCounter,
    /// Wall-clock length of the period, in nanoseconds.
    pub elapsed_ns: u64,
    /// Aggregates of the period, one per reported line.
    pub lines: Vec<LineAggregate>,
}

/// What the tracer hands to the controller: a period of data, or a fatal
/// failure of the child process (with its stderr tail).
#[derive(Clone, Debug)]
pub enum TraceMessage {
    /// A period of measurements.
    Data(TraceData),
    /// The child failed; the session ends with this message.
    FatalError(String),
}

/// The bytes of `"line "`, the lead-in of an aggregate record.
pub open spec fn rec_tag_line() -> Seq<u8> {
    ascii_bytes("line "@)
}

/// The bytes of `" count "`, between the line number and the sample count.
pub open spec fn rec_tag_count() -> Seq<u8> {
    ascii_bytes(" count "@)
}

/// The bytes of `" sum_ns "`, between the sample count and the summed
/// latency.
pub open spec fn rec_tag_sum() -> Seq<u8> {
    ascii_bytes(" sum_ns "@)
}

/// The marker line that begins a dump block.
pub open spec fn begin_marker() -> Seq<u8> {
    ascii_bytes("dump_start"@)
}

/// The marker line that ends a dump block.
pub open spec fn end_marker() -> Seq<u8> {
    ascii_bytes("dump_end"@)
}

/// `s` is exactly `line <n> count <c> sum_ns <m>` where `n`, `c`, `m` are
/// the given non-empty digit strings.
pub open spec fn record_shape(s: Seq<u8>, n: Seq<u8>, c: Seq<u8>, m: Seq<u8>) -> bool {
    &&& n.len() > 0 && all_dec_digits(n)
    &&& c.len() > 0 && all_dec_digits(c)
    &&& m.len() > 0 && all_dec_digits(m)
    &&& s == rec_tag_line() + n + rec_tag_count() + c + rec_tag_sum() + m
}

/// `s` matches the record grammar for some digit strings.
pub open spec fn is_record(s: Seq<u8>) -> bool {
    exists|t: (Seq<u8>, Seq<u8>, Seq<u8>)| record_shape(s, t.0, t.1, t.2)
}

/// The digit strings of a record (meaningful only when `is_record`; they
/// are unique, see `lemma_record_shape_unique`).
pub open spec fn record_fields(s: Seq<u8>) -> (Seq<u8>, Seq<u8>, Seq<u8>) {
    choose|t: (Seq<u8>, Seq<u8>, Seq<u8>)| record_shape(s, t.0, t.1, t.2)
}

/// What a record line denotes: its three numbers, when `s` matches the
/// grammar and all three fit in a `u64`; nothing otherwise.
pub open spec fn spec_parse_record(s: Seq<u8>) -> Option<LineAggregate> {
    if is_record(s) {
        let t = record_fields(s);
        if seq_dec_value(t.0) <= u64::MAX && seq_dec_value(t.1) <= u64::MAX && seq_dec_value(t.2)
            <= u64::MAX {
            Some(
                LineAggregate {
                    line: seq_dec_value(t.0) as u64,
                    count: seq_dec_value(t.1) as u64,
                    sum_ns: seq_dec_value(t.2) as u64,
                },
            )
        } else {
            None
        }
    } else {
        None
    }
}

/// Structural consequences of `record_shape`: where each tag and digit run
/// lies in `s`.
proof fn lemma_shape_structure(s: Seq<u8>, n: Seq<u8>, c: Seq<u8>, m: Seq<u8>)
    requires
        record_shape(s, n, c, m),
    ensures
        s.len() == rec_tag_line().len() + n.len() + rec_tag_count().len() + c.len()
            + rec_tag_sum().len() + m.len(),
        tag_at(s, 0, rec_tag_line()),
        tag_at(s, (rec_tag_line().len() + n.len()) as int, rec_tag_count()),
        tag_at(
            s,
            (rec_tag_line().len() + n.len() + rec_tag_count().len() + c.len()) as int,
            rec_tag_sum(),
        ),
        n == s.subrange(
            rec_tag_line().len() as int,
            (rec_tag_line().len() + n.len()) as int,
        ),
        c == s.subrange(
            (rec_tag_line().len() + n.len() + rec_tag_count().len()) as int,
            (rec_tag_line().len() + n.len() + rec_tag_count().len() + c.len()) as int,
        ),
        m == s.subrange(
            (rec_tag_line().len() + n.len() + rec_tag_count().len() + c.len()
                + rec_tag_sum().len()) as int,
            s.len() as int,
        ),
        forall|k: int|
            rec_tag_line().len() <= k < rec_tag_line().len() + n.len() ==> is_dec_digit(s[k]),
        forall|k: int|
            rec_tag_line().len() + n.len() + rec_tag_count().len() <= k < rec_tag_line().len()
                + n.len() + rec_tag_count().len() + c.len() ==> is_dec_digit(s[k]),
        forall|k: int|
            rec_tag_line().len() + n.len() + rec_tag_count().len() + c.len()
                + rec_tag_sum().len() <= k < s.len() ==> is_dec_digit(s[k]),
        s[(rec_tag_line().len() + n.len()) as int] == rec_tag_count()[0],
        s[(rec_tag_line().len() + n.len() + rec_tag_count().len() + c.len()) as int] == rec_tag_sum()[0],
{
    reveal_strlit("line ");
    reveal_strlit(" count ");
    reveal_strlit(" sum_ns ");
    let p1 = rec_tag_line().len() as int;
    let p2 = p1 + n.len();
    let p3 = p2 + rec_tag_count().len();
    let p4 = p3 + c.len();
    let p5 = p4 + rec_tag_sum().len();
    assert(s.subrange(0, p1) =~= rec_tag_line());
    assert(s.subrange(p1, p2) =~= n);
    assert(s.subrange(p2, p3) =~= rec_tag_count());
    assert(s.subrange(p3, p4) =~= c);
    assert(s.subrange(p4, p5) =~= rec_tag_sum());
    assert(s.subrange(p5, s.len() as int) =~= m);
    assert forall|k: int| p1 <= k < p2 implies is_dec_digit(s[k]) by {
        assert(s[k] == n[k - p1]);
    }
    assert forall|k: int| p3 <= k < p4 implies is_dec_digit(s[k]) by {
        assert(s[k] == c[k - p3]);
    }
    assert forall|k: int| p5 <= k < s.len() implies is_dec_digit(s[k]) by {
        assert(s[k] == m[k - p5]);
    }
    assert(s[p2] == s.subrange(p2, p3)[0]);
    assert(s[p4] == s.subrange(p4, p5)[0]);
}

/// A maximal digit run is determined by its start: if digits run from
/// `start` to `start + runlen` and stop there, any scan that walks digits
/// from `start` and stops at the first non-digit stops exactly there.
proof fn lemma_scan_matches_run(s: Seq<u8>, start: int, runlen: int, j: int)
    requires
        0 <= start,
        runlen >= 0,
        start + runlen <= s.len(),
        forall|k: int| start <= k < start + runlen ==> is_dec_digit(s[k]),
        start + runlen == s.len() || !is_dec_digit(s[start + runlen]),
        start <= j <= s.len(),
        forall|k: int| start <= k < j ==> is_dec_digit(s[k]),
        j == s.len() || !is_dec_digit(s[j]),
    ensures
        j == start + runlen,
{
}

/// The decomposition of a record line into its three digit strings is
/// unique.
proof fn lemma_record_shape_unique(
    s: Seq<u8>,
    n1: Seq<u8>,
    c1: Seq<u8>,
    m1: Seq<u8>,
    n2: Seq<u8>,
    c2: Seq<u8>,
    m2: Seq<u8>,
)
    requires
        record_shape(s, n1, c1, m1),
        record_shape(s, n2, c2, m2),
    ensures
        n1 == n2,
        c1 == c2,
        m1 == m2,
{
    reveal_strlit("line ");
    reveal_strlit(" count ");
    reveal_strlit(" sum_ns ");
    lemma_shape_structure(s, n1, c1, m1);
    lemma_shape_structure(s, n2, c2, m2);
    let p1 = rec_tag_line().len() as int;
    assert(!is_dec_digit(rec_tag_count()[0]));
    assert(!is_dec_digit(rec_tag_sum()[0]));
    lemma_scan_matches_run(s, p1, n1.len() as int, p1 + n2.len());
    assert(n1 =~= n2);
    let p3 = p1 + n1.len() + rec_tag_count().len();
    lemma_scan_matches_run(s, p3, c1.len() as int, p3 + c2.len());
    assert(c1 =~= c2);
    assert(m1 =~= m2);
}

/// A line that does not begin with the record lead-in is no record.
proof fn lemma_no_record_bad_lead(s: Seq<u8>)
    requires
        !tag_at(s, 0, rec_tag_line()),
    ensures
        !is_record(s),
{
    if is_record(s) {
        let t = record_fields(s);
        lemma_shape_structure(s, t.0, t.1, t.2);
    }
}

/// After the lead-in, a record continues with a non-empty digit run that
/// ends exactly where `" count "` begins.
proof fn lemma_no_record_bad_count(s: Seq<u8>, j0: int)
    requires
        rec_tag_line().len() <= j0 <= s.len(),
        forall|k: int| rec_tag_line().len() <= k < j0 ==> is_dec_digit(s[k]),
        j0 == s.len() || !is_dec_digit(s[j0]),
        j0 == rec_tag_line().len() || !tag_at(s, j0, rec_tag_count()),
    ensures
        !is_record(s),
{
    reveal_strlit(" count ");
    if is_record(s) {
        let t = record_fields(s);
        lemma_shape_structure(s, t.0, t.1, t.2);
        assert(!is_dec_digit(rec_tag_count()[0]));
        lemma_scan_matches_run(s, rec_tag_line().len() as int, t.0.len() as int, j0);
    }
}

/// After the count, a record continues with a non-empty digit run that ends
/// exactly where `" sum_ns "` begins.
proof fn lemma_no_record_bad_sum(s: Seq<u8>, j0: int, j1: int)
    requires
        rec_tag_line().len() < j0,
        tag_at(s, j0, rec_tag_count()),
        forall|k: int| rec_tag_line().len() <= k < j0 ==> is_dec_digit(s[k]),
        j0 == s.len() || !is_dec_digit(s[j0]),
        j0 + rec_tag_count().len() <= j1 <= s.len(),
        forall|k: int| j0 + rec_tag_count().len() <= k < j1 ==> is_dec_digit(s[k]),
        j1 == s.len() || !is_dec_digit(s[j1]),
        j1 == j0 + rec_tag_count().len() || !tag_at(s, j1, rec_tag_sum()),
    ensures
        !is_record(s),
{
    reveal_strlit(" count ");
    reveal_strlit(" sum_ns ");
    if is_record(s) {
        let t = record_fields(s);
        lemma_shape_structure(s, t.0, t.1, t.2);
        assert(!is_dec_digit(rec_tag_count()[0]));
        assert(!is_dec_digit(rec_tag_sum()[0]));
        lemma_scan_matches_run(s, rec_tag_line().len() as int, t.0.len() as int, j0);
        lemma_scan_matches_run(s, j0 + rec_tag_count().len(), t.1.len() as int, j1);
    }
}

/// After the sum tag, a record ends with a non-empty digit run that runs to
/// the end of the line.
proof fn lemma_no_record_bad_tail(s: Seq<u8>, j0: int, j1: int, j2: int)
    requires
        rec_tag_line().len() < j0,
        tag_at(s, j0, rec_tag_count()),
        forall|k: int| rec_tag_line().len() <= k < j0 ==> is_dec_digit(s[k]),
        j0 == s.len() || !is_dec_digit(s[j0]),
        j0 + rec_tag_count().len() < j1,
        tag_at(s, j1, rec_tag_sum()),
        forall|k: int| j0 + rec_tag_count().len() <= k < j1 ==> is_dec_digit(s[k]),
        j1 == s.len() || !is_dec_digit(s[j1]),
        j1 + rec_tag_sum().len() <= j2 <= s.len(),
        forall|k: int| j1 + rec_tag_sum().len() <= k < j2 ==> is_dec_digit(s[k]),
        j2 == s.len() || !is_dec_digit(s[j2]),
        j2 == j1 + rec_tag_sum().len() || j2 != s.len(),
    ensures
        !is_record(s),
{
    reveal_strlit(" count ");
    reveal_strlit(" sum_ns ");
    if is_record(s) {
        let t = record_fields(s);
        lemma_shape_structure(s, t.0, t.1, t.2);
        assert(!is_dec_digit(rec_tag_count()[0]));
        assert(!is_dec_digit(rec_tag_sum()[0]));
        lemma_scan_matches_run(s, rec_tag_line().len() as int, t.0.len() as int, j0);
        lemma_scan_matches_run(s, j0 + rec_tag_count().len(), t.1.len() as int, j1);
        lemma_scan_matches_run(s, j1 + rec_tag_sum().len(), t.2.len() as int, j2);
    }
}

/// When every structural check passed, the line is a record whose fields
/// are exactly the three scanned digit runs.
proof fn lemma_record_success(s: Seq<u8>, j0: int, j1: int, j2: int)
    requires
        tag_at(s, 0, rec_tag_line()),
        rec_tag_line().len() < j0,
        tag_at(s, j0, rec_tag_count()),
        forall|k: int| rec_tag_line().len() <= k < j0 ==> is_dec_digit(s[k]),
        j0 + rec_tag_count().len() < j1,
        tag_at(s, j1, rec_tag_sum()),
        forall|k: int| j0 + rec_tag_count().len() <= k < j1 ==> is_dec_digit(s[k]),
        j1 + rec_tag_sum().len() < j2,
        j2 == s.len(),
        forall|k: int| j1 + rec_tag_sum().len() <= k < j2 ==> is_dec_digit(s[k]),
    ensures
        is_record(s),
        record_fields(s) == (
            s.subrange(rec_tag_line().len() as int, j0),
            s.subrange(j0 + rec_tag_count().len(), j1),
            s.subrange(j1 + rec_tag_sum().len(), j2),
        ),
{
    let gn = s.subrange(rec_tag_line().len() as int, j0);
    let gc = s.subrange(j0 + rec_tag_count().len(), j1);
    let gm = s.subrange(j1 + rec_tag_sum().len(), j2);
    assert(s =~= rec_tag_line() + gn + rec_tag_count() + gc + rec_tag_sum() + gm);
    assert(record_shape(s, gn, gc, gm));
    let t = (gn, gc, gm);
    assert(record_shape(s, t.0, t.1, t.2));
    assert(is_record(s));
    let u = record_fields(s);
    lemma_record_shape_unique(s, u.0, u.1, u.2, gn, gc, gm);
}

/// Parse one line of child output as an aggregate record, exactly when it
/// matches the record grammar with values that fit in a `u64`.
pub fn parse_record(s: &[u8]) -> (r: Option<LineAggregate>)
    ensures
        r == spec_parse_record(s@),
{
    proof {
        reveal_strlit("line ");
        reveal_strlit(" count ");
        reveal_strlit(" sum_ns ");
    }
    let slen = s.len();
    let t1 = ascii_slice("line ");
    let t2 = ascii_slice(" count ");
    let t3 = ascii_slice(" sum_ns ");
    if !match_at(s, 0, t1) {
        proof {
            lemma_no_record_bad_lead(s@);
        }
        return None;
    }
    let i0 = t1.len();
    let j0 = scan_digits(s, i0);
    if j0 == i0 || !match_at(s, j0, t2) {
        proof {
            lemma_no_record_bad_count(s@, j0 as int);
        }
        return None;
    }
    let i1 = j0 + t2.len();
    let j1 = scan_digits(s, i1);
    if j1 == i1 || !match_at(s, j1, t3) {
        proof {
            lemma_no_record_bad_sum(s@, j0 as int, j1 as int);
        }
        return None;
    }
    let i2 = j1 + t3.len();
    let j2 = scan_digits(s, i2);
    if j2 == i2 || j2 != s.len() {
        proof {
            lemma_no_record_bad_tail(s@, j0 as int, j1 as int, j2 as int);
        }
        return None;
    }
    proof {
        lemma_record_success(s@, j0 as int, j1 as int, j2 as int);
    }
    let nb = crate::bytes::copy_range(s, i0, j0);
    let cb = crate::bytes::copy_range(s, i1, j1);
    let mb = crate::bytes::copy_range(s, i2, j2);
    let nv = parse_u64(nb.as_slice());
    let cv = parse_u64(cb.as_slice());
    let mv = parse_u64(mb.as_slice());
    match (nv, cv, mv) {
        (Some(line), Some(count), Some(sum_ns)) => Some(LineAggregate { line, count, sum_ns }),
        _ => None,
    }
}

/// The streaming dump parser: between a begin marker and an end marker it
/// collects aggregate records; the end marker completes the dump. An
/// unparseable line inside a dump discards that dump (a transient error),
/// and the parser waits for the next begin marker.
pub struct DumpParser {
    /// Whether a begin marker has been seen and the dump is still good.
    pub in_dump: bool,
    /// The records collected since the begin marker.
    pub acc: Vec<LineAggregate>,
}

impl DumpParser {
    /// A parser waiting for the first begin marker.
    pub fn new() -> (r: DumpParser)
        ensures
            !r.in_dump,
            r.acc@ == Seq::<LineAggregate>::empty(),
    {
        let r = DumpParser { in_dump: false, acc: Vec::new() };
        proof {
            assert(r.acc@ =~= Seq::<LineAggregate>::empty());
        }
        r
    }

    /// Feed one line of child output. Returns a completed dump exactly when
    /// the line is the end marker of a dump whose records all parsed.
    pub fn feed_line(&mut self, line: &[u8]) -> (r: Option<Vec<LineAggregate>>)
        ensures
            line@ == begin_marker() ==> final(self).in_dump && final(self).acc@
                == Seq::<LineAggregate>::empty() && r is None,
            line@ != begin_marker() && line@ == end_marker() && old(self).in_dump ==> (r matches
                Some(v) && v@ == old(self).acc@) && !final(self).in_dump && final(self).acc@
                == Seq::<LineAggregate>::empty(),
            line@ != begin_marker() && line@ == end_marker() && !old(self).in_dump ==> r is None
                && *final(self) == *old(self),
            line@ != begin_marker() && line@ != end_marker() && old(self).in_dump ==> r is None
                && match spec_parse_record(line@) {
                Some(rec) => final(self).in_dump && final(self).acc@ == old(self).acc@.push(rec),
                None => !final(self).in_dump && final(self).acc@
                    == Seq::<LineAggregate>::empty(),
            },
            line@ != begin_marker() && line@ != end_marker() && !old(self).in_dump ==> r is None
                && *final(self) == *old(self),
    {
        proof {
            reveal_strlit("dump_start");
            reveal_strlit("dump_end");
        }
        let begin = ascii_slice("dump_start");
        let end = ascii_slice("dump_end");
        if crate::bytes::bytes_eq(line, begin) {
            self.in_dump = true;
            self.acc = Vec::new();
            proof {
                assert(self.acc@ =~= Seq::<LineAggregate>::empty());
            }
            return None;
        }
        if crate::bytes::bytes_eq(line, end) {
            if self.in_dump {
                self.in_dump = false;
                let mut out: Vec<LineAggregate> = Vec::new();
                core::mem::swap(&mut out, &mut self.acc);
                proof {
                    assert(self.acc@ =~= Seq::<LineAggregate>::empty());
                }
                return Some(out);
            }
            return None;
        }
        if self.in_dump {
            match parse_record(line) {
                Some(rec) => {
                    self.acc.push(rec);
                },
                None => {
                    self.in_dump = false;
                    self.acc = Vec::new();
                    proof {
                        assert(self.acc@ =~= Seq::<LineAggregate>::empty());
                    }
                },
            }
        }
        None
    }
}


} // verus!

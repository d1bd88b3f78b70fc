//! The function analyzer: classify each decoded call instruction of a
//! function, attribute it to a source line, drop calls inlined from other
//! files, and group the survivors into a frame.

use vstd::prelude::*;

use crate::error::Error;
use crate::program::{has_key64, key64_at, FunctionName, Program};
use crate::trace_stack::{
    has_line, mapping_view, unique_lines, CallInstruction, FrameInfo, InstructionType,
    LineCallsites, RegName,
};

verus! {

/// One decoded instruction of a function's body, as plain values: its
/// offset from the function start and length, whether it is a call, its
/// first operand's register or memory-base register (for indirect calls),
/// the memory displacement, and the computed absolute target for direct
/// calls.
#[derive(Clone, Copy, Debug)]
pub struct RawInstr {
    /// Offset of the instruction from the function's start address.
    pub offset: u64,
    /// Length of the instruction in bytes.
    pub length: u8,
    /// Whether the instruction is of call kind.
    pub is_call: bool,
    /// First operand's register, when it is a plain register.
    pub reg: Option<RegName>,
    /// First operand's base register, when it is a memory reference.
    pub mem_base: Option<RegName>,
    /// First operand's memory displacement.
    pub mem_disp: i64,
    /// Absolute target address, when the operand is an immediate.
    pub target: Option<u64>,
}

/// What classification yields for one call instruction: a register
/// operand makes an indirect call; a memory operand an indirect call
/// through its base register with the displacement; an immediate target
/// resolves through the binary index (a dynamic stub, a local symbol, or
/// unknown); anything else is unknown.
pub open spec fn spec_classify(
    p: Program,
    relative_ip: u32,
    length: u8,
    ins: RawInstr,
) -> CallInstruction {
    match ins.reg {
        Some(reg) => CallInstruction {
            relative_ip,
            length,
            instruction: InstructionType::Register(reg, None),
        },
        None => match ins.mem_base {
            Some(base) => CallInstruction {
                relative_ip,
                length,
                instruction: InstructionType::Register(base, Some(ins.mem_disp)),
            },
            None => match ins.target {
                Some(t) => if p.spec_in_dynamic_range(t) {
                    if has_key64(p.spec_dyn_map(), t) {
                        CallInstruction {
                            relative_ip,
                            length,
                            instruction: InstructionType::DynamicSymbol(
                                key64_at(p.spec_dyn_map(), t),
                            ),
                        }
                    } else {
                        CallInstruction {
                            relative_ip,
                            length,
                            instruction: InstructionType::Unknown,
                        }
                    }
                } else {
                    if has_key64(p.spec_addr_map(), t) {
                        CallInstruction {
                            relative_ip,
                            length,
                            instruction: InstructionType::Function(key64_at(p.spec_addr_map(), t)),
                        }
                    } else {
                        CallInstruction {
                            relative_ip,
                            length,
                            instruction: InstructionType::Unknown,
                        }
                    }
                },
                None => CallInstruction {
                    relative_ip,
                    length,
                    instruction: InstructionType::Unknown,
                },
            },
        },
    }
}

/// Classify one call instruction by its first operand: a register makes an
/// indirect call; a memory reference makes an indirect call through its
/// base register with the displacement; an immediate target is resolved
/// through the binary index (a dynamic stub, a local symbol, or unknown);
/// anything else is unknown.
pub fn classify_call(
    program: &Program,
    relative_ip: u32,
    length: u8,
    instr: &RawInstr,
) -> (r: CallInstruction)
    requires
        program.wf(),
    ensures
        r == spec_classify(*program, relative_ip, length, *instr),
{
    match instr.reg {
        Some(reg) => CallInstruction::register(relative_ip, length, reg, None),
        None => match instr.mem_base {
            Some(base) => CallInstruction::register(
                relative_ip,
                length,
                base,
                Some(instr.mem_disp),
            ),
            None => match instr.target {
                Some(t) => {
                    let is_dyn = program.is_dynamic_symbol_address(t);
                    match program.get_function_for_address(t) {
                        Some(f) => {
                            if is_dyn {
                                CallInstruction::dynamic_symbol(relative_ip, length, f)
                            } else {
                                CallInstruction::function(relative_ip, length, f)
                            }
                        },
                        None => CallInstruction::unknown(relative_ip, length),
                    }
                },
                None => CallInstruction::unknown(relative_ip, length),
            },
        },
    }
}

/// One call instruction together with the source position its address maps
/// to.
#[derive(Clone, Debug)]
pub struct LocatedCall {
    /// The classified call instruction.
    pub ci: CallInstruction,
    /// Source file its address belongs to.
    pub file: Vec<u8>,
    /// Source line its address belongs to.
    pub line: u32,
}

/// The calls of `located` whose file is `entry`, in order, as (line, call)
/// pairs: calls inlined from another translation unit are dropped, since
/// their lines belong to a different file than the one on display.
pub open spec fn kept_calls(located: Seq<LocatedCall>, entry: Seq<u8>) -> Seq<(u32, CallInstruction)>
    decreases located.len(),
{
    if located.len() == 0 {
        Seq::empty()
    } else {
        let init = kept_calls(located.drop_last(), entry);
        let lc = located.last();
        if lc.file@ == entry {
            init.push((lc.line, lc.ci))
        } else {
            init
        }
    }
}

/// Every kept pair comes from an entry of `located` with the entry file.
pub proof fn lemma_kept_calls_from(located: Seq<LocatedCall>, entry: Seq<u8>, i: int)
    requires
        0 <= i < kept_calls(located, entry).len(),
    ensures
        exists|j: int|
            0 <= j < located.len() && (#[trigger] located[j]).file@ == entry
                && located[j].line == kept_calls(located, entry)[i].0 && located[j].ci
                == kept_calls(located, entry)[i].1,
    decreases located.len(),
{
    let lc = located.last();
    if lc.file@ == entry && i == kept_calls(located, entry).len() - 1 {
        assert(located[located.len() - 1].file@ == entry);
    } else {
        lemma_kept_calls_from(located.drop_last(), entry, i);
        let j = choose|j: int|
            0 <= j < located.drop_last().len() && (#[trigger] located.drop_last()[j]).file@
                == entry && located.drop_last()[j].line == kept_calls(
                located.drop_last(),
                entry,
            )[i].0 && located.drop_last()[j].ci == kept_calls(located.drop_last(), entry)[i].1;
        assert(located[j].file@ == entry);
    }
}

/// Keep the calls located in the entry function's own source file, as
/// (line, call) pairs in instruction order; drop inlined calls from other
/// files.
pub fn attribute_calls(entry_file: &[u8], located: &Vec<LocatedCall>) -> (r: Vec<
    (u32, CallInstruction),
>)
    ensures
        r@ == kept_calls(located@, entry_file@),
{
    let mut out: Vec<(u32, CallInstruction)> = Vec::new();
    let n = located.len();
    let mut i: usize = 0;
    proof {
        assert(located@.take(0) =~= Seq::<LocatedCall>::empty());
    }
    while i < n
        invariant
            0 <= i <= n == located@.len(),
            out@ == kept_calls(located@.take(i as int), entry_file@),
        decreases n - i,
    {
        let lc = &located[i];
        proof {
            assert(located@.take(i + 1).drop_last() =~= located@.take(i as int));
            assert(located@.take(i + 1).last() == located@[i as int]);
        }
        if crate::bytes::bytes_eq(lc.file.as_slice(), entry_file) {
            out.push((lc.line, lc.ci));
        }
        i = i + 1;
    }
    proof {
        assert(located@.take(n as int) =~= located@);
    }
    out
}

/// The (line, call) pairs folded into a map: each call appended to its
/// line's list, lines appearing in first-appearance order in the frame.
pub open spec fn group_spec(pairs: Seq<(u32, CallInstruction)>) -> Map<u32, Seq<CallInstruction>>
    decreases pairs.len(),
{
    if pairs.len() == 0 {
        Map::empty()
    } else {
        let m = group_spec(pairs.drop_last());
        let p = pairs.last();
        m.insert(
            p.0,
            (if m.contains_key(p.0) {
                m[p.0]
            } else {
                Seq::empty()
            }).push(p.1),
        )
    }
}

proof fn lemma_mapping_view_push_line(m: Seq<LineCallsites>, rec: LineCallsites)
    requires
        unique_lines(m),
        !has_line(m, rec.line),
    ensures
        unique_lines(m.push(rec)),
        mapping_view(m.push(rec)).dom() =~= mapping_view(m).dom().insert(rec.line),
        mapping_view(m.push(rec))[rec.line] == rec.callsites@,
        forall|l: u32|
            mapping_view(m).contains_key(l) && l != rec.line ==> mapping_view(m.push(rec))[l]
                == mapping_view(m)[l],
{
    let b = m.push(rec);
    assert forall|i: int, j: int| 0 <= i < j < b.len() implies b[i].line != b[j].line by {
        if j == m.len() {
            assert(b[i] == m[i]);
            if b[i].line == rec.line {
                assert(has_line(m, rec.line));
            }
        }
    }
    assert forall|l: u32| #[trigger] mapping_view(b).contains_key(l) <==> mapping_view(
        m,
    ).dom().insert(rec.line).contains(l) by {
        if has_line(b, l) {
            let i = choose|i: int| 0 <= i < b.len() && b[i].line == l;
            if i < m.len() {
                assert(has_line(m, l));
            }
        }
        if has_line(m, l) {
            let i = choose|i: int| 0 <= i < m.len() && m[i].line == l;
            assert(b[i].line == l);
            assert(has_line(b, l));
        }
        if l == rec.line {
            assert(b[m.len() as int].line == l);
            assert(has_line(b, l));
        }
    }
    crate::trace_stack::lemma_mapping_view_index(b, m.len() as int);
    assert forall|l: u32| mapping_view(m).contains_key(l) && l != rec.line implies mapping_view(
        b,
    )[l] == mapping_view(m)[l] by {
        let i = choose|i: int| 0 <= i < m.len() && m[i].line == l;
        assert(b[i] == m[i]);
        crate::trace_stack::lemma_mapping_view_index(b, i);
        crate::trace_stack::lemma_mapping_view_index(m, i);
    }
}

proof fn lemma_mapping_view_append_ci(
    m: Seq<LineCallsites>,
    i: int,
    rec2: LineCallsites,
    ci: CallInstruction,
)
    requires
        unique_lines(m),
        0 <= i < m.len(),
        rec2.line == m[i].line,
        rec2.callsites@ == m[i].callsites@.push(ci),
    ensures
        unique_lines(m.update(i, rec2)),
        mapping_view(m.update(i, rec2)).dom() =~= mapping_view(m).dom(),
        mapping_view(m.update(i, rec2))[rec2.line] == m[i].callsites@.push(ci),
        forall|l: u32|
            mapping_view(m).contains_key(l) && l != rec2.line ==> mapping_view(
                m.update(i, rec2),
            )[l] == mapping_view(m)[l],
{
    let b = m.update(i, rec2);
    assert(forall|j: int| 0 <= j < b.len() ==> b[j].line == m[j].line);
    assert forall|l: u32| #[trigger] mapping_view(b).contains_key(l) <==> mapping_view(
        m,
    ).contains_key(l) by {
        assert(has_line(b, l) <==> has_line(m, l));
    }
    crate::trace_stack::lemma_mapping_view_index(b, i);
    assert forall|l: u32| mapping_view(m).contains_key(l) && l != rec2.line implies mapping_view(
        b,
    )[l] == mapping_view(m)[l] by {
        let j = choose|j: int| 0 <= j < m.len() && m[j].line == l;
        assert(j != i);
        assert(b[j] == m[j]);
        crate::trace_stack::lemma_mapping_view_index(b, j);
        crate::trace_stack::lemma_mapping_view_index(m, j);
    }
}

/// First entry with this line, by index.
fn find_line(m: &Vec<LineCallsites>, line: u32) -> (r: Option<usize>)
    ensures
        match r {
            Some(i) => i < m@.len() && m@[i as int].line == line,
            None => !has_line(m@, line),
        },
{
    let n = m.len();
    let mut i: usize = 0;
    while i < n
        invariant
            0 <= i <= n == m@.len(),
            forall|j: int| 0 <= j < i ==> m@[j].line != line,
        decreases n - i,
    {
        if m[i].line == line {
            return Some(i);
        }
        i = i + 1;
    }
    None
}

/// Group the (line, call) pairs by line, keeping instruction order within a
/// line and first-appearance order across lines. Every grouped call is one
/// of the pairs.
pub fn group_by_line(pairs: &Vec<(u32, CallInstruction)>) -> (r: Vec<LineCallsites>)
    ensures
        unique_lines(r@),
        mapping_view(r@) == group_spec(pairs@),
        forall|i: int, k: int|
            #![trigger r@[i].callsites@[k]]
            0 <= i < r@.len() && 0 <= k < r@[i].callsites@.len() ==> exists|j: int|
                0 <= j < pairs@.len() && (#[trigger] pairs@[j]).1 == r@[i].callsites@[k],
{
    let mut out: Vec<LineCallsites> = Vec::new();
    let n = pairs.len();
    let mut i: usize = 0;
    proof {
        assert(pairs@.take(0) =~= Seq::<(u32, CallInstruction)>::empty());
        assert(mapping_view(out@) =~= group_spec(pairs@.take(0)));
    }
    while i < n
        invariant
            0 <= i <= n == pairs@.len(),
            unique_lines(out@),
            mapping_view(out@) == group_spec(pairs@.take(i as int)),
            forall|i2: int, k: int|
                #![trigger out@[i2].callsites@[k]]
                0 <= i2 < out@.len() && 0 <= k < out@[i2].callsites@.len() ==> exists|j: int|
                    0 <= j < pairs@.len() && (#[trigger] pairs@[j]).1 == out@[i2].callsites@[k],
        decreases n - i,
    {
        let (line, ci) = pairs[i];
        proof {
            assert(pairs@.take(i + 1).drop_last() =~= pairs@.take(i as int));
            assert(pairs@.take(i + 1).last() == pairs@[i as int]);
        }
        let ghost prev = out@;
        match find_line(&out, line) {
            Some(j) => {
                proof {
                    crate::trace_stack::lemma_mapping_view_index(out@, j as int);
                }
                let mut tmp = LineCallsites { line, callsites: Vec::new() };
                out.set_and_swap(j, &mut tmp);
                tmp.callsites.push(ci);
                let ghost rec2 = tmp;
                out.set_and_swap(j, &mut tmp);
                proof {
                    assert(out@ =~= prev.update(j as int, rec2));
                    lemma_mapping_view_append_ci(prev, j as int, rec2, ci);
                    assert forall|i2: int, k: int|
                        #![trigger out@[i2].callsites@[k]]
                        0 <= i2 < out@.len() && 0 <= k < out@[i2].callsites@.len() implies exists|
                        j2: int,
                    |
                        0 <= j2 < pairs@.len() && (#[trigger] pairs@[j2]).1
                            == out@[i2].callsites@[k] by {
                        if i2 == j && k == out@[i2].callsites@.len() - 1 {
                            assert(pairs@[i as int].1 == out@[i2].callsites@[k]);
                        } else {
                            assert(out@[i2].callsites@[k] == prev[i2].callsites@[k]);
                        }
                    }
                }
            },
            None => {
                let mut cs: Vec<CallInstruction> = Vec::new();
                cs.push(ci);
                let rec = LineCallsites { line, callsites: cs };
                proof {
                    assert(!has_line(prev, line));
                    lemma_mapping_view_push_line(prev, rec);
                }
                out.push(rec);
                proof {
                    assert forall|i2: int, k: int|
                        #![trigger out@[i2].callsites@[k]]
                        0 <= i2 < out@.len() && 0 <= k < out@[i2].callsites@.len() implies exists|
                        j2: int,
                    |
                        0 <= j2 < pairs@.len() && (#[trigger] pairs@[j2]).1
                            == out@[i2].callsites@[k] by {
                        if i2 == out@.len() - 1 {
                            assert(pairs@[i as int].1 == out@[i2].callsites@[k]);
                        } else {
                            assert(out@[i2].callsites@[k] == prev[i2].callsites@[k]);
                        }
                    }
                }
            },
        }
        proof {
            assert(mapping_view(out@) =~= group_spec(pairs@.take(i + 1)));
        }
        i = i + 1;
    }
    proof {
        assert(pairs@.take(n as int) =~= pairs@);
    }
    out
}

/// The (line, call) pairs a function's decoded instructions yield: every
/// call instruction that lies within the function's byte range and whose
/// address the debug info places in the entry function's own source file,
/// classified, in instruction order. Calls out of range, calls the debug
/// info places nowhere, and calls inlined from other files yield nothing.
pub open spec fn frame_pairs(
    p: Program,
    instrs: Seq<RawInstr>,
    address: u64,
    size: u64,
    entry_file: Seq<u8>,
) -> Seq<(u32, CallInstruction)>
    decreases instrs.len(),
{
    if instrs.len() == 0 {
        Seq::empty()
    } else {
        let init = frame_pairs(p, instrs.drop_last(), address, size, entry_file);
        let ins = instrs.last();
        if ins.is_call && ins.offset <= 0xFFFF_FFFF && ins.offset <= size && ins.length <= size
            - ins.offset {
            match crate::program::spec_get_location(
                p.spec_line_data(),
                (address + ins.offset) as u64,
            ) {
                Some(fl) => if fl.0 == entry_file {
                    init.push((fl.1, spec_classify(p, ins.offset as u32, ins.length, ins)))
                } else {
                    init
                },
                None => init,
            }
        } else {
            init
        }
    }
}

/// Build the frame for a function from its decoded instructions: resolve
/// its address and size, classify every call instruction, attribute each
/// to a source line through the debug info, drop calls from other source
/// files, and group the rest by line. A dynamically linked symbol has no
/// body and is refused; a function whose debug info gives no source
/// position is refused. Calls that would lie outside the function's byte
/// range, and calls the debug info places nowhere, are dropped.
pub fn create_frame_info(
    program: &Program,
    function: FunctionName,
    instrs: &Vec<RawInstr>,
) -> (r: Result<FrameInfo, Error>)
    requires
        program.wf(),
        program.valid_name(function),
    ensures
        ({
            let sym = program.spec_symbols()[function.0 as int];
            let entry = crate::program::spec_get_location(program.spec_line_data(), sym.address);
            &&& (sym.address == 0 <==> (r matches Err(e) && e is DynamicSymbolNotEnterable))
            &&& sym.address != 0 && sym.size > u64::MAX - sym.address ==> (r matches Err(e) && e
                is SectionDataUnavailable)
            &&& sym.address != 0 && sym.size <= u64::MAX - sym.address ==> match entry {
                None => (r matches Err(e) && e is NoDebugInfoForFunction),
                Some(fl) => (r matches Ok(fi) && ({
                    &&& fi.spec_function() == function
                    &&& fi.spec_start_address() == sym.address
                    &&& fi.spec_function_size() == sym.size
                    &&& fi.spec_source_file() == fl.0
                    &&& fi.spec_source_line() == fl.1
                    &&& mapping_view(fi.spec_lines()) == group_spec(
                        frame_pairs(*program, instrs@, sym.address, sym.size, fl.0),
                    )
                })),
            }
        }),
{
    let address = program.get_address(function);
    if address == 0 {
        return Err(Error::DynamicSymbolNotEnterable);
    }
    let size = match program.get_symbol(function) {
        Some(s) => s.size,
        None => {
            proof {
                assert(false);
            }
            return Err(Error::SectionDataUnavailable);
        },
    };
    if size > u64::MAX - address {
        return Err(Error::SectionDataUnavailable);
    }
    let entry_loc = match program.get_location(address) {
        Some(l) => l,
        None => {
            return Err(Error::NoDebugInfoForFunction);
        },
    };
    let ghost entry_file = entry_loc.file@;
    let mut located: Vec<LocatedCall> = Vec::new();
    let n = instrs.len();
    let mut i: usize = 0;
    proof {
        assert(instrs@.take(0) =~= Seq::<RawInstr>::empty());
        assert(kept_calls(located@, entry_file) =~= frame_pairs(
            *program,
            instrs@.take(0),
            address,
            size,
            entry_file,
        ));
    }
    while i < n
        invariant
            0 <= i <= n == instrs@.len(),
            program.wf(),
            program.valid_name(function),
            address == program.spec_symbols()[function.0 as int].address,
            size == program.spec_symbols()[function.0 as int].size,
            address + size <= u64::MAX,
            forall|k: int| 0 <= k < located@.len() ==> (#[trigger] located@[k]).ci.fits(size),
            kept_calls(located@, entry_file) == frame_pairs(
                *program,
                instrs@.take(i as int),
                address,
                size,
                entry_file,
            ),
        decreases n - i,
    {
        proof {
            assert(instrs@.take(i + 1).drop_last() =~= instrs@.take(i as int));
            assert(instrs@.take(i + 1).last() == instrs@[i as int]);
        }
        let ins = &instrs[i];
        let ghost prev = located@;
        if ins.is_call && ins.offset <= 0xFFFF_FFFF && ins.offset <= size && (ins.length as u64)
            <= size - ins.offset {
            let rel = ins.offset as u32;
            let ci = classify_call(program, rel, ins.length, ins);
            match program.get_location(address + ins.offset) {
                Some(l) => {
                    located.push(LocatedCall { ci, file: l.file, line: l.line });
                    proof {
                        assert(located@.drop_last() =~= prev);
                        assert(kept_calls(located@, entry_file) == frame_pairs(
                            *program,
                            instrs@.take(i + 1),
                            address,
                            size,
                            entry_file,
                        ));
                    }
                },
                None => {},
            }
        }
        i = i + 1;
    }
    proof {
        assert(instrs@.take(n as int) =~= instrs@);
    }
    let pairs = attribute_calls(entry_loc.file.as_slice(), &located);
    let mapping = group_by_line(&pairs);
    proof {
        assert forall|i2: int, k: int|
            #![trigger mapping@[i2].callsites@[k]]
            0 <= i2 < mapping@.len() && 0 <= k < mapping@[i2].callsites@.len()
                implies mapping@[i2].callsites@[k].fits(size) by {
            let ci = mapping@[i2].callsites@[k];
            let j = choose|j: int| 0 <= j < pairs@.len() && (#[trigger] pairs@[j]).1 == ci;
            lemma_kept_calls_from(located@, entry_loc.file@, j);
        }
    }
    Ok(FrameInfo::new(function, address, size, entry_loc.file, entry_loc.line, mapping))
}

} // verus!

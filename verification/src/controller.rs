//! Controller decisions: what a toggle or a descend request does to the
//! trace stack, and which trace data may reach the display. The event pump
//! and the terminal itself live outside the library; they perform whatever
//! outcome these functions decide.

use vstd::prelude::*;

use crate::program::{FunctionName, Program};
use crate::trace_stack::{
    has_line, line_at, op_step, CallInstruction, InstructionType, StackOp, TraceStack,
};
use crate::tracer::TraceData;
use crate::views::TraceState;

verus! {

/// What toggling a source line decides.
pub enum ToggleOutcome {
    /// The line was being traced; its call site was removed.
    Removed,
    /// The line has no call site; show an informational dialog.
    NoCallsite,
    /// The line has exactly one call site, now selected.
    Added(CallInstruction),
    /// The line has several call sites; the user must pick one.
    Choice(Vec<CallInstruction>),
}

/// Toggle tracing on a source line: unselect it when it was selected;
/// otherwise select its only call site, or hand the candidates back when
/// there are several, or report that there is none.
pub fn toggle_line(stack: &mut TraceStack, line: u32) -> (r: ToggleOutcome)
    requires
        old(stack).wf(),
        old(stack).spec_version() < u64::MAX,
    ensures
        final(stack).wf(),
        old(stack).spec_active_map().contains_key(line) ==> r is Removed && final(stack).model()
            == op_step(old(stack).model(), StackOp::RemoveCallsite(line)),
        !old(stack).spec_active_map().contains_key(line) ==> ({
            let lines = old(stack).spec_top().spec_lines();
            &&& (!has_line(lines, line) || line_at(lines, line).len() == 0) ==> r is NoCallsite
                && *final(stack) == *old(stack)
            &&& has_line(lines, line) && line_at(lines, line).len() == 1 ==> ((r matches
                ToggleOutcome::Added(ci) && ci == line_at(lines, line)[0]) && final(stack).model()
                == op_step(old(stack).model(), StackOp::AddCallsite(line, line_at(lines, line)[0])))
            &&& has_line(lines, line) && line_at(lines, line).len() > 1 ==> ((r matches
                ToggleOutcome::Choice(v) && v@ == line_at(lines, line)) && *final(stack) == *old(
                stack,
            ))
        }),
{
    if stack.remove_callsite(line) {
        return ToggleOutcome::Removed;
    }
    let cs = stack.callsites_at(line);
    if cs.len() == 0 {
        return ToggleOutcome::NoCallsite;
    }
    let ci = cs[0];
    if cs.len() == 1 {
        stack.add_callsite(line, ci);
        ToggleOutcome::Added(ci)
    } else {
        ToggleOutcome::Choice(cs)
    }
}

/// The named (direct or dynamic) targets among a line's call instructions,
/// in order.
pub open spec fn direct_targets(cs: Seq<CallInstruction>) -> Seq<FunctionName>
    decreases cs.len(),
{
    if cs.len() == 0 {
        Seq::empty()
    } else {
        let init = direct_targets(cs.drop_last());
        match cs.last().instruction {
            InstructionType::Function(f) => init.push(f),
            InstructionType::DynamicSymbol(f) => init.push(f),
            _ => init,
        }
    }
}

/// What a descend request on a source line decides.
pub enum EnterOutcome {
    /// The line has no call site; show an informational dialog.
    NoCallsite,
    /// Descend into this function.
    Descend(FunctionName),
    /// The only call site names a dynamically linked (address 0) symbol,
    /// which cannot be entered: show a notice, push nothing.
    DynamicNotice(FunctionName),
    /// Several candidates, or an indirect call among them: the user picks.
    /// `indirect` counts the call sites with no statically known target;
    /// when it is positive the search widens to every symbol of the
    /// binary.
    Choice { direct: Vec<FunctionName>, indirect: usize },
}

/// Decide a descend request on a source line: with a single, statically
/// named, non-dynamic callee, descend into it; with several candidates or
/// any indirect call, hand back the named callees and the indirect count
/// (which widens the search); a lone dynamic callee gets a notice.
pub fn enter_line(program: &Program, stack: &TraceStack, line: u32) -> (r: EnterOutcome)
    requires
        program.wf(),
        stack.wf(),
    ensures
        ({
            let lines = stack.spec_top().spec_lines();
            &&& (!has_line(lines, line) || line_at(lines, line).len() == 0) ==> r is NoCallsite
            &&& has_line(lines, line) && line_at(lines, line).len() > 0 ==> ({
                let cs = line_at(lines, line);
                let dir = direct_targets(cs);
                &&& (cs.len() > 1 || dir.len() < cs.len()) ==> (r matches EnterOutcome::Choice {
                    direct,
                    indirect,
                } && direct@ == dir && indirect == cs.len() - dir.len())
                &&& cs.len() == 1 && dir.len() == 1 ==> ({
                    let f = dir[0];
                    &&& f.0 < program.spec_symbols().len()
                        && program.spec_symbols()[f.0 as int].address != 0 ==> r
                        == EnterOutcome::Descend(f)
                    &&& f.0 < program.spec_symbols().len()
                        && program.spec_symbols()[f.0 as int].address == 0 ==> r
                        == EnterOutcome::DynamicNotice(f)
                    &&& f.0 >= program.spec_symbols().len() ==> r == EnterOutcome::DynamicNotice(f)
                })
            })
        }),
{
    let cs = stack.callsites_at(line);
    let n = cs.len();
    if n == 0 {
        return EnterOutcome::NoCallsite;
    }
    let mut direct: Vec<FunctionName> = Vec::new();
    let mut i: usize = 0;
    proof {
        assert(cs@.take(0) =~= Seq::<CallInstruction>::empty());
    }
    while i < n
        invariant
            0 <= i <= n == cs@.len(),
            direct@ == direct_targets(cs@.take(i as int)),
        decreases n - i,
    {
        proof {
            assert(cs@.take(i + 1).drop_last() =~= cs@.take(i as int));
            assert(cs@.take(i + 1).last() == cs@[i as int]);
        }
        match &cs[i].instruction {
            InstructionType::Function(f) => {
                direct.push(*f);
            },
            InstructionType::DynamicSymbol(f) => {
                direct.push(*f);
            },
            _ => {},
        }
        i = i + 1;
    }
    proof {
        assert(cs@.take(n as int) =~= cs@);
        lemma_direct_targets_len(cs@);
    }
    if n > 1 || direct.len() < n {
        let indirect = n - direct.len();
        return EnterOutcome::Choice { direct, indirect };
    }
    let f = direct[0];
    match program.get_symbol(f) {
        Some(sym) => {
            if sym.address == 0 {
                EnterOutcome::DynamicNotice(f)
            } else {
                EnterOutcome::Descend(f)
            }
        },
        None => EnterOutcome::DynamicNotice(f),
    }
}

/// A line never has more named targets than call instructions.
proof fn lemma_direct_targets_len(cs: Seq<CallInstruction>)
    ensures
        direct_targets(cs).len() <= cs.len(),
    decreases cs.len(),
{
    if cs.len() > 0 {
        lemma_direct_targets_len(cs.drop_last());
    }
}

/// The latency cell a period's aggregate yields for its line: the average
/// latency when any call completed, untraced otherwise.
pub fn latency_state(count: u64, sum_ns: u64) -> (r: TraceState<u64>)
    ensures
        count != 0 ==> r == TraceState::<u64>::Traced(sum_ns / count),
        count == 0 ==> r == TraceState::<u64>::Untraced,
{
    if count != 0 {
        TraceState::Traced(sum_ns / count)
    } else {
        TraceState::Untraced
    }
}

/// The display updates a period of trace data yields: `None` when the data
/// belongs to any snapshot other than the current one — stale data never
/// reaches the display — else one (line, latency) update per reported
/// line.
pub fn display_updates(stack: &TraceStack, data: &TraceData) -> (r: Option<
    Vec<(u64, TraceState<u64>)>,
>)
    ensures
        r is None <==> data.version != stack.spec_version(),
        r matches Some(v) ==> ({
            &&& v@.len() == data.lines@.len()
            &&& forall|i: int|
                0 <= i < v@.len() ==> ({
                    let agg = data.lines@[i];
                    &&& (#[trigger] v@[i]).0 == agg.line
                    &&& agg.count != 0 ==> v@[i].1 == TraceState::<u64>::Traced(
                        agg.sum_ns / agg.count,
                    )
                    &&& agg.count == 0 ==> v@[i].1 == TraceState::<u64>::Untraced
                })
        }),
{
    if !stack.is_current(data.version) {
        return None;
    }
    let mut out: Vec<(u64, TraceState<u64>)> = Vec::new();
    let n = data.lines.len();
    let mut i: usize = 0;
    while i < n
        invariant
            0 <= i <= n == data.lines@.len(),
            out@.len() == i,
            forall|j: int|
                0 <= j < i ==> ({
                    let agg = data.lines@[j];
                    &&& (#[trigger] out@[j]).0 == agg.line
                    &&& agg.count != 0 ==> out@[j].1 == TraceState::<u64>::Traced(
                        agg.sum_ns / agg.count,
                    )
                    &&& agg.count == 0 ==> out@[j].1 == TraceState::<u64>::Untraced
                }),
        decreases n - i,
    {
        let agg = data.lines[i];
        out.push((agg.line, latency_state(agg.count, agg.sum_ns)));
        i = i + 1;
    }
    Some(out)
}

} // verus!

//! The trace stack: call instructions discovered by the analyzer, the
//! per-function frames of the user's drill-down path, and the stack itself
//! with its version-stamped snapshots of the call sites selected for
//! measurement.

use vstd::prelude::*;

use crate::program::FunctionName;

verus! {

/// A register name stored inline, so that call records stay `Copy`.
/// Register names of the supported instruction set are at most eight bytes.
#[derive(Clone, Copy, Debug, PartialEq, Eq)]
pub struct RegName {
    bytes: [u8; 8],
    len: u8,
}

impl RegName {
    /// The name's bytes.
    pub closed spec fn spec_bytes(self) -> Seq<u8> {
        self.bytes@.take(
            if self.len <= 8 {
                self.len as int
            } else {
                8
            },
        )
    }

    /// Wrap a register name of at most eight bytes.
    pub fn from_bytes(v: &[u8]) -> (r: Option<RegName>)
        ensures
            r is Some <==> v@.len() <= 8,
            r matches Some(n) ==> n.spec_bytes() == v@,
    {
        if v.len() > 8 {
            return None;
        }
        let mut bytes: [u8; 8] = [0; 8];
        let mut i: usize = 0;
        while i < v.len()
            invariant
                0 <= i <= v@.len() <= 8,
                forall|j: int| 0 <= j < i ==> bytes@[j] == v@[j],
        decreases v@.len() - i,
        {
            bytes[i] = v[i];
            i = i + 1;
        }
        let r = RegName { bytes, len: v.len() as u8 };
        proof {
            assert(r.spec_bytes() =~= v@);
        }
        Some(r)
    }

    /// The name's bytes, as a fresh vector.
    pub fn to_vec(&self) -> (r: Vec<u8>)
        ensures
            r@ == self.spec_bytes(),
    {
        let n: usize = if self.len <= 8 {
            self.len as usize
        } else {
            8
        };
        let mut out: Vec<u8> = Vec::new();
        let mut i: usize = 0;
        while i < n
            invariant
                0 <= i <= n <= 8,
                n == self.spec_bytes().len(),
                out@ == self.spec_bytes().take(i as int),
            decreases n - i,
        {
            out.push(self.bytes[i]);
            proof {
                assert(out@ =~= self.spec_bytes().take(i + 1));
            }
            i = i + 1;
        }
        proof {
            assert(self.spec_bytes().take(n as int) =~= self.spec_bytes());
        }
        out
    }
}

/// How a call instruction reaches its target.
#[derive(Clone, Copy, Debug, PartialEq, Eq)]
pub enum InstructionType {
    /// Absolute-address call to a known local symbol.
    Function(FunctionName),
    /// Call into a dynamic stub resolved at load time to a named external
    /// symbol.
    DynamicSymbol(FunctionName),
    /// Indirect call through a register, with an optional memory
    /// displacement. The first field is the register name.
    Register(RegName, Option<i64>),
    /// The target cannot be resolved statically.
    Unknown,
}

/// One machine-level call instruction inside a function, attributable to a
/// source line.
#[derive(Clone, Copy, Debug, PartialEq, Eq)]
pub struct CallInstruction {
    /// Offset of the instruction from the function's start address.
    pub relative_ip: u32,
    /// Length of the instruction in bytes.
    pub length: u8,
    /// Classification of the call target.
    pub instruction: InstructionType,
}

impl CallInstruction {
    /// The instruction lies entirely within a function of `size` bytes.
    pub open spec fn fits(self, size: u64) -> bool {
        self.relative_ip + self.length <= size
    }

    /// A call to a known local symbol.
    pub fn function(relative_ip: u32, length: u8, function: FunctionName) -> (r: Self)
        ensures
            r == (CallInstruction {
                relative_ip,
                length,
                instruction: InstructionType::Function(function),
            }),
    {
        CallInstruction { relative_ip, length, instruction: InstructionType::Function(function) }
    }

    /// A call into a dynamic stub for the named external symbol.
    pub fn dynamic_symbol(relative_ip: u32, length: u8, function: FunctionName) -> (r: Self)
        ensures
            r == (CallInstruction {
                relative_ip,
                length,
                instruction: InstructionType::DynamicSymbol(function),
            }),
    {
        CallInstruction {
            relative_ip,
            length,
            instruction: InstructionType::DynamicSymbol(function),
        }
    }

    /// An indirect call through a register.
    pub fn register(
        relative_ip: u32,
        length: u8,
        register: RegName,
        displacement: Option<i64>,
    ) -> (r: Self)
        ensures
            r == (CallInstruction {
                relative_ip,
                length,
                instruction: InstructionType::Register(register, displacement),
            }),
    {
        CallInstruction {
            relative_ip,
            length,
            instruction: InstructionType::Register(register, displacement),
        }
    }

    /// A call whose target cannot be resolved statically.
    pub fn unknown(relative_ip: u32, length: u8) -> (r: Self)
        ensures
            r == (CallInstruction { relative_ip, length, instruction: InstructionType::Unknown }),
    {
        CallInstruction { relative_ip, length, instruction: InstructionType::Unknown }
    }
}

/// The call instructions of one source line.
#[derive(Clone, Debug)]
pub struct LineCallsites {
    /// Source line number.
    pub line: u32,
    /// The call instructions attributed to that line, in address order.
    pub callsites: Vec<CallInstruction>,
}

/// No two entries describe the same source line.
pub open spec fn unique_lines(m: Seq<LineCallsites>) -> bool {
    forall|i: int, j: int| 0 <= i < j < m.len() ==> m[i].line != m[j].line
}

/// Some entry describes line `l`.
pub open spec fn has_line(m: Seq<LineCallsites>, l: u32) -> bool {
    exists|i: int| 0 <= i < m.len() && m[i].line == l
}

/// The call instructions of line `l` (meaningful only when `has_line`).
pub open spec fn line_at(m: Seq<LineCallsites>, l: u32) -> Seq<CallInstruction> {
    m[choose|i: int| 0 <= i < m.len() && m[i].line == l].callsites@
}

/// The entries as a map from source line to its call instructions.
pub open spec fn mapping_view(m: Seq<LineCallsites>) -> Map<u32, Seq<CallInstruction>> {
    Map::new(|l: u32| has_line(m, l), |l: u32| line_at(m, l))
}

/// With unique lines, the entry at index `i` is what the map view returns
/// for its line.
pub proof fn lemma_mapping_view_index(m: Seq<LineCallsites>, i: int)
    requires
        unique_lines(m),
        0 <= i < m.len(),
    ensures
        mapping_view(m).contains_key(m[i].line),
        mapping_view(m)[m[i].line] == m[i].callsites@,
{
    assert(has_line(m, m[i].line));
    let j = choose|j: int| 0 <= j < m.len() && m[j].line == m[i].line;
    assert(j == i);
}

/// One level of the user's drill-down: a function under inspection, its
/// location, and its call instructions grouped by source line.
///
/// Well-formedness (checked as a type invariant): the source lines are
/// unique, every call instruction lies within the function's byte range, and
/// the function's address range does not wrap the address space.
pub struct FrameInfo {
    function: FunctionName,
    start_address: u64,
    function_size: u64,
    source_file: Vec<u8>,
    source_line: u32,
    mapping: Vec<LineCallsites>,
}

impl FrameInfo {
    /// Frame invariant: unique source lines, every call instruction within
    /// the function's byte range, and an address range that does not wrap.
    /// Holds of every frame (checked as a type invariant).
    #[verifier::type_invariant]
    pub open spec fn wf(self) -> bool {
        &&& unique_lines(self.spec_lines())
        &&& forall|i: int, k: int|
            0 <= i < self.spec_lines().len() && 0 <= k < self.spec_lines()[i].callsites@.len()
                ==> self.spec_lines()[i].callsites@[k].fits(self.spec_function_size())
        &&& self.spec_start_address() + self.spec_function_size() <= u64::MAX
    }

    /// The function under inspection.
    pub closed spec fn spec_function(self) -> FunctionName {
        self.function
    }

    /// Its start address in the binary.
    pub closed spec fn spec_start_address(self) -> u64 {
        self.start_address
    }

    /// Its size in bytes.
    pub closed spec fn spec_function_size(self) -> u64 {
        self.function_size
    }

    /// Path of the source file the function was compiled from.
    pub closed spec fn spec_source_file(self) -> Seq<u8> {
        self.source_file@
    }

    /// Source line of the function's entry point.
    pub closed spec fn spec_source_line(self) -> u32 {
        self.source_line
    }

    /// The line-to-callsites entries, in first-appearance order.
    pub closed spec fn spec_lines(self) -> Seq<LineCallsites> {
        self.mapping@
    }

    /// The mapping from source line to call instructions.
    pub open spec fn spec_mapping(self) -> Map<u32, Seq<CallInstruction>> {
        mapping_view(self.spec_lines())
    }

    /// Build a frame. The requirements are the frame invariants: unique
    /// lines, every call instruction within the function's byte range, and
    /// an address range that does not wrap.
    pub fn new(
        function: FunctionName,
        start_address: u64,
        function_size: u64,
        source_file: Vec<u8>,
        source_line: u32,
        mapping: Vec<LineCallsites>,
    ) -> (r: FrameInfo)
        requires
            unique_lines(mapping@),
            forall|i: int, k: int|
                0 <= i < mapping@.len() && 0 <= k < mapping@[i].callsites@.len()
                    ==> mapping@[i].callsites@[k].fits(function_size),
            start_address + function_size <= u64::MAX,
        ensures
            r.spec_function() == function,
            r.spec_start_address() == start_address,
            r.spec_function_size() == function_size,
            r.spec_source_file() == source_file@,
            r.spec_source_line() == source_line,
            r.spec_lines() == mapping@,
    {
        FrameInfo { function, start_address, function_size, source_file, source_line, mapping }
    }

    /// Every call instruction of every line of a frame lies within the
    /// frame's function: `relative_ip + length <= function_size`.
    pub proof fn lemma_callsites_in_function_range(self)
        requires
            self.wf(),
        ensures
            forall|l: u32, k: int|
                self.spec_mapping().contains_key(l) && 0 <= k < self.spec_mapping()[l].len()
                    ==> (#[trigger] self.spec_mapping()[l][k]).fits(self.spec_function_size()),
    {
        assert forall|l: u32, k: int|
            self.spec_mapping().contains_key(l) && 0 <= k < self.spec_mapping()[l].len() implies (
        #[trigger] self.spec_mapping()[l][k]).fits(self.spec_function_size()) by {
            let i = choose|i: int| 0 <= i < self.mapping@.len() && self.mapping@[i].line == l;
            lemma_mapping_view_index(self.mapping@, i);
        }
    }

    /// The function under inspection.
    pub fn get_function(&self) -> (r: FunctionName)
        ensures
            r == self.spec_function(),
    {
        self.function
    }

    /// Start address of the function.
    pub fn get_start_address(&self) -> (r: u64)
        ensures
            r == self.spec_start_address(),
    {
        self.start_address
    }

    /// Size of the function in bytes.
    pub fn get_function_size(&self) -> (r: u64)
        ensures
            r == self.spec_function_size(),
    {
        self.function_size
    }

    /// Path of the source file.
    pub fn get_source_file(&self) -> (r: &Vec<u8>)
        ensures
            r@ == self.spec_source_file(),
    {
        &self.source_file
    }

    /// Source line of the function's entry point.
    pub fn get_source_line(&self) -> (r: u32)
        ensures
            r == self.spec_source_line(),
    {
        self.source_line
    }

    /// The largest source line that has call instructions, or 0 when none
    /// has. Used to size an empty-line placeholder when the source file is
    /// absent.
    pub fn max_line(&self) -> (r: u32)
        ensures
            forall|i: int| 0 <= i < self.spec_lines().len() ==> self.spec_lines()[i].line <= r,
            self.spec_lines().len() == 0 ==> r == 0,
            self.spec_lines().len() > 0 ==> has_line(self.spec_lines(), r),
    {
        let mut r: u32 = 0;
        let mut i: usize = 0;
        let n = self.mapping.len();
        while i < n
            invariant
                0 <= i <= n,
                n == self.spec_lines().len(),
                forall|j: int| 0 <= j < i ==> self.spec_lines()[j].line <= r,
                i == 0 ==> r == 0,
                i > 0 ==> has_line(self.spec_lines(), r),
            decreases n - i,
        {
            if self.mapping[i].line > r || i == 0 {
                r = self.mapping[i].line;
            }
            i = i + 1;
        }
        r
    }

    /// The source lines that have call instructions, in first-appearance
    /// order.
    pub fn called_lines(&self) -> (r: Vec<u32>)
        ensures
            r@ == self.spec_lines().map_values(|lc: LineCallsites| lc.line),
    {
        let mut out: Vec<u32> = Vec::new();
        let mut i: usize = 0;
        let n = self.mapping.len();
        while i < n
            invariant
                0 <= i <= n,
                n == self.spec_lines().len(),
                out@ == self.spec_lines().take(i as int).map_values(|lc: LineCallsites| lc.line),
            decreases n - i,
        {
            out.push(self.mapping[i].line);
            proof {
                assert(self.spec_lines().take(i + 1).map_values(|lc: LineCallsites| lc.line)
                    =~= self.spec_lines().take(i as int).map_values(
                    |lc: LineCallsites| lc.line,
                ).push(self.spec_lines()[i as int].line));
            }
            i = i + 1;
        }
        proof {
            assert(self.spec_lines().take(n as int) =~= self.spec_lines());
        }
        out
    }

    /// The call instructions at `line`, or an empty list when the line has
    /// none.
    pub fn callsites_at(&self, line: u32) -> (r: Vec<CallInstruction>)
        ensures
            has_line(self.spec_lines(), line) ==> r@ == self.spec_mapping()[line],
            !has_line(self.spec_lines(), line) ==> r@.len() == 0,
    {
        proof {
            use_type_invariant(self);
        }
        let mut i: usize = 0;
        let n = self.mapping.len();
        while i < n
            invariant
                0 <= i <= n,
                n == self.spec_lines().len(),
                unique_lines(self.spec_lines()),
                forall|j: int| 0 <= j < i ==> self.spec_lines()[j].line != line,
            decreases n - i,
        {
            if self.mapping[i].line == line {
                proof {
                    lemma_mapping_view_index(self.spec_lines(), i as int);
                }
                return self.mapping[i].callsites.clone();
            }
            i = i + 1;
        }
        Vec::new()
    }
}

/// One selected call site of the top frame: the source line and the chosen
/// call instruction on it.
#[derive(Clone, Copy, Debug)]
pub struct ActiveCallsite {
    /// Source line of the call site.
    pub line: u32,
    /// The chosen call instruction.
    pub ci: CallInstruction,
}

/// No two selections concern the same source line.
pub open spec fn unique_active_lines(a: Seq<ActiveCallsite>) -> bool {
    forall|i: int, j: int| 0 <= i < j < a.len() ==> a[i].line != a[j].line
}

/// Some selection concerns line `l`.
pub open spec fn has_active(a: Seq<ActiveCallsite>, l: u32) -> bool {
    exists|i: int| 0 <= i < a.len() && a[i].line == l
}

/// The selection for line `l` (meaningful only when `has_active`).
pub open spec fn active_at(a: Seq<ActiveCallsite>, l: u32) -> CallInstruction {
    a[choose|i: int| 0 <= i < a.len() && a[i].line == l].ci
}

/// The selections as a map from source line to chosen call instruction.
pub open spec fn active_view(a: Seq<ActiveCallsite>) -> Map<u32, CallInstruction> {
    Map::new(|l: u32| has_active(a, l), |l: u32| active_at(a, l))
}

/// With unique lines, the selection at index `i` is what the map view
/// returns for its line.
pub proof fn lemma_active_view_index(a: Seq<ActiveCallsite>, i: int)
    requires
        unique_active_lines(a),
        0 <= i < a.len(),
    ensures
        active_view(a).contains_key(a[i].line),
        active_view(a)[a[i].line] == a[i].ci,
{
    assert(has_active(a, a[i].line));
    let j = choose|j: int| 0 <= j < a.len() && a[j].line == a[i].line;
    assert(j == i);
}

proof fn lemma_active_view_empty()
    ensures
        active_view(Seq::<ActiveCallsite>::empty()) == Map::<u32, CallInstruction>::empty(),
{
    assert(active_view(Seq::<ActiveCallsite>::empty()) =~= Map::<u32, CallInstruction>::empty());
}

proof fn lemma_active_view_push(a: Seq<ActiveCallsite>, rec: ActiveCallsite)
    requires
        unique_active_lines(a),
        !has_active(a, rec.line),
    ensures
        unique_active_lines(a.push(rec)),
        active_view(a.push(rec)) == active_view(a).insert(rec.line, rec.ci),
{
    let b = a.push(rec);
    assert forall|i: int, j: int| 0 <= i < j < b.len() implies b[i].line != b[j].line by {
        if j == a.len() {
            assert(b[i] == a[i]);
            if b[i].line == rec.line {
                assert(has_active(a, rec.line));
            }
        }
    }
    assert forall|l: u32| #[trigger] active_view(b).contains_key(l) <==> active_view(a).insert(
        rec.line,
        rec.ci,
    ).contains_key(l) by {
        if has_active(b, l) {
            let i = choose|i: int| 0 <= i < b.len() && b[i].line == l;
            if i < a.len() {
                assert(has_active(a, l));
            }
        }
        if has_active(a, l) {
            let i = choose|i: int| 0 <= i < a.len() && a[i].line == l;
            assert(b[i].line == l);
            assert(has_active(b, l));
        }
        if l == rec.line {
            assert(b[a.len() as int].line == l);
            assert(has_active(b, l));
        }
    }
    assert forall|l: u32| active_view(b).contains_key(l) implies active_view(b)[l] == active_view(
        a,
    ).insert(rec.line, rec.ci)[l] by {
        if l == rec.line {
            lemma_active_view_index(b, a.len() as int);
        } else {
            let i = choose|i: int| 0 <= i < b.len() && b[i].line == l;
            assert(i < a.len());
            assert(a[i] == b[i]);
            lemma_active_view_index(b, i);
            lemma_active_view_index(a, i);
        }
    }
    assert(active_view(b) =~= active_view(a).insert(rec.line, rec.ci));
}

proof fn lemma_active_view_update(a: Seq<ActiveCallsite>, i: int, ci: CallInstruction)
    requires
        unique_active_lines(a),
        0 <= i < a.len(),
    ensures
        unique_active_lines(a.update(i, ActiveCallsite { line: a[i].line, ci })),
        active_view(a.update(i, ActiveCallsite { line: a[i].line, ci })) == active_view(a).insert(
            a[i].line,
            ci,
        ),
{
    let rec = ActiveCallsite { line: a[i].line, ci };
    let b = a.update(i, rec);
    assert(forall|j: int| 0 <= j < b.len() ==> b[j].line == a[j].line);
    assert forall|l: u32| #[trigger] active_view(b).contains_key(l) <==> active_view(a).insert(
        rec.line,
        rec.ci,
    ).contains_key(l) by {
        assert(has_active(b, l) <==> has_active(a, l));
    }
    assert forall|l: u32| active_view(b).contains_key(l) implies active_view(b)[l] == active_view(
        a,
    ).insert(rec.line, rec.ci)[l] by {
        let j = choose|j: int| 0 <= j < b.len() && b[j].line == l;
        lemma_active_view_index(b, j);
        if l == rec.line {
            assert(j == i);
        } else {
            assert(j != i);
            assert(b[j] == a[j]);
            lemma_active_view_index(a, j);
        }
    }
    assert(active_view(b) =~= active_view(a).insert(rec.line, rec.ci));
}

proof fn lemma_active_view_remove(a: Seq<ActiveCallsite>, i: int)
    requires
        unique_active_lines(a),
        0 <= i < a.len(),
    ensures
        unique_active_lines(a.remove(i)),
        active_view(a.remove(i)) == active_view(a).remove(a[i].line),
{
    let b = a.remove(i);
    a.remove_ensures(i);
    assert forall|p: int, q: int| 0 <= p < q < b.len() implies b[p].line != b[q].line by {
        let p2: int = if p < i { p } else { p + 1 };
        let q2: int = if q < i { q } else { q + 1 };
        assert(b[p] == a[p2] && b[q] == a[q2]);
    }
    assert forall|l: u32| #[trigger] active_view(b).contains_key(l) <==> active_view(a).remove(
        a[i].line,
    ).contains_key(l) by {
        if has_active(b, l) {
            let j = choose|j: int| 0 <= j < b.len() && b[j].line == l;
            let j2: int = if j < i { j } else { j + 1 };
            assert(a[j2].line == l);
            assert(has_active(a, l));
            assert(l != a[i].line);
        }
        if has_active(a, l) && l != a[i].line {
            let j = choose|j: int| 0 <= j < a.len() && a[j].line == l;
            assert(j != i);
            let j2: int = if j < i { j } else { j - 1 };
            assert(b[j2].line == l);
            assert(has_active(b, l));
        }
    }
    assert forall|l: u32| active_view(b).contains_key(l) implies active_view(b)[l] == active_view(
        a,
    ).remove(a[i].line)[l] by {
        let j = choose|j: int| 0 <= j < b.len() && b[j].line == l;
        lemma_active_view_index(b, j);
        let j2: int = if j < i { j } else { j + 1 };
        assert(b[j] == a[j2]);
        lemma_active_view_index(a, j2);
    }
    assert(active_view(b) =~= active_view(a).remove(a[i].line));
}

/// The version value at the moment a snapshot was taken.
pub type TraceCounter = u64;

/// One probe of a snapshot: the call instruction's address and the address
/// just past it (where the called function has returned), with the source
/// line whose aggregates it feeds.
#[derive(Clone, Copy, Debug)]
pub struct SnapshotProbe {
    /// Source line of the call site.
    pub line: u32,
    /// Address of the call instruction.
    pub address: u64,
    /// Address immediately after the call instruction.
    pub return_address: u64,
}

/// An immutable projection of the trace stack at a point in time, tagged
/// with the version counter at that moment.
#[derive(Clone, Debug)]
pub struct Snapshot {
    /// Version of the stack when the snapshot was taken.
    pub version: TraceCounter,
    /// Path of the binary being traced.
    pub binary_path: Vec<u8>,
    /// One probe per active call site, in selection-list order.
    pub probes: Vec<SnapshotProbe>,
}

/// The user's drill-down path: a stack of frames (top is the current view),
/// the set of call sites selected for measurement on the top frame, and a
/// version counter that increments on every mutation.
pub struct TraceStack {
    file_path: Vec<u8>,
    frames: Vec<FrameInfo>,
    active: Vec<ActiveCallsite>,
    version: u64,
}

/// A mutation of the trace stack, used to state laws over whole mutation
/// sequences.
pub enum StackOp {
    /// `push` of a frame.
    Push(FrameInfo),
    /// `pop`.
    Pop,
    /// `add_callsite` of a line and call instruction.
    AddCallsite(u32, CallInstruction),
    /// `remove_callsite` of a line.
    RemoveCallsite(u32),
}

/// The abstract state the laws speak of: how many frames, which call sites
/// are selected, and the version counter.
pub ghost struct StackModel {
    /// Number of frames.
    pub frames_len: int,
    /// The selected call sites, per line.
    pub active: Map<u32, CallInstruction>,
    /// The version counter.
    pub version: int,
}

/// Whether `op` mutates a stack in state `m`: pushes and additions always
/// do; a pop does unless only the root remains; a removal does only when
/// the line was selected.
pub open spec fn op_bumps(m: StackModel, op: StackOp) -> bool {
    match op {
        StackOp::Push(_) => true,
        StackOp::Pop => m.frames_len > 1,
        StackOp::AddCallsite(_, _) => true,
        StackOp::RemoveCallsite(l) => m.active.contains_key(l),
    }
}

/// Effect of one operation on the abstract state.
pub open spec fn op_step(m: StackModel, op: StackOp) -> StackModel {
    match op {
        StackOp::Push(_) => StackModel {
            frames_len: m.frames_len + 1,
            active: Map::empty(),
            version: m.version + 1,
        },
        StackOp::Pop => if m.frames_len > 1 {
            StackModel {
                frames_len: m.frames_len - 1,
                active: Map::empty(),
                version: m.version + 1,
            }
        } else {
            m
        },
        StackOp::AddCallsite(l, ci) => StackModel {
            frames_len: m.frames_len,
            active: m.active.insert(l, ci),
            version: m.version + 1,
        },
        StackOp::RemoveCallsite(l) => if m.active.contains_key(l) {
            StackModel {
                frames_len: m.frames_len,
                active: m.active.remove(l),
                version: m.version + 1,
            }
        } else {
            m
        },
    }
}

/// The state after a whole sequence of operations.
pub open spec fn run_ops(m: StackModel, ops: Seq<StackOp>) -> StackModel
    decreases ops.len(),
{
    if ops.len() == 0 {
        m
    } else {
        op_step(run_ops(m, ops.drop_last()), ops.last())
    }
}

/// Law: the version counter never decreases under any sequence of
/// operations.
pub proof fn lemma_version_never_decreases(m: StackModel, ops: Seq<StackOp>)
    ensures
        run_ops(m, ops).version >= m.version,
    decreases ops.len(),
{
    if ops.len() > 0 {
        lemma_version_never_decreases(m, ops.drop_last());
    }
}

/// Law: over any sequence of operations, the versions at which the stack is
/// actually mutated form a strictly increasing sequence; each mutation
/// raises the version by exactly one, and every later state stays strictly
/// above it. Together with `TraceStack::new` (version 1), the successive
/// versions of a stack are `1, 2, 3, ...` and no two snapshots of distinct
/// states share a version.
pub proof fn lemma_versions_strictly_increase(m: StackModel, ops: Seq<StackOp>, i: int)
    requires
        0 <= i < ops.len(),
        op_bumps(run_ops(m, ops.take(i)), ops[i]),
    ensures
        run_ops(m, ops.take(i + 1)).version == run_ops(m, ops.take(i)).version + 1,
        forall|j: int|
            i < j <= ops.len() ==> run_ops(m, ops.take(j)).version > run_ops(
                m,
                ops.take(i),
            ).version,
{
    assert(ops.take(i + 1).drop_last() =~= ops.take(i));
    assert(ops.take(i + 1).last() == ops[i]);
    assert forall|j: int| i < j <= ops.len() implies run_ops(m, ops.take(j)).version > run_ops(
        m,
        ops.take(i),
    ).version by {
        assert(ops.take(j).take(i + 1) =~= ops.take(i + 1));
        lemma_run_ops_prefix_version(m, ops.take(j), i + 1);
    }
}

/// The version after a whole sequence is at least the version at any prefix.
proof fn lemma_run_ops_prefix_version(m: StackModel, ops: Seq<StackOp>, i: int)
    requires
        0 <= i <= ops.len(),
    ensures
        run_ops(m, ops).version >= run_ops(m, ops.take(i)).version,
    decreases ops.len() - i,
{
    if i < ops.len() {
        assert(ops.take(i + 1).drop_last() =~= ops.take(i));
        assert(run_ops(m, ops.take(i + 1)).version >= run_ops(m, ops.take(i)).version);
        lemma_run_ops_prefix_version(m, ops, i + 1);
        assert(ops.take(ops.len() as int) =~= ops);
    } else {
        assert(ops.take(ops.len() as int) =~= ops);
    }
}

/// Law (round trip): adding a call site on a previously inactive line and
/// then removing that line restores the active set exactly and raises the
/// version by exactly two.
pub proof fn lemma_add_remove_round_trip(m: StackModel, line: u32, ci: CallInstruction)
    ensures
        !m.active.contains_key(line) ==> {
            let m2 = op_step(op_step(m, StackOp::AddCallsite(line, ci)), StackOp::RemoveCallsite(line));
            &&& m2.active == m.active
            &&& m2.frames_len == m.frames_len
            &&& m2.version == m.version + 2
        },
{
    if !m.active.contains_key(line) {
        assert(m.active.insert(line, ci).remove(line) =~= m.active);
    }
}

/// Law (idempotence): removing a call site on an inactive line changes
/// nothing at all — in particular it does not raise the version.
pub proof fn lemma_remove_inactive_is_noop(m: StackModel, line: u32)
    ensures
        !m.active.contains_key(line) ==> op_step(m, StackOp::RemoveCallsite(line)) == m,
{
}

impl TraceStack {
    /// Stack invariant: at least the root frame is present, the version is
    /// at least 1, no line is selected twice, and every selection names a
    /// call instruction that the top frame carries on that line. Established
    /// by `new` and preserved by every operation.
    pub open spec fn wf(self) -> bool {
        &&& self.spec_frames().len() >= 1
        &&& self.spec_version() >= 1
        &&& unique_active_lines(self.spec_active())
        &&& forall|i: int|
            0 <= i < self.spec_active().len() ==> has_line(
                self.spec_top().spec_lines(),
                (#[trigger] self.spec_active()[i]).line,
            ) && line_at(self.spec_top().spec_lines(), self.spec_active()[i].line).contains(
                self.spec_active()[i].ci,
            )
        &&& forall|i: int| 0 <= i < self.spec_frames().len() ==> (#[trigger] self.spec_frames()[i]).wf()
    }

    /// Path of the binary being traced.
    pub closed spec fn spec_path(self) -> Seq<u8> {
        self.file_path@
    }

    /// The frames, bottom first; the last entry is the current view.
    pub closed spec fn spec_frames(self) -> Seq<FrameInfo> {
        self.frames@
    }

    /// The current (top) frame.
    pub open spec fn spec_top(self) -> FrameInfo {
        self.spec_frames().last()
    }

    /// The selected call sites of the top frame, in selection order.
    pub closed spec fn spec_active(self) -> Seq<ActiveCallsite> {
        self.active@
    }

    /// The selected call sites as a map from line to call instruction.
    pub open spec fn spec_active_map(self) -> Map<u32, CallInstruction> {
        active_view(self.spec_active())
    }

    /// The version counter.
    pub closed spec fn spec_version(self) -> u64 {
        self.version
    }

    /// The abstract state the laws speak of.
    pub open spec fn model(self) -> StackModel {
        StackModel {
            frames_len: self.spec_frames().len() as int,
            active: self.spec_active_map(),
            version: self.spec_version() as int,
        }
    }

    /// Make a stack holding the root frame, with no call site selected and
    /// version 1.
    pub fn new(file_path: Vec<u8>, root: FrameInfo) -> (r: TraceStack)
        ensures
            r.spec_path() == file_path@,
            r.spec_frames() == seq![root],
            r.spec_active_map() == Map::<u32, CallInstruction>::empty(),
            r.spec_version() == 1u64,
            r.wf(),
    {
        proof {
            use_type_invariant(&root);
        }
        let ghost g_root = root;
        let r = TraceStack { file_path, frames: vec![root], active: Vec::new(), version: 1 };
        proof {
            assert(r.frames@ =~= seq![g_root]);
            lemma_active_view_empty();
        }
        r
    }

    /// Name of the function of the current view.
    pub fn current_function(&self) -> (r: FunctionName)
        requires
            self.wf(),
        ensures
            r == self.spec_top().spec_function(),
    {
        self.frames[self.frames.len() - 1].get_function()
    }

    /// The current (top) frame.
    pub fn current_frame(&self) -> (r: &FrameInfo)
        requires
            self.wf(),
        ensures
            *r == self.spec_top(),
    {
        &self.frames[self.frames.len() - 1]
    }

    /// The call instructions at `line` in the current view (empty when the
    /// line has none).
    pub fn callsites_at(&self, line: u32) -> (r: Vec<CallInstruction>)
        requires
            self.wf(),
        ensures
            has_line(self.spec_top().spec_lines(), line) ==> r@ == self.spec_top().spec_mapping()[line],
            !has_line(self.spec_top().spec_lines(), line) ==> r@.len() == 0,
    {
        self.frames[self.frames.len() - 1].callsites_at(line)
    }

    /// Append a frame: the new frame becomes the current view and starts
    /// with no call site selected. Bumps the version.
    pub fn push(&mut self, frame: FrameInfo)
        requires
            old(self).wf(),
            old(self).spec_version() < u64::MAX,
        ensures
            final(self).wf(),
            final(self).spec_path() == old(self).spec_path(),
            final(self).spec_frames() == old(self).spec_frames().push(frame),
            final(self).spec_active_map() == Map::<u32, CallInstruction>::empty(),
            final(self).spec_version() == old(self).spec_version() + 1,
            final(self).model() == op_step(old(self).model(), StackOp::Push(frame)),
    {
        proof {
            use_type_invariant(&frame);
        }
        self.active.clear();
        self.frames.push(frame);
        self.version = self.version + 1;
        proof {
            lemma_active_view_empty();
            assert(self.model() == op_step(old(self).model(), StackOp::Push(frame)));
        }
    }

    /// Remove the current view and return its frame; the root cannot be
    /// popped (returns `None` and changes nothing). A successful pop clears
    /// the selections and bumps the version.
    pub fn pop(&mut self) -> (r: Option<FrameInfo>)
        requires
            old(self).wf(),
            old(self).spec_version() < u64::MAX,
        ensures
            final(self).wf(),
            old(self).spec_frames().len() == 1 ==> r is None && *final(self) == *old(self),
            old(self).spec_frames().len() > 1 ==> {
                &&& r == Some(old(self).spec_top())
                &&& final(self).spec_frames() == old(self).spec_frames().drop_last()
                &&& final(self).spec_active_map() == Map::<u32, CallInstruction>::empty()
                &&& final(self).spec_version() == old(self).spec_version() + 1
                &&& final(self).spec_path() == old(self).spec_path()
            },
            final(self).model() == op_step(old(self).model(), StackOp::Pop),
    {
        if self.frames.len() == 1 {
            return None;
        }
        self.active.clear();
        let frame = self.frames.pop();
        self.version = self.version + 1;
        proof {
            lemma_active_view_empty();
            assert(self.model() == op_step(old(self).model(), StackOp::Pop));
        }
        frame
    }

    /// Select a call site: `line` must carry `ci` in the current view. Any
    /// earlier selection on the same line is replaced. Bumps the version.
    pub fn add_callsite(&mut self, line: u32, ci: CallInstruction)
        requires
            old(self).wf(),
            old(self).spec_version() < u64::MAX,
            has_line(old(self).spec_top().spec_lines(), line),
            line_at(old(self).spec_top().spec_lines(), line).contains(ci),
        ensures
            final(self).wf(),
            final(self).spec_path() == old(self).spec_path(),
            final(self).spec_frames() == old(self).spec_frames(),
            final(self).spec_active_map() == old(self).spec_active_map().insert(line, ci),
            final(self).spec_version() == old(self).spec_version() + 1,
            final(self).model() == op_step(old(self).model(), StackOp::AddCallsite(line, ci)),
    {
        let rec = ActiveCallsite { line, ci };
        let n = self.active.len();
        let mut i: usize = 0;
        while i < n
            invariant
                *self == *old(self),
                old(self).wf(),
                old(self).spec_version() < u64::MAX,
                has_line(old(self).spec_top().spec_lines(), line),
                line_at(old(self).spec_top().spec_lines(), line).contains(ci),
                rec == (ActiveCallsite { line, ci }),
                0 <= i <= n,
                n == self.spec_active().len(),
                forall|j: int| 0 <= j < i ==> self.spec_active()[j].line != line,
            decreases n - i,
        {
            if self.active[i].line == line {
                proof {
                    lemma_active_view_update(self.spec_active(), i as int, ci);
                }
                self.active.set(i, rec);
                self.version = self.version + 1;
                proof {
                    assert(self.model() == op_step(
                        old(self).model(),
                        StackOp::AddCallsite(line, ci),
                    ));
                }
                return ;
            }
            i = i + 1;
        }
        proof {
            assert(!has_active(self.spec_active(), line));
            lemma_active_view_push(self.spec_active(), rec);
        }
        self.active.push(rec);
        self.version = self.version + 1;
        proof {
            assert(self.model() == op_step(old(self).model(), StackOp::AddCallsite(line, ci)));
        }
    }

    /// Unselect whatever call site is active on `line`; returns whether one
    /// was. Bumps the version exactly when it removed something.
    pub fn remove_callsite(&mut self, line: u32) -> (r: bool)
        requires
            old(self).wf(),
            old(self).spec_version() < u64::MAX,
        ensures
            final(self).wf(),
            r == old(self).spec_active_map().contains_key(line),
            r ==> ({
                &&& final(self).spec_active_map() == old(self).spec_active_map().remove(line)
                &&& final(self).spec_version() == old(self).spec_version() + 1
                &&& final(self).spec_frames() == old(self).spec_frames()
                &&& final(self).spec_path() == old(self).spec_path()
            }),
            !r ==> *final(self) == *old(self),
            final(self).model() == op_step(old(self).model(), StackOp::RemoveCallsite(line)),
    {
        let n = self.active.len();
        let mut i: usize = 0;
        while i < n
            invariant
                *self == *old(self),
                old(self).wf(),
                old(self).spec_version() < u64::MAX,
                0 <= i <= n,
                n == self.spec_active().len(),
                forall|j: int| 0 <= j < i ==> self.spec_active()[j].line != line,
            decreases n - i,
        {
            if self.active[i].line == line {
                proof {
                    lemma_active_view_index(self.spec_active(), i as int);
                    lemma_active_view_remove(self.spec_active(), i as int);
                    assert(self.spec_active().remove(i as int) =~= self.spec_active().subrange(
                        0,
                        i as int,
                    ) + self.spec_active().subrange(
                        i + 1,
                        self.spec_active().len() as int,
                    ));
                }
                self.active.remove(i);
                self.version = self.version + 1;
                proof {
                    assert(self.model() == op_step(
                        old(self).model(),
                        StackOp::RemoveCallsite(line),
                    ));
                }
                return true;
            }
            i = i + 1;
        }
        proof {
            assert(!has_active(self.spec_active(), line));
            assert(self.model() == op_step(old(self).model(), StackOp::RemoveCallsite(line)));
        }
        false
    }

    /// Constant-time staleness check: whether `version` is the stack's
    /// current version.
    pub fn is_current(&self, version: TraceCounter) -> (r: bool)
        ensures
            r == (version == self.spec_version()),
    {
        self.version == version
    }

    /// Atomic projection for the tracer: the current version, the binary
    /// path, and one probe per selected call site. Probe addresses are the
    /// call instruction's address within the binary and the address just
    /// past the instruction.
    pub fn snapshot(&self) -> (r: Snapshot)
        requires
            self.wf(),
        ensures
            r.version == self.spec_version(),
            r.binary_path@ == self.spec_path(),
            r.probes@.len() == self.spec_active().len(),
            forall|i: int|
                0 <= i < r.probes@.len() ==> {
                    let rec = self.spec_active()[i];
                    &&& (#[trigger] r.probes@[i]).line == rec.line
                    &&& r.probes@[i].address == self.spec_top().spec_start_address()
                        + rec.ci.relative_ip
                    &&& r.probes@[i].return_address == self.spec_top().spec_start_address()
                        + rec.ci.relative_ip + rec.ci.length
                },
    {
        let top = &self.frames[self.frames.len() - 1];
        let start = top.get_start_address();
        let mut probes: Vec<SnapshotProbe> = Vec::new();
        let n = self.active.len();
        let mut i: usize = 0;
        while i < n
            invariant
                0 <= i <= n,
                n == self.spec_active().len(),
                *top == self.spec_top(),
                start == self.spec_top().spec_start_address(),
                top.wf(),
                forall|j: int|
                    0 <= j < n ==> has_line(
                        self.spec_top().spec_lines(),
                        (#[trigger] self.spec_active()[j]).line,
                    ) && line_at(self.spec_top().spec_lines(), self.spec_active()[j].line).contains(
                        self.spec_active()[j].ci,
                    ),
                probes@.len() == i,
                forall|j: int|
                    0 <= j < i ==> {
                        let rec = self.spec_active()[j];
                        &&& (#[trigger] probes@[j]).line == rec.line
                        &&& probes@[j].address == start + rec.ci.relative_ip
                        &&& probes@[j].return_address == start + rec.ci.relative_ip + rec.ci.length
                    },
            decreases n - i,
        {
            let rec = self.active[i];
            proof {
                let lines = self.spec_top().spec_lines();
                let li = choose|li: int| 0 <= li < lines.len() && lines[li].line == rec.line;
                let ci_idx = choose|k: int|
                    0 <= k < line_at(lines, rec.line).len() && line_at(lines, rec.line)[k]
                        == rec.ci;
                assert(lines[li].callsites@[ci_idx].fits(self.spec_top().spec_function_size()));
            }
            let address = start + rec.ci.relative_ip as u64;
            let return_address = address + rec.ci.length as u64;
            probes.push(SnapshotProbe { line: rec.line, address, return_address });
            i = i + 1;
        }
        let mut binary_path: Vec<u8> = Vec::new();
        crate::bytes::push_bytes(self.file_path.as_slice(), &mut binary_path);
        proof {
            assert(binary_path@ =~= self.spec_path());
        }
        Snapshot { version: self.version, binary_path, probes }
    }
}

} // verus!

//! The binary index: interned function names, per-symbol records, and the
//! loaded program with its address-to-name maps, dynamic-stub resolution
//! and debug-link validation.

use vstd::prelude::*;

verus! {

/// Name corresponding to a function symbol that exists in the program.
///
/// Names are interned: the value is an index into the owning program's
/// symbol table, and equality is equality of the index. The raw and
/// demangled spellings live in that table's [`SymbolInfo`] entries.
#[derive(Clone, Copy, Debug, PartialEq, Eq, Hash, Structural)]
pub struct FunctionName(pub usize);

/// One text symbol of the binary: its interned name, an optional demangled
/// display form, the section it lives in, and its runtime address and size.
/// Address 0 marks a dynamically linked (undefined) symbol.
#[derive(Clone, Debug)]
pub struct SymbolInfo {
    /// Interned handle for this symbol.
    pub name: FunctionName,
    /// Raw spelling of the symbol name.
    pub name_bytes: Vec<u8>,
    /// Demangled display form, when one is known.
    pub demangled_name: Option<Vec<u8>>,
    /// Index of the section holding the symbol's code, when known.
    pub section_index: Option<usize>,
    /// Runtime address; 0 for dynamically linked symbols.
    pub address: u64,
    /// Size of the symbol's code in bytes.
    pub size: u64,
}

impl SymbolInfo {
    /// The display form used in search results: the demangled name when one
    /// is known, otherwise the raw symbol name.
    pub fn label(&self) -> (r: Vec<u8>)
        ensures
            match self.demangled_name {
                Some(d) => r@ == d@,
                None => r@ == self.name_bytes@,
            },
    {
        let src: &Vec<u8> = match &self.demangled_name {
            Some(d) => d,
            None => &self.name_bytes,
        };
        let mut out: Vec<u8> = Vec::new();
        crate::bytes::push_bytes(src.as_slice(), &mut out);
        proof {
            assert(out@ =~= src@);
        }
        out
    }
}

/// A read-only listing of every symbol of the program, in intern order, for
/// search dialogs.
pub struct SymbolsGenerator<'a> {
    symbols: &'a Vec<SymbolInfo>,
}

impl<'a> SymbolsGenerator<'a> {
    /// The listing, as a spec value.
    pub closed spec fn spec_symbols(self) -> Seq<SymbolInfo> {
        self.symbols@
    }

    /// Number of symbols.
    pub fn len(&self) -> (r: usize)
        ensures
            r == self.spec_symbols().len(),
    {
        self.symbols.len()
    }

    /// The symbol at `i`.
    pub fn get(&self, i: usize) -> (r: &'a SymbolInfo)
        requires
            i < self.spec_symbols().len(),
        ensures
            *r == self.spec_symbols()[i as int],
    {
        &self.symbols[i]
    }
}

/// Some pair of `m` has key `a`.
pub open spec fn has_key64<T>(m: Seq<(u64, T)>, a: u64) -> bool {
    exists|i: int| 0 <= i < m.len() && m[i].0 == a
}

/// The value paired with key `a` (meaningful only when `has_key64`).
pub open spec fn key64_at<T>(m: Seq<(u64, T)>, a: u64) -> T {
    m[choose|i: int| 0 <= i < m.len() && m[i].0 == a].1
}

/// No two pairs share a key.
pub open spec fn unique_keys64<T>(m: Seq<(u64, T)>) -> bool {
    forall|i: int, j: int| 0 <= i < j < m.len() ==> m[i].0 != m[j].0
}

/// With unique keys, the pair at index `i` is what the lookup returns for
/// its key.
pub proof fn lemma_key64_index<T>(m: Seq<(u64, T)>, i: int)
    requires
        unique_keys64(m),
        0 <= i < m.len(),
    ensures
        has_key64(m, m[i].0),
        key64_at(m, m[i].0) == m[i].1,
{
    assert(has_key64(m, m[i].0));
    let j = choose|j: int| 0 <= j < m.len() && m[j].0 == m[i].0;
    assert(j == i);
}

/// First pair with key `a`, by index.
pub fn find_key64<T>(m: &Vec<(u64, T)>, a: u64) -> (r: Option<usize>)
    ensures
        match r {
            Some(i) => i < m@.len() && m@[i as int].0 == a && forall|j: int|
                0 <= j < i ==> m@[j].0 != a,
            None => !has_key64(m@, a),
        },
{
    let n = m.len();
    let mut i: usize = 0;
    while i < n
        invariant
            0 <= i <= n == m@.len(),
            forall|j: int| 0 <= j < i ==> m@[j].0 != a,
        decreases n - i,
    {
        if m[i].0 == a {
            return Some(i);
        }
        i = i + 1;
    }
    None
}

/// Some pair of `m` has the byte-string key `k`.
pub open spec fn has_bkey<T>(m: Seq<(Vec<u8>, T)>, k: Seq<u8>) -> bool {
    exists|i: int| 0 <= i < m.len() && m[i].0@ == k
}

/// The value paired with byte-string key `k` (meaningful only when
/// `has_bkey`).
pub open spec fn bkey_at<T>(m: Seq<(Vec<u8>, T)>, k: Seq<u8>) -> T {
    m[choose|i: int| 0 <= i < m.len() && m[i].0@ == k].1
}

/// No two pairs share a byte-string key.
pub open spec fn unique_bkeys<T>(m: Seq<(Vec<u8>, T)>) -> bool {
    forall|i: int, j: int| 0 <= i < j < m.len() ==> m[i].0@ != m[j].0@
}

/// With unique keys, the pair at index `i` is what the lookup returns for
/// its key.
pub proof fn lemma_bkey_index<T>(m: Seq<(Vec<u8>, T)>, i: int)
    requires
        unique_bkeys(m),
        0 <= i < m.len(),
    ensures
        has_bkey(m, m[i].0@),
        bkey_at(m, m[i].0@) == m[i].1,
{
    assert(has_bkey(m, m[i].0@));
    let j = choose|j: int| 0 <= j < m.len() && m[j].0@ == m[i].0@;
    assert(j == i);
}

/// First pair with byte-string key `k`, by index.
pub fn find_bkey<T>(m: &Vec<(Vec<u8>, T)>, k: &[u8]) -> (r: Option<usize>)
    ensures
        match r {
            Some(i) => i < m@.len() && m@[i as int].0@ == k@ && forall|j: int|
                0 <= j < i ==> m@[j].0@ != k@,
            None => !has_bkey(m@, k@),
        },
{
    let n = m.len();
    let mut i: usize = 0;
    while i < n
        invariant
            0 <= i <= n == m@.len(),
            forall|j: int| 0 <= j < i ==> m@[j].0@ != k@,
        decreases n - i,
    {
        if crate::bytes::bytes_eq(m[i].0.as_slice(), k) {
            return Some(i);
        }
        i = i + 1;
    }
    None
}

/// A source position: a file path and a line, both always present.
#[derive(Clone, Debug)]
pub struct SourceLocation {
    /// Source file path bytes.
    pub file: Vec<u8>,
    /// Source line number.
    pub line: u32,
}

/// What `get_location` denotes: the debug info's answer for the address,
/// kept only when both its file and line are present.
pub open spec fn spec_get_location(data: Seq<u8>, address: u64) -> Option<(Seq<u8>, u32)> {
    match crate::objfile::location_of(data, address) {
        Some(l) => match (l.file, l.line) {
            (Some(f), Some(n)) => Some((f, n)),
            _ => None,
        },
        None => None,
    }
}

/// Keep a debug-info answer only when both its file and its line are
/// present; a position missing either is no source location.
pub fn location_from_parts(rec: crate::objfile::LocationRec) -> (r: Option<SourceLocation>)
    ensures
        r is Some <==> (rec.file is Some && rec.line is Some),
        r matches Some(l) ==> ({
            &&& rec.file matches Some(f) && l.file@ == f@
            &&& rec.line matches Some(n) && l.line == n
        }),
{
    match (rec.file, rec.line) {
        (Some(file), Some(line)) => Some(SourceLocation { file, line }),
        _ => None,
    }
}

/// The display form a query is matched against: the demangled name when one
/// is known, otherwise the raw symbol name.
pub open spec fn sym_label(s: SymbolInfo) -> Seq<u8> {
    match s.demangled_name {
        Some(d) => d@,
        None => s.name_bytes@,
    }
}

/// An address lies in one of the half-open ranges.
pub open spec fn in_ranges(ranges: Seq<(u64, u64)>, a: u64) -> bool {
    exists|i: int| 0 <= i < ranges.len() && (#[trigger] ranges[i]).0 <= a < ranges[i].1
}

/// The loaded binary: its bytes, its text symbols, and the maps that
/// resolve addresses to function names — one for ordinary text symbols and
/// one for dynamic call stubs discovered in the jump-table sections.
pub struct Program {
    file_path: Vec<u8>,
    file_data: Vec<u8>,
    line_data: Vec<u8>,
    symbols: Vec<SymbolInfo>,
    addr_map: Vec<(u64, FunctionName)>,
    ranges: Vec<(u64, u64)>,
    dyn_map: Vec<(u64, FunctionName)>,
    relocs: Vec<(u64, Vec<u8>)>,
    versioned: Vec<(Vec<u8>, FunctionName)>,
}

impl Program {
    /// Path of the binary, as given to `new`.
    pub closed spec fn spec_path(self) -> Seq<u8> {
        self.file_path@
    }

    /// The binary's bytes.
    pub closed spec fn spec_file_data(self) -> Seq<u8> {
        self.file_data@
    }

    /// The bytes serving debug-line lookups: the companion file's when one
    /// was used, else the binary's own.
    pub closed spec fn spec_line_data(self) -> Seq<u8> {
        self.line_data@
    }

    /// The interned text symbols; `FunctionName(i)` names the entry at `i`.
    pub closed spec fn spec_symbols(self) -> Seq<SymbolInfo> {
        self.symbols@
    }

    /// The address-to-name map for local text symbols.
    pub closed spec fn spec_addr_map(self) -> Seq<(u64, FunctionName)> {
        self.addr_map@
    }

    /// The address ranges of the dynamic-stub (jump table) sections.
    pub closed spec fn spec_ranges(self) -> Seq<(u64, u64)> {
        self.ranges@
    }

    /// The stub-address-to-name map for dynamic symbols.
    pub closed spec fn spec_dyn_map(self) -> Seq<(u64, FunctionName)> {
        self.dyn_map@
    }

    /// The dynamic relocations: target address to symbol name.
    pub closed spec fn spec_relocs(self) -> Seq<(u64, Vec<u8>)> {
        self.relocs@
    }

    /// The versioned-symbol rewrites: unversioned spelling to the interned
    /// versioned symbol.
    pub closed spec fn spec_versioned(self) -> Seq<(Vec<u8>, FunctionName)> {
        self.versioned@
    }

    /// `f` names an entry of the symbol table.
    pub open spec fn valid_name(self, f: FunctionName) -> bool {
        f.0 < self.spec_symbols().len()
    }

    /// An address lies in a dynamic-stub section.
    pub open spec fn spec_in_dynamic_range(self, a: u64) -> bool {
        in_ranges(self.spec_ranges(), a)
    }

    /// Index invariant: names intern their index; the address map lists,
    /// for each mapped address, the lowest-numbered symbol at that nonzero
    /// address; every dynamic-stub entry resolves to a symbol with address
    /// 0 and size 0; and all maps have unique keys. Established by `load`
    /// and preserved by `apply_plt_jumps`.
    pub open spec fn wf(self) -> bool {
        &&& forall|i: int|
            0 <= i < self.spec_symbols().len() ==> (#[trigger] self.spec_symbols()[i]).name
                == FunctionName(i as usize)
        &&& unique_keys64(self.spec_addr_map())
        &&& forall|i: int|
            0 <= i < self.spec_addr_map().len() ==> {
                let e = #[trigger] self.spec_addr_map()[i];
                &&& e.1.0 < self.spec_symbols().len()
                &&& self.spec_symbols()[e.1.0 as int].address == e.0
                &&& e.0 != 0
                &&& forall|j: int| 0 <= j < e.1.0 ==> self.spec_symbols()[j].address != e.0
            }
        &&& forall|j: int|
            0 <= j < self.spec_symbols().len() && (#[trigger] self.spec_symbols()[j]).address != 0
                ==> has_key64(self.spec_addr_map(), self.spec_symbols()[j].address)
        &&& unique_keys64(self.spec_dyn_map())
        &&& forall|i: int|
            0 <= i < self.spec_dyn_map().len() ==> {
                let e = #[trigger] self.spec_dyn_map()[i];
                &&& e.1.0 < self.spec_symbols().len()
                &&& self.spec_symbols()[e.1.0 as int].address == 0
                &&& self.spec_symbols()[e.1.0 as int].size == 0
            }
        &&& unique_keys64(self.spec_relocs())
        &&& unique_bkeys(self.spec_versioned())
        &&& forall|i: int|
            0 <= i < self.spec_versioned().len() ==> (#[trigger] self.spec_versioned()[i]).1.0
                < self.spec_symbols().len()
    }

    /// Path of the binary.
    pub fn file_path(&self) -> (r: &Vec<u8>)
        ensures
            r@ == self.spec_path(),
    {
        &self.file_path
    }

    /// The symbol record behind a name, when the name is valid.
    pub fn get_symbol(&self, function: FunctionName) -> (r: Option<&SymbolInfo>)
        ensures
            self.valid_name(function) ==> r == Some(
                &self.spec_symbols()[function.0 as int],
            ),
            !self.valid_name(function) ==> r is None,
    {
        if function.0 < self.symbols.len() {
            Some(&self.symbols[function.0])
        } else {
            None
        }
    }

    /// Runtime address of a function (0 when dynamically linked).
    pub fn get_address(&self, function: FunctionName) -> (r: u64)
        requires
            self.valid_name(function),
        ensures
            r == self.spec_symbols()[function.0 as int].address,
    {
        self.symbols[function.0].address
    }

    /// A listing of every symbol, for search dialogs.
    pub fn symbols_generator(&self) -> (r: SymbolsGenerator<'_>)
        ensures
            r.spec_symbols() == self.spec_symbols(),
    {
        SymbolsGenerator { symbols: &self.symbols }
    }

    /// Whether an address lies in a dynamic-stub (jump table) section.
    pub fn is_dynamic_symbol_address(&self, address: u64) -> (r: bool)
        ensures
            r == self.spec_in_dynamic_range(address),
    {
        let n = self.ranges.len();
        let mut i: usize = 0;
        while i < n
            invariant
                0 <= i <= n == self.spec_ranges().len(),
                forall|j: int|
                    0 <= j < i ==> !((#[trigger] self.spec_ranges()[j]).0 <= address
                        < self.spec_ranges()[j].1),
            decreases n - i,
        {
            let (start, end) = self.ranges[i];
            if start <= address && address < end {
                return true;
            }
            i = i + 1;
        }
        false
    }

    /// Whether a symbol is dynamically linked: its address lies in a
    /// dynamic-stub section.
    pub fn is_dynamic_symbol(&self, symbol: &SymbolInfo) -> (r: bool)
        ensures
            r == self.spec_in_dynamic_range(symbol.address),
    {
        self.is_dynamic_symbol_address(symbol.address)
    }

    /// The function at an address: a dynamic-stub entry when the address
    /// lies in a stub section, otherwise the lowest-numbered text symbol
    /// with that address.
    pub fn get_function_for_address(&self, address: u64) -> (r: Option<FunctionName>)
        requires
            self.wf(),
        ensures
            self.spec_in_dynamic_range(address) ==> r == (if has_key64(
                self.spec_dyn_map(),
                address,
            ) {
                Some(key64_at(self.spec_dyn_map(), address))
            } else {
                Option::<FunctionName>::None
            }),
            !self.spec_in_dynamic_range(address) ==> r == (if has_key64(
                self.spec_addr_map(),
                address,
            ) {
                Some(key64_at(self.spec_addr_map(), address))
            } else {
                Option::<FunctionName>::None
            }),
            r matches Some(f) ==> self.valid_name(f),
            self.spec_in_dynamic_range(address) ==> (r matches Some(f) ==> ({
                &&& self.spec_symbols()[f.0 as int].address == 0
                &&& self.spec_symbols()[f.0 as int].size == 0
            })),
            !self.spec_in_dynamic_range(address) && (exists|j: int|
                0 <= j < self.spec_symbols().len() && (#[trigger] self.spec_symbols()[j]).address
                    == address) && address != 0 ==> r is Some,
    {
        if self.is_dynamic_symbol_address(address) {
            match find_key64(&self.dyn_map, address) {
                Some(i) => {
                    proof {
                        lemma_key64_index(self.spec_dyn_map(), i as int);
                    }
                    Some(self.dyn_map[i].1)
                },
                None => None,
            }
        } else {
            match find_key64(&self.addr_map, address) {
                Some(i) => {
                    proof {
                        lemma_key64_index(self.spec_addr_map(), i as int);
                    }
                    Some(self.addr_map[i].1)
                },
                None => None,
            }
        }
    }

    /// The source position of an address: the debug info's answer for the
    /// line-data bytes, kept exactly when both its file and line are
    /// present. (A returned location always has both fields, by
    /// construction.)
    pub fn get_location(&self, address: u64) -> (r: Option<SourceLocation>)
        ensures
            match r {
                Some(loc) => spec_get_location(self.spec_line_data(), address) == Some(
                    (loc.file@, loc.line),
                ),
                None => spec_get_location(self.spec_line_data(), address) is None,
            },
    {
        match crate::objfile::dw_find_location(self.line_data.as_slice(), address) {
            Some(rec) => location_from_parts(rec),
            None => None,
        }
    }

    /// The start address and code bytes of a function. A dynamically
    /// linked symbol (address 0) has no body and is refused; otherwise the
    /// call succeeds exactly when the symbol has a section and its address
    /// range lies inside it, and returns that range's bytes.
    pub fn get_data(&self, function: FunctionName) -> (r: Result<(u64, Vec<u8>), crate::error::Error>)
        requires
            self.wf(),
            self.valid_name(function),
        ensures
            ({
                let sym = self.spec_symbols()[function.0 as int];
                &&& (sym.address == 0 <==> (r matches Err(e) && e is DynamicSymbolNotEnterable))
                &&& sym.address != 0 ==> match sym.section_index {
                    Some(idx) => match crate::objfile::section_bytes_of(
                        self.spec_file_data(),
                        idx,
                        sym.address,
                        sym.size,
                    ) {
                        Some(bytes) => (r matches Ok(p) && p.0 == sym.address && p.1@ == bytes
                            && p.1@.len() == sym.size),
                        None => (r matches Err(e) && e is SectionDataUnavailable),
                    },
                    None => (r matches Err(e) && e is SectionDataUnavailable),
                }
            }),
    {
        let sym = &self.symbols[function.0];
        if sym.address == 0 {
            return Err(crate::error::Error::DynamicSymbolNotEnterable);
        }
        let index = match sym.section_index {
            Some(i) => i,
            None => {
                return Err(crate::error::Error::SectionDataUnavailable);
            },
        };
        match crate::objfile::obj_section_data_range(
            self.file_data.as_slice(),
            index,
            sym.address,
            sym.size,
        ) {
            Some(code) => Ok((sym.address, code)),
            None => Err(crate::error::Error::SectionDataUnavailable),
        }
    }

    /// Every function whose display name equals the query, in intern
    /// order. The display name is the demangled form when known, else the
    /// raw symbol name.
    pub fn get_matches(&self, query: &[u8]) -> (r: Vec<FunctionName>)
        requires
            self.wf(),
        ensures
            forall|k: int|
                0 <= k < r@.len() ==> (#[trigger] r@[k]).0 < self.spec_symbols().len()
                    && sym_label(self.spec_symbols()[r@[k].0 as int]) == query@,
            forall|i: int|
                0 <= i < self.spec_symbols().len() && sym_label(#[trigger] self.spec_symbols()[i])
                    == query@ ==> r@.contains(FunctionName(i as usize)),
            forall|k1: int, k2: int| 0 <= k1 < k2 < r@.len() ==> r@[k1] != r@[k2],
    {
        let n = self.symbols.len();
        let mut out: Vec<FunctionName> = Vec::new();
        let mut i: usize = 0;
        while i < n
            invariant
                0 <= i <= n == self.spec_symbols().len(),
                forall|i2: int|
                    0 <= i2 < self.spec_symbols().len() ==> (#[trigger] self.spec_symbols()[i2]).name
                        == FunctionName(i2 as usize),
                forall|k: int|
                    0 <= k < out@.len() ==> (#[trigger] out@[k]).0 < i && sym_label(
                        self.spec_symbols()[out@[k].0 as int],
                    ) == query@,
                forall|k1: int, k2: int| 0 <= k1 < k2 < out@.len() ==> out@[k1].0 < out@[k2].0,
                forall|i2: int|
                    0 <= i2 < i && sym_label(#[trigger] self.spec_symbols()[i2]) == query@
                        ==> out@.contains(FunctionName(i2 as usize)),
            decreases n - i,
        {
            let sym = &self.symbols[i];
            let label: &Vec<u8> = match &sym.demangled_name {
                Some(d) => d,
                None => &sym.name_bytes,
            };
            let ghost prev = out@;
            if crate::bytes::bytes_eq(label.as_slice(), query) {
                out.push(FunctionName(i));
                proof {
                    assert(out@.last() == FunctionName(i as usize));
                }
            }
            proof {
                assert forall|i2: int|
                    0 <= i2 < i + 1 && sym_label(#[trigger] self.spec_symbols()[i2]) == query@
                        implies out@.contains(FunctionName(i2 as usize)) by {
                    if i2 < i {
                        assert(prev.contains(FunctionName(i2 as usize)));
                        let k = choose|k: int|
                            0 <= k < prev.len() && prev[k] == FunctionName(i2 as usize);
                        assert(out@[k] == FunctionName(i2 as usize));
                    } else {
                        assert(out@.last() == FunctionName(i as usize));
                    }
                }
            }
            i = i + 1;
        }
        out
    }
}

/// One unconditional jump found in a dynamic-stub section: the jump
/// instruction's address and the absolute address it targets.
#[derive(Clone, Copy, Debug)]
pub struct JumpRec {
    /// Address of the jump instruction.
    pub ip: u64,
    /// Absolute target address of the jump.
    pub target: u64,
}

/// The byte spelling of the debug-line section's name.
pub open spec fn debug_line_name() -> Seq<u8> {
    crate::bytes::ascii_bytes(".debug_line"@)
}

/// The byte spelling of the jump-table section-name prefix.
pub open spec fn plt_prefix() -> Seq<u8> {
    crate::bytes::ascii_bytes(".plt"@)
}

/// Some section bears exactly this name.
pub open spec fn has_sec(secs: Seq<crate::objfile::SectionView>, name: Seq<u8>) -> bool {
    exists|i: int| 0 <= i < secs.len() && (#[trigger] secs[i]).name == name
}

/// A name occurs among section records exactly when it occurs among their
/// contents.
pub proof fn lemma_has_sec_bridge(v: Seq<crate::objfile::SectionRec>, name: Seq<u8>)
    ensures
        (exists|i: int| 0 <= i < v.len() && (#[trigger] v[i]).name@ == name) <==> has_sec(
            v.map_values(|s: crate::objfile::SectionRec| crate::objfile::sec_view(s)),
            name,
        ),
{
    let m = v.map_values(|s: crate::objfile::SectionRec| crate::objfile::sec_view(s));
    if exists|i: int| 0 <= i < v.len() && (#[trigger] v[i]).name@ == name {
        let i = choose|i: int| 0 <= i < v.len() && (#[trigger] v[i]).name@ == name;
        assert(m[i].name == name);
    }
    if has_sec(m, name) {
        let i = choose|i: int| 0 <= i < m.len() && (#[trigger] m[i]).name == name;
        assert(v[i].name@ == name);
    }
}

/// The text-kind symbols of a symbol table, in order.
pub open spec fn text_symbols(raw: Seq<crate::objfile::SymbolView>) -> Seq<
    crate::objfile::SymbolView,
>
    decreases raw.len(),
{
    if raw.len() == 0 {
        Seq::empty()
    } else {
        let init = text_symbols(raw.drop_last());
        if raw.last().is_text {
            init.push(raw.last())
        } else {
            init
        }
    }
}

/// The (start, end) address ranges of the jump-table (".plt"-prefixed)
/// sections, skipping any whose range would wrap the address space.
pub open spec fn plt_ranges(secs: Seq<crate::objfile::SectionView>) -> Seq<(u64, u64)>
    decreases secs.len(),
{
    if secs.len() == 0 {
        Seq::empty()
    } else {
        let init = plt_ranges(secs.drop_last());
        let s = secs.last();
        if crate::bytes::is_prefix_of(plt_prefix(), s.name) && s.size <= u64::MAX - s.address {
            init.push((s.address, (s.address + s.size) as u64))
        } else {
            init
        }
    }
}

/// The relocation map: for each relocated address, the first text-kind
/// relocation's symbol name.
pub open spec fn reloc_pairs(raw: Seq<crate::objfile::RelocView>) -> Seq<(u64, Seq<u8>)>
    decreases raw.len(),
{
    if raw.len() == 0 {
        Seq::empty()
    } else {
        let init = reloc_pairs(raw.drop_last());
        let r = raw.last();
        if r.is_text && !has_key64(init, r.address) {
            init.push((r.address, r.name))
        } else {
            init
        }
    }
}

/// The relocation map of a binary's bytes (empty when it has no dynamic
/// relocation table).
pub open spec fn load_reloc_pairs(file: Seq<u8>) -> Seq<(u64, Seq<u8>)> {
    match crate::objfile::dynamic_relocs_of(file) {
        Some(raw) => reloc_pairs(raw),
        None => Seq::empty(),
    }
}

/// Whether the companion argument, when given, carries the checksum its
/// debug link recorded.
pub open spec fn companion_ok(companion: Option<(Vec<u8>, u32)>) -> bool {
    match companion {
        Some(c) => crate::objfile::crc32_of(c.0@) == c.1,
        None => true,
    }
}

/// The bytes that will serve debug-line lookups: the companion's when one
/// is given, else the binary's own.
pub open spec fn load_line_bytes(file: Seq<u8>, companion: Option<(Vec<u8>, u32)>) -> Seq<u8> {
    match companion {
        Some(c) => c.0@,
        None => file,
    }
}

/// The bytes whose symbol table is used: the binary's when it carries
/// debug symbols, else the line-data bytes.
pub open spec fn load_syms_src(file: Seq<u8>, companion: Option<(Vec<u8>, u32)>) -> Seq<u8> {
    if crate::objfile::has_debug_symbols_of(file) {
        file
    } else {
        load_line_bytes(file, companion)
    }
}

/// A loaded symbol record carries the content of the `i`-th text symbol:
/// the interned name, the raw spelling, address, size and section, and the
/// demangled form exactly when the name demangles.
pub open spec fn sym_matches(s: SymbolInfo, i: int, v: crate::objfile::SymbolView) -> bool {
    &&& s.name == FunctionName(i as usize)
    &&& s.name_bytes@ == v.name
    &&& s.address == v.address
    &&& s.size == v.size
    &&& s.section_index == v.section_index
    &&& match s.demangled_name {
        Some(d) => crate::objfile::demangled_of(v.name) == Some(d@),
        None => crate::objfile::demangled_of(v.name) is None,
    }
}

/// When loading succeeds: the companion (if any) checks out, the binary
/// parses, debug-line info is present (in the binary itself when no
/// companion is given), and the chosen symbol table parses.
pub open spec fn load_ok(file: Seq<u8>, companion: Option<(Vec<u8>, u32)>) -> bool {
    &&& companion_ok(companion)
    &&& crate::objfile::sections_of(file) is Some
    &&& (companion is None ==> has_sec(crate::objfile::sections_of(file).unwrap(), debug_line_name()))
    &&& crate::objfile::symbols_of(load_syms_src(file, companion)) is Some
}

/// Where the debug-line information comes from.
pub enum DebugSource {
    /// The binary carries its own debug-line section.
    SelfContained,
    /// A companion file named by the binary's debug link carries it.
    Companion(crate::objfile::DebugLinkRec),
}

/// Decide where debug info comes from: the binary itself when it has a
/// debug-line section; else its debug-link companion; else loading fails.
pub fn choose_debug_source(
    has_debug_line: bool,
    link: Option<crate::objfile::DebugLinkRec>,
) -> (r: Result<DebugSource, crate::error::Error>)
    ensures
        has_debug_line ==> (r matches Ok(s) && s is SelfContained),
        !has_debug_line ==> match link {
            Some(rec) => (r matches Ok(s) && (s matches DebugSource::Companion(c) && c.filename@
                == rec.filename@ && c.crc == rec.crc)),
            None => (r matches Err(e) && e is MissingDebugInfo),
        },
{
    if has_debug_line {
        Ok(DebugSource::SelfContained)
    } else {
        match link {
            Some(rec) => Ok(DebugSource::Companion(rec)),
            None => Err(crate::error::Error::MissingDebugInfo),
        }
    }
}

/// Whether some section bears exactly this name.
pub fn has_section_named(sections: &Vec<crate::objfile::SectionRec>, name: &[u8]) -> (r: bool)
    ensures
        r == exists|i: int|
            0 <= i < sections@.len() && (#[trigger] sections@[i]).name@ == name@,
{
    let n = sections.len();
    let mut i: usize = 0;
    while i < n
        invariant
            0 <= i <= n == sections@.len(),
            forall|j: int| 0 <= j < i ==> (#[trigger] sections@[j]).name@ != name@,
        decreases n - i,
    {
        if crate::bytes::bytes_eq(sections[i].name.as_slice(), name) {
            return true;
        }
        i = i + 1;
    }
    false
}

/// Validate a debug-link companion byte-for-byte: it is accepted exactly
/// when its CRC-32 equals the checksum recorded in the binary.
pub fn check_debug_companion(companion: &[u8], expected: u32) -> (r: Result<(), crate::error::Error>)
    ensures
        r is Ok <==> crate::objfile::crc32_of(companion@) == expected,
        r matches Err(e) ==> (e matches crate::error::Error::CrcMismatch { expected: x, actual }
            && x == expected && actual == crate::objfile::crc32_of(companion@)),
{
    let actual = crate::objfile::crc32(companion);
    if actual == expected {
        Ok(())
    } else {
        Err(crate::error::Error::CrcMismatch { expected, actual })
    }
}

impl Program {
    /// Inspect a binary before loading: `Ok(None)` when it carries its own
    /// debug-line section, `Ok(Some(link))` when a companion file (to be
    /// read and passed to `new`) carries it, and an error when the binary
    /// does not parse or has neither.
    pub fn debug_link_request(file_data: &Vec<u8>) -> (r: Result<
        Option<crate::objfile::DebugLinkRec>,
        crate::error::Error,
    >)
        ensures
            match r {
                Ok(link) => crate::objfile::sections_of(file_data@) is Some && match link {
                    Some(l) => !has_sec(
                        crate::objfile::sections_of(file_data@).unwrap(),
                        debug_line_name(),
                    ) && crate::objfile::debuglink_of(file_data@) == Some(
                        Some(crate::objfile::link_view(l)),
                    ),
                    None => has_sec(
                        crate::objfile::sections_of(file_data@).unwrap(),
                        debug_line_name(),
                    ),
                },
                Err(e) => ({
                    &&& (e is Parse <==> (crate::objfile::sections_of(file_data@) is None || (
                    crate::objfile::sections_of(file_data@) is Some && !has_sec(
                        crate::objfile::sections_of(file_data@).unwrap(),
                        debug_line_name(),
                    ) && crate::objfile::debuglink_of(file_data@) is None)))
                    &&& (e is MissingDebugInfo <==> (crate::objfile::sections_of(file_data@)
                        is Some && !has_sec(
                        crate::objfile::sections_of(file_data@).unwrap(),
                        debug_line_name(),
                    ) && crate::objfile::debuglink_of(file_data@) == Some(
                        Option::<crate::objfile::DebugLinkView>::None,
                    )))
                    &&& (e is Parse || e is MissingDebugInfo)
                }),
            },
    {
        proof {
            reveal_strlit(".debug_line");
        }
        let sections = match crate::objfile::obj_sections(file_data.as_slice()) {
            Some(s) => s,
            None => {
                return Err(crate::error::Error::Parse);
            },
        };
        let dl = crate::bytes::ascii_slice(".debug_line");
        let has_dl = has_section_named(&sections, dl);
        proof {
            lemma_has_sec_bridge(sections@, debug_line_name());
        }
        if has_dl {
            return Ok(None);
        }
        match crate::objfile::obj_gnu_debuglink(file_data.as_slice()) {
            None => Err(crate::error::Error::Parse),
            Some(link) => match choose_debug_source(false, link) {
                Ok(DebugSource::SelfContained) => Ok(None),
                Ok(DebugSource::Companion(rec)) => Ok(Some(rec)),
                Err(e) => Err(e),
            },
        }
    }

    /// Load a binary. `companion` holds the debug-link companion's bytes
    /// and its expected checksum when `debug_link_request` asked for one;
    /// the companion is validated byte-for-byte before use. Symbols are
    /// taken from the binary itself when it has debug symbols, else from
    /// the companion. The dynamic-stub map starts empty; the stub sections'
    /// jumps are applied with `apply_plt_jumps`.
    pub fn new(
        file_path: Vec<u8>,
        file_data: Vec<u8>,
        companion: Option<(Vec<u8>, u32)>,
    ) -> (r: Result<Program, crate::error::Error>)
        ensures
            r is Ok <==> load_ok(file_data@, companion),
            r matches Err(e) ==> ({
                let secs_opt = crate::objfile::sections_of(file_data@);
                &&& (e matches crate::error::Error::CrcMismatch { expected, actual } ==> (
                companion matches Some(c) && expected == c.1 && actual == crate::objfile::crc32_of(
                    c.0@,
                )))
                &&& (!companion_ok(companion) <==> e matches crate::error::Error::CrcMismatch {
                    ..
                })
                &&& (e is Parse <==> (companion_ok(companion) && (secs_opt is None || (secs_opt
                    is Some && (companion is None ==> has_sec(secs_opt.unwrap(), debug_line_name()))
                    && crate::objfile::symbols_of(load_syms_src(file_data@, companion)) is None))))
                &&& (e is MissingDebugInfo <==> (companion_ok(companion) && secs_opt is Some
                    && companion is None && !has_sec(secs_opt.unwrap(), debug_line_name())))
                &&& (e matches crate::error::Error::CrcMismatch { .. } || e is Parse || e
                    is MissingDebugInfo)
            }),
            r matches Ok(p) ==> ({
                let secs = crate::objfile::sections_of(file_data@).unwrap();
                let txt = text_symbols(
                    crate::objfile::symbols_of(load_syms_src(file_data@, companion)).unwrap(),
                );
                let rp = load_reloc_pairs(file_data@);
                &&& p.wf()
                &&& p.spec_path() == file_path@
                &&& p.spec_file_data() == file_data@
                &&& p.spec_line_data() == load_line_bytes(file_data@, companion)
                &&& p.spec_dyn_map().len() == 0
                &&& p.spec_symbols().len() == txt.len()
                &&& forall|i: int|
                    0 <= i < txt.len() ==> sym_matches(#[trigger] p.spec_symbols()[i], i, txt[i])
                &&& p.spec_ranges() == plt_ranges(secs)
                &&& p.spec_relocs().len() == rp.len()
                &&& forall|i: int|
                    0 <= i < rp.len() ==> (#[trigger] p.spec_relocs()[i]).0 == rp[i].0
                        && p.spec_relocs()[i].1@ == rp[i].1
            }),
    {
        proof {
            reveal_strlit(".debug_line");
            reveal_strlit(".plt");
        }
        match &companion {
            Some(c) => {
                match check_debug_companion(c.0.as_slice(), c.1) {
                    Ok(()) => {},
                    Err(e) => {
                        return Err(e);
                    },
                }
            },
            None => {},
        }
        let sections = match crate::objfile::obj_sections(file_data.as_slice()) {
            Some(s) => s,
            None => {
                return Err(crate::error::Error::Parse);
            },
        };
        let ghost scv = sections@.map_values(
            |x: crate::objfile::SectionRec| crate::objfile::sec_view(x),
        );
        let line_data: Vec<u8> = match &companion {
            Some(c) => crate::bytes::copy_range(c.0.as_slice(), 0, c.0.len()),
            None => {
                let dl = crate::bytes::ascii_slice(".debug_line");
                let has_dl = has_section_named(&sections, dl);
                proof {
                    lemma_has_sec_bridge(sections@, debug_line_name());
                }
                if !has_dl {
                    return Err(crate::error::Error::MissingDebugInfo);
                }
                crate::bytes::copy_range(file_data.as_slice(), 0, file_data.len())
            },
        };
        proof {
            assert(line_data@ == load_line_bytes(file_data@, companion));
        }
        let syms_src: &Vec<u8> = if crate::objfile::obj_has_debug_symbols(file_data.as_slice()) {
            &file_data
        } else {
            &line_data
        };
        proof {
            assert(syms_src@ == load_syms_src(file_data@, companion));
        }
        let raw_syms = match crate::objfile::obj_symbols(syms_src.as_slice()) {
            Some(s) => s,
            None => {
                return Err(crate::error::Error::Parse);
            },
        };
        let ghost tsv = raw_syms@.map_values(
            |x: crate::objfile::SymbolRec| crate::objfile::sym_view(x),
        );

        // Intern the text symbols and record the versioned-symbol rewrites.
        let mut symbols: Vec<SymbolInfo> = Vec::new();
        let mut versioned: Vec<(Vec<u8>, FunctionName)> = Vec::new();
        let nsyms = raw_syms.len();
        let mut i: usize = 0;
        while i < nsyms
            invariant
                0 <= i <= nsyms == raw_syms@.len(),
                tsv == raw_syms@.map_values(
                    |x: crate::objfile::SymbolRec| crate::objfile::sym_view(x),
                ),
                symbols@.len() == text_symbols(tsv.take(i as int)).len(),
                forall|k: int|
                    0 <= k < symbols@.len() ==> sym_matches(
                        #[trigger] symbols@[k],
                        k,
                        text_symbols(tsv.take(i as int))[k],
                    ),
                forall|k: int|
                    0 <= k < symbols@.len() ==> (#[trigger] symbols@[k]).name == FunctionName(
                        k as usize,
                    ),
                unique_bkeys(versioned@),
                forall|k: int|
                    0 <= k < versioned@.len() ==> (#[trigger] versioned@[k]).1.0 < symbols@.len(),
            decreases nsyms - i,
        {
            proof {
                assert(tsv.take(i + 1).drop_last() =~= tsv.take(i as int));
                assert(tsv.take(i + 1).last() == tsv[i as int]);
                assert(tsv[i as int] == crate::objfile::sym_view(raw_syms@[i as int]));
            }
            let rec = &raw_syms[i];
            if rec.is_text {
                let idx = symbols.len();
                let name_copy = crate::bytes::copy_range(rec.name.as_slice(), 0, rec.name.len());
                let demangled_name = crate::objfile::demangle(rec.name.as_slice());
                let f = FunctionName(idx);
                symbols.push(
                    SymbolInfo {
                        name: f,
                        name_bytes: name_copy,
                        demangled_name,
                        section_index: rec.section_index,
                        address: rec.address,
                        size: rec.size,
                    },
                );
                proof {
                    assert(text_symbols(tsv.take(i + 1)) =~= text_symbols(tsv.take(i as int)).push(
                        tsv[i as int],
                    ));
                    assert(symbols@.last().name_bytes@ =~= tsv[i as int].name);
                    assert(sym_matches(symbols@.last(), symbols@.len() - 1, tsv[i as int]));
                }
                match crate::bytes::find_pair(rec.name.as_slice(), 64, 64) {
                    Some(p) => {
                        let prefix = crate::bytes::copy_range(rec.name.as_slice(), 0, p);
                        match find_bkey(&versioned, prefix.as_slice()) {
                            Some(vi) => {
                                versioned.set(vi, (prefix, f));
                            },
                            None => {
                                versioned.push((prefix, f));
                            },
                        }
                    },
                    None => {},
                }
            } else {
                proof {
                    assert(text_symbols(tsv.take(i + 1)) =~= text_symbols(tsv.take(i as int)));
                }
            }
            i = i + 1;
        }
        proof {
            assert(tsv.take(nsyms as int) =~= tsv);
        }

        // Address map: for each nonzero address, the lowest-numbered symbol.
        let mut addr_map: Vec<(u64, FunctionName)> = Vec::new();
        let nsy = symbols.len();
        let mut i2: usize = 0;
        while i2 < nsy
            invariant
                nsy == symbols@.len(),
                0 <= i2 <= nsy,
                forall|k: int|
                    0 <= k < symbols@.len() ==> (#[trigger] symbols@[k]).name == FunctionName(
                        k as usize,
                    ),
                unique_keys64(addr_map@),
                forall|k: int|
                    0 <= k < addr_map@.len() ==> {
                        let e = #[trigger] addr_map@[k];
                        &&& e.1.0 < symbols@.len()
                        &&& symbols@[e.1.0 as int].address == e.0
                        &&& e.0 != 0
                        &&& forall|j: int| 0 <= j < e.1.0 ==> symbols@[j].address != e.0
                    },
                forall|j: int|
                    0 <= j < i2 ==> (#[trigger] symbols@[j]).address == 0 || has_key64(
                        addr_map@,
                        symbols@[j].address,
                    ),
            decreases nsy - i2,
        {
            let a = symbols[i2].address;
            if a != 0 {
                match find_key64(&addr_map, a) {
                    Some(_) => {},
                    None => {
                        let ghost prev = addr_map@;
                        addr_map.push((a, FunctionName(i2)));
                        proof {
                            assert forall|j: int| 0 <= j < i2 implies symbols@[j].address != a by {
                                if symbols@[j].address == a {
                                    assert(has_key64(prev, a));
                                }
                            }
                            assert forall|j: int|
                                0 <= j < i2 + 1 implies (#[trigger] symbols@[j]).address == 0
                                    || has_key64(addr_map@, symbols@[j].address) by {
                                if symbols@[j].address != 0 {
                                    if j < i2 {
                                        if has_key64(prev, symbols@[j].address) {
                                            let k = choose|k: int|
                                                0 <= k < prev.len() && prev[k].0 == symbols@[j].address;
                                            assert(addr_map@[k].0 == symbols@[j].address);
                                        }
                                    } else {
                                        assert(addr_map@.last().0 == a);
                                    }
                                }
                            }
                        }
                    },
                }
            }
            proof {
                assert forall|j: int|
                    0 <= j < i2 + 1 implies (#[trigger] symbols@[j]).address == 0 || has_key64(
                        addr_map@,
                        symbols@[j].address,
                    ) by {
                    if j == i2 && symbols@[j].address != 0 {
                        assert(has_key64(addr_map@, symbols@[j].address));
                    }
                }
            }
            i2 = i2 + 1;
        }

        // Dynamic-stub section ranges (names beginning with ".plt").
        let plt = crate::bytes::ascii_slice(".plt");
        let mut ranges: Vec<(u64, u64)> = Vec::new();
        let nsec = sections.len();
        let mut i3: usize = 0;
        while i3 < nsec
            invariant
                0 <= i3 <= nsec == sections@.len(),
                scv == sections@.map_values(
                    |x: crate::objfile::SectionRec| crate::objfile::sec_view(x),
                ),
                plt@ == plt_prefix(),
                ranges@ == plt_ranges(scv.take(i3 as int)),
            decreases nsec - i3,
        {
            proof {
                assert(scv.take(i3 + 1).drop_last() =~= scv.take(i3 as int));
                assert(scv.take(i3 + 1).last() == scv[i3 as int]);
            }
            let sec = &sections[i3];
            if crate::bytes::starts_with(sec.name.as_slice(), plt) {
                if sec.size <= u64::MAX - sec.address {
                    ranges.push((sec.address, sec.address + sec.size));
                }
            }
            i3 = i3 + 1;
        }
        proof {
            assert(scv.take(nsec as int) =~= scv);
        }

        // Dynamic relocations of text symbols, first entry per address.
        let mut relocs: Vec<(u64, Vec<u8>)> = Vec::new();
        match crate::objfile::obj_dynamic_relocs(file_data.as_slice()) {
            Some(raw_relocs) => {
                let ghost rv = raw_relocs@.map_values(
                    |x: crate::objfile::RelocRec| crate::objfile::reloc_view(x),
                );
                let nrel = raw_relocs.len();
                let mut i4: usize = 0;
                while i4 < nrel
                    invariant
                        0 <= i4 <= nrel == raw_relocs@.len(),
                        rv == raw_relocs@.map_values(
                            |x: crate::objfile::RelocRec| crate::objfile::reloc_view(x),
                        ),
                        unique_keys64(relocs@),
                        relocs@.len() == reloc_pairs(rv.take(i4 as int)).len(),
                        forall|k: int|
                            0 <= k < relocs@.len() ==> (#[trigger] relocs@[k]).0 == reloc_pairs(
                                rv.take(i4 as int),
                            )[k].0 && relocs@[k].1@ == reloc_pairs(rv.take(i4 as int))[k].1,
                    decreases nrel - i4,
                {
                    proof {
                        assert(rv.take(i4 + 1).drop_last() =~= rv.take(i4 as int));
                        assert(rv.take(i4 + 1).last() == rv[i4 as int]);
                    }
                    let rel = &raw_relocs[i4];
                    if rel.is_text {
                        let found = find_key64(&relocs, rel.address);
                        proof {
                            let rp = reloc_pairs(rv.take(i4 as int));
                            assert(has_key64(relocs@, rv[i4 as int].address) == has_key64(
                                rp,
                                rv[i4 as int].address,
                            )) by {
                                if has_key64(relocs@, rv[i4 as int].address) {
                                    let k = choose|k: int|
                                        0 <= k < relocs@.len() && relocs@[k].0 == rv[i4 as int].address;
                                    assert(rp[k].0 == rv[i4 as int].address);
                                }
                                if has_key64(rp, rv[i4 as int].address) {
                                    let k = choose|k: int|
                                        0 <= k < rp.len() && rp[k].0 == rv[i4 as int].address;
                                    assert(relocs@[k].0 == rv[i4 as int].address);
                                }
                            }
                        }
                        match found {
                            Some(_) => {},
                            None => {
                                let name_copy = crate::bytes::copy_range(
                                    rel.name.as_slice(),
                                    0,
                                    rel.name.len(),
                                );
                                relocs.push((rel.address, name_copy));
                            },
                        }
                    }
                    i4 = i4 + 1;
                }
                proof {
                    assert(rv.take(nrel as int) =~= rv);
                }
            },
            None => {},
        }

        Ok(
            Program {
                file_path,
                file_data,
                line_data,
                symbols,
                addr_map,
                ranges,
                dyn_map: Vec::new(),
                relocs,
                versioned,
            },
        )
    }
}

/// Pushing a pair keeps every key that was present, and adds only its own.
pub proof fn lemma_has_key64_push<T>(m: Seq<(u64, T)>, x: (u64, T), a: u64)
    ensures
        has_key64(m, a) ==> has_key64(m.push(x), a),
        has_key64(m.push(x), a) ==> has_key64(m, a) || x.0 == a,
{
    if has_key64(m, a) {
        let i = choose|i: int| 0 <= i < m.len() && m[i].0 == a;
        assert(m.push(x)[i].0 == a);
    }
    if has_key64(m.push(x), a) {
        let i = choose|i: int| 0 <= i < m.push(x).len() && m.push(x)[i].0 == a;
        if i < m.len() {
            assert(m[i].0 == a);
        }
    }
}

/// A stub-map entry either predates a call to `apply_plt_jumps` or comes
/// from one of its qualifying jumps, whose resolved name the entry's
/// symbol bears.
pub open spec fn stub_entry_accounted(
    pre: Program,
    post: Program,
    ent: (u64, FunctionName),
    jumps: Seq<JumpRec>,
) -> bool {
    has_key64(pre.spec_dyn_map(), ent.0) || exists|k: int|
        0 <= k < jumps.len() && (#[trigger] jumps[k]).ip == ent.0 && in_ranges(
            pre.spec_ranges(),
            jumps[k].ip,
        ) && has_key64(pre.spec_relocs(), jumps[k].target) && post.spec_symbols()[ent.1.0 as int].name_bytes@
            == resolved_stub_name(
            pre.spec_symbols(),
            pre.spec_versioned(),
            pre.spec_relocs(),
            jumps[k].target,
        )
}

/// The symbol name a dynamic-stub jump resolves to, before interning: the
/// relocation's name, rewritten to the versioned spelling when the
/// unversioned form has one.
pub open spec fn resolved_stub_name(
    symbols: Seq<SymbolInfo>,
    versioned: Seq<(Vec<u8>, FunctionName)>,
    relocs: Seq<(u64, Vec<u8>)>,
    target: u64,
) -> Seq<u8> {
    let nm = key64_at(relocs, target)@;
    if has_bkey(versioned, nm) && bkey_at(versioned, nm).0 < symbols.len() {
        symbols[bkey_at(versioned, nm).0 as int].name_bytes@
    } else {
        nm
    }
}

impl Program {
    /// Intern a dynamic symbol: reuse the symbol with these name bytes and
    /// address 0 and size 0 when one exists, else append a fresh one.
    fn intern_dyn(&mut self, name: Vec<u8>) -> (r: FunctionName)
        requires
            old(self).wf(),
        ensures
            final(self).wf(),
            r.0 < final(self).spec_symbols().len(),
            final(self).spec_symbols()[r.0 as int].address == 0,
            final(self).spec_symbols()[r.0 as int].size == 0,
            final(self).spec_symbols()[r.0 as int].name_bytes@ == name@,
            old(self).spec_symbols().len() <= final(self).spec_symbols().len(),
            forall|i: int|
                0 <= i < old(self).spec_symbols().len() ==> final(self).spec_symbols()[i] == old(
                    self,
                ).spec_symbols()[i],
            final(self).spec_path() == old(self).spec_path(),
            final(self).spec_addr_map() == old(self).spec_addr_map(),
            final(self).spec_ranges() == old(self).spec_ranges(),
            final(self).spec_dyn_map() == old(self).spec_dyn_map(),
            final(self).spec_relocs() == old(self).spec_relocs(),
            final(self).spec_versioned() == old(self).spec_versioned(),
    {
        let n = self.symbols.len();
        let mut i: usize = 0;
        while i < n
            invariant
                *self == *old(self),
                old(self).wf(),
                0 <= i <= n == self.spec_symbols().len(),
            decreases n - i,
        {
            let sym = &self.symbols[i];
            if sym.address == 0 && sym.size == 0 && crate::bytes::bytes_eq(
                sym.name_bytes.as_slice(),
                name.as_slice(),
            ) {
                proof {
                    assert(self.spec_symbols()[i as int].name == FunctionName(i as usize));
                }
                return sym.name;
            }
            i = i + 1;
        }
        let idx = self.symbols.len();
        let f = FunctionName(idx);
        self.symbols.push(
            SymbolInfo {
                name: f,
                name_bytes: name,
                demangled_name: None,
                section_index: None,
                address: 0,
                size: 0,
            },
        );
        f
    }

    /// Fold the unconditional jumps found in the dynamic-stub sections into
    /// the stub map: a jump inside a stub section whose target has a
    /// dynamic relocation maps the jump's address to the relocated symbol's
    /// name (versioned spelling preferred), interned with address 0 and
    /// size 0. Jumps that resolve to no relocation are skipped.
    pub fn apply_plt_jumps(&mut self, jumps: &Vec<JumpRec>)
        requires
            old(self).wf(),
        ensures
            final(self).wf(),
            final(self).spec_path() == old(self).spec_path(),
            final(self).spec_addr_map() == old(self).spec_addr_map(),
            final(self).spec_ranges() == old(self).spec_ranges(),
            final(self).spec_relocs() == old(self).spec_relocs(),
            final(self).spec_versioned() == old(self).spec_versioned(),
            forall|i: int|
                0 <= i < old(self).spec_symbols().len() ==> final(self).spec_symbols()[i] == old(
                    self,
                ).spec_symbols()[i],
            // every qualifying jump gets a stub entry
            forall|k: int|
                0 <= k < jumps@.len() && in_ranges(old(self).spec_ranges(), (#[trigger] jumps@[k]).ip)
                    && has_key64(old(self).spec_relocs(), jumps@[k].target) ==> has_key64(
                    final(self).spec_dyn_map(),
                    jumps@[k].ip,
                ),
            // every stub entry was there before or comes from a qualifying
            // jump, under the resolved (versioned) name
            forall|e: int|
                0 <= e < final(self).spec_dyn_map().len() ==> stub_entry_accounted(
                    *old(self),
                    *final(self),
                    #[trigger] final(self).spec_dyn_map()[e],
                    jumps@,
                ),
    {
        let njumps = jumps.len();
        let mut k: usize = 0;
        while k < njumps
            invariant
                0 <= k <= njumps == jumps@.len(),
                old(self).wf(),
                self.wf(),
                self.spec_path() == old(self).spec_path(),
                self.spec_addr_map() == old(self).spec_addr_map(),
                self.spec_ranges() == old(self).spec_ranges(),
                self.spec_relocs() == old(self).spec_relocs(),
                self.spec_versioned() == old(self).spec_versioned(),
                old(self).spec_symbols().len() <= self.spec_symbols().len(),
                forall|i: int|
                    0 <= i < old(self).spec_symbols().len() ==> self.spec_symbols()[i] == old(
                        self,
                    ).spec_symbols()[i],
                forall|k2: int|
                    0 <= k2 < k && in_ranges(old(self).spec_ranges(), (#[trigger] jumps@[k2]).ip)
                        && has_key64(old(self).spec_relocs(), jumps@[k2].target) ==> has_key64(
                        self.spec_dyn_map(),
                        jumps@[k2].ip,
                    ),
                forall|e: int|
                    0 <= e < self.spec_dyn_map().len() ==> stub_entry_accounted(
                        *old(self),
                        *self,
                        #[trigger] self.spec_dyn_map()[e],
                        jumps@.take(k as int),
                    ),
            decreases njumps - k,
        {
            let ghost pre_iter = *self;
            let j = jumps[k];
            if self.is_dynamic_symbol_address(j.ip) {
                match find_key64(&self.relocs, j.target) {
                    None => {},
                    Some(ri) => {
                        proof {
                            lemma_key64_index(self.spec_relocs(), ri as int);
                        }
                        match find_key64(&self.dyn_map, j.ip) {
                            Some(_) => {},
                            None => {
                                let nm = crate::bytes::copy_range(
                                    self.relocs[ri].1.as_slice(),
                                    0,
                                    self.relocs[ri].1.len(),
                                );
                                let ghost nm_spec = key64_at(old(self).spec_relocs(), j.target)@;
                                proof {
                                    assert(nm@ == nm_spec);
                                }
                                let resolved: Vec<u8> = match find_bkey(
                                    &self.versioned,
                                    nm.as_slice(),
                                ) {
                                    Some(vi) => {
                                        proof {
                                            lemma_bkey_index(self.spec_versioned(), vi as int);
                                            assert(self.spec_versioned()[vi as int].0@ == nm_spec);
                                            assert(has_bkey(
                                                old(self).spec_versioned(),
                                                nm_spec,
                                            ));
                                            assert(bkey_at(old(self).spec_versioned(), nm_spec)
                                                == self.spec_versioned()[vi as int].1);
                                        }
                                        let vf = self.versioned[vi].1;
                                        proof {
                                            assert(vf.0 < old(self).spec_symbols().len());
                                            assert(self.spec_symbols()[vf.0 as int] == old(
                                                self,
                                            ).spec_symbols()[vf.0 as int]);
                                        }
                                        crate::bytes::copy_range(
                                            self.symbols[vf.0].name_bytes.as_slice(),
                                            0,
                                            self.symbols[vf.0].name_bytes.len(),
                                        )
                                    },
                                    None => {
                                        proof {
                                            assert(!has_bkey(
                                                old(self).spec_versioned(),
                                                nm_spec,
                                            ));
                                        }
                                        nm
                                    },
                                };
                                proof {
                                    assert(resolved@ == resolved_stub_name(
                                        old(self).spec_symbols(),
                                        old(self).spec_versioned(),
                                        old(self).spec_relocs(),
                                        j.target,
                                    ));
                                }
                                let f = self.intern_dyn(resolved);
                                let ghost prev_dyn = self.spec_dyn_map();
                                self.dyn_map.push((j.ip, f));
                                proof {
                                    assert(self.spec_dyn_map().last() == (j.ip, f));
                                    assert(unique_keys64(self.spec_dyn_map())) by {
                                        assert forall|a: int, b: int|
                                            0 <= a < b < self.spec_dyn_map().len() implies self.spec_dyn_map()[a].0
                                                != self.spec_dyn_map()[b].0 by {
                                            if b == prev_dyn.len() as int {
                                                if self.spec_dyn_map()[a].0 == j.ip {
                                                    lemma_key64_index(prev_dyn, a);
                                                }
                                            }
                                        }
                                    }
                                }
                            },
                        }
                    },
                }
            }
            proof {
                assert forall|k2: int|
                    0 <= k2 < k + 1 && in_ranges(
                        old(self).spec_ranges(),
                        (#[trigger] jumps@[k2]).ip,
                    ) && has_key64(old(self).spec_relocs(), jumps@[k2].target) implies has_key64(
                    self.spec_dyn_map(),
                    jumps@[k2].ip,
                ) by {
                    if k2 < k {
                        assert(has_key64(pre_iter.spec_dyn_map(), jumps@[k2].ip));
                        if self.spec_dyn_map() != pre_iter.spec_dyn_map() {
                            lemma_has_key64_push(
                                pre_iter.spec_dyn_map(),
                                self.spec_dyn_map().last(),
                                jumps@[k2].ip,
                            );
                            assert(self.spec_dyn_map() =~= pre_iter.spec_dyn_map().push(
                                self.spec_dyn_map().last(),
                            ));
                        }
                    } else {
                        if self.spec_dyn_map() == pre_iter.spec_dyn_map() {
                            assert(has_key64(pre_iter.spec_dyn_map(), j.ip));
                        } else {
                            assert(self.spec_dyn_map().last().0 == j.ip);
                        }
                    }
                }
                assert forall|e: int| 0 <= e < self.spec_dyn_map().len() implies stub_entry_accounted(
                    *old(self),
                    *self,
                    #[trigger] self.spec_dyn_map()[e],
                    jumps@.take(k + 1),
                ) by {
                    if e < pre_iter.spec_dyn_map().len() {
                        let ent = pre_iter.spec_dyn_map()[e];
                        assert(self.spec_dyn_map()[e] == ent);
                        assert(stub_entry_accounted(*old(self), pre_iter, ent, jumps@.take(k as int)));
                        if !has_key64(old(self).spec_dyn_map(), ent.0) {
                            let k2 = choose|k2: int|
                                0 <= k2 < jumps@.take(k as int).len() && (#[trigger] jumps@.take(
                                    k as int,
                                )[k2]).ip == ent.0 && in_ranges(
                                    old(self).spec_ranges(),
                                    jumps@.take(k as int)[k2].ip,
                                ) && has_key64(
                                    old(self).spec_relocs(),
                                    jumps@.take(k as int)[k2].target,
                                ) && pre_iter.spec_symbols()[ent.1.0 as int].name_bytes@
                                    == resolved_stub_name(
                                    old(self).spec_symbols(),
                                    old(self).spec_versioned(),
                                    old(self).spec_relocs(),
                                    jumps@.take(k as int)[k2].target,
                                );
                            assert(ent.1.0 < pre_iter.spec_symbols().len());
                            assert(self.spec_symbols()[ent.1.0 as int] == pre_iter.spec_symbols()[ent.1.0 as int]);
                            assert(jumps@.take(k + 1)[k2] == jumps@[k2]);
                        }
                    } else {
                        let ent = self.spec_dyn_map()[e];
                        assert(ent.0 == j.ip);
                        assert(jumps@.take(k + 1)[k as int] == jumps@[k as int]);
                    }
                }
            }
            k = k + 1;
        }
    }
}

} // verus!

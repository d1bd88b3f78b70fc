//! Trusted boundary to the object-file parser, the debug-info reader, the
//! demangler and the checksum routine. Each wrapper makes one kind of query
//! against the binary's bytes and hands back plain records. Every query's
//! answer is a function of the byte arguments alone, so each carries a
//! named result (`sections_of`, `symbols_of`, ...) that the callers'
//! contracts are stated over; everything that decides or builds on these
//! records is verified elsewhere.

use vstd::prelude::*;

use object::{Object, ObjectSection, ObjectSymbol, ObjectSymbolTable};

verus! {

/// One section of the binary: its index, name bytes, load address and size.
#[derive(Clone, Debug)]
pub struct SectionRec {
    /// Section index, as the object file numbers them.
    pub index: usize,
    /// Section name bytes.
    pub name: Vec<u8>,
    /// Load address.
    pub address: u64,
    /// Size in bytes.
    pub size: u64,
}

/// The mathematical content of a [`SectionRec`].
pub ghost struct SectionView {
    /// Section index.
    pub index: usize,
    /// Section name bytes.
    pub name: Seq<u8>,
    /// Load address.
    pub address: u64,
    /// Size in bytes.
    pub size: u64,
}

/// The content of a section record.
pub open spec fn sec_view(s: SectionRec) -> SectionView {
    SectionView { index: s.index, name: s.name@, address: s.address, size: s.size }
}

/// One symbol of a symbol table.
#[derive(Clone, Debug)]
pub struct SymbolRec {
    /// Symbol name bytes.
    pub name: Vec<u8>,
    /// Whether the symbol is of text (function) kind.
    pub is_text: bool,
    /// Index of the section holding it, when known.
    pub section_index: Option<usize>,
    /// Runtime address; 0 for undefined (dynamically linked) symbols.
    pub address: u64,
    /// Size in bytes.
    pub size: u64,
}

/// The mathematical content of a [`SymbolRec`].
pub ghost struct SymbolView {
    /// Symbol name bytes.
    pub name: Seq<u8>,
    /// Whether the symbol is of text kind.
    pub is_text: bool,
    /// Index of the section holding it, when known.
    pub section_index: Option<usize>,
    /// Runtime address.
    pub address: u64,
    /// Size in bytes.
    pub size: u64,
}

/// The content of a symbol record.
pub open spec fn sym_view(s: SymbolRec) -> SymbolView {
    SymbolView {
        name: s.name@,
        is_text: s.is_text,
        section_index: s.section_index,
        address: s.address,
        size: s.size,
    }
}

/// One dynamic relocation whose target is a named symbol.
#[derive(Clone, Debug)]
pub struct RelocRec {
    /// Address the relocation writes.
    pub address: u64,
    /// Name bytes of the target symbol.
    pub name: Vec<u8>,
    /// Whether the target symbol is of text kind.
    pub is_text: bool,
}

/// The mathematical content of a [`RelocRec`].
pub ghost struct RelocView {
    /// Address the relocation writes.
    pub address: u64,
    /// Name bytes of the target symbol.
    pub name: Seq<u8>,
    /// Whether the target symbol is of text kind.
    pub is_text: bool,
}

/// The content of a relocation record.
pub open spec fn reloc_view(r: RelocRec) -> RelocView {
    RelocView { address: r.address, name: r.name@, is_text: r.is_text }
}

/// The debug-link record of a stripped binary: the companion file's name
/// and the CRC-32 it must hash to.
#[derive(Clone, Debug)]
pub struct DebugLinkRec {
    /// Companion file name bytes.
    pub filename: Vec<u8>,
    /// Expected CRC-32 of the companion file.
    pub crc: u32,
}

/// The mathematical content of a [`DebugLinkRec`].
pub ghost struct DebugLinkView {
    /// Companion file name bytes.
    pub filename: Seq<u8>,
    /// Expected CRC-32 of the companion file.
    pub crc: u32,
}

/// The content of a debug-link record.
pub open spec fn link_view(l: DebugLinkRec) -> DebugLinkView {
    DebugLinkView { filename: l.filename@, crc: l.crc }
}

/// What the debug info knows about an address: a file and a line, each of
/// which may be absent.
#[derive(Clone, Debug)]
pub struct LocationRec {
    /// Source file path bytes, when present.
    pub file: Option<Vec<u8>>,
    /// Source line, when present.
    pub line: Option<u32>,
}

/// The mathematical content of a [`LocationRec`].
pub ghost struct LocationView {
    /// Source file path bytes, when present.
    pub file: Option<Seq<u8>>,
    /// Source line, when present.
    pub line: Option<u32>,
}

/// The content of a location record.
pub open spec fn loc_view(l: LocationRec) -> LocationView {
    LocationView {
        file: match l.file {
            Some(f) => Some(f@),
            None => None,
        },
        line: l.line,
    }
}

/// The sections of an object file, a function of its bytes alone; `None`
/// when the bytes do not parse.
pub uninterp spec fn sections_of(data: Seq<u8>) -> Option<Seq<SectionView>>;

/// The symbol table of an object file, a function of its bytes alone;
/// `None` when the bytes do not parse.
pub uninterp spec fn symbols_of(data: Seq<u8>) -> Option<Seq<SymbolView>>;

/// Whether an object file carries debug sections of its own, a function of
/// its bytes alone.
pub uninterp spec fn has_debug_symbols_of(data: Seq<u8>) -> bool;

/// The named dynamic relocations of an object file, a function of its
/// bytes alone; `None` when the bytes do not parse or it has no dynamic
/// relocation table.
pub uninterp spec fn dynamic_relocs_of(data: Seq<u8>) -> Option<Seq<RelocView>>;

/// The debug-link record of an object file, a function of its bytes alone.
/// Outer `None`: the bytes do not parse or the link is malformed; inner
/// `None`: the binary has no debug link.
pub uninterp spec fn debuglink_of(data: Seq<u8>) -> Option<Option<DebugLinkView>>;

/// The bytes of the given address range of a section, a function of the
/// file bytes and the range alone; `None` when the range lies outside the
/// section.
pub uninterp spec fn section_bytes_of(
    data: Seq<u8>,
    index: usize,
    address: u64,
    size: u64,
) -> Option<Seq<u8>>;

/// The source position the debug info of an object file gives for an
/// address, a function of the bytes and the address alone; `None` when
/// nothing is recorded there.
pub uninterp spec fn location_of(data: Seq<u8>, address: u64) -> Option<LocationView>;

/// The demangled display form of a symbol name, a function of the name
/// alone; `None` when the name is no mangled symbol.
pub uninterp spec fn demangled_of(name: Seq<u8>) -> Option<Seq<u8>>;

/// The CRC-32 of a byte string, as the checksum crate computes it: a pure
/// function of the bytes alone.
pub uninterp spec fn crc32_of(data: Seq<u8>) -> u32;

/// Relies on object::File::parse and Object::sections (with
/// ObjectSection::{index, name_bytes, address, size}): the binary's
/// sections, exactly `sections_of` the bytes.
#[verifier::external_body]
pub(crate) fn obj_sections(data: &[u8]) -> (r: Option<Vec<SectionRec>>)
    ensures
        match r {
            Some(v) => sections_of(data@) == Some(v@.map_values(|s: SectionRec| sec_view(s))),
            None => sections_of(data@) is None,
        },
{
    let file = object::File::parse(data).ok()?;
    Some(file.sections().map(|s| SectionRec {
        index: s.index().0,
        name: s.name_bytes().map(|n| n.to_vec()).unwrap_or(Vec::new()),
        address: s.address(),
        size: s.size(),
    }).collect())
}

/// Relies on object::File::parse and Object::symbols (with
/// ObjectSymbol::{name_bytes, kind, section_index, address, size}): the
/// binary's symbol table, exactly `symbols_of` the bytes.
#[verifier::external_body]
pub(crate) fn obj_symbols(data: &[u8]) -> (r: Option<Vec<SymbolRec>>)
    ensures
        match r {
            Some(v) => symbols_of(data@) == Some(v@.map_values(|s: SymbolRec| sym_view(s))),
            None => symbols_of(data@) is None,
        },
{
    let file = object::File::parse(data).ok()?;
    Some(file.symbols().map(|s| SymbolRec {
        name: s.name_bytes().map(|n| n.to_vec()).unwrap_or(Vec::new()),
        is_text: s.kind() == object::SymbolKind::Text,
        section_index: s.section_index().map(|i| i.0),
        address: s.address(),
        size: s.size(),
    }).collect())
}

/// Relies on object::File::parse and Object::has_debug_symbols: whether
/// the binary carries debug sections of its own (false when it does not
/// parse).
#[verifier::external_body]
pub(crate) fn obj_has_debug_symbols(data: &[u8]) -> (r: bool)
    ensures
        r == has_debug_symbols_of(data@),
{
    match object::File::parse(data) {
        Ok(file) => file.has_debug_symbols(),
        Err(_) => false,
    }
}

/// Relies on object::File::parse, Object::dynamic_relocations,
/// Object::dynamic_symbol_table and ObjectSymbolTable::symbol_by_index:
/// the dynamic relocations whose target is a named symbol, exactly
/// `dynamic_relocs_of` the bytes.
#[verifier::external_body]
pub(crate) fn obj_dynamic_relocs(data: &[u8]) -> (r: Option<Vec<RelocRec>>)
    ensures
        match r {
            Some(v) => dynamic_relocs_of(data@) == Some(
                v@.map_values(|x: RelocRec| reloc_view(x)),
            ),
            None => dynamic_relocs_of(data@) is None,
        },
{
    let file = object::File::parse(data).ok()?;
    let table = file.dynamic_symbol_table()?;
    Some(file.dynamic_relocations()?.filter_map(|(address, reloc)| {
        let sym = match reloc.target() {
            object::RelocationTarget::Symbol(index) => table.symbol_by_index(index).ok()?,
            _ => return None,
        };
        let name = sym.name_bytes().ok()?.to_vec();
        Some(RelocRec { address, name, is_text: sym.kind() == object::SymbolKind::Text })
    }).collect())
}

/// Relies on object::File::parse and Object::gnu_debuglink: the binary's
/// debug-link record, exactly `debuglink_of` the bytes.
#[verifier::external_body]
pub(crate) fn obj_gnu_debuglink(data: &[u8]) -> (r: Option<Option<DebugLinkRec>>)
    ensures
        match r {
            Some(Some(l)) => debuglink_of(data@) == Some(Some(link_view(l))),
            Some(None) => debuglink_of(data@) == Some(Option::<DebugLinkView>::None),
            None => debuglink_of(data@) is None,
        },
{
    let file = object::File::parse(data).ok()?;
    match file.gnu_debuglink() {
        Ok(Some((name, crc))) => Some(Some(DebugLinkRec { filename: name.to_vec(), crc })),
        Ok(None) => Some(None),
        Err(_) => None,
    }
}

/// Relies on object::File::parse, Object::section_by_index and
/// ObjectSection::data_range: the `size` bytes of section `index` starting
/// at load address `address`, exactly `section_bytes_of` the arguments.
/// Per its documentation `data_range` returns exactly the requested range
/// when it lies inside the section.
#[verifier::external_body]
pub(crate) fn obj_section_data_range(
    data: &[u8],
    index: usize,
    address: u64,
    size: u64,
) -> (r: Option<Vec<u8>>)
    ensures
        match r {
            Some(d) => section_bytes_of(data@, index, address, size) == Some(d@) && d@.len()
                == size,
            None => section_bytes_of(data@, index, address, size) is None,
        },
{
    let file = object::File::parse(data).ok()?;
    let section = file.section_by_index(object::SectionIndex(index)).ok()?;
    let d = section.data_range(address, size).ok()??;
    Some(d.to_vec())
}

/// Relies on object::File::parse, addr2line::Context::new and
/// addr2line::Context::find_location: the source position the debug info
/// gives for `address`, exactly `location_of` the bytes and address.
/// Either returned field may be absent.
#[verifier::external_body]
pub(crate) fn dw_find_location(data: &[u8], address: u64) -> (r: Option<LocationRec>)
    ensures
        match r {
            Some(l) => location_of(data@, address) == Some(loc_view(l)),
            None => location_of(data@, address) is None,
        },
{
    let file = object::File::parse(data).ok()?;
    let ctx = addr2line::Context::new(&file).ok()?;
    let loc = ctx.find_location(address).ok()??;
    Some(
        LocationRec { file: loc.file.map(|f| f.as_bytes().to_vec()), line: loc.line },
    )
}

/// Relies on cpp_demangle::Symbol::new and Symbol::demangle (default
/// options): the demangled display form of a symbol name, exactly
/// `demangled_of` the name bytes; `None` when the name does not parse as a
/// mangled symbol.
#[verifier::external_body]
pub(crate) fn demangle(name: &[u8]) -> (r: Option<Vec<u8>>)
    ensures
        match r {
            Some(d) => demangled_of(name@) == Some(d@),
            None => demangled_of(name@) is None,
        },
{
    let sym = cpp_demangle::Symbol::new(name).ok()?;
    Some(sym.demangle().ok()?.into_bytes())
}

/// Relies on crc32fast::Hasher (new, update, finalize): the CRC-32 of the
/// bytes, a function of the bytes alone.
#[verifier::external_body]
pub(crate) fn crc32(data: &[u8]) -> (r: u32)
    ensures
        r == crc32_of(data@),
{
    let mut hasher = crc32fast::Hasher::new();
    hasher.update(data);
    hasher.finalize()
}

} // verus!

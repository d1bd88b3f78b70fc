//! Binary index behavior against small hand-built ELF images: loading,
//! debug-link validation, symbol lookups, and call classification.

use wachy::analyze::{attribute_calls, classify_call, create_frame_info, group_by_line, LocatedCall, RawInstr};
use wachy::controller::{enter_line, EnterOutcome};
use wachy::error::Error;
use wachy::program::{check_debug_companion, FunctionName, Program};
use wachy::trace_stack::{CallInstruction, FrameInfo, InstructionType, LineCallsites, RegName, TraceStack};

struct Sec {
    name: &'static str,
    sh_type: u32,
    flags: u64,
    addr: u64,
    data: Vec<u8>,
    link: u32,
    info: u32,
    align: u64,
    entsize: u64,
}

fn push_u16(v: &mut Vec<u8>, x: u16) {
    v.extend_from_slice(&x.to_le_bytes());
}
fn push_u32(v: &mut Vec<u8>, x: u32) {
    v.extend_from_slice(&x.to_le_bytes());
}
fn push_u64(v: &mut Vec<u8>, x: u64) {
    v.extend_from_slice(&x.to_le_bytes());
}

/// Assemble a little-endian ELF64 executable image from the given sections
/// (a null section and a trailing .shstrtab are added automatically).
fn build_elf(secs: &[Sec]) -> Vec<u8> {
    // section name string table
    let mut shstrtab: Vec<u8> = vec![0];
    let mut name_offsets: Vec<u32> = Vec::new();
    for s in secs {
        name_offsets.push(shstrtab.len() as u32);
        shstrtab.extend_from_slice(s.name.as_bytes());
        shstrtab.push(0);
    }
    let shstrtab_name_off = shstrtab.len() as u32;
    shstrtab.extend_from_slice(b".shstrtab");
    shstrtab.push(0);

    let nsec = secs.len() + 2; // null + secs + shstrtab
    let mut out: Vec<u8> = Vec::new();
    // ELF header
    out.extend_from_slice(&[0x7f, b'E', b'L', b'F', 2, 1, 1, 0, 0, 0, 0, 0, 0, 0, 0, 0]);
    push_u16(&mut out, 2); // ET_EXEC
    push_u16(&mut out, 62); // EM_X86_64
    push_u32(&mut out, 1);
    push_u64(&mut out, 0x1000); // entry
    push_u64(&mut out, 0); // phoff
    let shoff_pos = out.len();
    push_u64(&mut out, 0); // shoff, patched below
    push_u32(&mut out, 0); // flags
    push_u16(&mut out, 64); // ehsize
    push_u16(&mut out, 56); // phentsize
    push_u16(&mut out, 0); // phnum
    push_u16(&mut out, 64); // shentsize
    push_u16(&mut out, nsec as u16);
    push_u16(&mut out, (nsec - 1) as u16); // shstrndx

    // section contents
    let mut offsets: Vec<u64> = Vec::new();
    for s in secs {
        offsets.push(out.len() as u64);
        out.extend_from_slice(&s.data);
    }
    let shstrtab_off = out.len() as u64;
    out.extend_from_slice(&shstrtab);
    while out.len() % 8 != 0 {
        out.push(0);
    }
    let shoff = out.len() as u64;
    out[shoff_pos..shoff_pos + 8].copy_from_slice(&shoff.to_le_bytes());

    // headers: null first
    for _ in 0..64 {
        out.push(0);
    }
    for (i, s) in secs.iter().enumerate() {
        push_u32(&mut out, name_offsets[i]);
        push_u32(&mut out, s.sh_type);
        push_u64(&mut out, s.flags);
        push_u64(&mut out, s.addr);
        push_u64(&mut out, offsets[i]);
        push_u64(&mut out, s.data.len() as u64);
        push_u32(&mut out, s.link);
        push_u32(&mut out, s.info);
        push_u64(&mut out, s.align);
        push_u64(&mut out, s.entsize);
    }
    // .shstrtab header
    push_u32(&mut out, shstrtab_name_off);
    push_u32(&mut out, 3); // STRTAB
    push_u64(&mut out, 0);
    push_u64(&mut out, 0);
    push_u64(&mut out, shstrtab_off);
    push_u64(&mut out, shstrtab.len() as u64);
    push_u32(&mut out, 0);
    push_u32(&mut out, 0);
    push_u64(&mut out, 1);
    push_u64(&mut out, 0);
    out
}

fn symtab_data() -> Vec<u8> {
    let mut sym: Vec<u8> = Vec::new();
    // null symbol
    for _ in 0..24 {
        sym.push(0);
    }
    // "main": global func in section 1 at 0x1000, 0x20 bytes
    push_u32(&mut sym, 1);
    sym.push(0x12);
    sym.push(0);
    push_u16(&mut sym, 1);
    push_u64(&mut sym, 0x1000);
    push_u64(&mut sym, 0x20);
    // "puts": global func, undefined (dynamically linked), address 0
    push_u32(&mut sym, 6);
    sym.push(0x12);
    sym.push(0);
    push_u16(&mut sym, 0);
    push_u64(&mut sym, 0);
    push_u64(&mut sym, 0);
    sym
}

/// An executable with a text section, a symbol table ("main" and the
/// undefined "puts"), and optionally an (empty) debug-line section.
fn elf_with_symbols(with_debug_line: bool) -> Vec<u8> {
    let mut secs = vec![
        Sec {
            name: ".text",
            sh_type: 1,
            flags: 6,
            addr: 0x1000,
            data: vec![0x90; 0x20],
            link: 0,
            info: 0,
            align: 16,
            entsize: 0,
        },
        Sec {
            name: ".symtab",
            sh_type: 2,
            flags: 0,
            addr: 0,
            data: symtab_data(),
            link: 3,
            info: 1,
            align: 8,
            entsize: 24,
        },
        Sec {
            name: ".strtab",
            sh_type: 3,
            flags: 0,
            addr: 0,
            data: b"\0main\0puts\0".to_vec(),
            link: 0,
            info: 0,
            align: 1,
            entsize: 0,
        },
    ];
    if with_debug_line {
        secs.push(Sec {
            name: ".debug_line",
            sh_type: 1,
            flags: 0,
            addr: 0,
            data: Vec::new(),
            link: 0,
            info: 0,
            align: 1,
            entsize: 0,
        });
    }
    build_elf(&secs)
}

/// A stripped executable: text only, plus a debug link naming a companion
/// file with the given checksum.
fn stripped_elf_with_link(crc: u32) -> Vec<u8> {
    let mut link_data = b"companion.dbg\0".to_vec();
    while link_data.len() % 4 != 0 {
        link_data.push(0);
    }
    link_data.extend_from_slice(&crc.to_le_bytes());
    build_elf(&[
        Sec {
            name: ".text",
            sh_type: 1,
            flags: 6,
            addr: 0x1000,
            data: vec![0x90; 0x20],
            link: 0,
            info: 0,
            align: 16,
            entsize: 0,
        },
        Sec {
            name: ".gnu_debuglink",
            sh_type: 1,
            flags: 0,
            addr: 0,
            data: link_data,
            link: 0,
            info: 0,
            align: 4,
            entsize: 0,
        },
    ])
}

fn load_full() -> Program {
    Program::new(b"/bin/prog".to_vec(), elf_with_symbols(true), None).unwrap()
}

fn main_fn(p: &Program) -> FunctionName {
    let matches = p.get_matches(b"main");
    assert_eq!(matches.len(), 1);
    matches[0]
}

#[test]
fn load_and_look_up_symbols() {
    let p = load_full();
    let f = main_fn(&p);
    assert_eq!(p.get_address(f), 0x1000);
    let sym = p.get_symbol(f).unwrap();
    assert_eq!(sym.name_bytes, b"main".to_vec());
    assert_eq!(sym.size, 0x20);
    assert_eq!(sym.label(), b"main".to_vec());
    assert_eq!(p.file_path(), &b"/bin/prog".to_vec());
    assert_eq!(p.get_function_for_address(0x1000), Some(f));
    assert_eq!(p.get_function_for_address(0x2000), None);
    assert!(!p.is_dynamic_symbol_address(0x1000));
    let gen = p.symbols_generator();
    assert!(gen.len() >= 2);
}

#[test]
fn function_bytes_come_from_the_text_section() {
    let p = load_full();
    let f = main_fn(&p);
    let (addr, code) = p.get_data(f).unwrap();
    assert_eq!(addr, 0x1000);
    assert_eq!(code, vec![0x90; 0x20]);
}

#[test]
fn dynamic_symbol_has_no_body() {
    let p = load_full();
    let puts = p.get_matches(b"puts");
    assert_eq!(puts.len(), 1);
    assert_eq!(p.get_address(puts[0]), 0);
    assert!(matches!(p.get_data(puts[0]), Err(Error::DynamicSymbolNotEnterable)));
    let instrs: Vec<RawInstr> = Vec::new();
    assert!(matches!(
        create_frame_info(&p, puts[0], &instrs),
        Err(Error::DynamicSymbolNotEnterable)
    ));
}

#[test]
fn function_without_line_info_is_refused() {
    // the debug-line section is empty, so no address has a source position
    let p = load_full();
    let f = main_fn(&p);
    assert!(p.get_location(0x1000).is_none());
    let instrs: Vec<RawInstr> = Vec::new();
    assert!(matches!(create_frame_info(&p, f, &instrs), Err(Error::NoDebugInfoForFunction)));
}

#[test]
fn load_without_debug_line_fails() {
    let r = Program::new(b"/bin/prog".to_vec(), elf_with_symbols(false), None);
    assert!(matches!(r, Err(Error::MissingDebugInfo)));
    let r2 = Program::new(b"/bin/prog".to_vec(), b"not an object file".to_vec(), None);
    assert!(matches!(r2, Err(Error::Parse)));
}

#[test]
fn debug_link_round_trip() {
    // the companion carries the symbols and the debug-line section
    let companion = elf_with_symbols(true);
    let crc = crc32fast::hash(&companion);
    let stripped = stripped_elf_with_link(crc);

    let link = Program::debug_link_request(&stripped).unwrap().unwrap();
    assert_eq!(link.filename, b"companion.dbg".to_vec());
    assert_eq!(link.crc, crc);

    // a binary with its own debug line asks for no companion
    assert!(Program::debug_link_request(&elf_with_symbols(true)).unwrap().is_none());

    // unparseable bytes and link-less stripped binaries are refused
    assert!(matches!(
        Program::debug_link_request(&b"not an object file".to_vec()),
        Err(Error::Parse)
    ));
    assert!(matches!(
        Program::debug_link_request(&elf_with_symbols(false)),
        Err(Error::MissingDebugInfo)
    ));

    // loading with the validated companion succeeds and the lookups use
    // the companion's symbol table
    let p = Program::new(b"/bin/prog".to_vec(), stripped, Some((companion, crc))).unwrap();
    let f = main_fn(&p);
    assert_eq!(p.get_address(f), 0x1000);
}

#[test]
fn debug_link_crc_mismatch_fails_startup() {
    let companion = elf_with_symbols(true);
    let crc = crc32fast::hash(&companion);
    let stripped = stripped_elf_with_link(crc);
    let r = Program::new(
        b"/bin/prog".to_vec(),
        stripped,
        Some((companion, crc.wrapping_add(1))),
    );
    match r {
        Err(Error::CrcMismatch { expected, actual }) => {
            assert_eq!(expected, crc.wrapping_add(1));
            assert_eq!(actual, crc);
        }
        _ => panic!("expected a CRC mismatch"),
    }
}

#[test]
fn crc_known_vector() {
    assert!(check_debug_companion(b"123456789", 0xCBF43926).is_ok());
    match check_debug_companion(b"123456789", 0) {
        Err(Error::CrcMismatch { expected, actual }) => {
            assert_eq!(expected, 0);
            assert_eq!(actual, 0xCBF43926);
        }
        _ => panic!("expected a CRC mismatch"),
    }
}

fn raw_call(offset: u64, target: Option<u64>) -> RawInstr {
    RawInstr {
        offset,
        length: 5,
        is_call: true,
        reg: None,
        mem_base: None,
        mem_disp: 0,
        target,
    }
}

#[test]
fn classification_by_operand() {
    let p = load_full();
    let f = main_fn(&p);

    // an immediate target at a known local symbol
    let ci = classify_call(&p, 4, 5, &raw_call(4, Some(0x1000)));
    assert!(matches!(ci.instruction, InstructionType::Function(g) if g == f));

    // an immediate target nowhere
    let ci = classify_call(&p, 4, 5, &raw_call(4, Some(0x9999)));
    assert!(matches!(ci.instruction, InstructionType::Unknown));

    // a register operand
    let mut ri = raw_call(4, None);
    ri.reg = Some(RegName::from_bytes(b"rax").unwrap());
    let ci = classify_call(&p, 4, 2, &ri);
    match ci.instruction {
        InstructionType::Register(reg, disp) => {
            assert_eq!(reg.to_vec(), b"rax".to_vec());
            assert!(disp.is_none());
        }
        _ => panic!("expected an indirect call"),
    }

    // a memory operand with base register and displacement
    let mut ri = raw_call(4, None);
    ri.mem_base = Some(RegName::from_bytes(b"rbx").unwrap());
    ri.mem_disp = -8;
    let ci = classify_call(&p, 4, 3, &ri);
    match ci.instruction {
        InstructionType::Register(reg, disp) => {
            assert_eq!(reg.to_vec(), b"rbx".to_vec());
            assert_eq!(disp, Some(-8));
        }
        _ => panic!("expected an indirect call through memory"),
    }
}

#[test]
fn inlined_calls_from_other_files_are_dropped() {
    let here = CallInstruction::unknown(0x10, 5);
    let there = CallInstruction::unknown(0x20, 5);
    let located = vec![
        LocatedCall { ci: here, file: b"main.c".to_vec(), line: 4 },
        LocatedCall { ci: there, file: b"vector.h".to_vec(), line: 90 },
    ];
    let pairs = attribute_calls(b"main.c", &located);
    assert_eq!(pairs.len(), 1);
    assert_eq!(pairs[0].0, 4);
    assert_eq!(pairs[0].1.relative_ip, 0x10);
}

#[test]
fn grouping_keeps_order_within_and_across_lines() {
    let a = CallInstruction::unknown(0x10, 5);
    let b = CallInstruction::unknown(0x20, 5);
    let c = CallInstruction::unknown(0x30, 5);
    let grouped = group_by_line(&vec![(7, a), (3, b), (7, c)]);
    assert_eq!(grouped.len(), 2);
    assert_eq!(grouped[0].line, 7);
    assert_eq!(grouped[0].callsites.len(), 2);
    assert_eq!(grouped[0].callsites[0].relative_ip, 0x10);
    assert_eq!(grouped[0].callsites[1].relative_ip, 0x30);
    assert_eq!(grouped[1].line, 3);
    assert_eq!(grouped[1].callsites.len(), 1);
}

#[test]
fn entering_decides_between_descend_notice_and_choice() {
    let p = load_full();
    let f = main_fn(&p);
    let puts = p.get_matches(b"puts")[0];

    let frame = |cs: Vec<CallInstruction>| {
        FrameInfo::new(
            f,
            0x1000,
            0x20,
            b"main.c".to_vec(),
            1,
            vec![LineCallsites { line: 5, callsites: cs }],
        )
    };

    // one direct local callee: descend
    let stack = TraceStack::new(b"/bin/prog".to_vec(), frame(vec![
        CallInstruction::function(0x4, 5, f),
    ]));
    assert!(matches!(enter_line(&p, &stack, 5), EnterOutcome::Descend(g) if g == f));

    // one dynamic callee: a notice, nothing pushed
    let stack = TraceStack::new(b"/bin/prog".to_vec(), frame(vec![
        CallInstruction::dynamic_symbol(0x4, 5, puts),
    ]));
    assert!(matches!(enter_line(&p, &stack, 5), EnterOutcome::DynamicNotice(g) if g == puts));

    // an indirect call widens the search
    let reg = RegName::from_bytes(b"rax").unwrap();
    let stack = TraceStack::new(b"/bin/prog".to_vec(), frame(vec![
        CallInstruction::register(0x4, 2, reg, None),
    ]));
    match enter_line(&p, &stack, 5) {
        EnterOutcome::Choice { direct, indirect } => {
            assert_eq!(direct.len(), 0);
            assert_eq!(indirect, 1);
        }
        _ => panic!("expected the widening choice"),
    }

    // several callees: a choice listing the named ones
    let stack = TraceStack::new(b"/bin/prog".to_vec(), frame(vec![
        CallInstruction::function(0x4, 5, f),
        CallInstruction::dynamic_symbol(0xa, 5, puts),
    ]));
    match enter_line(&p, &stack, 5) {
        EnterOutcome::Choice { direct, indirect } => {
            assert_eq!(direct, vec![f, puts]);
            assert_eq!(indirect, 0);
        }
        _ => panic!("expected a choice"),
    }

    // a line without calls
    assert!(matches!(enter_line(&p, &stack, 99), EnterOutcome::NoCallsite));
}

#[test]
fn plt_jumps_outside_stub_sections_are_ignored() {
    let mut p = load_full();
    // this image has no stub section, so no jump qualifies
    p.apply_plt_jumps(&vec![wachy::program::JumpRec { ip: 0x1000, target: 0x2000 }]);
    let f = main_fn(&p);
    assert_eq!(p.get_function_for_address(0x1000), Some(f));
}

/// An executable with a jump-table section, a dynamic symbol table with
/// "puts", a dynamic relocation targeting a jump-slot address, and a local
/// symbol table holding "main" and the versioned "puts@@GLIBC_2.2.5".
fn elf_with_plt() -> Vec<u8> {
    // local symbol table: main, and the versioned spelling of puts
    let mut sym: Vec<u8> = vec![0; 24];
    push_u32(&mut sym, 1); // "main"
    sym.push(0x12);
    sym.push(0);
    push_u16(&mut sym, 1);
    push_u64(&mut sym, 0x1000);
    push_u64(&mut sym, 0x20);
    push_u32(&mut sym, 6); // "puts@@GLIBC_2.2.5"
    sym.push(0x12);
    sym.push(0);
    push_u16(&mut sym, 0);
    push_u64(&mut sym, 0);
    push_u64(&mut sym, 0);

    // dynamic symbol table: the unversioned "puts"
    let mut dynsym: Vec<u8> = vec![0; 24];
    push_u32(&mut dynsym, 1); // "puts"
    dynsym.push(0x12);
    dynsym.push(0);
    push_u16(&mut dynsym, 0);
    push_u64(&mut dynsym, 0);
    push_u64(&mut dynsym, 0);

    // one jump-slot relocation: address 0x3018 resolves to dynsym entry 1
    let mut rela: Vec<u8> = Vec::new();
    push_u64(&mut rela, 0x3018);
    push_u64(&mut rela, (1u64 << 32) | 7); // R_X86_64_JUMP_SLOT
    push_u64(&mut rela, 0);

    build_elf(&[
        Sec { name: ".text", sh_type: 1, flags: 6, addr: 0x1000, data: vec![0x90; 0x20], link: 0, info: 0, align: 16, entsize: 0 },
        Sec { name: ".plt", sh_type: 1, flags: 6, addr: 0x1100, data: vec![0x90; 0x10], link: 0, info: 0, align: 16, entsize: 16 },
        Sec { name: ".dynsym", sh_type: 11, flags: 2, addr: 0, data: dynsym, link: 4, info: 1, align: 8, entsize: 24 },
        Sec { name: ".dynstr", sh_type: 3, flags: 2, addr: 0, data: b"\0puts\0".to_vec(), link: 0, info: 0, align: 1, entsize: 0 },
        Sec { name: ".rela.plt", sh_type: 4, flags: 2, addr: 0, data: rela, link: 3, info: 2, align: 8, entsize: 24 },
        Sec { name: ".symtab", sh_type: 2, flags: 0, addr: 0, data: sym, link: 7, info: 1, align: 8, entsize: 24 },
        Sec { name: ".strtab", sh_type: 3, flags: 0, addr: 0, data: b"\0main\0puts@@GLIBC_2.2.5\0".to_vec(), link: 0, info: 0, align: 1, entsize: 0 },
        Sec { name: ".debug_line", sh_type: 1, flags: 0, addr: 0, data: Vec::new(), link: 0, info: 0, align: 1, entsize: 0 },
    ])
}

#[test]
fn plt_jump_resolves_to_versioned_dynamic_symbol() {
    let mut p = Program::new(b"/bin/prog".to_vec(), elf_with_plt(), None).unwrap();
    // the jump-table section is a dynamic-stub range
    assert!(p.is_dynamic_symbol_address(0x1108));
    assert!(!p.is_dynamic_symbol_address(0x1000));

    // a jump at 0x1108 whose target carries the "puts" relocation: the
    // unversioned relocation name is rewritten to the versioned symbol
    p.apply_plt_jumps(&vec![wachy::program::JumpRec { ip: 0x1108, target: 0x3018 }]);
    let f = p.get_function_for_address(0x1108).expect("stub entry expected");
    let sym = p.get_symbol(f).unwrap();
    assert_eq!(sym.name_bytes, b"puts@@GLIBC_2.2.5".to_vec());
    assert_eq!(sym.address, 0);
    assert_eq!(sym.size, 0);

    // a call into the stub classifies as a dynamic-symbol call
    let ci = classify_call(&p, 0, 5, &raw_call(0, Some(0x1108)));
    assert!(matches!(ci.instruction, InstructionType::DynamicSymbol(g) if g == f));

    // a jump that resolves to no relocation is silently skipped
    p.apply_plt_jumps(&vec![wachy::program::JumpRec { ip: 0x1100, target: 0x9999 }]);
    assert_eq!(p.get_function_for_address(0x1100), None);
}

fn uleb(v: &mut Vec<u8>, mut x: u64) {
    loop {
        let mut b = (x & 0x7f) as u8;
        x >>= 7;
        if x != 0 {
            b |= 0x80;
        }
        v.push(b);
        if x == 0 {
            break;
        }
    }
}

fn debug_abbrev() -> Vec<u8> {
    // one abbreviation: a compile unit with statement list and code range
    vec![
        0x01, 0x11, 0x00, // code 1, compile_unit, no children
        0x10, 0x17, // stmt_list, sec_offset
        0x11, 0x01, // low_pc, addr
        0x12, 0x07, // high_pc, data8
        0x00, 0x00, // end of attributes
        0x00, // end of abbreviations
    ]
}

fn debug_info() -> Vec<u8> {
    let mut unit: Vec<u8> = Vec::new();
    push_u16(&mut unit, 4); // DWARF version
    push_u32(&mut unit, 0); // abbrev offset
    unit.push(8); // address size
    unit.push(1); // abbrev code
    push_u32(&mut unit, 0); // stmt_list
    push_u64(&mut unit, 0x1000); // low_pc
    push_u64(&mut unit, 0x20); // high_pc (size of code)
    unit.push(0);
    let mut out: Vec<u8> = Vec::new();
    push_u32(&mut out, unit.len() as u32);
    out.extend_from_slice(&unit);
    out
}

/// A line program placing 0x1000..0x100f at main.c line 4 and
/// 0x1010..0x101f at inline.h line 99.
fn debug_line() -> Vec<u8> {
    let mut header: Vec<u8> = Vec::new();
    header.push(1); // minimum instruction length
    header.push(1); // maximum operations per instruction
    header.push(1); // default is_stmt
    header.push(1); // line base
    header.push(1); // line range
    header.push(13); // opcode base
    header.extend_from_slice(&[0, 1, 1, 1, 1, 0, 0, 0, 1, 0, 0, 1]);
    header.push(0); // no include directories
    header.extend_from_slice(b"main.c\0");
    uleb(&mut header, 0);
    uleb(&mut header, 0);
    uleb(&mut header, 0);
    header.extend_from_slice(b"inline.h\0");
    uleb(&mut header, 0);
    uleb(&mut header, 0);
    uleb(&mut header, 0);
    header.push(0); // end of file names

    let mut program: Vec<u8> = Vec::new();
    program.extend_from_slice(&[0x00, 0x09, 0x02]); // extended: set_address
    push_u64(&mut program, 0x1000);
    program.extend_from_slice(&[0x03, 0x03]); // advance_line +3 (to 4)
    program.push(0x01); // copy
    program.extend_from_slice(&[0x02, 0x10]); // advance_pc 0x10
    program.extend_from_slice(&[0x04, 0x02]); // set_file 2
    program.extend_from_slice(&[0x03, 0xdf, 0x00]); // advance_line +95 (to 99)
    program.push(0x01); // copy
    program.extend_from_slice(&[0x02, 0x10]); // advance_pc 0x10
    program.extend_from_slice(&[0x00, 0x01, 0x01]); // end_sequence

    let mut unit: Vec<u8> = Vec::new();
    push_u16(&mut unit, 4); // DWARF version
    push_u32(&mut unit, header.len() as u32);
    unit.extend_from_slice(&header);
    unit.extend_from_slice(&program);
    let mut out: Vec<u8> = Vec::new();
    push_u32(&mut out, unit.len() as u32);
    out.extend_from_slice(&unit);
    out
}

/// An executable with a symbol table and genuine debug info: a compile
/// unit over the text range and a line table for main.c and inline.h.
fn elf_with_dwarf() -> Vec<u8> {
    build_elf(&[
        Sec { name: ".text", sh_type: 1, flags: 6, addr: 0x1000, data: vec![0x90; 0x20], link: 0, info: 0, align: 16, entsize: 0 },
        Sec { name: ".symtab", sh_type: 2, flags: 0, addr: 0, data: symtab_data(), link: 3, info: 1, align: 8, entsize: 24 },
        Sec { name: ".strtab", sh_type: 3, flags: 0, addr: 0, data: b"\0main\0puts\0".to_vec(), link: 0, info: 0, align: 1, entsize: 0 },
        Sec { name: ".debug_abbrev", sh_type: 1, flags: 0, addr: 0, data: debug_abbrev(), link: 0, info: 0, align: 1, entsize: 0 },
        Sec { name: ".debug_info", sh_type: 1, flags: 0, addr: 0, data: debug_info(), link: 0, info: 0, align: 1, entsize: 0 },
        Sec { name: ".debug_line", sh_type: 1, flags: 0, addr: 0, data: debug_line(), link: 0, info: 0, align: 1, entsize: 0 },
    ])
}

#[test]
fn source_locations_come_from_the_line_table() {
    let p = Program::new(b"/bin/prog".to_vec(), elf_with_dwarf(), None).unwrap();
    let loc = p.get_location(0x1000).unwrap();
    assert!(loc.file.ends_with(b"main.c"));
    assert_eq!(loc.line, 4);
    let loc2 = p.get_location(0x1010).unwrap();
    assert!(loc2.file.ends_with(b"inline.h"));
    assert_eq!(loc2.line, 99);
    assert!(p.get_location(0x9999).is_none());
}

#[test]
fn frame_groups_calls_by_line_and_drops_inlined_ones() {
    let p = Program::new(b"/bin/prog".to_vec(), elf_with_dwarf(), None).unwrap();
    let f = main_fn(&p);
    let mut indirect = raw_call(5, None);
    indirect.reg = Some(RegName::from_bytes(b"rax").unwrap());
    indirect.length = 2;
    let instrs = vec![
        // a direct recursive call on main.c line 4
        raw_call(0, Some(0x1000)),
        // an indirect call on the same line
        indirect,
        // a call inlined from inline.h: dropped from the frame
        raw_call(0x10, Some(0x9999)),
    ];
    let fi = create_frame_info(&p, f, &instrs).unwrap();
    assert_eq!(fi.get_function(), f);
    assert_eq!(fi.get_start_address(), 0x1000);
    assert_eq!(fi.get_function_size(), 0x20);
    assert!(fi.get_source_file().ends_with(b"main.c"));
    assert_eq!(fi.get_source_line(), 4);
    assert_eq!(fi.called_lines(), vec![4]);
    let calls = fi.callsites_at(4);
    assert_eq!(calls.len(), 2);
    assert_eq!(calls[0].relative_ip, 0);
    assert!(matches!(calls[0].instruction, InstructionType::Function(g) if g == f));
    assert_eq!(calls[1].relative_ip, 5);
    assert!(matches!(calls[1].instruction, InstructionType::Register(_, None)));
    assert_eq!(fi.callsites_at(99).len(), 0);
    assert_eq!(fi.max_line(), 4);
}

/// An executable whose symbol table holds a mangled name.
fn elf_with_mangled() -> Vec<u8> {
    let mut sym: Vec<u8> = vec![0; 24];
    push_u32(&mut sym, 1); // "_ZN5space3fooEibc"
    sym.push(0x12);
    sym.push(0);
    push_u16(&mut sym, 1);
    push_u64(&mut sym, 0x1000);
    push_u64(&mut sym, 0x20);
    build_elf(&[
        Sec { name: ".text", sh_type: 1, flags: 6, addr: 0x1000, data: vec![0x90; 0x20], link: 0, info: 0, align: 16, entsize: 0 },
        Sec { name: ".symtab", sh_type: 2, flags: 0, addr: 0, data: sym, link: 3, info: 1, align: 8, entsize: 24 },
        Sec { name: ".strtab", sh_type: 3, flags: 0, addr: 0, data: b"\0_ZN5space3fooEibc\0".to_vec(), link: 0, info: 0, align: 1, entsize: 0 },
        Sec { name: ".debug_line", sh_type: 1, flags: 0, addr: 0, data: Vec::new(), link: 0, info: 0, align: 1, entsize: 0 },
    ])
}

#[test]
fn mangled_names_get_demangled_display_forms() {
    let p = Program::new(b"/bin/prog".to_vec(), elf_with_mangled(), None).unwrap();
    // the search and match table uses the demangled spelling
    let m = p.get_matches(b"space::foo(int, bool, char)");
    assert_eq!(m.len(), 1);
    let sym = p.get_symbol(m[0]).unwrap();
    assert_eq!(sym.name_bytes, b"_ZN5space3fooEibc".to_vec());
    assert_eq!(sym.demangled_name, Some(b"space::foo(int, bool, char)".to_vec()));
    assert_eq!(sym.label(), b"space::foo(int, bool, char)".to_vec());
    // once a demangled form exists, it is the display name
    assert_eq!(p.get_matches(b"_ZN5space3fooEibc").len(), 0);
    // names that are no mangled symbols keep their raw spelling
    let plain = Program::new(b"/bin/prog".to_vec(), elf_with_symbols(true), None).unwrap();
    let f = main_fn(&plain);
    assert_eq!(plain.get_symbol(f).unwrap().demangled_name, None);
}

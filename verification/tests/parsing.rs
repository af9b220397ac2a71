use zovia::ast::prog::ProgramKind;
use zovia::batch::{analyze_program_for_file, FileError};
use zovia::common::utils::{
    kind_for_labels, load_program_from_elf, program_from_bytes, program_kind_for_object, KindError, ProgramLoadError,
};
use zovia::parsing::bpf_insn::{decode_insns, RawBpfInsn};
use zovia::parsing::btf::{parse_btf_map_defs, BtfTypeRaw};
use zovia::parsing::elf_loader::{
    check_insn_stream, list_section_names, load_bpf_insn_stream_section, load_maps, load_relocations,
    load_section_bytes, maps_in, relocations_in, section_names, ElfImage, ElfLoadError, ElfReloc, ElfSection, ElfSymbol,
};
use zovia::tokens::{parse_i32, parse_u32, parse_usize, split_words};

fn insn(code: u8, regs: u8, off: i16, imm: i32) -> Vec<u8> {
    let mut v = vec![code, regs];
    v.extend_from_slice(&off.to_le_bytes());
    v.extend_from_slice(&imm.to_le_bytes());
    v
}

fn words(v: &[u32]) -> Vec<u8> {
    v.iter().flat_map(|w| w.to_le_bytes()).collect()
}

fn offset_in(names: &[u8], name: &str) -> u32 {
    let mut wanted = vec![0];
    wanted.extend_from_slice(name.as_bytes());
    wanted.push(0);
    names.windows(wanted.len()).position(|w| w == wanted.as_slice()).unwrap() as u32 + 1
}

struct Part {
    name: &'static str,
    kind: u32,
    link: u32,
    info: u32,
    entry: u64,
    data: Vec<u8>,
    size: u64,
}

fn part(name: &'static str, kind: u32, link: u32, info: u32, entry: u64, data: Vec<u8>) -> Part {
    let size = data.len() as u64;
    Part { name, kind, link, info, entry, data, size }
}

fn symbol(name: u32, section: u16, value: u64) -> Vec<u8> {
    let mut v = name.to_le_bytes().to_vec();
    v.extend_from_slice(&[0x11, 0]);
    v.extend_from_slice(&section.to_le_bytes());
    v.extend_from_slice(&value.to_le_bytes());
    v.extend_from_slice(&20u64.to_le_bytes());
    v
}

fn parts() -> Vec<Part> {
    let strings = b"\0counts\0cut_off\0".to_vec();
    let mut prog = insn(0xb7, 0x01, 0, 5);
    prog.extend(insn(0x18, 0x02, 0, 0));
    prog.extend(insn(0x00, 0x00, 0, 0));
    prog.extend(insn(0x95, 0x00, 0, 0));
    let mut symbols = vec![0; 24];
    symbols.extend(symbol(offset_in(&strings, "counts"), 2, 4));
    symbols.extend(symbol(offset_in(&strings, "cut_off"), 2, 8));
    let mut rel = 8u64.to_le_bytes().to_vec();
    rel.extend_from_slice(&((1u64 << 32) | 1).to_le_bytes());
    vec![
        part("", 0, 0, 0, 0, vec![]),
        part("prog", 1, 0, 0, 0, prog),
        part("maps", 1, 0, 0, 0, words(&[99, 1, 4, 8, 64, 3])),
        part(".relprog", 9, 4, 1, 16, rel),
        part(".symtab", 2, 5, 1, 24, symbols),
        part(".strtab", 3, 0, 0, 0, strings),
        part("odd", 1, 0, 0, 0, vec![1; 12]),
        part("bad_reg", 1, 0, 0, 0, insn(0xb7, 0x0b, 0, 5)),
    ]
}

fn elf(machine: u16, mut parts: Vec<Part>) -> Vec<u8> {
    parts.push(part(".shstrtab", 3, 0, 0, 0, vec![]));
    let mut names: Vec<u8> = vec![0];
    for p in &parts {
        if !p.name.is_empty() {
            names.extend_from_slice(p.name.as_bytes());
            names.push(0);
        }
    }
    let last = parts.len() - 1;
    parts[last].size = names.len() as u64;
    parts[last].data = names.clone();
    let mut body: Vec<u8> = Vec::new();
    let mut heads: Vec<u8> = Vec::new();
    for p in &parts {
        let name = if p.name.is_empty() { 0 } else { offset_in(&names, p.name) };
        heads.extend_from_slice(&name.to_le_bytes());
        heads.extend_from_slice(&p.kind.to_le_bytes());
        heads.extend_from_slice(&0u64.to_le_bytes());
        heads.extend_from_slice(&0u64.to_le_bytes());
        heads.extend_from_slice(&(64 + body.len() as u64).to_le_bytes());
        heads.extend_from_slice(&p.size.to_le_bytes());
        heads.extend_from_slice(&p.link.to_le_bytes());
        heads.extend_from_slice(&p.info.to_le_bytes());
        heads.extend_from_slice(&1u64.to_le_bytes());
        heads.extend_from_slice(&p.entry.to_le_bytes());
        body.extend_from_slice(&p.data);
        while body.len() % 8 != 0 {
            body.push(0);
        }
    }
    let mut v = vec![0x7f, b'E', b'L', b'F', 2, 1, 1, 0, 0, 0, 0, 0, 0, 0, 0, 0];
    v.extend_from_slice(&1u16.to_le_bytes());
    v.extend_from_slice(&machine.to_le_bytes());
    v.extend_from_slice(&1u32.to_le_bytes());
    v.extend_from_slice(&0u64.to_le_bytes());
    v.extend_from_slice(&0u64.to_le_bytes());
    v.extend_from_slice(&(64 + body.len() as u64).to_le_bytes());
    v.extend_from_slice(&0u32.to_le_bytes());
    for n in [64u16, 0, 0, 64, parts.len() as u16, last as u16] {
        v.extend_from_slice(&n.to_le_bytes());
    }
    v.extend(body);
    v.extend(heads);
    v
}

#[test]
fn instructions_are_decoded_record_by_record() {
    let mut bytes = insn(0x63, 0x1a, -8, 7);
    bytes.extend(insn(0x95, 0, 0, -1));
    bytes.extend([1, 2, 3]);
    assert_eq!(
        decode_insns(&bytes),
        vec![
            RawBpfInsn { code: 0x63, dst: 10, src: 1, off: -8, imm: 7 },
            RawBpfInsn { code: 0x95, dst: 0, src: 0, off: 0, imm: -1 },
        ]
    );
    assert!(decode_insns(&[]).is_empty());
}

#[test]
fn sections_are_listed_and_read() {
    let file = elf(247, parts());
    let names = list_section_names(&file).unwrap();
    let known: Vec<&str> = names.iter().map(|s| s.as_str()).filter(|s| !s.is_empty()).collect();
    assert_eq!(
        known,
        vec!["prog", "maps", ".relprog", ".symtab", ".strtab", "odd", "bad_reg", ".shstrtab"]
    );
    assert_eq!(load_section_bytes(&file, "odd", true).unwrap(), vec![1; 12]);
    assert_eq!(load_bpf_insn_stream_section(&file, "prog").unwrap().len(), 32);
}

#[test]
fn maps_and_relocations_are_found() {
    let file = elf(247, parts());
    let maps = load_maps(&file).unwrap();
    assert_eq!(maps.len(), 1);
    let m = &maps[0];
    assert_eq!(m.name, "counts");
    assert_eq!((m.type_, m.key_size, m.value_size, m.max_entries, m.map_flags), (1, 4, 8, 64, 3));
    let found = load_relocations(&file, &maps).unwrap();
    assert_eq!(found.len(), 1);
    assert_eq!(found.get(&1), Some(&0));
    assert!(load_relocations(&file, &[]).unwrap().is_empty());
}

#[test]
fn programs_are_loaded() {
    let file = elf(247, parts());
    let p = load_program_from_elf(&file, "prog").unwrap();
    let texts: Vec<String> = p.instrs.iter().map(|i| i.to_text()).collect();
    assert_eq!(texts, vec!["r1 = 5", "r2 = 0", "r0 = r0", "exit"]);
}

#[test]
fn object_files_are_analyzed() {
    let with_text = |data: Vec<u8>| {
        let mut p = parts();
        p.push(part(".text", 1, 0, 0, 0, data));
        elf(247, p)
    };
    let mut good = insn(0xb7, 0x00, 0, 0);
    good.extend(insn(0x7b, 0x0a, -8, 0));
    good.extend(insn(0x95, 0x00, 0, 0));
    assert!(!analyze_program_for_file(&with_text(good)).unwrap().dangerous);
    let mut bad = insn(0x7b, 0x0a, 8, 0);
    bad.extend(insn(0x95, 0x00, 0, 0));
    let found = analyze_program_for_file(&with_text(bad)).unwrap();
    assert!(found.dangerous && found.unsafe_stack_store);
    assert!(matches!(analyze_program_for_file(&with_text(vec![])), Err(FileError::Empty)));
}

#[test]
fn files_that_cannot_be_used_are_refused() {
    assert!(matches!(load_maps(b"no object file"), Err(ElfLoadError::Parse(_))));
    assert!(matches!(list_section_names(&[]), Err(ElfLoadError::Parse(_))));
    assert!(matches!(load_relocations(&[], &[]), Err(ElfLoadError::Parse(_))));
    assert!(matches!(load_section_bytes(&[], "prog", false), Err(ElfLoadError::Parse(_))));
    let other = elf(62, parts());
    assert!(matches!(
        load_section_bytes(&other, "prog", true),
        Err(ElfLoadError::NotBpf { e_machine: 62 })
    ));
    assert_eq!(load_section_bytes(&other, "prog", false).unwrap().len(), 32);
    let file = elf(247, parts());
    match load_section_bytes(&file, "nowhere", true) {
        Err(ElfLoadError::SectionNotFound { name }) => assert_eq!(name, "nowhere"),
        x => panic!("{:?}", x),
    }
    match load_bpf_insn_stream_section(&file, "odd") {
        Err(ElfLoadError::SectionOutOfBounds { name, offset, size, file_len }) => {
            assert_eq!(name, "odd (size not divisible by 8)");
            assert_eq!((offset, size, file_len), (0, 12, 12));
        }
        x => panic!("{:?}", x),
    }
    assert!(matches!(load_program_from_elf(&file, "bad_reg"), Err(ProgramLoadError::BadRegister)));
    assert!(matches!(
        load_program_from_elf(&file, "nowhere"),
        Err(ProgramLoadError::Elf(ElfLoadError::SectionNotFound { .. }))
    ));
    let mut cut = parts();
    cut[2].size = 1 << 40;
    let file = elf(247, cut);
    match load_maps(&file) {
        Err(ElfLoadError::SectionOutOfBounds { name, size, file_len, .. }) => {
            assert_eq!((name.as_str(), size, file_len), ("maps", 1 << 40, file.len()));
        }
        x => panic!("{:?}", x),
    }
    assert!(matches!(
        load_section_bytes(&file, "maps", true),
        Err(ElfLoadError::SectionOutOfBounds { .. })
    ));
    assert!(check_insn_stream("p", vec![0; 16]).is_ok());
}

#[test]
fn images_are_searched_without_a_file() {
    let section = |name: Option<&str>, offset, size| ElfSection { name: name.map(String::from), offset, size };
    let image = ElfImage {
        machine: 247,
        sections: vec![section(None, 0, 0), section(Some("maps"), 2, 20)],
        symbols: vec![
            ElfSymbol { name: None, section: 1, value: 0 },
            ElfSymbol { name: Some(String::from("a")), section: 0, value: 0 },
        ],
        relocs: vec![
            ElfReloc { offset: 17, sym: 0 },
            ElfReloc { offset: 24, sym: 1 },
            ElfReloc { offset: 32, sym: 7 },
        ],
    };
    let mut buf = vec![9, 9];
    buf.extend(words(&[2, 4, 16, 10, 0]));
    let maps = maps_in(&image, &buf);
    assert_eq!(maps.len(), 1);
    assert_eq!((maps[0].name.as_str(), maps[0].value_size), ("<unknown>", 16));
    let mut named = maps_in(&image, &buf);
    named[0].name = String::from("a");
    named.extend(maps);
    let found = relocations_in(&image, &named);
    assert_eq!(found.len(), 1);
    assert_eq!(found.get(&3), Some(&0));
    assert_eq!(section_names(&image), vec![String::from("maps")]);
}

#[test]
fn bytes_become_programs() {
    assert_eq!(program_from_bytes(&insn(0x95, 0, 0, 0)).unwrap().instrs.len(), 1);
    assert!(program_from_bytes(&[]).unwrap().instrs.is_empty());
    assert!(matches!(program_from_bytes(&insn(0x95, 0xb0, 0, 0)), Err(ProgramLoadError::BadRegister)));
    match program_from_bytes(&insn(0x04, 0, 0, 0)) {
        Err(ProgramLoadError::Lower(e)) => assert_eq!((e.pc, e.code), (0, 4)),
        _ => panic!(),
    }
}

fn btf(types: Vec<u8>, strings: &[u8]) -> Vec<u8> {
    let mut v = vec![0x9f, 0xeb, 1, 0];
    v.extend(words(&[24, 0, types.len() as u32, types.len() as u32, strings.len() as u32]));
    v.extend(types);
    v.extend_from_slice(strings);
    v
}

#[test]
fn type_information_describes_maps() {
    let strings = b"\0key\0value\0counts\0";
    let mut types = words(&[0, 1 << 24, 4, 0]);
    types.extend(words(&[0, (4 << 24) | 2, 16, 1, 4, 0, 5, 3, 64]));
    types.extend(words(&[0, 3 << 24, 0, 1, 1, 5]));
    types.extend(words(&[0, 2 << 24, 1]));
    types.extend(words(&[11, 14 << 24, 2, 0]));
    let maps = parse_btf_map_defs(&btf(types.clone(), strings)).unwrap();
    assert_eq!(maps.len(), 1);
    assert_eq!((maps[0].name.as_str(), maps[0].key_size, maps[0].value_size), ("counts", 4, 20));
    assert_eq!((maps[0].type_, maps[0].max_entries), (0, 0));
    let t = BtfTypeRaw { name_off: 0, info: (4 << 24) | 2, size_or_type: 0, data: vec![] };
    assert_eq!((t.kind(), t.vlen()), (4, 2));
    types.truncate(types.len() - 2);
    assert!(parse_btf_map_defs(&btf(types, b"")).unwrap().is_empty());
}

#[test]
fn bad_type_information_is_refused() {
    assert_eq!(parse_btf_map_defs(&[0; 23]).unwrap_err(), "BTF too short");
    assert_eq!(parse_btf_map_defs(&[0; 24]).unwrap_err(), "Invalid BTF magic");
    let mut v = btf(vec![], b"");
    v[12] = 1;
    assert_eq!(parse_btf_map_defs(&v).unwrap_err(), "BTF sections out of bounds");
}

#[test]
fn labels_give_the_kind_of_an_object() {
    let json = r#"{"a.o": "XDP", "dir/a.o": " tc ", "clang-18_-O1_b.o": "socket", "none.o": null}"#;
    let kind = |exact, base| program_kind_for_object(json, exact, base);
    assert_eq!(kind("dir/a.o", "a.o").unwrap(), ProgramKind::SchedCls);
    assert_eq!(kind("x/a.o", "a.o").unwrap(), ProgramKind::Xdp);
    assert_eq!(kind("x/_b.o", "_b.o").unwrap(), ProgramKind::SocketFilter);
    assert_eq!(kind("none.o", "none.o").unwrap(), ProgramKind::Unknown);
    assert_eq!(kind("c.o", "c.o").unwrap(), ProgramKind::Unknown);
    assert!(matches!(program_kind_for_object("[1]", "a", "a"), Err(KindError::Parse(_))));
    let labels = vec![
        (String::from("p_b.o"), Some(String::from("xdp"))),
        (String::from("q_b.o"), Some(String::from("tc"))),
    ];
    assert_eq!(kind_for_labels(&labels, "/b.o", "b.o"), ProgramKind::Xdp);
    assert_eq!(kind_for_labels(&labels, "q_b.o", "b.o"), ProgramKind::SchedCls);
    assert_eq!(kind_for_labels(&labels, "x.o", "x.o"), ProgramKind::Unknown);
}

#[test]
fn words_and_numbers_are_read() {
    let text = |s: &str| s.chars().collect::<Vec<char>>();
    assert_eq!(split_words("  ab\tc\u{2003}d\n"), vec![text("ab"), text("c"), text("d")]);
    assert!(split_words(" \n").is_empty());
    assert_eq!(parse_usize(&text("+17")), Some(17));
    assert_eq!(parse_usize(&text("18446744073709551616")), None);
    assert_eq!(parse_u32(&text("4294967295")), Some(u32::MAX));
    assert_eq!(parse_u32(&text("-0")), None);
    assert_eq!(parse_u32(&text("")), None);
    assert_eq!(parse_i32(&text("-2147483648")), Some(i32::MIN));
    assert_eq!(parse_i32(&text("2147483648")), None);
    assert_eq!(parse_i32(&text("-")), None);
    assert_eq!(parse_i32(&text("1x")), None);
}

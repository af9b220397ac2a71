//! Object files: sections, maps and relocations.
use crate::machine::layout::{BpfMapDef, KptrField};
use crate::parsing::btf::{all_described, read_u32, u32_at, MapSpec};
use crate::text::{contents, owned, text_eq};
use std::collections::HashMap;
use vstd::prelude::*;

verus! {

/// The error of the object file parser.
#[verifier::external_type_specification]
#[verifier::external_body]
pub struct ExGoblinError(goblin::error::Error);

/// A section of an object file. One whose name cannot be read has none.
#[derive(Debug)]
pub struct ElfSection {
    pub name: Option<String>,
    pub offset: u64,
    pub size: u64,
}

/// A symbol of an object file.
#[derive(Debug)]
pub struct ElfSymbol {
    pub name: Option<String>,
    /// The section it is in.
    pub section: usize,
    pub value: u64,
}

/// A relocation of an object file.
#[derive(Debug, Clone, Copy, PartialEq, Eq, Structural)]
pub struct ElfReloc {
    pub offset: u64,
    /// The symbol it refers to.
    pub sym: usize,
}

/// What is read of an object file.
#[derive(Debug)]
pub struct ElfImage {
    pub machine: u16,
    pub sections: Vec<ElfSection>,
    pub symbols: Vec<ElfSymbol>,
    /// The relocations of all sections, one section after another.
    pub relocs: Vec<ElfReloc>,
}

/// The model of a section.
#[verifier::ext_equal]
pub ghost struct SectionView {
    pub name: Option<Seq<char>>,
    pub offset: u64,
    pub size: u64,
}

/// The model of a symbol.
#[verifier::ext_equal]
pub ghost struct SymbolView {
    pub name: Option<Seq<char>>,
    pub section: usize,
    pub value: u64,
}

/// The model of an object file.
#[verifier::ext_equal]
pub ghost struct ElfView {
    pub machine: u16,
    pub sections: Seq<SectionView>,
    pub symbols: Seq<SymbolView>,
    pub relocs: Seq<ElfReloc>,
}

pub open spec fn text_of(s: Option<String>) -> Option<Seq<char>> {
    match s {
        Some(s) => Some(s@),
        None => None,
    }
}

impl ElfSection {
    pub open spec fn view(&self) -> SectionView {
        SectionView { name: text_of(self.name), offset: self.offset, size: self.size }
    }
}

impl ElfSymbol {
    pub open spec fn view(&self) -> SymbolView {
        SymbolView { name: text_of(self.name), section: self.section, value: self.value }
    }
}

impl ElfImage {
    pub open spec fn view(&self) -> ElfView {
        ElfView {
            machine: self.machine,
            sections: Seq::new(self.sections@.len(), |i: int| self.sections@[i]@),
            symbols: Seq::new(self.symbols@.len(), |i: int| self.symbols@[i]@),
            relocs: self.relocs@,
        }
    }
}

/// What `goblin::elf::Elf::parse` reads of some bytes: nothing where it fails.
pub uninterp spec fn elf_contents(b: Seq<u8>) -> Option<ElfView>;

/// Reads an object file with `goblin::elf::Elf::parse`. Whether it succeeds, and
/// the machine, sections, symbols and relocations it finds, depend on the bytes
/// alone. Names are looked up in the file's own string tables, and the
/// relocations of all sections are put one after another.
#[verifier::external_body]
fn parse_elf(bytes: &[u8]) -> (r: Result<ElfImage, goblin::error::Error>)
    ensures
        match r {
            Ok(image) => elf_contents(bytes@) == Some(image@),
            Err(_) => elf_contents(bytes@) is None,
        },
{
    let elf = goblin::elf::Elf::parse(bytes)?;
    let sections = elf.section_headers.iter().map(|s| ElfSection {
        name: elf.shdr_strtab.get_at(s.sh_name).map(String::from),
        offset: s.sh_offset,
        size: s.sh_size
    }).collect();
    let symbols = elf.syms.iter().map(|s| ElfSymbol {
        name: elf.strtab.get_at(s.st_name).map(String::from),
        section: s.st_shndx,
        value: s.st_value
    }).collect();
    let relocs = elf.shdr_relocs.iter().flat_map(|r| r.1.iter())
        .map(|r| ElfReloc { offset: r.r_offset, sym: r.r_sym }).collect();
    Ok(ElfImage { machine: elf.header.e_machine, sections, symbols, relocs })
}

/// Why an object file could not be used.
#[derive(Debug)]
pub enum ElfLoadError {
    Parse(goblin::error::Error),
    NotElf,
    NotBpf { e_machine: u16 },
    SectionNotFound { name: String },
    SectionOutOfBounds { name: String, offset: usize, size: usize, file_len: usize },
}

/// The machine number of eBPF.
pub const EM_BPF: u16 = 247;

/// The section goes beyond the file.
pub open spec fn outside(s: SectionView, len: nat) -> bool {
    s.offset + s.size > len
}

/// The error of a section that goes beyond the file.
pub open spec fn blames(e: ElfLoadError, name: Seq<char>, offset: u64, size: u64, len: nat) -> bool {
    match e {
        ElfLoadError::SectionOutOfBounds { name: n, offset: o, size: s, file_len } => {
            &&& n@ == name
            &&& o == offset as usize
            &&& s == size as usize
            &&& file_len == len
        },
        _ => false,
    }
}

/// Definitions of maps are in sections with this name.
pub open spec fn holds_maps(s: SectionView) -> bool {
    s.name == Some("maps"@)
}

/// The first section, from `i` on, that holds maps and goes beyond the file.
pub open spec fn first_outside(v: Seq<SectionView>, len: nat, i: int) -> Option<int>
    decreases v.len() - i,
{
    if i >= v.len() {
        None
    } else if holds_maps(v[i]) && outside(v[i], len) {
        Some(i)
    } else {
        first_outside(v, len, i + 1)
    }
}

/// The map that a symbol defines in the data of its section, if there is room
/// for it: five numbers.
pub open spec fn map_at(s: SymbolView, data: Seq<u8>) -> Option<MapSpec> {
    if s.value + 20 > data.len() {
        None
    } else {
        let at = s.value as int;
        Some(
            MapSpec {
                name: match s.name {
                    Some(n) => n,
                    None => "<unknown>"@,
                },
                type_: u32_at(data, at),
                key_size: u32_at(data, at + 4),
                value_size: u32_at(data, at + 8),
                max_entries: u32_at(data, at + 12),
                map_flags: u32_at(data, at + 16),
            },
        )
    }
}

/// The maps that the first `k` symbols define in a section.
pub open spec fn maps_in_section(
    symbols: Seq<SymbolView>,
    section: int,
    data: Seq<u8>,
    k: nat,
) -> Seq<MapSpec>
    decreases k,
{
    if k == 0 {
        Seq::empty()
    } else {
        let before = maps_in_section(symbols, section, data, (k - 1) as nat);
        let s = symbols[k - 1];
        if s.section == section && map_at(s, data) is Some {
            before.push(map_at(s, data)->0)
        } else {
            before
        }
    }
}

/// The bytes of a section.
pub open spec fn section_data(s: SectionView, b: Seq<u8>) -> Seq<u8> {
    b.subrange(s.offset as int, s.offset + s.size)
}

/// The maps that are defined in the first `n` sections.
pub open spec fn maps_in_sections(e: ElfView, b: Seq<u8>, n: nat) -> Seq<MapSpec>
    decreases n,
{
    if n == 0 {
        Seq::empty()
    } else {
        let before = maps_in_sections(e, b, (n - 1) as nat);
        let s = e.sections[n - 1];
        if holds_maps(s) {
            before + maps_in_section(e.symbols, n - 1, section_data(s, b), e.symbols.len())
        } else {
            before
        }
    }
}

fn has_name(s: &Option<String>, name: &str) -> (r: bool)
    ensures
        r == (text_of(*s) == Some(name@)),
{
    match s {
        Some(n) => text_eq(n.as_str(), name),
        None => false,
    }
}

fn find_outside(image: &ElfImage, len: usize) -> (r: Option<usize>)
    ensures
        match r {
            Some(i) => first_outside(image@.sections, len as nat, 0) == Some(i as int) && i
                < image.sections@.len(),
            None => first_outside(image@.sections, len as nat, 0) is None,
        },
{
    let ghost v = image@.sections;
    let mut i: usize = 0;
    while i < image.sections.len()
        invariant
            i <= image.sections@.len(),
            v == image@.sections,
            first_outside(v, len as nat, 0) == first_outside(v, len as nat, i as int),
        decreases image.sections@.len() - i,
    {
        let s: &ElfSection = &image.sections[i];
        assert(v[i as int] == s@);
        if has_name(&s.name, "maps") && s.offset as u128 + s.size as u128 > len as u128 {
            return Some(i);
        }
        i = i + 1;
    }
    None
}

proof fn lemma_none_outside(v: Seq<SectionView>, len: nat, i: int, k: int)
    requires
        first_outside(v, len, i) is None,
        i <= k < v.len(),
        holds_maps(v[k]),
    ensures
        !outside(v[k], len),
    decreases v.len() - i,
{
    if i < k {
        lemma_none_outside(v, len, i + 1, k);
    }
}

fn push_section_maps(maps: &mut Vec<BpfMapDef>, image: &ElfImage, section: usize, buf: &[u8])
    requires
        section < image.sections@.len(),
        !outside(image@.sections[section as int], buf@.len()),
    ensures
        forall|s: Seq<MapSpec>|
            all_described(old(maps)@, s) ==> #[trigger] all_described(
                final(maps)@,
                s + maps_in_section(
                    image@.symbols,
                    section as int,
                    section_data(image@.sections[section as int], buf@),
                    image@.symbols.len(),
                ),
            ),
{
    let ghost before = maps@;
    let ghost symbols = image@.symbols;
    let sec: &ElfSection = &image.sections[section];
    assert(image@.sections[section as int] == sec@);
    let len: usize = buf.len();
    assert(sec.offset + sec.size <= len);
    let start: usize = sec.offset as usize;
    let size: usize = sec.size as usize;
    let ghost data = section_data(sec@, buf@);
    let ghost at = section as int;
    let mut k: usize = 0;
    proof {
        assert forall|s: Seq<MapSpec>| all_described(before, s) implies #[trigger] all_described(
            maps@,
            s + maps_in_section(symbols, at, data, 0),
        ) by {
            assert(s + maps_in_section(symbols, at, data, 0) =~= s);
        }
    }
    while k < image.symbols.len()
        invariant
            k <= image.symbols@.len(),
            symbols == image@.symbols,
            at == section,
            start + size <= len,
            len == buf@.len(),
            data == buf@.subrange(start as int, start + size),
            forall|s: Seq<MapSpec>|
                all_described(before, s) ==> #[trigger] all_described(
                    maps@,
                    s + maps_in_section(symbols, at, data, k as nat),
                ),
        decreases image.symbols@.len() - k,
    {
        let sym: &ElfSymbol = &image.symbols[k];
        assert(symbols[k as int] == sym@);
        let ghost so_far = maps@;
        if sym.section == section && sym.value as u128 + 20 <= size as u128 {
            let o: usize = start + sym.value as usize;
            let name: String = match &sym.name {
                Some(n) => owned(n.as_str()),
                None => owned("<unknown>"),
            };
            let kptr_fields: Vec<KptrField> = Vec::new();
            maps.push(
                BpfMapDef {
                    name,
                    type_: read_u32(buf, o),
                    key_size: read_u32(buf, o + 4),
                    value_size: read_u32(buf, o + 8),
                    max_entries: read_u32(buf, o + 12),
                    map_flags: read_u32(buf, o + 16),
                    initial_data: None,
                    kptr_fields,
                    btf_val_type_id: None,
                    inner_map_idx: None,
                },
            );
        }
        proof {
            assert forall|s: Seq<MapSpec>| all_described(before, s) implies #[trigger] all_described(
                maps@,
                s + maps_in_section(symbols, at, data, (k + 1) as nat),
            ) by {
                let m = maps_in_section(symbols, at, data, k as nat);
                assert(all_described(so_far, s + m));
                if sym.section == section && sym.value + 20 <= size {
                    let d = map_at(sym@, data)->0;
                    assert(s + m.push(d) =~= (s + m).push(d));
                }
            }
        }
        k = k + 1;
    }
}

/// The maps that an object file defines in its sections of maps.
pub fn maps_in(image: &ElfImage, buf: &[u8]) -> (r: Vec<BpfMapDef>)
    requires
        first_outside(image@.sections, buf@.len(), 0) is None,
    ensures
        all_described(r@, maps_in_sections(image@, buf@, image@.sections.len())),
{
    let mut maps: Vec<BpfMapDef> = Vec::new();
    let mut i: usize = 0;
    while i < image.sections.len()
        invariant
            i <= image.sections@.len(),
            first_outside(image@.sections, buf@.len(), 0) is None,
            all_described(maps@, maps_in_sections(image@, buf@, i as nat)),
        decreases image.sections@.len() - i,
    {
        assert(image@.sections[i as int] == image.sections@[i as int]@);
        let ghost s = maps_in_sections(image@, buf@, i as nat);
        if has_name(&image.sections[i].name, "maps") {
            proof {
                lemma_none_outside(image@.sections, buf@.len(), 0, i as int);
            }
            push_section_maps(&mut maps, image, i, buf);
            assert(all_described(
                maps@,
                s + maps_in_section(
                    image@.symbols,
                    i as int,
                    section_data(image@.sections[i as int], buf@),
                    image@.symbols.len(),
                ),
            ));
        }
        i = i + 1;
    }
    maps
}

/// The maps that an object file defines, or why there are none: the file cannot
/// be parsed, or a section of maps goes beyond it.
pub fn load_maps(buf: &[u8]) -> (r: Result<Vec<BpfMapDef>, ElfLoadError>)
    ensures
        match elf_contents(buf@) {
            None => r matches Err(ElfLoadError::Parse(_)),
            Some(e) => match first_outside(e.sections, buf@.len(), 0) {
                None => r matches Ok(v) && all_described(
                    v@,
                    maps_in_sections(e, buf@, e.sections.len()),
                ),
                Some(i) => r matches Err(x) && blames(
                    x,
                    "maps"@,
                    e.sections[i].offset,
                    e.sections[i].size,
                    buf@.len(),
                ),
            },
        },
{
    match parse_elf(buf) {
        Err(e) => Err(ElfLoadError::Parse(e)),
        Ok(image) => match find_outside(&image, buf.len()) {
            None => Ok(maps_in(&image, buf)),
            Some(i) => {
                assert(image@.sections[i as int] == image.sections@[i as int]@);
                Err(
                    ElfLoadError::SectionOutOfBounds {
                        name: owned("maps"),
                        offset: image.sections[i].offset as usize,
                        size: image.sections[i].size as usize,
                        file_len: buf.len(),
                    },
                )
            },
        },
    }
}

/// The last of the first `n` maps with a name.
pub open spec fn last_named(maps: Seq<BpfMapDef>, name: Seq<char>, n: nat) -> Option<usize>
    decreases n,
{
    if n == 0 {
        None
    } else if maps[n - 1].name@ == name {
        Some((n - 1) as usize)
    } else {
        last_named(maps, name, (n - 1) as nat)
    }
}

fn find_map(maps: &[BpfMapDef], name: &str) -> (r: Option<usize>)
    ensures
        r == last_named(maps@, name@, maps@.len()),
{
    let mut n: usize = maps.len();
    while n > 0
        invariant
            n <= maps@.len(),
            last_named(maps@, name@, maps@.len()) == last_named(maps@, name@, n as nat),
        decreases n,
    {
        if text_eq(maps[n - 1].name.as_str(), name) {
            return Some(n - 1);
        }
        n = n - 1;
    }
    None
}

/// The map that a relocation refers to, if its symbol has the name of one.
pub open spec fn referred(e: ElfView, maps: Seq<BpfMapDef>, r: ElfReloc) -> Option<usize> {
    if r.sym < e.symbols.len() {
        match e.symbols[r.sym as int].name {
            Some(n) => last_named(maps, n, maps.len()),
            None => None,
        }
    } else {
        None
    }
}

/// Instructions, by the place of the relocation, and the maps that the first `n`
/// relocations say they refer to.
pub open spec fn relocated(e: ElfView, maps: Seq<BpfMapDef>, n: nat) -> Map<usize, usize>
    decreases n,
{
    if n == 0 {
        Map::empty()
    } else {
        let before = relocated(e, maps, (n - 1) as nat);
        let r = e.relocs[n - 1];
        match referred(e, maps, r) {
            Some(m) => before.insert((r.offset / 8) as usize, m),
            None => before,
        }
    }
}

/// The instructions of an object file that refer to maps.
pub fn relocations_in(image: &ElfImage, maps: &[BpfMapDef]) -> (r: HashMap<usize, usize>)
    ensures
        r@ == relocated(image@, maps@, image@.relocs.len()),
{
    broadcast use vstd::std_specs::hash::group_hash_axioms;

    let mut found: HashMap<usize, usize> = HashMap::new();
    let mut i: usize = 0;
    assert(found@ =~= Map::empty());
    while i < image.relocs.len()
        invariant
            i <= image.relocs@.len(),
            found@ == relocated(image@, maps@, i as nat),
        decreases image.relocs@.len() - i,
    {
        let r: ElfReloc = image.relocs[i];
        if r.sym < image.symbols.len() {
            assert(image@.symbols[r.sym as int] == image.symbols@[r.sym as int]@);
            if let Some(name) = &image.symbols[r.sym].name {
                if let Some(m) = find_map(maps, name.as_str()) {
                    found.insert((r.offset / 8) as usize, m);
                }
            }
        }
        i = i + 1;
    }
    found
}

/// The instructions of an object file that refer to maps.
pub fn load_relocations(buf: &[u8], maps: &[BpfMapDef]) -> (r: Result<
    HashMap<usize, usize>,
    ElfLoadError,
>)
    ensures
        match elf_contents(buf@) {
            None => r matches Err(ElfLoadError::Parse(_)),
            Some(e) => r matches Ok(m) && m@ == relocated(e, maps@, e.relocs.len()),
        },
{
    match parse_elf(buf) {
        Err(e) => Err(ElfLoadError::Parse(e)),
        Ok(image) => Ok(relocations_in(&image, maps)),
    }
}

/// The names of the first `n` sections, as far as they have one.
pub open spec fn names(v: Seq<SectionView>, n: nat) -> Seq<Seq<char>>
    decreases n,
{
    if n == 0 {
        Seq::empty()
    } else {
        match v[n - 1].name {
            Some(s) => names(v, (n - 1) as nat).push(s),
            None => names(v, (n - 1) as nat),
        }
    }
}

/// The names of the sections.
pub fn section_names(image: &ElfImage) -> (r: Vec<String>)
    ensures
        contents(r@) == names(image@.sections, image@.sections.len()),
{
    let mut out: Vec<String> = Vec::new();
    let mut i: usize = 0;
    assert(contents(out@) =~= Seq::empty());
    while i < image.sections.len()
        invariant
            i <= image.sections@.len(),
            contents(out@) == names(image@.sections, i as nat),
        decreases image.sections@.len() - i,
    {
        assert(image@.sections[i as int] == image.sections@[i as int]@);
        let ghost before = out@;
        if let Some(s) = &image.sections[i].name {
            out.push(owned(s.as_str()));
            assert(contents(out@) =~= contents(before).push(s@));
        }
        i = i + 1;
    }
    out
}

/// The names of the sections of an object file.
pub fn list_section_names(buf: &[u8]) -> (r: Result<Vec<String>, ElfLoadError>)
    ensures
        match elf_contents(buf@) {
            None => r matches Err(ElfLoadError::Parse(_)),
            Some(e) => r matches Ok(v) && contents(v@) == names(
                e.sections,
                e.sections.len(),
            ),
        },
{
    match parse_elf(buf) {
        Err(e) => Err(ElfLoadError::Parse(e)),
        Ok(image) => Ok(section_names(&image)),
    }
}

/// The first section, from `i` on, with a name.
pub open spec fn first_named(v: Seq<SectionView>, name: Seq<char>, i: int) -> Option<int>
    decreases v.len() - i,
{
    if i >= v.len() {
        None
    } else if v[i].name == Some(name) {
        Some(i)
    } else {
        first_named(v, name, i + 1)
    }
}

/// The bytes of the section with a name, or why there are none.
pub open spec fn section_outcome(
    e: ElfView,
    b: Seq<u8>,
    name: Seq<char>,
    require_bpf: bool,
    r: Result<Vec<u8>, ElfLoadError>,
) -> bool {
    if require_bpf && e.machine != EM_BPF {
        r matches Err(ElfLoadError::NotBpf { e_machine }) && e_machine == e.machine
    } else {
        match first_named(e.sections, name, 0) {
            None => r matches Err(ElfLoadError::SectionNotFound { name: n }) && n@ == name,
            Some(i) => {
                let s = e.sections[i];
                if outside(s, b.len()) {
                    r matches Err(x) && blames(x, name, s.offset, s.size, b.len())
                } else {
                    r matches Ok(v) && v@ == section_data(s, b)
                }
            },
        }
    }
}

/// The bytes of the section with a name.
pub fn section_bytes(image: &ElfImage, buf: &[u8], section_name: &str, require_bpf: bool) -> (r: Result<
    Vec<u8>,
    ElfLoadError,
>)
    ensures
        section_outcome(image@, buf@, section_name@, require_bpf, r),
{
    if require_bpf && image.machine != EM_BPF {
        return Err(ElfLoadError::NotBpf { e_machine: image.machine });
    }
    let ghost v = image@.sections;
    let mut i: usize = 0;
    while i < image.sections.len() && !has_name(&image.sections[i].name, section_name)
        invariant
            i <= image.sections@.len(),
            v == image@.sections,
            forall|k: int| 0 <= k < v.len() ==> #[trigger] v[k] == image.sections@[k]@,
            first_named(v, section_name@, 0) == first_named(v, section_name@, i as int),
        decreases image.sections@.len() - i,
    {
        assert(v[i as int] == image.sections@[i as int]@);
        i = i + 1;
    }
    if i >= image.sections.len() {
        return Err(ElfLoadError::SectionNotFound { name: owned(section_name) });
    }
    assert(v[i as int] == image.sections@[i as int]@);
    let s: &ElfSection = &image.sections[i];
    let file_len: usize = buf.len();
    if s.offset as u128 + s.size as u128 > file_len as u128 {
        return Err(
            ElfLoadError::SectionOutOfBounds {
                name: owned(section_name),
                offset: s.offset as usize,
                size: s.size as usize,
                file_len,
            },
        );
    }
    let start: usize = s.offset as usize;
    let end: usize = start + s.size as usize;
    let mut out: Vec<u8> = Vec::new();
    let mut k: usize = start;
    while k < end
        invariant
            start <= k <= end <= buf@.len(),
            out@ == buf@.subrange(start as int, k as int),
        decreases end - k,
    {
        out.push(buf[k]);
        assert(out@ =~= buf@.subrange(start as int, k + 1));
        k = k + 1;
    }
    Ok(out)
}

/// The bytes of the section with a name in an object file. A file for another
/// machine is refused if it has to be for eBPF.
pub fn load_section_bytes(buf: &[u8], section_name: &str, require_bpf: bool) -> (r: Result<
    Vec<u8>,
    ElfLoadError,
>)
    ensures
        match elf_contents(buf@) {
            None => r matches Err(ElfLoadError::Parse(_)),
            Some(e) => section_outcome(e, buf@, section_name@, require_bpf, r),
        },
{
    match parse_elf(buf) {
        Err(e) => Err(ElfLoadError::Parse(e)),
        Ok(image) => section_bytes(&image, buf, section_name, require_bpf),
    }
}

/// Bytes are whole instructions, or the error that says they are not.
pub open spec fn whole_insns(name: Seq<char>, v: Seq<u8>, r: Result<Vec<u8>, ElfLoadError>) -> bool {
    if v.len() % 8 == 0 {
        r matches Ok(w) && w@ == v
    } else {
        match r {
            Err(ElfLoadError::SectionOutOfBounds { name: n, offset, size, file_len }) => {
                &&& n@ == name + " (size not divisible by 8)"@
                &&& offset == 0
                &&& size == v.len()
                &&& file_len == v.len()
            },
            _ => false,
        }
    }
}

/// The bytes, if they are whole instructions.
pub fn check_insn_stream(section_name: &str, bytes: Vec<u8>) -> (r: Result<Vec<u8>, ElfLoadError>)
    ensures
        whole_insns(section_name@, bytes@, r),
{
    if bytes.len() % 8 != 0 {
        let mut name: String = owned(section_name);
        name.append(" (size not divisible by 8)");
        return Err(
            ElfLoadError::SectionOutOfBounds {
                name,
                offset: 0,
                size: bytes.len(),
                file_len: bytes.len(),
            },
        );
    }
    Ok(bytes)
}

/// The bytes of the section with a name, if the file is for eBPF and has them.
pub open spec fn insn_data(e: ElfView, b: Seq<u8>, name: Seq<char>) -> Option<Seq<u8>> {
    match first_named(e.sections, name, 0) {
        Some(i) => if e.machine == EM_BPF && !outside(e.sections[i], b.len()) {
            Some(section_data(e.sections[i], b))
        } else {
            None
        },
        None => None,
    }
}

/// The instructions in the section with a name in an eBPF object file: bytes
/// that are whole instructions.
pub fn load_bpf_insn_stream_section(buf: &[u8], section_name: &str) -> (r: Result<
    Vec<u8>,
    ElfLoadError,
>)
    ensures
        match elf_contents(buf@) {
            None => r matches Err(ElfLoadError::Parse(_)),
            Some(e) => match insn_data(e, buf@, section_name@) {
                Some(data) => whole_insns(section_name@, data, r),
                None => section_outcome(e, buf@, section_name@, true, r),
            },
        },
{
    match load_section_bytes(buf, section_name, true) {
        Ok(bytes) => check_insn_stream(section_name, bytes),
        Err(e) => Err(e),
    }
}

} // verus!

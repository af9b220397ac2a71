//! What is read is what was written: types, names and maps.
use crate::machine::layout::BpfMapDef;
use crate::parsing::btf::{
    btf_maps, map_of, maps_of, member_size, record_at, record_end, records_from, resolved_size,
    shape, text_at, u32_at, MapSpec, TypeRecord,
};
use crate::parsing::elf_loader::{
    first_named, first_outside, last_named, map_at, maps_in_section, maps_in_sections, names,
    relocated, section_outcome, whole_insns, ElfLoadError, ElfView, SectionView, SymbolView,
};
use vstd::prelude::*;

verus! {

/// A number as four bytes, the low one first.
pub open spec fn word(x: u32) -> Seq<u8> {
    seq![
        (x % 0x100) as u8,
        ((x / 0x100) % 0x100) as u8,
        ((x / 0x1_0000) % 0x100) as u8,
        (x / 0x100_0000) as u8,
    ]
}

/// Four bytes give back the number they were written for, wherever they stand.
pub proof fn law_words_are_read_back(before: Seq<u8>, x: u32, after: Seq<u8>)
    ensures
        u32_at(before + word(x) + after, before.len() as int) == x,
{
    let b = before + word(x) + after;
    let n = before.len() as int;
    assert(b[n] == word(x)[0] && b[n + 1] == word(x)[1] && b[n + 2] == word(x)[2] && b[n + 3]
        == word(x)[3]);
    assert(x == x % 0x100 + 0x100 * ((x / 0x100) % 0x100) + 0x1_0000 * ((x / 0x1_0000) % 0x100)
        + 0x100_0000 * (x / 0x100_0000)) by (nonlinear_arith);
}

/// The bytes of a type.
pub open spec fn type_bytes(t: TypeRecord) -> Seq<u8> {
    word(t.name_off) + word(t.info) + word(t.size_or_type) + t.data
}

/// The number of bytes that follow the three words of a type: four for
/// integers, variables and tags, twelve for arrays, twelve for each member of a
/// struct, union, section or wide enumeration, and eight for each value of an
/// enumeration or parameter of a function.
pub open spec fn follow(info: u32) -> int {
    let kind = (info / 0x100_0000) % 32;
    let n = info % 0x1_0000;
    if kind == 1 || kind == 14 || kind == 17 {
        4
    } else if kind == 3 {
        12
    } else if kind == 4 || kind == 5 || kind == 15 || kind == 19 {
        n * 12
    } else if kind == 6 || kind == 13 {
        n * 8
    } else {
        0
    }
}

/// The bytes of several types, one after the other.
pub open spec fn all_type_bytes(ts: Seq<TypeRecord>) -> Seq<u8>
    decreases ts.len(),
{
    if ts.len() == 0 {
        Seq::empty()
    } else {
        type_bytes(ts[0]) + all_type_bytes(ts.skip(1))
    }
}

/// Each type is followed by as many bytes as its kind asks for.
pub open spec fn complete(ts: Seq<TypeRecord>) -> bool {
    forall|i: int| 0 <= i < ts.len() ==> (#[trigger] ts[i]).data.len() == follow(ts[i].info)
}

proof fn lemma_type_is_read_back(before: Seq<u8>, t: TypeRecord, after: Seq<u8>)
    requires
        t.data.len() == follow(t.info),
    ensures
        ({
            let b = before + type_bytes(t) + after;
            let n = before.len() as int;
            &&& record_at(b, n) == t
            &&& record_end(b, n) == n + type_bytes(t).len()
            &&& type_bytes(t).len() == 12 + t.data.len()
        }),
{
    let b = before + type_bytes(t) + after;
    let n = before.len() as int;
    law_words_are_read_back(before, t.name_off, word(t.info) + word(t.size_or_type) + t.data + after);
    assert(before + word(t.name_off) + (word(t.info) + word(t.size_or_type) + t.data + after)
        =~= b);
    law_words_are_read_back(
        before + word(t.name_off),
        t.info,
        word(t.size_or_type) + t.data + after,
    );
    assert(before + word(t.name_off) + word(t.info) + (word(t.size_or_type) + t.data + after)
        =~= b);
    law_words_are_read_back(
        before + word(t.name_off) + word(t.info),
        t.size_or_type,
        t.data + after,
    );
    assert(before + word(t.name_off) + word(t.info) + word(t.size_or_type) + (t.data + after)
        =~= b);
    assert(b.subrange(n + 12, n + 12 + t.data.len()) =~= t.data);
}

/// Types that are written one after the other are read back as they were,
/// whatever stands before and after them.
pub proof fn law_types_are_read_back(before: Seq<u8>, ts: Seq<TypeRecord>, after: Seq<u8>)
    requires
        complete(ts),
    ensures
        records_from(
            before + all_type_bytes(ts) + after,
            before.len() as int,
            (before.len() + all_type_bytes(ts).len()) as int,
        ) == ts,
    decreases ts.len(),
{
    let b = before + all_type_bytes(ts) + after;
    let n = before.len() as int;
    let end = n + all_type_bytes(ts).len();
    if ts.len() == 0 {
        assert(records_from(b, n, end) =~= ts);
    } else {
        let t = ts[0];
        let rest = ts.skip(1);
        assert forall|i: int| 0 <= i < rest.len() implies (#[trigger] rest[i]).data.len() == follow(
            rest[i].info,
        ) by {
            assert(rest[i] == ts[i + 1]);
        }
        let tail = all_type_bytes(rest) + after;
        lemma_type_is_read_back(before, t, tail);
        assert(before + type_bytes(t) + tail =~= b);
        law_types_are_read_back(before + type_bytes(t), rest, after);
        assert(before + type_bytes(t) + all_type_bytes(rest) + after =~= b);
        assert(seq![t] + rest =~= ts);
    }
}

/// A name is read up to the zero byte that ends it.
pub proof fn law_names_are_read_back(before: Seq<u8>, name: Seq<u8>, after: Seq<u8>)
    requires
        forall|i: int| 0 <= i < name.len() ==> #[trigger] name[i] != 0,
    ensures
        ({
            let s = text_at(before + name + seq![0u8] + after, before.len() as int);
            &&& s.len() == name.len()
            &&& forall|i: int| 0 <= i < name.len() ==> #[trigger] s[i] == name[i] as char
        }),
    decreases name.len(),
{
    let b = before + name + seq![0u8] + after;
    let n = before.len() as int;
    let s = text_at(b, n);
    if name.len() == 0 {
        assert(b[n] == 0);
    } else {
        assert(b[n] == name[0]);
        let rest = name.skip(1);
        let first = seq![name[0]];
        law_names_are_read_back(before + first, rest, after);
        assert(before + first + rest + seq![0u8] + after =~= b);
        let t = text_at(b, n + 1);
        assert(s == seq![name[0] as char] + t);
        assert forall|i: int| 0 <= i < name.len() implies #[trigger] s[i] == name[i] as char by {
            if i > 0 {
                assert(s[i] == t[i - 1]);
                assert(rest[i - 1] == name[i]);
            }
        }
    }
}

/// The kind of a type.
pub open spec fn kind(t: TypeRecord) -> int {
    (t.info as int / 0x100_0000) % 32
}

/// The size of an integer, struct, union, enumeration or floating-point number
/// is the one it states; a pointer takes eight bytes, an array as many as its
/// elements together, and names and qualifiers as many as what they stand for.
pub proof fn law_sizes_follow_types(types: Seq<TypeRecord>, id: u32, depth: nat)
    requires
        0 < id < types.len(),
        depth < 5,
    ensures
        ({
            let t = types[id as int];
            let k = kind(t);
            let size = resolved_size(types, id, depth);
            &&& k == 1 || k == 4 || k == 5 || k == 6 || k == 16 ==> size == t.size_or_type
            &&& k == 2 ==> size == 8
            &&& k == 8 || k == 9 || k == 10 || k == 11 || k == 14 || k == 18 ==> size
                == resolved_size(types, t.size_or_type, depth + 1)
            &&& k == 3 && t.data.len() == 12 && resolved_size(
                types,
                u32_at(t.data, 0),
                depth + 1,
            ) * u32_at(t.data, 8) <= u32::MAX ==> size == resolved_size(
                types,
                u32_at(t.data, 0),
                depth + 1,
            ) * u32_at(t.data, 8)
        }),
        resolved_size(types, 0, depth) == 0,
        member_size(types, id) == if kind(types[id as int]) == 2 {
            resolved_size(types, types[id as int].size_or_type, 0)
        } else {
            resolved_size(types, id, 0)
        },
{
    reveal_with_fuel(resolved_size, 2);
    let t = types[id as int];
    if kind(t) == 3 && t.data.len() == 12 {
        let x = resolved_size(types, u32_at(t.data, 0), depth + 1) * u32_at(t.data, 8);
        if x <= u32::MAX {
            assert(x >= 0) by (nonlinear_arith)
                requires
                    x == resolved_size(types, u32_at(t.data, 0), depth + 1) * u32_at(t.data, 8),
            ;
            assert(x % 0x1_0000_0000 == x);
        }
    }
}

/// Member `i` of a struct is called `name`.
pub open spec fn member_is(b: Seq<u8>, strings: int, data: Seq<u8>, i: int, name: Seq<char>) -> bool {
    text_at(b, strings + u32_at(data, 12 * i)) == name
}

/// The sizes of a map's keys and values are those of its last members of these
/// names, and a struct without such members is no map.
pub proof fn law_map_shapes_are_read(
    b: Seq<u8>,
    strings: int,
    types: Seq<TypeRecord>,
    data: Seq<u8>,
    n: nat,
    i: int,
    name: Seq<char>,
)
    requires
        data.len() >= 12 * n,
        0 <= i < n,
        name == "value"@ || name == "key"@,
        member_is(b, strings, data, i, name),
        forall|j: int| i < j < n ==> !(#[trigger] member_is(b, strings, data, j, name)),
    ensures
        shape(b, strings, types, data, n).is_map,
        name == "value"@ ==> shape(b, strings, types, data, n).value_size == member_size(
            types,
            u32_at(data, 12 * i + 4),
        ),
        name == "key"@ ==> shape(b, strings, types, data, n).key_size == member_size(
            types,
            u32_at(data, 12 * i + 4),
        ),
    decreases n,
{
    reveal_strlit("value");
    reveal_strlit("key");
    assert("value"@.len() == 5 && "key"@.len() == 3);
    if i < n - 1 {
        law_map_shapes_are_read(b, strings, types, data, (n - 1) as nat, i, name);
        assert(!member_is(b, strings, data, n - 1, name));
    }
}

/// The same for a struct that has neither.
pub proof fn law_other_structs_are_no_maps(
    b: Seq<u8>,
    strings: int,
    types: Seq<TypeRecord>,
    data: Seq<u8>,
    n: nat,
)
    requires
        data.len() >= 12 * n,
        forall|j: int|
            0 <= j < n ==> !(#[trigger] member_is(b, strings, data, j, "value"@)) && !member_is(
                b,
                strings,
                data,
                j,
                "key"@,
            ),
    ensures
        !shape(b, strings, types, data, n).is_map,
        shape(b, strings, types, data, n).value_size == 0,
    decreases n,
{
    if n > 0 {
        law_other_structs_are_no_maps(b, strings, types, data, (n - 1) as nat);
        assert(!member_is(b, strings, data, n - 1, "value"@));
    }
}

/// A map is a variable that is a struct with a value: under the variable's
/// name, with the sizes the struct gives.
pub proof fn law_maps_are_variables(b: Seq<u8>, strings: int, types: Seq<TypeRecord>, i: int)
    requires
        0 <= i < types.len(),
    ensures
        map_of(b, strings, types, i) matches Some(m) ==> {
            let t = types[i];
            let d = types[t.size_or_type as int];
            &&& kind(t) == 14
            &&& t.size_or_type < types.len()
            &&& kind(d) == 4
            &&& m.name == text_at(b, strings + t.name_off)
            &&& m.value_size > 0
            &&& m.value_size == shape(
                b,
                strings,
                types,
                d.data,
                (d.info % 0x1_0000) as nat,
            ).value_size
            &&& m.key_size == shape(
                b,
                strings,
                types,
                d.data,
                (d.info % 0x1_0000) as nat,
            ).key_size
        },
        kind(types[i]) == 14 && types[i].size_or_type < types.len() && kind(
            types[types[i].size_or_type as int],
        ) == 4 && shape(
            b,
            strings,
            types,
            types[types[i].size_or_type as int].data,
            (types[types[i].size_or_type as int].info % 0x1_0000) as nat,
        ).is_map && shape(
            b,
            strings,
            types,
            types[types[i].size_or_type as int].data,
            (types[types[i].size_or_type as int].info % 0x1_0000) as nat,
        ).value_size > 0 ==> map_of(b, strings, types, i) is Some,
{
}

/// Every map that is found is one of the types, and every type that is a map is
/// found.
pub proof fn law_all_maps_are_found(
    b: Seq<u8>,
    strings: int,
    types: Seq<TypeRecord>,
    n: nat,
    m: MapSpec,
)
    ensures
        maps_of(b, strings, types, n).contains(m) <==> exists|i: int|
            0 <= i < n && #[trigger] map_of(b, strings, types, i) == Some(m),
    decreases n,
{
    if n > 0 {
        law_all_maps_are_found(b, strings, types, (n - 1) as nat, m);
        let before = maps_of(b, strings, types, (n - 1) as nat);
        let all = maps_of(b, strings, types, n);
        let last = map_of(b, strings, types, n - 1);
        if before.contains(m) {
            let k = choose|k: int| 0 <= k < before.len() && before[k] == m;
            assert(all[k] == m);
        }
        if last == Some(m) {
            assert(all[all.len() - 1] == m);
        }
        if all.contains(m) && !before.contains(m) {
            let k = choose|k: int| 0 <= k < all.len() && all[k] == m;
            if k < before.len() {
                assert(before[k] == m);
            }
        }
    }
}

/// Type information that is too short for its header, does not start with its
/// mark, or whose parts lie beyond its end is refused; all other is read.
pub proof fn law_bad_type_information_is_refused(b: Seq<u8>)
    ensures
        b.len() < 24 ==> btf_maps(b) == Err::<Seq<MapSpec>, Seq<char>>("BTF too short"@),
        b.len() >= 24 && !(b[0] == 0x9F && b[1] == 0xEB) ==> btf_maps(b) == Err::<
            Seq<MapSpec>,
            Seq<char>,
        >("Invalid BTF magic"@),
        b.len() >= 24 && b[0] == 0x9F && b[1] == 0xEB ==> (btf_maps(b) is Ok <==> u32_at(b, 4)
            + u32_at(b, 8) + u32_at(b, 12) <= b.len() && u32_at(b, 4) + u32_at(b, 16) + u32_at(
            b,
            20,
        ) <= b.len()),
{
}

/// A map definition of five words is read back from where its symbol points.
pub proof fn law_map_definitions_are_read_back(
    before: Seq<u8>,
    after: Seq<u8>,
    name: Seq<char>,
    section: usize,
    type_: u32,
    key_size: u32,
    value_size: u32,
    max_entries: u32,
    map_flags: u32,
)
    requires
        before.len() <= u64::MAX,
    ensures
        map_at(
            SymbolView { name: Some(name), section, value: before.len() as u64 },
            before + word(type_) + word(key_size) + word(value_size) + word(max_entries) + word(
                map_flags,
            ) + after,
        ) == Some(MapSpec { name, type_, key_size, value_size, max_entries, map_flags }),
{
    let (a, c, d, e, f) = (
        word(type_),
        word(key_size),
        word(value_size),
        word(max_entries),
        word(map_flags),
    );
    let b = before + a + c + d + e + f + after;
    law_words_are_read_back(before, type_, c + d + e + f + after);
    assert(before + a + (c + d + e + f + after) =~= b);
    law_words_are_read_back(before + a, key_size, d + e + f + after);
    assert(before + a + c + (d + e + f + after) =~= b);
    law_words_are_read_back(before + a + c, value_size, e + f + after);
    assert(before + a + c + d + (e + f + after) =~= b);
    law_words_are_read_back(before + a + c + d, max_entries, f + after);
    assert(before + a + c + d + e + (f + after) =~= b);
    law_words_are_read_back(before + a + c + d + e, map_flags, after);
}

/// A definition that does not fit its section is none.
pub proof fn law_cut_definitions_are_skipped(s: SymbolView, data: Seq<u8>)
    ensures
        map_at(s, data) is Some <==> s.value + 20 <= data.len(),
        s.name is None && map_at(s, data) is Some ==> map_at(s, data)->Some_0.name == "<unknown>"@,
{
}

/// The maps of a section are those of the symbols that point into it.
pub proof fn law_section_maps_are_found(
    symbols: Seq<SymbolView>,
    section: int,
    data: Seq<u8>,
    k: nat,
    m: MapSpec,
)
    ensures
        maps_in_section(symbols, section, data, k).contains(m) <==> exists|i: int|
            0 <= i < k && (#[trigger] symbols[i]).section == section && map_at(symbols[i], data)
                == Some(m),
    decreases k,
{
    if k > 0 {
        law_section_maps_are_found(symbols, section, data, (k - 1) as nat, m);
        let before = maps_in_section(symbols, section, data, (k - 1) as nat);
        let all = maps_in_section(symbols, section, data, k);
        if before.contains(m) {
            let i = choose|i: int| 0 <= i < before.len() && before[i] == m;
            assert(all[i] == m);
        }
        let s = symbols[k - 1];
        if s.section == section && map_at(s, data) == Some(m) {
            assert(all[all.len() - 1] == m);
        }
        if all.contains(m) && !before.contains(m) {
            let i = choose|i: int| 0 <= i < all.len() && all[i] == m;
            if i < before.len() {
                assert(before[i] == m);
            }
        }
    }
}

/// The maps of an object file are those of its sections named `maps`.
pub proof fn law_maps_come_from_their_sections(e: ElfView, b: Seq<u8>, n: nat, m: MapSpec)
    requires
        n <= e.sections.len(),
    ensures
        maps_in_sections(e, b, n).contains(m) <==> exists|i: int|
            0 <= i < n && (#[trigger] e.sections[i]).name == Some("maps"@) && maps_in_section(
                e.symbols,
                i,
                b.subrange(e.sections[i].offset as int, e.sections[i].offset + e.sections[i].size),
                e.symbols.len(),
            ).contains(m),
    decreases n,
{
    if n > 0 {
        law_maps_come_from_their_sections(e, b, (n - 1) as nat, m);
        let before = maps_in_sections(e, b, (n - 1) as nat);
        let s = e.sections[n - 1];
        let more = maps_in_section(
            e.symbols,
            n - 1,
            b.subrange(s.offset as int, s.offset + s.size),
            e.symbols.len(),
        );
        let all = maps_in_sections(e, b, n);
        if before.contains(m) {
            let i = choose|i: int| 0 <= i < before.len() && before[i] == m;
            assert(all[i] == m);
        }
        if s.name == Some("maps"@) && more.contains(m) {
            let i = choose|i: int| 0 <= i < more.len() && more[i] == m;
            assert(all[before.len() + i] == m);
        }
        if all.contains(m) && !before.contains(m) {
            let i = choose|i: int| 0 <= i < all.len() && all[i] == m;
            if i < before.len() {
                assert(before[i] == m);
            } else {
                assert(more[i - before.len()] == m);
            }
        }
    }
}

/// The first section of a name is found.
pub proof fn law_first_sections_are_found(v: Seq<SectionView>, name: Seq<char>, i: int)
    requires
        0 <= i <= v.len(),
    ensures
        match first_named(v, name, i) {
            Some(k) => i <= k < v.len() && v[k].name == Some(name) && forall|j: int|
                i <= j < k ==> (#[trigger] v[j]).name != Some(name),
            None => forall|j: int| i <= j < v.len() ==> (#[trigger] v[j]).name != Some(name),
        },
    decreases v.len() - i,
{
    if i < v.len() && v[i].name != Some(name) {
        law_first_sections_are_found(v, name, i + 1);
    }
}

/// The first section for maps that reaches beyond the file is found.
pub proof fn law_sections_beyond_the_file_are_found(v: Seq<SectionView>, len: nat, i: int)
    requires
        0 <= i <= v.len(),
    ensures
        match first_outside(v, len, i) {
            Some(k) => i <= k < v.len() && v[k].name == Some("maps"@) && v[k].offset + v[k].size
                > len,
            None => forall|j: int|
                i <= j < v.len() && (#[trigger] v[j]).name == Some("maps"@) ==> v[j].offset
                    + v[j].size <= len,
        },
    decreases v.len() - i,
{
    if i < v.len() {
        law_sections_beyond_the_file_are_found(v, len, i + 1);
    }
}

/// The bytes of a section that is loaded are those of the first section of its
/// name, all of them within the file; where eBPF is asked for, the file says
/// so.
pub proof fn law_loaded_sections_lie_in_the_file(
    e: ElfView,
    b: Seq<u8>,
    name: Seq<char>,
    require_bpf: bool,
    r: Result<Vec<u8>, ElfLoadError>,
    v: Vec<u8>,
    k: int,
)
    requires
        section_outcome(e, b, name, require_bpf, r),
        0 <= k < e.sections.len(),
        e.sections[k].name == Some(name),
        forall|j: int| 0 <= j < k ==> (#[trigger] e.sections[j]).name != Some(name),
    ensures
        r is Ok <==> (require_bpf ==> e.machine == 247) && e.sections[k].offset + e.sections[k].size
            <= b.len(),
        r == Ok::<Vec<u8>, ElfLoadError>(v) ==> v@.len() == e.sections[k].size && forall|i: int|
            0 <= i < v@.len() ==> #[trigger] v@[i] == b[e.sections[k].offset + i],
        require_bpf && e.machine != 247 ==> (r matches Err(ElfLoadError::NotBpf { e_machine })
            && e_machine == e.machine),
        !(require_bpf && e.machine != 247) && e.sections[k].offset + e.sections[k].size > b.len()
            ==> r matches Err(ElfLoadError::SectionOutOfBounds { .. }),
{
    law_first_sections_are_found(e.sections, name, 0);
    let i = first_named(e.sections, name, 0)->Some_0;
    assert(i == k) by {
        if i < k {
            assert(e.sections[i].name != Some(name));
        } else if k < i {
            assert(e.sections[k].name != Some(name));
        }
    }
}

/// A section that is missing is reported by its name.
pub proof fn law_missing_sections_are_reported(
    e: ElfView,
    b: Seq<u8>,
    name: Seq<char>,
    r: Result<Vec<u8>, ElfLoadError>,
)
    requires
        section_outcome(e, b, name, false, r),
        forall|j: int| 0 <= j < e.sections.len() ==> (#[trigger] e.sections[j]).name != Some(name),
    ensures
        r matches Err(ElfLoadError::SectionNotFound { name: n }) && n@ == name,
{
    law_first_sections_are_found(e.sections, name, 0);
}

/// Instructions are whole: eight bytes each.
pub proof fn law_instructions_are_whole(
    name: Seq<char>,
    v: Seq<u8>,
    r: Result<Vec<u8>, ElfLoadError>,
    n: nat,
    rest: nat,
)
    requires
        whole_insns(name, v, r),
        v.len() == 8 * n + rest,
        rest < 8,
    ensures
        r is Ok <==> rest == 0,
        r matches Ok(w) ==> w@ == v,
{
}

/// A relocation leads to the last map of the symbol's name.
pub proof fn law_last_maps_are_found(maps: Seq<BpfMapDef>, name: Seq<char>, n: nat)
    requires
        n <= maps.len() <= usize::MAX,
    ensures
        match last_named(maps, name, n) {
            Some(k) => k < n && maps[k as int].name@ == name && forall|j: int|
                k < j < n ==> (#[trigger] maps[j]).name@ != name,
            None => forall|j: int| 0 <= j < n ==> (#[trigger] maps[j]).name@ != name,
        },
    decreases n,
{
    if n > 0 && maps[n - 1].name@ != name {
        law_last_maps_are_found(maps, name, (n - 1) as nat);
    }
}

/// An instruction that refers to a map is found by its index, eight bytes to an
/// instruction, with the map its last relocation leads to.
pub proof fn law_relocations_are_found(e: ElfView, maps: Seq<BpfMapDef>, n: nat, i: int, m: usize)
    requires
        n <= e.relocs.len(),
        maps.len() <= usize::MAX,
        0 <= i < n,
        e.relocs[i].sym < e.symbols.len(),
        e.symbols[e.relocs[i].sym as int].name matches Some(s) && last_named(maps, s, maps.len())
            == Some(m),
        forall|j: int|
            i < j < n ==> (#[trigger] e.relocs[j]).offset as int / 8 != e.relocs[i].offset as int / 8,
        forall|j: int| 0 <= j < n ==> (#[trigger] e.relocs[j]).offset as int / 8 <= usize::MAX,
    ensures
        relocated(e, maps, n).contains_key((e.relocs[i].offset as int / 8) as usize),
        relocated(e, maps, n)[(e.relocs[i].offset as int / 8) as usize] == m,
    decreases n,
{
    if i < n - 1 {
        law_relocations_are_found(e, maps, (n - 1) as nat, i, m);
        assert(e.relocs[n - 1].offset as int / 8 != e.relocs[i].offset as int / 8);
        assert(e.relocs[n - 1].offset as int / 8 <= usize::MAX);
        assert(e.relocs[i].offset as int / 8 <= usize::MAX);
    }
}

/// The names of all sections that have one are listed, in their order.
pub proof fn law_section_names_are_listed(v: Seq<SectionView>, n: nat, name: Seq<char>)
    requires
        n < v.len(),
    ensures
        v[n as int].name == Some(name) ==> names(v, n + 1) == names(v, n).push(name),
        v[n as int].name is None ==> names(v, n + 1) == names(v, n),
        names(v, 0).len() == 0,
{
}

} // verus!

//! Map definitions out of type information (BTF).
use crate::machine::layout::{BpfMapDef, KptrField};
use crate::text::{owned, push_char, text_eq};
use vstd::prelude::*;

verus! {

pub const BTF_MAGIC: u16 = 0xeB9F;

pub const BTF_KIND_INT: u8 = 1;

pub const BTF_KIND_PTR: u8 = 2;

pub const BTF_KIND_ARRAY: u8 = 3;

pub const BTF_KIND_STRUCT: u8 = 4;

pub const BTF_KIND_UNION: u8 = 5;

pub const BTF_KIND_ENUM: u8 = 6;

pub const BTF_KIND_TYPEDEF: u8 = 8;

pub const BTF_KIND_VOLATILE: u8 = 9;

pub const BTF_KIND_CONST: u8 = 10;

pub const BTF_KIND_RESTRICT: u8 = 11;

pub const BTF_KIND_FUNC_PROTO: u8 = 13;

pub const BTF_KIND_VAR: u8 = 14;

pub const BTF_KIND_DATASEC: u8 = 15;

pub const BTF_KIND_FLOAT: u8 = 16;

pub const BTF_KIND_DECL_TAG: u8 = 17;

pub const BTF_KIND_TYPE_TAG: u8 = 18;

pub const BTF_KIND_ENUM64: u8 = 19;

/// Four bytes as an unsigned number, the low byte first.
pub open spec fn u32_at(b: Seq<u8>, i: int) -> u32 {
    (b[i] + 0x100 * b[i + 1] + 0x1_0000 * b[i + 2] + 0x100_0000 * b[i + 3]) as u32
}

pub(crate) fn read_u32(b: &[u8], i: usize) -> (r: u32)
    requires
        i + 4 <= b@.len(),
    ensures
        r == u32_at(b@, i as int),
{
    (b[i] as u64 + 0x100 * (b[i + 1] as u64) + 0x1_0000 * (b[i + 2] as u64) + 0x100_0000 * (b[i + 3]
        as u64)) as u32
}

/// A type as it is encoded: its name, its kind and number of members, its size
/// or the type it refers to, and what belongs to its kind.
#[derive(Debug)]
pub struct BtfTypeRaw {
    pub name_off: u32,
    pub info: u32,
    pub size_or_type: u32,
    pub data: Vec<u8>,
}

/// The model of an encoded type.
#[verifier::ext_equal]
pub ghost struct TypeRecord {
    pub name_off: u32,
    pub info: u32,
    pub size_or_type: u32,
    pub data: Seq<u8>,
}

pub open spec fn kind_of(info: u32) -> u8 {
    ((info / 0x100_0000) % 32) as u8
}

pub open spec fn vlen_of(info: u32) -> u32 {
    (info % 0x1_0000) as u32
}

impl BtfTypeRaw {
    pub open spec fn view(&self) -> TypeRecord {
        TypeRecord {
            name_off: self.name_off,
            info: self.info,
            size_or_type: self.size_or_type,
            data: self.data@,
        }
    }

    /// The kind of the type.
    pub fn kind(&self) -> (r: u8)
        ensures
            r == kind_of(self.info),
    {
        ((self.info / 0x100_0000) % 32) as u8
    }

    /// The number of members of the type.
    pub fn vlen(&self) -> (r: u32)
        ensures
            r == vlen_of(self.info),
            r < 0x1_0000,
    {
        self.info % 0x1_0000
    }
}

/// Bytes that belong to a type of a kind with a number of members.
pub open spec fn extra_bytes(kind: u8, vlen: u32) -> int {
    if kind == BTF_KIND_INT || kind == BTF_KIND_VAR || kind == BTF_KIND_DECL_TAG {
        4
    } else if kind == BTF_KIND_ARRAY {
        12
    } else if kind == BTF_KIND_STRUCT || kind == BTF_KIND_UNION || kind == BTF_KIND_DATASEC || kind
        == BTF_KIND_ENUM64 {
        vlen * 12
    } else if kind == BTF_KIND_ENUM || kind == BTF_KIND_FUNC_PROTO {
        vlen * 8
    } else {
        0
    }
}

fn extra(kind: u8, vlen: u32) -> (r: usize)
    requires
        vlen < 0x1_0000,
    ensures
        r == extra_bytes(kind, vlen),
        r < 0x10_0000,
{
    let n: usize = vlen as usize;
    match kind {
        BTF_KIND_INT | BTF_KIND_VAR | BTF_KIND_DECL_TAG => 4,
        BTF_KIND_ARRAY => 12,
        BTF_KIND_STRUCT | BTF_KIND_UNION | BTF_KIND_DATASEC | BTF_KIND_ENUM64 => n * 12,
        BTF_KIND_ENUM | BTF_KIND_FUNC_PROTO => n * 8,
        _ => 0,
    }
}

/// The encoded type at a place.
pub open spec fn record_at(b: Seq<u8>, i: int) -> TypeRecord {
    let info = u32_at(b, i + 4);
    TypeRecord {
        name_off: u32_at(b, i),
        info,
        size_or_type: u32_at(b, i + 8),
        data: b.subrange(i + 12, i + 12 + extra_bytes(kind_of(info), vlen_of(info))),
    }
}

/// Where the type at a place ends.
pub open spec fn record_end(b: Seq<u8>, i: int) -> int {
    let info = u32_at(b, i + 4);
    i + 12 + extra_bytes(kind_of(info), vlen_of(info))
}

/// The encoded types from `at` on. One that goes beyond the bytes ends the
/// list.
pub open spec fn records_from(b: Seq<u8>, at: int, end: int) -> Seq<TypeRecord>
    decreases b.len() - at,
{
    if at >= end || at + 12 > b.len() || record_end(b, at) > b.len() {
        Seq::empty()
    } else {
        seq![record_at(b, at)] + records_from(b, record_end(b, at), end)
    }
}

/// The type with number zero, which is no type.
pub open spec fn no_type() -> TypeRecord {
    TypeRecord { name_off: 0, info: 0, size_or_type: 0, data: Seq::empty() }
}

/// The models of encoded types.
pub open spec fn type_records(v: Seq<BtfTypeRaw>) -> Seq<TypeRecord> {
    Seq::new(v.len(), |i: int| v[i]@)
}

fn copy_range(b: &[u8], from: usize, to: usize) -> (r: Vec<u8>)
    requires
        from <= to <= b@.len(),
    ensures
        r@ == b@.subrange(from as int, to as int),
{
    let mut r: Vec<u8> = Vec::new();
    let mut i: usize = from;
    while i < to
        invariant
            from <= i <= to <= b@.len(),
            r@ == b@.subrange(from as int, i as int),
        decreases to - i,
    {
        r.push(b[i]);
        assert(r@ =~= b@.subrange(from as int, i + 1));
        i = i + 1;
    }
    r
}

fn read_types(b: &[u8], start: usize, end: usize) -> (r: Vec<BtfTypeRaw>)
    requires
        end <= b@.len(),
    ensures
        type_records(r@) == seq![no_type()] + records_from(b@, start as int, end as int),
{
    let mut types: Vec<BtfTypeRaw> = Vec::new();
    types.push(BtfTypeRaw { name_off: 0, info: 0, size_or_type: 0, data: Vec::new() });
    let ghost want = seq![no_type()] + records_from(b@, start as int, end as int);
    let len: usize = b.len();
    let mut cursor: usize = start;
    assert(type_records(types@) =~= seq![no_type()]);
    while cursor < end
        invariant
            end <= len,
            len == b@.len(),
            want == seq![no_type()] + records_from(b@, start as int, end as int),
            want == type_records(types@) + records_from(b@, cursor as int, end as int),
        decreases len - cursor,
    {
        let ghost at = cursor as int;
        let ghost before = types@;
        if len - cursor < 12 {
            assert(type_records(types@) + Seq::<TypeRecord>::empty() =~= type_records(types@));
            return types;
        }
        let name_off: u32 = read_u32(b, cursor);
        let info: u32 = read_u32(b, cursor + 4);
        let size_or_type: u32 = read_u32(b, cursor + 8);
        let more: usize = extra(((info / 0x100_0000) % 32) as u8, info % 0x1_0000);
        if len - cursor - 12 < more {
            assert(type_records(types@) + Seq::<TypeRecord>::empty() =~= type_records(types@));
            return types;
        }
        let data: Vec<u8> = copy_range(b, cursor + 12, cursor + 12 + more);
        cursor = cursor + 12 + more;
        types.push(BtfTypeRaw { name_off, info, size_or_type, data });
        proof {
            let rest = records_from(b@, cursor as int, end as int);
            assert(type_records(types@) =~= type_records(before).push(record_at(b@, at)));
            assert(type_records(before) + (seq![record_at(b@, at)] + rest) =~= type_records(types@)
                + rest);
        }
    }
    assert(type_records(types@) + Seq::<TypeRecord>::empty() =~= type_records(types@));
    types
}

/// The text at a place: bytes up to a zero byte, each a character.
pub open spec fn text_at(b: Seq<u8>, i: int) -> Seq<char>
    decreases b.len() - i,
{
    if i < 0 || i >= b.len() || b[i] == 0 {
        Seq::empty()
    } else {
        seq![b[i] as char] + text_at(b, i + 1)
    }
}

fn read_text(b: &[u8], start: u64) -> (r: String)
    ensures
        r@ == text_at(b@, start as int),
{
    let mut s: String = String::new();
    if start >= b.len() as u64 {
        assert(s@ =~= text_at(b@, start as int));
        return s;
    }
    let mut i: usize = start as usize;
    assert(s@ + text_at(b@, i as int) =~= text_at(b@, i as int));
    while i < b.len() && b[i] != 0
        invariant
            i <= b@.len(),
            text_at(b@, start as int) == s@ + text_at(b@, i as int),
        decreases b@.len() - i,
    {
        let ghost before = s@;
        let c: char = b[i] as char;
        push_char(&mut s, c);
        assert(before + (seq![c] + text_at(b@, i + 1)) =~= s@ + text_at(b@, i + 1));
        i = i + 1;
    }
    assert(s@ + Seq::<char>::empty() =~= s@);
    s
}

/// The size of a type, through names, qualifiers and arrays, at most six
/// deep; zero if it is not known.
pub open spec fn resolved_size(types: Seq<TypeRecord>, id: u32, depth: nat) -> u32
    decreases 6 - depth,
{
    if depth > 5 || id == 0 || id >= types.len() {
        0
    } else {
        let t = types[id as int];
        let k = kind_of(t.info);
        if k == BTF_KIND_INT || k == BTF_KIND_STRUCT || k == BTF_KIND_UNION || k == BTF_KIND_FLOAT || k
            == BTF_KIND_ENUM {
            t.size_or_type
        } else if k == BTF_KIND_ARRAY {
            if t.data.len() >= 12 {
                ((resolved_size(types, u32_at(t.data, 0), depth + 1) * u32_at(t.data, 8))
                    % 0x1_0000_0000) as u32
            } else {
                0
            }
        } else if k == BTF_KIND_PTR {
            8
        } else if k == BTF_KIND_TYPEDEF || k == BTF_KIND_VOLATILE || k == BTF_KIND_CONST || k
            == BTF_KIND_RESTRICT || k == BTF_KIND_VAR || k == BTF_KIND_TYPE_TAG {
            resolved_size(types, t.size_or_type, depth + 1)
        } else {
            0
        }
    }
}

fn get_resolved_size(types: &Vec<BtfTypeRaw>, type_id: u32, depth: u32) -> (r: u32)
    requires
        depth <= 6,
    ensures
        r == resolved_size(type_records(types@), type_id, depth as nat),
    decreases 6 - depth,
{
    if depth > 5 || type_id == 0 || type_id as usize >= types.len() {
        return 0;
    }
    let t: &BtfTypeRaw = &types[type_id as usize];
    assert(type_records(types@)[type_id as int] == t@);
    match t.kind() {
        BTF_KIND_INT | BTF_KIND_STRUCT | BTF_KIND_UNION | BTF_KIND_FLOAT | BTF_KIND_ENUM => {
            t.size_or_type
        },
        BTF_KIND_ARRAY => {
            if t.data.len() >= 12 {
                let elem: u32 = read_u32(t.data.as_slice(), 0);
                let count: u32 = read_u32(t.data.as_slice(), 8);
                let size: u32 = get_resolved_size(types, elem, depth + 1);
                assert(0 <= size * count <= 0xffff_fffe_0000_0001) by (nonlinear_arith)
                    requires
                        0 <= size <= 0xffff_ffff,
                        0 <= count <= 0xffff_ffff,
                ;
                ((size as u64 * count as u64) % 0x1_0000_0000) as u32
            } else {
                0
            }
        },
        BTF_KIND_PTR => 8,
        BTF_KIND_TYPEDEF | BTF_KIND_VOLATILE | BTF_KIND_CONST | BTF_KIND_RESTRICT | BTF_KIND_VAR
        | BTF_KIND_TYPE_TAG => get_resolved_size(types, t.size_or_type, depth + 1),
        _ => 0,
    }
}

/// What the members of a structure say of a map.
#[verifier::ext_equal]
#[derive(Debug, Clone, Copy, PartialEq, Eq, Structural)]
pub struct MapShape {
    pub is_map: bool,
    pub key_size: u32,
    pub value_size: u32,
}

/// The size of a member: of the type itself, or of what it points to.
pub open spec fn member_size(types: Seq<TypeRecord>, id: u32) -> u32 {
    if id < types.len() && kind_of(types[id as int].info) == BTF_KIND_PTR {
        resolved_size(types, types[id as int].size_or_type, 0)
    } else {
        resolved_size(types, id, 0)
    }
}

/// What the first `n` members say.
pub open spec fn shape(
    b: Seq<u8>,
    strings: int,
    types: Seq<TypeRecord>,
    data: Seq<u8>,
    n: nat,
) -> MapShape
    decreases n,
{
    if n == 0 {
        MapShape { is_map: false, key_size: 0, value_size: 0 }
    } else {
        let s = shape(b, strings, types, data, (n - 1) as nat);
        let at = 12 * (n - 1);
        if at + 12 > data.len() {
            s
        } else {
            let name = text_at(b, strings + u32_at(data, at));
            let size = member_size(types, u32_at(data, at + 4));
            if name == "value"@ {
                MapShape { is_map: true, value_size: size, ..s }
            } else if name == "key"@ {
                MapShape { is_map: true, key_size: size, ..s }
            } else {
                s
            }
        }
    }
}

fn size_of_member(types: &Vec<BtfTypeRaw>, id: u32) -> (r: u32)
    ensures
        r == member_size(type_records(types@), id),
{
    let mut actual: u32 = id;
    if (id as usize) < types.len() {
        assert(type_records(types@)[id as int] == types@[id as int]@);
        if types[id as usize].kind() == BTF_KIND_PTR {
            actual = types[id as usize].size_or_type;
        }
    }
    get_resolved_size(types, actual, 0)
}

fn read_shape(b: &[u8], strings: u64, types: &Vec<BtfTypeRaw>, t: &BtfTypeRaw) -> (r: MapShape)
    requires
        strings <= 0x1_ffff_ffff,
    ensures
        r == shape(
            b@,
            strings as int,
            type_records(types@),
            t.data@,
            vlen_of(t.info) as nat,
        ),
{
    let mut s: MapShape = MapShape { is_map: false, key_size: 0, value_size: 0 };
    let n: usize = t.vlen() as usize;
    let ghost ts = type_records(types@);
    let mut i: usize = 0;
    while i < n
        invariant
            i <= n < 0x1_0000,
            strings <= 0x1_ffff_ffff,
            ts == type_records(types@),
            s == shape(b@, strings as int, ts, t.data@, i as nat),
        decreases n - i,
    {
        let at: usize = 12 * i;
        if at + 12 <= t.data.len() {
            let name_off: u32 = read_u32(t.data.as_slice(), at);
            let type_id: u32 = read_u32(t.data.as_slice(), at + 4);
            let name: String = read_text(b, strings + name_off as u64);
            if text_eq(name.as_str(), "value") {
                s.is_map = true;
                s.value_size = size_of_member(types, type_id);
            } else if text_eq(name.as_str(), "key") {
                s.is_map = true;
                s.key_size = size_of_member(types, type_id);
            }
        }
        i = i + 1;
    }
    s
}

/// A map as type information describes it.
#[verifier::ext_equal]
pub ghost struct MapSpec {
    pub name: Seq<char>,
    pub type_: u32,
    pub key_size: u32,
    pub value_size: u32,
    pub max_entries: u32,
    pub map_flags: u32,
}

/// The definition is as described, and says nothing else.
pub open spec fn describes(d: BpfMapDef, s: MapSpec) -> bool {
    &&& d.name@ == s.name
    &&& d.type_ == s.type_
    &&& d.key_size == s.key_size
    &&& d.value_size == s.value_size
    &&& d.max_entries == s.max_entries
    &&& d.map_flags == s.map_flags
    &&& d.initial_data is None
    &&& d.kptr_fields@.len() == 0
    &&& d.btf_val_type_id is None
    &&& d.inner_map_idx is None
}

/// The definitions are as described, one by one.
pub open spec fn all_described(v: Seq<BpfMapDef>, s: Seq<MapSpec>) -> bool {
    v.len() == s.len() && forall|i: int| 0 <= i < v.len() ==> describes(#[trigger] v[i], s[i])
}

/// The map that a type defines, if it does: a variable whose type is a
/// structure with a value of known size.
pub open spec fn map_of(b: Seq<u8>, strings: int, types: Seq<TypeRecord>, i: int) -> Option<MapSpec> {
    let t = types[i];
    if kind_of(t.info) != BTF_KIND_VAR || t.size_or_type >= types.len() {
        None
    } else {
        let d = types[t.size_or_type as int];
        let s = shape(b, strings, types, d.data, vlen_of(d.info) as nat);
        if kind_of(d.info) == BTF_KIND_STRUCT && s.is_map && s.value_size > 0 {
            Some(
                MapSpec {
                    name: text_at(b, strings + t.name_off),
                    type_: 0,
                    key_size: s.key_size,
                    value_size: s.value_size,
                    max_entries: 0,
                    map_flags: 0,
                },
            )
        } else {
            None
        }
    }
}

/// The maps that the first `n` types define.
pub open spec fn maps_of(b: Seq<u8>, strings: int, types: Seq<TypeRecord>, n: nat) -> Seq<MapSpec>
    decreases n,
{
    if n == 0 {
        Seq::empty()
    } else {
        let before = maps_of(b, strings, types, (n - 1) as nat);
        match map_of(b, strings, types, n - 1) {
            Some(m) => before.push(m),
            None => before,
        }
    }
}

/// The maps that type information defines, or what is wrong with it.
pub open spec fn btf_maps(b: Seq<u8>) -> Result<Seq<MapSpec>, Seq<char>> {
    if b.len() < 24 {
        Err("BTF too short"@)
    } else if b[0] + 0x100 * b[1] != BTF_MAGIC {
        Err("Invalid BTF magic"@)
    } else {
        let types = u32_at(b, 4) + u32_at(b, 8);
        let types_end = types + u32_at(b, 12);
        let strings = u32_at(b, 4) + u32_at(b, 16);
        let strings_end = strings + u32_at(b, 20);
        if types_end > b.len() || strings_end > b.len() {
            Err("BTF sections out of bounds"@)
        } else {
            let records = seq![no_type()] + records_from(b, types, types_end);
            Ok(maps_of(b, strings, records, records.len()))
        }
    }
}

/// The maps that type information defines.
pub fn parse_btf_map_defs(bytes: &[u8]) -> (r: Result<Vec<BpfMapDef>, String>)
    ensures
        match (r, btf_maps(bytes@)) {
            (Ok(v), Ok(s)) => all_described(v@, s),
            (Err(e), Err(msg)) => e@ == msg,
            _ => false,
        },
{
    if bytes.len() < 24 {
        return Err(owned("BTF too short"));
    }
    let magic: u32 = bytes[0] as u32 + 0x100 * (bytes[1] as u32);
    if magic != BTF_MAGIC as u32 {
        return Err(owned("Invalid BTF magic"));
    }
    let hdr_len: u64 = read_u32(bytes, 4) as u64;
    let type_start: u64 = hdr_len + read_u32(bytes, 8) as u64;
    let type_end: u64 = type_start + read_u32(bytes, 12) as u64;
    let str_start: u64 = hdr_len + read_u32(bytes, 16) as u64;
    let str_end: u64 = str_start + read_u32(bytes, 20) as u64;
    if type_end > bytes.len() as u64 || str_end > bytes.len() as u64 {
        return Err(owned("BTF sections out of bounds"));
    }
    let types: Vec<BtfTypeRaw> = read_types(bytes, type_start as usize, type_end as usize);
    let ghost ts = type_records(types@);
    let mut map_defs: Vec<BpfMapDef> = Vec::new();
    let mut i: usize = 0;
    while i < types.len()
        invariant
            i <= types@.len(),
            ts == type_records(types@),
            str_start <= 0x1_ffff_fffe,
            all_described(map_defs@, maps_of(bytes@, str_start as int, ts, i as nat)),
        decreases types@.len() - i,
    {
        let t: &BtfTypeRaw = &types[i];
        assert(ts[i as int] == t@);
        if t.kind() == BTF_KIND_VAR && (t.size_or_type as usize) < types.len() {
            let d: &BtfTypeRaw = &types[t.size_or_type as usize];
            assert(ts[t.size_or_type as int] == d@);
            if d.kind() == BTF_KIND_STRUCT {
                let s: MapShape = read_shape(bytes, str_start, &types, d);
                if s.is_map && s.value_size > 0 {
                    let name: String = read_text(bytes, str_start + t.name_off as u64);
                    let kptr_fields: Vec<KptrField> = Vec::new();
                    map_defs.push(
                        BpfMapDef {
                            name,
                            type_: 0,
                            key_size: s.key_size,
                            value_size: s.value_size,
                            max_entries: 0,
                            map_flags: 0,
                            initial_data: None,
                            kptr_fields,
                            btf_val_type_id: None,
                            inner_map_idx: None,
                        },
                    );
                }
            }
        }
        i = i + 1;
    }
    Ok(map_defs)
}

/// Every map that is found has values of some size.
pub proof fn law_found_maps_have_values(b: Seq<u8>, strings: int, types: Seq<TypeRecord>, n: nat)
    ensures
        forall|i: int|
            0 <= i < maps_of(b, strings, types, n).len() ==> (#[trigger] maps_of(
                b,
                strings,
                types,
                n,
            )[i]).value_size > 0,
    decreases n,
{
    if n > 0 {
        law_found_maps_have_values(b, strings, types, (n - 1) as nat);
        let m = maps_of(b, strings, types, (n - 1) as nat);
        let all = maps_of(b, strings, types, n);
        assert forall|i: int| 0 <= i < all.len() implies (#[trigger] all[i]).value_size > 0 by {
            if i < m.len() {
                assert(all[i] == m[i]);
            }
        }
    }
}

} // verus!

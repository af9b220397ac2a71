//! What a program refers to: maps, struct layouts and relocations.
use crate::machine::find::{first_where, lemma_first_where_at, lemma_first_where_none};
use crate::text::text_eq;
use vstd::prelude::*;

verus! {

/// How the program may use a kernel pointer that is kept in a map.
#[derive(Debug, Clone, Copy, PartialEq, Eq, Structural)]
pub enum KptrFieldKind {
    Unref,
    Ref,
    Rcu,
    Percpu,
    Uptr,
}

/// A kernel pointer inside a map value. It takes eight bytes.
#[derive(Debug, Clone, Copy, PartialEq, Eq, Structural)]
pub struct KptrField {
    pub offset: u32,
    pub kind: KptrFieldKind,
    pub pointee_btf_id: u32,
}

/// A map of the program.
#[derive(Debug)]
pub struct BpfMapDef {
    pub name: String,
    pub type_: u32,
    pub key_size: u32,
    pub value_size: u32,
    pub max_entries: u32,
    pub map_flags: u32,
    pub initial_data: Option<Vec<u8>>,
    pub kptr_fields: Vec<KptrField>,
    pub btf_val_type_id: Option<u32>,
    pub inner_map_idx: Option<usize>,
}

/// What a relocation refers to.
#[derive(Debug, Clone, Copy, PartialEq, Eq, Structural)]
pub enum RelocKind {
    MapRef,
    Ksym,
}

/// The relocation of one instruction.
#[derive(Debug, Clone, Copy, PartialEq, Eq)]
pub struct RelocInfo {
    pub pc: usize,
    pub kind: RelocKind,
    pub map_idx: usize,
    pub offset: i64,
    pub ksym_is_percpu: bool,
    pub ksym_struct_name: Option<&'static str>,
}

/// What a field of a kernel struct is.
#[derive(Debug, Clone, Copy, PartialEq, Eq)]
pub enum BtfFieldKind {
    /// A pointer; `pointee` is absent for `void *`.
    Pointer { pointee: Option<&'static str>, tag: Option<&'static str> },
    /// A struct inside the struct.
    Embedded { struct_name: Option<&'static str> },
    Other,
}

/// A field of a kernel struct.
#[derive(Debug, Clone, Copy, PartialEq, Eq)]
pub struct BtfField {
    pub offset: u32,
    pub name: &'static str,
    pub kind: BtfFieldKind,
}

/// A range of a struct that programs may not touch.
#[derive(Debug, Clone, Copy, PartialEq, Eq, Structural)]
pub struct SpecialField {
    pub offset: u32,
    pub size: u32,
}

/// A kernel struct: its own fields, and those of the structs inside it with
/// offsets from its own start.
#[derive(Debug)]
pub struct BtfStruct {
    pub id: u32,
    pub name: &'static str,
    pub size: u32,
    pub fields: Vec<BtfField>,
    pub leaves: Vec<BtfField>,
    pub special: Vec<SpecialField>,
}

/// The kernel structs a program can reach.
#[derive(Debug)]
pub struct Btf {
    pub structs: Vec<BtfStruct>,
}

pub open spec fn has_name(name: Seq<char>) -> spec_fn(BtfStruct) -> bool {
    |s: BtfStruct| s.name@ == name
}

pub open spec fn has_id(id: u32) -> spec_fn(BtfStruct) -> bool {
    |s: BtfStruct| s.id == id
}

pub open spec fn at_field_offset(off: u32) -> spec_fn(BtfField) -> bool {
    |f: BtfField| f.offset == off
}

pub open spec fn at_pc(pc: usize) -> spec_fn(RelocInfo) -> bool {
    |r: RelocInfo| r.pc == pc
}

/// The first field that starts at an offset.
pub fn find_field(fields: &Vec<BtfField>, off: u32) -> (r: Option<BtfField>)
    ensures
        r == first_where(fields@, at_field_offset(off)),
{
    let mut i: usize = 0;
    while i < fields.len()
        invariant
            i <= fields@.len(),
            forall|k: int| 0 <= k < i ==> !at_field_offset(off)(#[trigger] fields@[k]),
        decreases fields@.len() - i,
    {
        if fields[i].offset == off {
            proof {
                lemma_first_where_at(fields@, at_field_offset(off), i as int);
            }
            return Some(fields[i]);
        }
        i = i + 1;
    }
    proof {
        lemma_first_where_none(fields@, at_field_offset(off));
    }
    None
}

/// The relocation of an instruction.
pub fn find_reloc(relocs: &Vec<RelocInfo>, pc: usize) -> (r: Option<RelocInfo>)
    ensures
        r == first_where(relocs@, at_pc(pc)),
{
    let mut i: usize = 0;
    while i < relocs.len()
        invariant
            i <= relocs@.len(),
            forall|k: int| 0 <= k < i ==> !at_pc(pc)(#[trigger] relocs@[k]),
        decreases relocs@.len() - i,
    {
        if relocs[i].pc == pc {
            proof {
                lemma_first_where_at(relocs@, at_pc(pc), i as int);
            }
            return Some(relocs[i]);
        }
        i = i + 1;
    }
    proof {
        lemma_first_where_none(relocs@, at_pc(pc));
    }
    None
}

impl Btf {
    pub open spec fn by_id(&self, id: u32) -> Option<BtfStruct> {
        first_where(self.structs@, has_id(id))
    }

    pub open spec fn spec_find_struct_by_name(&self, name: Seq<char>) -> Option<u32> {
        match first_where(self.structs@, has_name(name)) {
            Some(s) => Some(s.id),
            None => None,
        }
    }

    /// The identity of the struct with a name.
    pub fn find_struct_by_name(&self, name: &str) -> (r: Option<u32>)
        ensures
            r == self.spec_find_struct_by_name(name@),
    {
        let mut i: usize = 0;
        while i < self.structs.len()
            invariant
                i <= self.structs@.len(),
                forall|k: int| 0 <= k < i ==> !has_name(name@)(#[trigger] self.structs@[k]),
            decreases self.structs@.len() - i,
        {
            if text_eq(self.structs[i].name, name) {
                proof {
                    lemma_first_where_at(self.structs@, has_name(name@), i as int);
                }
                return Some(self.structs[i].id);
            }
            i = i + 1;
        }
        proof {
            lemma_first_where_none(self.structs@, has_name(name@));
        }
        None
    }

    fn position(&self, id: u32) -> (r: Option<usize>)
        ensures
            match r {
                Some(i) => i < self.structs@.len() && self.by_id(id) == Some(
                    self.structs@[i as int],
                ),
                None => self.by_id(id) is None,
            },
    {
        let mut i: usize = 0;
        while i < self.structs.len()
            invariant
                i <= self.structs@.len(),
                forall|k: int| 0 <= k < i ==> !has_id(id)(#[trigger] self.structs@[k]),
            decreases self.structs@.len() - i,
        {
            if self.structs[i].id == id {
                proof {
                    lemma_first_where_at(self.structs@, has_id(id), i as int);
                }
                return Some(i);
            }
            i = i + 1;
        }
        proof {
            lemma_first_where_none(self.structs@, has_id(id));
        }
        None
    }

    pub open spec fn spec_field_at_offset(&self, id: u32, off: u32) -> Option<BtfField> {
        match self.by_id(id) {
            Some(s) => first_where(s.fields@, at_field_offset(off)),
            None => None,
        }
    }

    /// The field of a struct at an offset.
    #[verifier::when_used_as_spec(spec_field_at_offset)]
    pub fn field_at_offset(&self, id: u32, off: u32) -> (r: Option<BtfField>)
        ensures
            r == self.spec_field_at_offset(id, off),
    {
        match self.position(id) {
            Some(i) => find_field(&self.structs[i].fields, off),
            None => None,
        }
    }

    pub open spec fn spec_field_at_offset_descend(&self, id: u32, off: u32) -> Option<BtfField> {
        match self.by_id(id) {
            Some(s) => first_where(s.leaves@, at_field_offset(off)),
            None => None,
        }
    }

    /// The field at an offset of a struct or of a struct inside it.
    #[verifier::when_used_as_spec(spec_field_at_offset_descend)]
    pub fn field_at_offset_descend(&self, id: u32, off: u32) -> (r: Option<BtfField>)
        ensures
            r == self.spec_field_at_offset_descend(id, off),
    {
        match self.position(id) {
            Some(i) => find_field(&self.structs[i].leaves, off),
            None => None,
        }
    }

    pub open spec fn spec_type_size_bytes(&self, id: u32) -> u32 {
        match self.by_id(id) {
            Some(s) => s.size,
            None => 0,
        }
    }

    /// The size of a struct, or 0 if it is not known.
    #[verifier::when_used_as_spec(spec_type_size_bytes)]
    pub fn type_size_bytes(&self, id: u32) -> (r: u32)
        ensures
            r == self.spec_type_size_bytes(id),
    {
        match self.position(id) {
            Some(i) => self.structs[i].size,
            None => 0,
        }
    }

    pub open spec fn spec_struct_name(&self, id: u32) -> Option<&'static str> {
        match self.by_id(id) {
            Some(s) => Some(s.name),
            None => None,
        }
    }

    /// The name of a struct.
    #[verifier::when_used_as_spec(spec_struct_name)]
    pub fn struct_name(&self, id: u32) -> (r: Option<&'static str>)
        ensures
            r == self.spec_struct_name(id),
    {
        match self.position(id) {
            Some(i) => Some(self.structs[i].name),
            None => None,
        }
    }

    pub open spec fn special_fields(&self, id: u32) -> Seq<SpecialField> {
        match self.by_id(id) {
            Some(s) => s.special@,
            None => seq![],
        }
    }

    /// The ranges of a struct that programs may not touch.
    pub fn find_special_fields(&self, id: u32) -> (r: Vec<SpecialField>)
        ensures
            r@ == self.special_fields(id),
    {
        let mut r: Vec<SpecialField> = Vec::new();
        if let Some(i) = self.position(id) {
            let v: &Vec<SpecialField> = &self.structs[i].special;
            let mut k: usize = 0;
            while k < v.len()
                invariant
                    k <= v@.len(),
                    r@ == v@.take(k as int),
                decreases v@.len() - k,
            {
                r.push(v[k]);
                assert(v@.take(k + 1) =~= v@.take(k as int).push(v@[k as int]));
                k = k + 1;
            }
            assert(v@.take(v@.len() as int) =~= v@);
        }
        r
    }
}

} // verus!

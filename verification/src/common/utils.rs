//! Programs out of object files, and the kind of an object file's program.
use crate::ast::prog::{kind_of_section, ProgramKind};
use crate::compact::ast::Program;
use crate::compact::bpf_to_ast::{
    check_registers, lower_raw_to_program, lowered, registers_exist, LowerError,
};
use crate::parsing::bpf_insn::{decode_insns, records, RawBpfInsn};
use crate::parsing::elf_loader::{
    elf_contents, insn_data, load_bpf_insn_stream_section, section_outcome, text_of, whole_insns,
    ElfLoadError,
};
use crate::text::{ends_with, lowercase, text_eq, trimmed};
use vstd::prelude::*;

verus! {

/// Why an object file has no program.
#[derive(Debug)]
pub enum ProgramLoadError {
    Elf(ElfLoadError),
    /// An instruction names a register that does not exist.
    BadRegister,
    Lower(LowerError),
}

/// The program that some bytes encode, or why there is none.
pub open spec fn program_outcome(b: Seq<u8>, r: Result<Program, ProgramLoadError>) -> bool {
    let raw = records(b);
    if !registers_exist(raw, 0) {
        r matches Err(ProgramLoadError::BadRegister)
    } else {
        match lowered(raw, 0) {
            Ok(instrs) => r matches Ok(p) && p.instrs@ == instrs,
            Err(e) => r matches Err(ProgramLoadError::Lower(x)) && x@ == e,
        }
    }
}

/// The program that some bytes encode.
pub fn program_from_bytes(bytes: &[u8]) -> (r: Result<Program, ProgramLoadError>)
    ensures
        program_outcome(bytes@, r),
{
    let total: usize = bytes.len();
    let raw: Vec<RawBpfInsn> = decode_insns(bytes);
    assert(raw@.len() == total / 8);
    if !check_registers(raw.as_slice()) {
        return Err(ProgramLoadError::BadRegister);
    }
    match lower_raw_to_program(raw.as_slice()) {
        Ok(p) => Ok(p),
        Err(e) => Err(ProgramLoadError::Lower(e)),
    }
}

/// The program in the section with a name in an eBPF object file.
pub fn load_program_from_elf(buf: &[u8], section: &str) -> (r: Result<Program, ProgramLoadError>)
    ensures
        match elf_contents(buf@) {
            None => r matches Err(ProgramLoadError::Elf(ElfLoadError::Parse(_))),
            Some(e) => match insn_data(e, buf@, section@) {
                Some(data) => if data.len() % 8 == 0 {
                    program_outcome(data, r)
                } else {
                    r matches Err(ProgramLoadError::Elf(x)) && whole_insns(section@, data, Err(x))
                },
                None => r matches Err(ProgramLoadError::Elf(x)) && section_outcome(
                    e,
                    buf@,
                    section@,
                    true,
                    Err(x),
                ),
            },
        },
{
    match load_bpf_insn_stream_section(buf, section) {
        Ok(bytes) => program_from_bytes(bytes.as_slice()),
        Err(e) => Err(ProgramLoadError::Elf(e)),
    }
}

/// The error of the JSON parser.
#[verifier::external_type_specification]
#[verifier::external_body]
pub struct ExJsonError(serde_json::Error);

/// Names and labels; of two with one name the later counts.
pub open spec fn label_map(v: Seq<(String, Option<String>)>, n: nat) -> Map<
    Seq<char>,
    Option<Seq<char>>,
>
    decreases n,
{
    if n == 0 {
        Map::empty()
    } else {
        label_map(v, (n - 1) as nat).insert(v[n - 1].0@, text_of(v[n - 1].1))
    }
}

/// No name comes twice.
pub open spec fn distinct(v: Seq<(String, Option<String>)>) -> bool {
    forall|i: int, j: int| 0 <= i < j < v.len() ==> (#[trigger] v[i]).0@ != (#[trigger] v[j]).0@
}

/// What `serde_json::from_str` reads of a text as an object whose values are
/// texts or null: nothing where it fails.
pub uninterp spec fn json_labels(s: Seq<char>) -> Option<Map<Seq<char>, Option<Seq<char>>>>;

/// Reads names and labels with `serde_json::from_str`, into a map from texts to
/// texts or null. Whether it succeeds, and which names have which labels,
/// depends on the text alone; the order in which they come does not. No name
/// comes twice.
#[verifier::external_body]
fn parse_labels(json: &str) -> (r: Result<Vec<(String, Option<String>)>, serde_json::Error>)
    ensures
        match r {
            Ok(v) => json_labels(json@) == Some(label_map(v@, v@.len())) && distinct(v@),
            Err(_) => json_labels(json@) is None,
        },
{
    let labels: std::collections::HashMap<String, Option<String>> = serde_json::from_str(json)?;
    Ok(labels.into_iter().collect())
}

/// Why the kind of an object file's program cannot be told.
#[derive(Debug)]
pub enum KindError {
    Parse(serde_json::Error),
}

/// The kind that a label stands for; null says nothing.
pub open spec fn labelled(label: Option<Seq<char>>) -> ProgramKind {
    match label {
        Some(l) => kind_of_section(trimmed(lowercase(l))),
        None => ProgramKind::Unknown,
    }
}

/// The first name, from `i` on, that ends with a text.
pub open spec fn first_ending(v: Seq<(String, Option<String>)>, end: Seq<char>, i: int) -> Option<int>
    decreases v.len() - i,
{
    if i >= v.len() {
        None
    } else if end.is_suffix_of(v[i].0@) {
        Some(i)
    } else {
        first_ending(v, end, i + 1)
    }
}

/// The kind that the labels give an object: by its path, else by its file name,
/// else by the first name that ends with its file name. Where there is no label
/// the kind is not known.
pub open spec fn kind_by_labels(
    v: Seq<(String, Option<String>)>,
    exact: Seq<char>,
    base: Seq<char>,
) -> ProgramKind {
    let m = label_map(v, v.len());
    if m.contains_key(exact) {
        labelled(m[exact])
    } else if m.contains_key(base) {
        labelled(m[base])
    } else {
        match first_ending(v, base, 0) {
            Some(i) => labelled(text_of(v[i].1)),
            None => ProgramKind::Unknown,
        }
    }
}

fn kind_of_label(label: &Option<String>) -> (r: ProgramKind)
    ensures
        r == labelled(text_of(*label)),
{
    match label {
        Some(l) => ProgramKind::from_section(l.as_str()),
        None => ProgramKind::Unknown,
    }
}

fn find_label(v: &Vec<(String, Option<String>)>, key: &str) -> (r: Option<usize>)
    ensures
        match r {
            Some(i) => i < v@.len() && label_map(v@, v@.len()).contains_key(key@) && label_map(
                v@,
                v@.len(),
            )[key@] == text_of(v@[i as int].1),
            None => !label_map(v@, v@.len()).contains_key(key@),
        },
{
    let ghost m = label_map(v@, v@.len());
    let mut n: usize = v.len();
    while n > 0
        invariant
            n <= v@.len(),
            m == label_map(v@, v@.len()),
            m.contains_key(key@) == label_map(v@, n as nat).contains_key(key@),
            m.contains_key(key@) ==> m[key@] == label_map(v@, n as nat)[key@],
        decreases n,
    {
        if text_eq(v[n - 1].0.as_str(), key) {
            return Some(n - 1);
        }
        n = n - 1;
    }
    None
}

/// The kind that labels give an object.
pub fn kind_for_labels(labels: &Vec<(String, Option<String>)>, exact: &str, base: &str) -> (r:
    ProgramKind)
    ensures
        r == kind_by_labels(labels@, exact@, base@),
{
    if let Some(i) = find_label(labels, exact) {
        return kind_of_label(&labels[i].1);
    }
    if let Some(i) = find_label(labels, base) {
        return kind_of_label(&labels[i].1);
    }
    let mut i: usize = 0;
    while i < labels.len()
        invariant
            i <= labels@.len(),
            first_ending(labels@, base@, 0) == first_ending(labels@, base@, i as int),
            !label_map(labels@, labels@.len()).contains_key(exact@),
            !label_map(labels@, labels@.len()).contains_key(base@),
        decreases labels@.len() - i,
    {
        if ends_with(labels[i].0.as_str(), base) {
            return kind_of_label(&labels[i].1);
        }
        i = i + 1;
    }
    ProgramKind::Unknown
}

proof fn lemma_first_ending(v: Seq<(String, Option<String>)>, end: Seq<char>, i: int)
    requires
        0 <= i <= v.len(),
    ensures
        match first_ending(v, end, i) {
            Some(k) => i <= k < v.len() && end.is_suffix_of(v[k].0@),
            None => forall|k: int| i <= k < v.len() ==> !end.is_suffix_of((#[trigger] v[k]).0@),
        },
    decreases v.len() - i,
{
    if i < v.len() && !end.is_suffix_of(v[i].0@) {
        lemma_first_ending(v, end, i + 1);
    }
}

proof fn lemma_label_map_keys(v: Seq<(String, Option<String>)>, n: nat, key: Seq<char>)
    requires
        n <= v.len(),
        label_map(v, n).contains_key(key),
    ensures
        exists|i: int| 0 <= i < n && (#[trigger] v[i]).0@ == key,
    decreases n,
{
    if n > 0 {
        if v[n - 1].0@ != key {
            lemma_label_map_keys(v, (n - 1) as nat, key);
        }
    }
}

proof fn lemma_label_map_at(v: Seq<(String, Option<String>)>, n: nat, i: int)
    requires
        0 <= i < n <= v.len(),
        distinct(v),
    ensures
        label_map(v, n).contains_key(v[i].0@),
        label_map(v, n)[v[i].0@] == text_of(v[i].1),
    decreases n,
{
    if i < n - 1 {
        lemma_label_map_at(v, (n - 1) as nat, i);
        assert(v[i].0@ != v[n - 1].0@);
    }
}

/// The kind of an object file's program, by a list of labels in JSON. The path
/// counts before the file name. Where neither is listed, some name that ends
/// with the file name counts if there is one, whichever comes first; the order
/// of the names is not fixed, so nothing is said of which one it is. Without a
/// name, or with null for a label, the kind is not known.
pub fn program_kind_for_object(json: &str, exact: &str, base: &str) -> (r: Result<
    ProgramKind,
    KindError,
>)
    ensures
        match json_labels(json@) {
            None => r matches Err(KindError::Parse(_)),
            Some(m) => r matches Ok(kind) && if m.contains_key(exact@) {
                kind == labelled(m[exact@])
            } else if m.contains_key(base@) {
                kind == labelled(m[base@])
            } else if exists|k: Seq<char>| #[trigger] m.contains_key(k) && base@.is_suffix_of(k) {
                exists|k: Seq<char>| #[trigger]
                    m.contains_key(k) && base@.is_suffix_of(k) && kind == labelled(m[k])
            } else {
                kind == ProgramKind::Unknown
            },
        },
{
    match parse_labels(json) {
        Err(e) => Err(KindError::Parse(e)),
        Ok(labels) => {
            let kind: ProgramKind = kind_for_labels(&labels, exact, base);
            proof {
                let v = labels@;
                let m = label_map(v, v.len());
                lemma_first_ending(v, base@, 0);
                match first_ending(v, base@, 0) {
                    Some(i) => {
                        lemma_label_map_at(v, v.len(), i);
                        assert(m.contains_key(v[i].0@));
                    },
                    None => {
                        assert forall|key: Seq<char>| #[trigger]
                            m.contains_key(key) implies !base@.is_suffix_of(key) by {
                            lemma_label_map_keys(v, v.len(), key);
                        }
                    },
                }
            }
            Ok(kind)
        },
    }
}

} // verus!

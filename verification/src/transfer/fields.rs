//! Which fields of kernel structs hold pointers that can be relied on.
use crate::ast::prog::begins;
use crate::machine::reg_types::RegType;
use crate::text::{starts_with, text_eq};
use vstd::prelude::*;

verus! {

/// A struct and a field of it have these names.
pub open spec fn is_pair(s: Seq<char>, f: Seq<char>, struct_name: &str, field_name: &str) -> bool {
    s == struct_name@ && f == field_name@
}

fn pair_is(s: &str, f: &str, struct_name: &str, field_name: &str) -> (r: bool)
    ensures
        r == is_pair(s@, f@, struct_name, field_name),
{
    text_eq(s, struct_name) && text_eq(f, field_name)
}

/// Whether a pointer loaded from a field can be trusted. Everything an iterator
/// context holds can.
pub open spec fn trusted_field(s: Seq<char>, f: Seq<char>) -> bool {
    begins(s, "bpf_iter__"@)
        || is_pair(s, f, "task_struct", "cpus_ptr")
        || is_pair(s, f, "task_struct", "group_leader")
        || is_pair(s, f, "sk_buff", "sk")
        || is_pair(s, f, "linux_binprm", "file")
        || is_pair(s, f, "file", "f_inode")
        || is_pair(s, f, "dentry", "d_inode")
        || is_pair(s, f, "socket", "sk")
        || is_pair(s, f, "task_struct", "bpf_storage")
        || is_pair(s, f, "sock", "sk_bpf_storage")
        || is_pair(s, f, "bpf_local_storage", "smap")
        || is_pair(s, f, "bpf_iter__sockmap", "sk")
        || is_pair(s, f, "sk_reuseport_md", "sk")
        || is_pair(s, f, "bpf_iter__bpf_map", "map")
        || is_pair(s, f, "cgroup", "kn")
        || is_pair(s, f, "task_struct", "cgroups")
        || is_pair(s, f, "css_set", "dfl_cgrp")
        || is_pair(s, f, "sock", "cgroup")
        || is_pair(s, f, "vm_area_struct", "vm_file")
        || is_pair(s, f, "vm_area_struct", "vm_mm")
        || is_pair(s, f, "request_sock", "sk")
}

/// Whether a pointer loaded from a field can be trusted.
pub fn trusted_field_load(struct_name: &str, field_name: &str) -> (r: bool)
    ensures
        r == trusted_field(struct_name@, field_name@),
{
    starts_with(struct_name, "bpf_iter__")
        || pair_is(struct_name, field_name, "task_struct", "cpus_ptr")
        || pair_is(struct_name, field_name, "task_struct", "group_leader")
        || pair_is(struct_name, field_name, "sk_buff", "sk")
        || pair_is(struct_name, field_name, "linux_binprm", "file")
        || pair_is(struct_name, field_name, "file", "f_inode")
        || pair_is(struct_name, field_name, "dentry", "d_inode")
        || pair_is(struct_name, field_name, "socket", "sk")
        || pair_is(struct_name, field_name, "task_struct", "bpf_storage")
        || pair_is(struct_name, field_name, "sock", "sk_bpf_storage")
        || pair_is(struct_name, field_name, "bpf_local_storage", "smap")
        || pair_is(struct_name, field_name, "bpf_iter__sockmap", "sk")
        || pair_is(struct_name, field_name, "sk_reuseport_md", "sk")
        || pair_is(struct_name, field_name, "bpf_iter__bpf_map", "map")
        || pair_is(struct_name, field_name, "cgroup", "kn")
        || pair_is(struct_name, field_name, "task_struct", "cgroups")
        || pair_is(struct_name, field_name, "css_set", "dfl_cgrp")
        || pair_is(struct_name, field_name, "sock", "cgroup")
        || pair_is(struct_name, field_name, "vm_area_struct", "vm_file")
        || pair_is(struct_name, field_name, "vm_area_struct", "vm_mm")
        || pair_is(struct_name, field_name, "request_sock", "sk")
}

/// Whether a pointer loaded from a field is valid in an RCU read section.
pub open spec fn rcu_field(s: Seq<char>, f: Seq<char>) -> bool {
    is_pair(s, f, "task_struct", "real_parent") || is_pair(s, f, "task_struct", "parent")
}

/// Whether a pointer loaded from a field is valid in an RCU read section.
pub fn rcu_field_load(struct_name: &str, field_name: &str) -> (r: bool)
    ensures
        r == rcu_field(struct_name@, field_name@),
{
    pair_is(struct_name, field_name, "task_struct", "real_parent") || pair_is(
        struct_name,
        field_name,
        "task_struct",
        "parent",
    )
}

pub open spec fn spec_percpu_or_user_field(s: &str, f: &str) -> Option<&'static str> {
    if is_pair(s@, f@, "cgroup", "rstat_cpu") { Some("percpu") } else { None }
}

/// The address space of a pointer loaded from a field whose type does not say.
#[verifier::when_used_as_spec(spec_percpu_or_user_field)]
pub fn percpu_or_user_field(struct_name: &str, field_name: &str) -> (r: Option<&'static str>)
    ensures
        r == spec_percpu_or_user_field(struct_name, field_name),
{
    if pair_is(struct_name, field_name, "cgroup", "rstat_cpu") {
        Some("percpu")
    } else {
        None
    }
}

pub open spec fn spec_implied_btf_struct_name(ty: RegType) -> Option<&'static str> {
    match ty {
        RegType::PtrToBtfId { struct_name, .. } => Some(struct_name),
        RegType::PtrToTask { .. } => Some("task_struct"),
        RegType::PtrToCgroup { .. } => Some("cgroup"),
        RegType::PtrToCpumask { .. } => Some("cpumask"),
        _ => None,
    }
}

/// The kernel struct that a pointer points to.
#[verifier::when_used_as_spec(spec_implied_btf_struct_name)]
pub fn implied_btf_struct_name(ty: RegType) -> (r: Option<&'static str>)
    ensures
        r == spec_implied_btf_struct_name(ty),
{
    match ty {
        RegType::PtrToBtfId { struct_name, .. } => Some(struct_name),
        RegType::PtrToTask { .. } => Some("task_struct"),
        RegType::PtrToCgroup { .. } => Some("cgroup"),
        RegType::PtrToCpumask { .. } => Some("cpumask"),
        _ => None,
    }
}

} // verus!

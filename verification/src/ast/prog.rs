//! Program types, the contexts they run in and what they may return.
use crate::text::{
    after_char, all_ascii, ascii_lowered, lowercase, starts_with, strip_char, text_eq, to_lowercase,
    trim, trimmed,
};
use vstd::prelude::*;

verus! {

/// The type of a program.
#[derive(Debug, Clone, Copy, PartialEq, Eq, Structural)]
pub enum ProgramKind {
    Unspec,
    SocketFilter,
    Kprobe,
    SchedCls,
    SchedAct,
    Tracepoint,
    Xdp,
    PerfEvent,
    CgroupSkb,
    CgroupSock,
    LwtIn,
    LwtOut,
    LwtXmit,
    SockOps,
    SkSkb,
    SkLookup,
    CgroupDevice,
    SkMsg,
    RawTracepoint,
    RawTracepointWritable,
    CgroupSockAddr,
    CgroupSockopt,
    Lsm,
    Tracing,
    Syscall,
    StructOps,
    Netfilter,
    FlowDissector,
    SkReuseport,
    Unknown,
}

impl Default for ProgramKind {
    fn default() -> (r: Self)
        ensures
            r == ProgramKind::Unknown,
    {
        ProgramKind::Unknown
    }
}

/// The layout of the context a program is given.
#[derive(Debug, Clone, Copy, PartialEq, Eq, Structural)]
pub enum ContextKind {
    XdpMd,
    SkBuff,
    SkLookup,
    SockOps,
    BpfSock,
    SkMsgMd,
    BpfSockAddr,
    BpfSockopt,
    PtRegs,
    IterTask,
    Unknown,
}

/// How a tracing program is attached.
#[derive(Debug, Clone, Copy, PartialEq, Eq, Structural)]
pub enum AttachKind {
    TraceRawTp,
    TraceIter,
    Unknown,
}

/// `s` begins with `prefix`.
pub open spec fn begins(s: Seq<char>, prefix: Seq<char>) -> bool {
    prefix.is_prefix_of(s)
}

/// Section names of tracing programs, before which a `?` only makes loading
/// optional.
pub open spec fn is_tracing_section(s: Seq<char>) -> bool {
    begins(s, "fentry/"@)
        || begins(s, "fentry.s/"@)
        || begins(s, "fexit/"@)
        || begins(s, "fexit.s/"@)
        || begins(s, "fmod_ret/"@)
        || begins(s, "fmod_ret.s/"@)
        || begins(s, "iter/"@)
        || begins(s, "iter.s/"@)
        || begins(s, "lsm/"@)
        || begins(s, "lsm.s/"@)
        || begins(s, "raw_tp/"@)
        || begins(s, "raw_tp.w/"@)
        || s == "raw_tp"@
        || s == "raw_tp.w"@
        || begins(s, "uprobe/"@)
        || begins(s, "uprobe.s/"@)
        || begins(s, "uretprobe/"@)
        || begins(s, "uretprobe.s/"@)
        || begins(s, "kprobe/"@)
        || begins(s, "kretprobe/"@)
        || begins(s, "tracepoint/"@)
        || s == "tracepoint"@
        || begins(s, "perf_event"@)
        || s == "syscall"@
        || begins(s, "freplace/"@)
}

/// The section name without a `?` that only makes loading of a tracing
/// program optional.
pub open spec fn tracing_view(s: Seq<char>) -> Seq<char> {
    match after_char(s, '?') {
        Some(rest) => if is_tracing_section(rest) { rest } else { s },
        None => s,
    }
}

/// The section name without a `?` that only makes loading of a cgroup program
/// optional.
pub open spec fn cgroup_view(s: Seq<char>) -> Seq<char> {
    match after_char(s, '?') {
        Some(rest) => if begins(rest, "cgroup/"@) || begins(rest, "cgroup_skb/"@) {
            rest
        } else {
            s
        },
        None => s,
    }
}

/// The section name without a leading `?`.
pub open spec fn weak_view(s: Seq<char>) -> Seq<char> {
    match after_char(s, '?') {
        Some(rest) => rest,
        None => s,
    }
}

/// The type of the programs in the section with the given name, in lower case
/// and trimmed. The first line that fits decides.
pub open spec fn kind_of_section(s: Seq<char>) -> ProgramKind {
    let tr = tracing_view(s);
    let cg = cgroup_view(s);
    let weak = weak_view(s);
    if begins(s, "tcx/"@)
        || begins(s, "netkit/"@) {
        ProgramKind::SchedCls
    } else if begins(tr, "fentry/"@)
        || begins(tr, "fentry.s/"@)
        || begins(tr, "fexit/"@)
        || begins(tr, "fexit.s/"@)
        || begins(tr, "fmod_ret/"@)
        || begins(tr, "fmod_ret.s/"@)
        || begins(tr, "tp_btf/"@)
        || begins(s, "?tp_btf/"@)
        || begins(tr, "iter/"@)
        || begins(tr, "iter.s/"@) {
        ProgramKind::Tracing
    } else if tr == "raw_tp"@
        || begins(tr, "raw_tp/"@)
        || begins(tr, "raw_tp.w/"@)
        || tr == "raw_tp.w"@ {
        ProgramKind::RawTracepoint
    } else if begins(tr, "lsm/"@)
        || begins(tr, "lsm.s/"@) {
        ProgramKind::Lsm
    } else if begins(tr, "uprobe/"@)
        || begins(tr, "uprobe.s/"@)
        || begins(tr, "uretprobe/"@)
        || begins(tr, "uretprobe.s/"@)
        || tr == "uprobe.session"@
        || tr == "uretprobe.session"@
        || tr == "kprobe.session"@
        || tr == "kretprobe.session"@ {
        ProgramKind::Kprobe
    } else if tr == "syscall"@ {
        ProgramKind::Syscall
    } else if s == "netfilter"@
        || begins(s, "netfilter/"@) {
        ProgramKind::Netfilter
    } else if s == "flow_dissector"@
        || begins(s, "flow_dissector/"@) {
        ProgramKind::FlowDissector
    } else if s == "sk_reuseport"@
        || begins(s, "sk_reuseport/"@) {
        ProgramKind::SkReuseport
    } else if weak == "struct_ops"@
        || begins(weak, "struct_ops/"@)
        || begins(weak, "struct_ops.s/"@) {
        ProgramKind::StructOps
    } else if s == "from-netdev"@
        || s == "to-netdev"@
        || s == "from-container"@
        || s == "to-container"@
        || s == "filter"@
        || s == "bypass_filter"@
        || s == "loadbalancer"@
        || s == "lb"@
        || s == "vlan_filter"@ {
        ProgramKind::SchedCls
    } else if begins(s, "xdp"@)
        || begins(s, "?xdp"@) {
        ProgramKind::Xdp
    } else if begins(s, "classifier"@)
        || begins(s, "tc"@)
        || begins(s, "sched_cls"@)
        || begins(s, "action"@)
        || begins(s, "ingress"@)
        || begins(s, "egress"@)
        || begins(s, "l2_"@)
        || begins(s, "drop_"@)
        || begins(s, "tail"@)
        || begins(s, "downcall"@) {
        ProgramKind::SchedCls
    } else if begins(s, "socket"@) {
        ProgramKind::SocketFilter
    } else if begins(s, "sockops"@) {
        ProgramKind::SockOps
    } else if begins(s, "sk_msg"@) {
        ProgramKind::SkMsg
    } else if begins(cg, "cgroup/bind"@)
        || begins(cg, "cgroup/connect"@)
        || begins(cg, "cgroup/sendmsg"@)
        || begins(cg, "cgroup/recvmsg"@)
        || begins(cg, "cgroup/getpeername"@)
        || begins(cg, "cgroup/getsockname"@) {
        ProgramKind::CgroupSockAddr
    } else if begins(cg, "cgroup_skb/"@)
        || begins(cg, "cgroup/skb"@) {
        ProgramKind::CgroupSkb
    } else if begins(cg, "cgroup/getsockopt"@)
        || begins(cg, "cgroup/setsockopt"@) {
        ProgramKind::CgroupSockopt
    } else if begins(cg, "cgroup/sock"@)
        || begins(cg, "cgroup/post_bind"@) {
        ProgramKind::CgroupSock
    } else if begins(tr, "kprobe"@)
        || begins(tr, "kretprobe"@) {
        ProgramKind::Kprobe
    } else if begins(tr, "tracepoint"@) {
        ProgramKind::Tracepoint
    } else if begins(tr, "raw_tracepoint"@) {
        ProgramKind::RawTracepoint
    } else if begins(tr, "perf_event"@) {
        ProgramKind::PerfEvent
    } else if s == "sk_lookup"@
        || begins(s, "sk_lookup/"@) {
        ProgramKind::SkLookup
    } else if s == "lwt_in"@ {
        ProgramKind::LwtIn
    } else if s == "lwt_out"@ {
        ProgramKind::LwtOut
    } else if s == "lwt_xmit"@
        || s == "lwt_seg6local"@ {
        ProgramKind::LwtXmit
    } else if s == "redir_ingress"@
        || s == "redir_ingress_nomac"@ {
        ProgramKind::LwtIn
    } else if s == "redir_egress"@
        || s == "redir_egress_nomac"@ {
        ProgramKind::LwtOut
    } else {
        ProgramKind::Unknown
    }
}

fn is_tracing(s: &str) -> (r: bool)
    ensures
        r == is_tracing_section(s@),
{
    starts_with(s, "fentry/")
        || starts_with(s, "fentry.s/")
        || starts_with(s, "fexit/")
        || starts_with(s, "fexit.s/")
        || starts_with(s, "fmod_ret/")
        || starts_with(s, "fmod_ret.s/")
        || starts_with(s, "iter/")
        || starts_with(s, "iter.s/")
        || starts_with(s, "lsm/")
        || starts_with(s, "lsm.s/")
        || starts_with(s, "raw_tp/")
        || starts_with(s, "raw_tp.w/")
        || text_eq(s, "raw_tp")
        || text_eq(s, "raw_tp.w")
        || starts_with(s, "uprobe/")
        || starts_with(s, "uprobe.s/")
        || starts_with(s, "uretprobe/")
        || starts_with(s, "uretprobe.s/")
        || starts_with(s, "kprobe/")
        || starts_with(s, "kretprobe/")
        || starts_with(s, "tracepoint/")
        || text_eq(s, "tracepoint")
        || starts_with(s, "perf_event")
        || text_eq(s, "syscall")
        || starts_with(s, "freplace/")
}

impl ProgramKind {
    /// The type of the programs in a section.
    pub fn from_section(s: &str) -> (r: Self)
        ensures
            r == kind_of_section(trimmed(lowercase(s@))),
            all_ascii(s@) ==> r == kind_of_section(trimmed(ascii_lowered(s@))),
    {
        let lowered = to_lowercase(s);
        ProgramKind::from_normalized_section(trim(lowered.as_str()))
    }

    /// The type of the programs in a section whose name is given in lower case
    /// and trimmed.
    pub fn from_normalized_section(s: &str) -> (r: Self)
        ensures
            r == kind_of_section(s@),
    {
        let optional = strip_char(s, '?');
        let tr: &str = match optional {
            Some(rest) => if is_tracing(rest) { rest } else { s },
            None => s,
        };
        let cg: &str = match optional {
            Some(rest) => if starts_with(rest, "cgroup/") || starts_with(rest, "cgroup_skb/") {
                rest
            } else {
                s
            },
            None => s,
        };
        let weak: &str = match optional {
            Some(rest) => rest,
            None => s,
        };
        if starts_with(s, "tcx/")
        || starts_with(s, "netkit/") {
            return ProgramKind::SchedCls;
        }
        if starts_with(tr, "fentry/")
        || starts_with(tr, "fentry.s/")
        || starts_with(tr, "fexit/")
        || starts_with(tr, "fexit.s/")
        || starts_with(tr, "fmod_ret/")
        || starts_with(tr, "fmod_ret.s/")
        || starts_with(tr, "tp_btf/")
        || starts_with(s, "?tp_btf/")
        || starts_with(tr, "iter/")
        || starts_with(tr, "iter.s/") {
            return ProgramKind::Tracing;
        }
        if text_eq(tr, "raw_tp")
        || starts_with(tr, "raw_tp/")
        || starts_with(tr, "raw_tp.w/")
        || text_eq(tr, "raw_tp.w") {
            return ProgramKind::RawTracepoint;
        }
        if starts_with(tr, "lsm/")
        || starts_with(tr, "lsm.s/") {
            return ProgramKind::Lsm;
        }
        if starts_with(tr, "uprobe/")
        || starts_with(tr, "uprobe.s/")
        || starts_with(tr, "uretprobe/")
        || starts_with(tr, "uretprobe.s/")
        || text_eq(tr, "uprobe.session")
        || text_eq(tr, "uretprobe.session")
        || text_eq(tr, "kprobe.session")
        || text_eq(tr, "kretprobe.session") {
            return ProgramKind::Kprobe;
        }
        if text_eq(tr, "syscall") {
            return ProgramKind::Syscall;
        }
        if text_eq(s, "netfilter")
        || starts_with(s, "netfilter/") {
            return ProgramKind::Netfilter;
        }
        if text_eq(s, "flow_dissector")
        || starts_with(s, "flow_dissector/") {
            return ProgramKind::FlowDissector;
        }
        if text_eq(s, "sk_reuseport")
        || starts_with(s, "sk_reuseport/") {
            return ProgramKind::SkReuseport;
        }
        if text_eq(weak, "struct_ops")
        || starts_with(weak, "struct_ops/")
        || starts_with(weak, "struct_ops.s/") {
            return ProgramKind::StructOps;
        }
        if text_eq(s, "from-netdev")
        || text_eq(s, "to-netdev")
        || text_eq(s, "from-container")
        || text_eq(s, "to-container")
        || text_eq(s, "filter")
        || text_eq(s, "bypass_filter")
        || text_eq(s, "loadbalancer")
        || text_eq(s, "lb")
        || text_eq(s, "vlan_filter") {
            return ProgramKind::SchedCls;
        }
        if starts_with(s, "xdp")
        || starts_with(s, "?xdp") {
            return ProgramKind::Xdp;
        }
        if starts_with(s, "classifier")
        || starts_with(s, "tc")
        || starts_with(s, "sched_cls")
        || starts_with(s, "action")
        || starts_with(s, "ingress")
        || starts_with(s, "egress")
        || starts_with(s, "l2_")
        || starts_with(s, "drop_")
        || starts_with(s, "tail")
        || starts_with(s, "downcall") {
            return ProgramKind::SchedCls;
        }
        if starts_with(s, "socket") {
            return ProgramKind::SocketFilter;
        }
        if starts_with(s, "sockops") {
            return ProgramKind::SockOps;
        }
        if starts_with(s, "sk_msg") {
            return ProgramKind::SkMsg;
        }
        if starts_with(cg, "cgroup/bind")
        || starts_with(cg, "cgroup/connect")
        || starts_with(cg, "cgroup/sendmsg")
        || starts_with(cg, "cgroup/recvmsg")
        || starts_with(cg, "cgroup/getpeername")
        || starts_with(cg, "cgroup/getsockname") {
            return ProgramKind::CgroupSockAddr;
        }
        if starts_with(cg, "cgroup_skb/")
        || starts_with(cg, "cgroup/skb") {
            return ProgramKind::CgroupSkb;
        }
        if starts_with(cg, "cgroup/getsockopt")
        || starts_with(cg, "cgroup/setsockopt") {
            return ProgramKind::CgroupSockopt;
        }
        if starts_with(cg, "cgroup/sock")
        || starts_with(cg, "cgroup/post_bind") {
            return ProgramKind::CgroupSock;
        }
        if starts_with(tr, "kprobe")
        || starts_with(tr, "kretprobe") {
            return ProgramKind::Kprobe;
        }
        if starts_with(tr, "tracepoint") {
            return ProgramKind::Tracepoint;
        }
        if starts_with(tr, "raw_tracepoint") {
            return ProgramKind::RawTracepoint;
        }
        if starts_with(tr, "perf_event") {
            return ProgramKind::PerfEvent;
        }
        if text_eq(s, "sk_lookup")
        || starts_with(s, "sk_lookup/") {
            return ProgramKind::SkLookup;
        }
        if text_eq(s, "lwt_in") {
            return ProgramKind::LwtIn;
        }
        if text_eq(s, "lwt_out") {
            return ProgramKind::LwtOut;
        }
        if text_eq(s, "lwt_xmit")
        || text_eq(s, "lwt_seg6local") {
            return ProgramKind::LwtXmit;
        }
        if text_eq(s, "redir_ingress")
        || text_eq(s, "redir_ingress_nomac") {
            return ProgramKind::LwtIn;
        }
        if text_eq(s, "redir_egress")
        || text_eq(s, "redir_egress_nomac") {
            return ProgramKind::LwtOut;
        }
        ProgramKind::Unknown
    }

    pub open spec fn spec_context_kind(&self) -> ContextKind {
        match self {
            ProgramKind::Xdp => ContextKind::XdpMd,
            ProgramKind::SchedCls | ProgramKind::SocketFilter | ProgramKind::SchedAct
            | ProgramKind::SkSkb | ProgramKind::CgroupSkb | ProgramKind::LwtIn
            | ProgramKind::LwtOut | ProgramKind::LwtXmit | ProgramKind::Lsm
            | ProgramKind::RawTracepoint | ProgramKind::FlowDissector => ContextKind::SkBuff,
            ProgramKind::SockOps => ContextKind::SockOps,
            ProgramKind::SkLookup => ContextKind::SkLookup,
            ProgramKind::SkMsg => ContextKind::SkMsgMd,
            ProgramKind::CgroupSockAddr => ContextKind::BpfSockAddr,
            ProgramKind::CgroupSockopt => ContextKind::BpfSockopt,
            ProgramKind::CgroupSock => ContextKind::BpfSock,
            _ => ContextKind::Unknown,
        }
    }

    /// The layout of the context that programs of this type are given.
    #[verifier::when_used_as_spec(spec_context_kind)]
    pub fn context_kind(&self) -> (r: ContextKind)
        ensures
            r == self.spec_context_kind(),
    {
        match self {
            ProgramKind::Xdp => ContextKind::XdpMd,
            ProgramKind::SchedCls | ProgramKind::SocketFilter | ProgramKind::SchedAct
            | ProgramKind::SkSkb | ProgramKind::CgroupSkb | ProgramKind::LwtIn
            | ProgramKind::LwtOut | ProgramKind::LwtXmit | ProgramKind::Lsm
            | ProgramKind::RawTracepoint | ProgramKind::FlowDissector => ContextKind::SkBuff,
            ProgramKind::SockOps => ContextKind::SockOps,
            ProgramKind::SkLookup => ContextKind::SkLookup,
            ProgramKind::SkMsg => ContextKind::SkMsgMd,
            ProgramKind::CgroupSockAddr => ContextKind::BpfSockAddr,
            ProgramKind::CgroupSockopt => ContextKind::BpfSockopt,
            ProgramKind::CgroupSock => ContextKind::BpfSock,
            _ => ContextKind::Unknown,
        }
    }

    pub open spec fn spec_requires_strict_return_code(&self) -> bool {
        self is CgroupSkb || self is CgroupSock || self is CgroupSockAddr
    }

    /// Whether the return code of programs of this type must be 0 or 1.
    #[verifier::when_used_as_spec(spec_requires_strict_return_code)]
    pub fn requires_strict_return_code(&self) -> (r: bool)
        ensures
            r == self.spec_requires_strict_return_code(),
    {
        matches!(
            self,
            ProgramKind::CgroupSkb | ProgramKind::CgroupSock | ProgramKind::CgroupSockAddr
        )
    }
}

/// What a program may return: a value in `[lo, hi]`, and if `require_known` is
/// set a value that is known exactly.
#[derive(Debug, Clone, Copy, PartialEq, Eq, Structural)]
pub struct RetvalRule {
    pub lo: i64,
    pub hi: i64,
    pub require_known: bool,
}

/// What programs of a type may return, given the part of the section name
/// after the first `/`.
pub open spec fn retval_rule(kind: ProgramKind, subtype: Option<Seq<char>>) -> Option<RetvalRule> {
    let one = RetvalRule { lo: 1, hi: 1, require_known: false };
    let flag = RetvalRule { lo: 0, hi: 1, require_known: false };
    match (kind, subtype) {
        (ProgramKind::CgroupSockAddr, Some(sub)) => if begins(sub, "recvmsg"@) || begins(
            sub,
            "getpeername"@,
        ) || begins(sub, "getsockname"@) {
            Some(one)
        } else if begins(sub, "bind"@) {
            Some(RetvalRule { lo: 0, hi: 3, require_known: false })
        } else {
            Some(flag)
        },
        (ProgramKind::Lsm, Some(sub)) => if sub == "audit_rule_known"@ {
            Some(flag)
        } else if sub == "file_free_security"@ || sub == "task_free"@ || sub
            == "inode_free_security"@ {
            None
        } else if sub == "file_mprotect"@ {
            Some(RetvalRule { lo: (-4095) as i64, hi: 0, require_known: false })
        } else {
            None
        },
        (ProgramKind::Netfilter, _) => Some(RetvalRule { lo: 0, hi: 1, require_known: true }),
        (ProgramKind::Kprobe, Some(sub)) => if sub == "session"@ { Some(flag) } else { None },
        _ => None,
    }
}

/// The contents of an optional string.
pub open spec fn opt_text(s: Option<&str>) -> Option<Seq<char>> {
    match s {
        Some(t) => Some(t@),
        None => None,
    }
}

/// What programs of a type may return.
pub fn expected_retval_rule(prog_kind: ProgramKind, subtype: Option<&str>) -> (r: Option<
    RetvalRule,
>)
    ensures
        r == retval_rule(prog_kind, opt_text(subtype)),
{
    match prog_kind {
        ProgramKind::CgroupSockAddr => {
            let sub = subtype?;
            if starts_with(sub, "recvmsg") || starts_with(sub, "getpeername") || starts_with(
                sub,
                "getsockname",
            ) {
                return Some(RetvalRule { lo: 1, hi: 1, require_known: false });
            }
            if starts_with(sub, "bind") {
                return Some(RetvalRule { lo: 0, hi: 3, require_known: false });
            }
            Some(RetvalRule { lo: 0, hi: 1, require_known: false })
        },
        ProgramKind::Lsm => {
            let sub = subtype?;
            if text_eq(sub, "audit_rule_known") {
                return Some(RetvalRule { lo: 0, hi: 1, require_known: false });
            }
            if text_eq(sub, "file_free_security") || text_eq(sub, "task_free") || text_eq(
                sub,
                "inode_free_security",
            ) {
                return None;
            }
            if text_eq(sub, "file_mprotect") {
                return Some(RetvalRule { lo: -4095, hi: 0, require_known: false });
            }
            None
        },
        ProgramKind::Netfilter => Some(RetvalRule { lo: 0, hi: 1, require_known: true }),
        ProgramKind::Kprobe => {
            let sub = subtype?;
            if text_eq(sub, "session") {
                return Some(RetvalRule { lo: 0, hi: 1, require_known: false });
            }
            None
        },
        _ => None,
    }
}

/// Every rule allows at least one value.
pub proof fn law_retval_rules_are_satisfiable(kind: ProgramKind, subtype: Option<Seq<char>>)
    ensures
        retval_rule(kind, subtype) matches Some(rule) ==> rule.lo <= rule.hi,
{
}

} // verus!

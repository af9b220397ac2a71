//! Which sections hold which kinds of programs.
use crate::ast::prog::{begins, kind_of_section, ProgramKind};
use vstd::prelude::*;

verus! {

/// The text has the letters of `start` at its beginning.
pub open spec fn opens(s: Seq<char>, start: Seq<char>) -> bool {
    s.len() >= start.len() && forall|i: int| 0 <= i < start.len() ==> s[i] == #[trigger] start[i]
}

/// The text, or what follows the mark of a section that need not be loaded, has
/// the letters of `start` at its beginning.
pub open spec fn opens_marked(s: Seq<char>, start: Seq<char>) -> bool {
    opens(s, start) || (s.len() > 0 && s[0] == '?' && opens(s.skip(1), start))
}

/// The text, with or without that mark, is `name`.
pub open spec fn is_marked(s: Seq<char>, name: Seq<char>) -> bool {
    s == name || (s.len() > 0 && s[0] == '?' && s.skip(1) == name)
}

proof fn lemma_begins_opens(s: Seq<char>, p: Seq<char>)
    ensures
        begins(s, p) <==> opens(s, p),
{
    if begins(s, p) {
        assert forall|i: int| 0 <= i < p.len() implies s[i] == #[trigger] p[i] by {
            assert(s.subrange(0, p.len() as int)[i] == s[i]);
        }
    }
    if opens(s, p) {
        assert(s.subrange(0, p.len() as int) =~= p);
    }
}

/// Each kind of program comes only from sections of these names; all other
/// sections hold programs of no known kind.
pub proof fn law_kinds_have_their_sections(s: Seq<char>)
    ensures
        match kind_of_section(s) {
            ProgramKind::SchedCls => {
                ||| opens(s, "tcx/"@)
                ||| opens(s, "netkit/"@)
                ||| s == "from-netdev"@
                ||| s == "to-netdev"@
                ||| s == "from-container"@
                ||| s == "to-container"@
                ||| s == "filter"@
                ||| s == "bypass_filter"@
                ||| s == "loadbalancer"@
                ||| s == "lb"@
                ||| s == "vlan_filter"@
                ||| opens(s, "classifier"@)
                ||| opens(s, "tc"@)
                ||| opens(s, "sched_cls"@)
                ||| opens(s, "action"@)
                ||| opens(s, "ingress"@)
                ||| opens(s, "egress"@)
                ||| opens(s, "l2_"@)
                ||| opens(s, "drop_"@)
                ||| opens(s, "tail"@)
                ||| opens(s, "downcall"@)
            },
            ProgramKind::Tracing => {
                ||| opens_marked(s, "fentry/"@)
                ||| opens_marked(s, "fentry.s/"@)
                ||| opens_marked(s, "fexit/"@)
                ||| opens_marked(s, "fexit.s/"@)
                ||| opens_marked(s, "fmod_ret/"@)
                ||| opens_marked(s, "fmod_ret.s/"@)
                ||| opens_marked(s, "tp_btf/"@)
                ||| opens(s, "?tp_btf/"@)
                ||| opens_marked(s, "iter/"@)
                ||| opens_marked(s, "iter.s/"@)
            },
            ProgramKind::RawTracepoint => {
                ||| is_marked(s, "raw_tp"@)
                ||| opens_marked(s, "raw_tp/"@)
                ||| opens_marked(s, "raw_tp.w/"@)
                ||| is_marked(s, "raw_tp.w"@)
                ||| opens_marked(s, "raw_tracepoint"@)
            },
            ProgramKind::Lsm => {
                ||| opens_marked(s, "lsm/"@)
                ||| opens_marked(s, "lsm.s/"@)
            },
            ProgramKind::Kprobe => {
                ||| opens_marked(s, "uprobe/"@)
                ||| opens_marked(s, "uprobe.s/"@)
                ||| opens_marked(s, "uretprobe/"@)
                ||| opens_marked(s, "uretprobe.s/"@)
                ||| is_marked(s, "uprobe.session"@)
                ||| is_marked(s, "uretprobe.session"@)
                ||| is_marked(s, "kprobe.session"@)
                ||| is_marked(s, "kretprobe.session"@)
                ||| opens_marked(s, "kprobe"@)
                ||| opens_marked(s, "kretprobe"@)
            },
            ProgramKind::Syscall => {
                ||| is_marked(s, "syscall"@)
            },
            ProgramKind::Netfilter => {
                ||| s == "netfilter"@
                ||| opens(s, "netfilter/"@)
            },
            ProgramKind::FlowDissector => {
                ||| s == "flow_dissector"@
                ||| opens(s, "flow_dissector/"@)
            },
            ProgramKind::SkReuseport => {
                ||| s == "sk_reuseport"@
                ||| opens(s, "sk_reuseport/"@)
            },
            ProgramKind::StructOps => {
                ||| is_marked(s, "struct_ops"@)
                ||| opens_marked(s, "struct_ops/"@)
                ||| opens_marked(s, "struct_ops.s/"@)
            },
            ProgramKind::Xdp => {
                ||| opens(s, "xdp"@)
                ||| opens(s, "?xdp"@)
            },
            ProgramKind::SocketFilter => {
                ||| opens(s, "socket"@)
            },
            ProgramKind::SockOps => {
                ||| opens(s, "sockops"@)
            },
            ProgramKind::SkMsg => {
                ||| opens(s, "sk_msg"@)
            },
            ProgramKind::CgroupSockAddr => {
                ||| opens_marked(s, "cgroup/bind"@)
                ||| opens_marked(s, "cgroup/connect"@)
                ||| opens_marked(s, "cgroup/sendmsg"@)
                ||| opens_marked(s, "cgroup/recvmsg"@)
                ||| opens_marked(s, "cgroup/getpeername"@)
                ||| opens_marked(s, "cgroup/getsockname"@)
            },
            ProgramKind::CgroupSkb => {
                ||| opens_marked(s, "cgroup_skb/"@)
                ||| opens_marked(s, "cgroup/skb"@)
            },
            ProgramKind::CgroupSockopt => {
                ||| opens_marked(s, "cgroup/getsockopt"@)
                ||| opens_marked(s, "cgroup/setsockopt"@)
            },
            ProgramKind::CgroupSock => {
                ||| opens_marked(s, "cgroup/sock"@)
                ||| opens_marked(s, "cgroup/post_bind"@)
            },
            ProgramKind::Tracepoint => {
                ||| opens_marked(s, "tracepoint"@)
            },
            ProgramKind::PerfEvent => {
                ||| opens_marked(s, "perf_event"@)
            },
            ProgramKind::SkLookup => {
                ||| s == "sk_lookup"@
                ||| opens(s, "sk_lookup/"@)
            },
            ProgramKind::LwtIn => {
                ||| s == "lwt_in"@
                ||| s == "redir_ingress"@
                ||| s == "redir_ingress_nomac"@
            },
            ProgramKind::LwtOut => {
                ||| s == "lwt_out"@
                ||| s == "redir_egress"@
                ||| s == "redir_egress_nomac"@
            },
            ProgramKind::LwtXmit => {
                ||| s == "lwt_xmit"@
                ||| s == "lwt_seg6local"@
            },
            ProgramKind::Unknown => true,
            _ => false,
        },
{
    assert forall|t: Seq<char>, p: Seq<char>| #[trigger] begins(t, p) implies opens(t, p) by {
        lemma_begins_opens(t, p);
    }
}

/// The letters of the names that sections are told by.
proof fn lemma_letters()
    ensures
        "?tp_btf/"@.len() == 8 && "?tp_btf/"@[0] == '?' && "?tp_btf/"@[1] == 't' && "?tp_btf/"@[2] == 'p' && "?tp_btf/"@[3] == '_' && "?tp_btf/"@[4] == 'b',
        "?xdp"@.len() == 4 && "?xdp"@[0] == '?' && "?xdp"@[1] == 'x' && "?xdp"@[2] == 'd' && "?xdp"@[3] == 'p',
        "action"@.len() == 6 && "action"@[0] == 'a' && "action"@[1] == 'c' && "action"@[2] == 't' && "action"@[3] == 'i' && "action"@[4] == 'o',
        "bypass_filter"@.len() == 13 && "bypass_filter"@[0] == 'b' && "bypass_filter"@[1] == 'y' && "bypass_filter"@[2] == 'p' && "bypass_filter"@[3] == 'a' && "bypass_filter"@[4] == 's',
        "cgroup/"@.len() == 7 && "cgroup/"@[0] == 'c' && "cgroup/"@[1] == 'g' && "cgroup/"@[2] == 'r' && "cgroup/"@[3] == 'o' && "cgroup/"@[4] == 'u',
        "cgroup/bind"@.len() == 11 && "cgroup/bind"@[0] == 'c' && "cgroup/bind"@[1] == 'g' && "cgroup/bind"@[2] == 'r' && "cgroup/bind"@[3] == 'o' && "cgroup/bind"@[4] == 'u',
        "cgroup/connect"@.len() == 14 && "cgroup/connect"@[0] == 'c' && "cgroup/connect"@[1] == 'g' && "cgroup/connect"@[2] == 'r' && "cgroup/connect"@[3] == 'o' && "cgroup/connect"@[4] == 'u',
        "cgroup/getpeername"@.len() == 18 && "cgroup/getpeername"@[0] == 'c' && "cgroup/getpeername"@[1] == 'g' && "cgroup/getpeername"@[2] == 'r' && "cgroup/getpeername"@[3] == 'o' && "cgroup/getpeername"@[4] == 'u',
        "cgroup/getsockname"@.len() == 18 && "cgroup/getsockname"@[0] == 'c' && "cgroup/getsockname"@[1] == 'g' && "cgroup/getsockname"@[2] == 'r' && "cgroup/getsockname"@[3] == 'o' && "cgroup/getsockname"@[4] == 'u',
        "cgroup/getsockopt"@.len() == 17 && "cgroup/getsockopt"@[0] == 'c' && "cgroup/getsockopt"@[1] == 'g' && "cgroup/getsockopt"@[2] == 'r' && "cgroup/getsockopt"@[3] == 'o' && "cgroup/getsockopt"@[4] == 'u',
        "cgroup/post_bind"@.len() == 16 && "cgroup/post_bind"@[0] == 'c' && "cgroup/post_bind"@[1] == 'g' && "cgroup/post_bind"@[2] == 'r' && "cgroup/post_bind"@[3] == 'o' && "cgroup/post_bind"@[4] == 'u',
        "cgroup/recvmsg"@.len() == 14 && "cgroup/recvmsg"@[0] == 'c' && "cgroup/recvmsg"@[1] == 'g' && "cgroup/recvmsg"@[2] == 'r' && "cgroup/recvmsg"@[3] == 'o' && "cgroup/recvmsg"@[4] == 'u',
        "cgroup/sendmsg"@.len() == 14 && "cgroup/sendmsg"@[0] == 'c' && "cgroup/sendmsg"@[1] == 'g' && "cgroup/sendmsg"@[2] == 'r' && "cgroup/sendmsg"@[3] == 'o' && "cgroup/sendmsg"@[4] == 'u',
        "cgroup/setsockopt"@.len() == 17 && "cgroup/setsockopt"@[0] == 'c' && "cgroup/setsockopt"@[1] == 'g' && "cgroup/setsockopt"@[2] == 'r' && "cgroup/setsockopt"@[3] == 'o' && "cgroup/setsockopt"@[4] == 'u',
        "cgroup/skb"@.len() == 10 && "cgroup/skb"@[0] == 'c' && "cgroup/skb"@[1] == 'g' && "cgroup/skb"@[2] == 'r' && "cgroup/skb"@[3] == 'o' && "cgroup/skb"@[4] == 'u',
        "cgroup/sock"@.len() == 11 && "cgroup/sock"@[0] == 'c' && "cgroup/sock"@[1] == 'g' && "cgroup/sock"@[2] == 'r' && "cgroup/sock"@[3] == 'o' && "cgroup/sock"@[4] == 'u',
        "cgroup_skb/"@.len() == 11 && "cgroup_skb/"@[0] == 'c' && "cgroup_skb/"@[1] == 'g' && "cgroup_skb/"@[2] == 'r' && "cgroup_skb/"@[3] == 'o' && "cgroup_skb/"@[4] == 'u',
        "classifier"@.len() == 10 && "classifier"@[0] == 'c' && "classifier"@[1] == 'l' && "classifier"@[2] == 'a' && "classifier"@[3] == 's' && "classifier"@[4] == 's',
        "downcall"@.len() == 8 && "downcall"@[0] == 'd' && "downcall"@[1] == 'o' && "downcall"@[2] == 'w' && "downcall"@[3] == 'n' && "downcall"@[4] == 'c',
        "drop_"@.len() == 5 && "drop_"@[0] == 'd' && "drop_"@[1] == 'r' && "drop_"@[2] == 'o' && "drop_"@[3] == 'p' && "drop_"@[4] == '_',
        "egress"@.len() == 6 && "egress"@[0] == 'e' && "egress"@[1] == 'g' && "egress"@[2] == 'r' && "egress"@[3] == 'e' && "egress"@[4] == 's',
        "fentry.s/"@.len() == 9 && "fentry.s/"@[0] == 'f' && "fentry.s/"@[1] == 'e' && "fentry.s/"@[2] == 'n' && "fentry.s/"@[3] == 't' && "fentry.s/"@[4] == 'r',
        "fentry/"@.len() == 7 && "fentry/"@[0] == 'f' && "fentry/"@[1] == 'e' && "fentry/"@[2] == 'n' && "fentry/"@[3] == 't' && "fentry/"@[4] == 'r',
        "fexit.s/"@.len() == 8 && "fexit.s/"@[0] == 'f' && "fexit.s/"@[1] == 'e' && "fexit.s/"@[2] == 'x' && "fexit.s/"@[3] == 'i' && "fexit.s/"@[4] == 't',
        "fexit/"@.len() == 6 && "fexit/"@[0] == 'f' && "fexit/"@[1] == 'e' && "fexit/"@[2] == 'x' && "fexit/"@[3] == 'i' && "fexit/"@[4] == 't',
        "filter"@.len() == 6 && "filter"@[0] == 'f' && "filter"@[1] == 'i' && "filter"@[2] == 'l' && "filter"@[3] == 't' && "filter"@[4] == 'e',
        "flow_dissector"@.len() == 14 && "flow_dissector"@[0] == 'f' && "flow_dissector"@[1] == 'l' && "flow_dissector"@[2] == 'o' && "flow_dissector"@[3] == 'w' && "flow_dissector"@[4] == '_',
        "flow_dissector/"@.len() == 15 && "flow_dissector/"@[0] == 'f' && "flow_dissector/"@[1] == 'l' && "flow_dissector/"@[2] == 'o' && "flow_dissector/"@[3] == 'w' && "flow_dissector/"@[4] == '_',
        "fmod_ret.s/"@.len() == 11 && "fmod_ret.s/"@[0] == 'f' && "fmod_ret.s/"@[1] == 'm' && "fmod_ret.s/"@[2] == 'o' && "fmod_ret.s/"@[3] == 'd' && "fmod_ret.s/"@[4] == '_',
        "fmod_ret/"@.len() == 9 && "fmod_ret/"@[0] == 'f' && "fmod_ret/"@[1] == 'm' && "fmod_ret/"@[2] == 'o' && "fmod_ret/"@[3] == 'd' && "fmod_ret/"@[4] == '_',
        "freplace/"@.len() == 9 && "freplace/"@[0] == 'f' && "freplace/"@[1] == 'r' && "freplace/"@[2] == 'e' && "freplace/"@[3] == 'p' && "freplace/"@[4] == 'l',
        "from-container"@.len() == 14 && "from-container"@[0] == 'f' && "from-container"@[1] == 'r' && "from-container"@[2] == 'o' && "from-container"@[3] == 'm' && "from-container"@[4] == '-',
        "from-netdev"@.len() == 11 && "from-netdev"@[0] == 'f' && "from-netdev"@[1] == 'r' && "from-netdev"@[2] == 'o' && "from-netdev"@[3] == 'm' && "from-netdev"@[4] == '-',
        "ingress"@.len() == 7 && "ingress"@[0] == 'i' && "ingress"@[1] == 'n' && "ingress"@[2] == 'g' && "ingress"@[3] == 'r' && "ingress"@[4] == 'e',
        "iter.s/"@.len() == 7 && "iter.s/"@[0] == 'i' && "iter.s/"@[1] == 't' && "iter.s/"@[2] == 'e' && "iter.s/"@[3] == 'r' && "iter.s/"@[4] == '.',
        "iter/"@.len() == 5 && "iter/"@[0] == 'i' && "iter/"@[1] == 't' && "iter/"@[2] == 'e' && "iter/"@[3] == 'r' && "iter/"@[4] == '/',
        "kprobe"@.len() == 6 && "kprobe"@[0] == 'k' && "kprobe"@[1] == 'p' && "kprobe"@[2] == 'r' && "kprobe"@[3] == 'o' && "kprobe"@[4] == 'b',
        "kprobe.session"@.len() == 14 && "kprobe.session"@[0] == 'k' && "kprobe.session"@[1] == 'p' && "kprobe.session"@[2] == 'r' && "kprobe.session"@[3] == 'o' && "kprobe.session"@[4] == 'b',
        "kprobe/"@.len() == 7 && "kprobe/"@[0] == 'k' && "kprobe/"@[1] == 'p' && "kprobe/"@[2] == 'r' && "kprobe/"@[3] == 'o' && "kprobe/"@[4] == 'b',
        "kretprobe"@.len() == 9 && "kretprobe"@[0] == 'k' && "kretprobe"@[1] == 'r' && "kretprobe"@[2] == 'e' && "kretprobe"@[3] == 't' && "kretprobe"@[4] == 'p',
        "kretprobe.session"@.len() == 17 && "kretprobe.session"@[0] == 'k' && "kretprobe.session"@[1] == 'r' && "kretprobe.session"@[2] == 'e' && "kretprobe.session"@[3] == 't' && "kretprobe.session"@[4] == 'p',
        "kretprobe/"@.len() == 10 && "kretprobe/"@[0] == 'k' && "kretprobe/"@[1] == 'r' && "kretprobe/"@[2] == 'e' && "kretprobe/"@[3] == 't' && "kretprobe/"@[4] == 'p',
        "l2_"@.len() == 3 && "l2_"@[0] == 'l' && "l2_"@[1] == '2' && "l2_"@[2] == '_',
        "lb"@.len() == 2 && "lb"@[0] == 'l' && "lb"@[1] == 'b',
        "loadbalancer"@.len() == 12 && "loadbalancer"@[0] == 'l' && "loadbalancer"@[1] == 'o' && "loadbalancer"@[2] == 'a' && "loadbalancer"@[3] == 'd' && "loadbalancer"@[4] == 'b',
        "lsm.s/"@.len() == 6 && "lsm.s/"@[0] == 'l' && "lsm.s/"@[1] == 's' && "lsm.s/"@[2] == 'm' && "lsm.s/"@[3] == '.' && "lsm.s/"@[4] == 's',
        "lsm/"@.len() == 4 && "lsm/"@[0] == 'l' && "lsm/"@[1] == 's' && "lsm/"@[2] == 'm' && "lsm/"@[3] == '/',
        "lwt_in"@.len() == 6 && "lwt_in"@[0] == 'l' && "lwt_in"@[1] == 'w' && "lwt_in"@[2] == 't' && "lwt_in"@[3] == '_' && "lwt_in"@[4] == 'i',
        "lwt_out"@.len() == 7 && "lwt_out"@[0] == 'l' && "lwt_out"@[1] == 'w' && "lwt_out"@[2] == 't' && "lwt_out"@[3] == '_' && "lwt_out"@[4] == 'o',
        "lwt_seg6local"@.len() == 13 && "lwt_seg6local"@[0] == 'l' && "lwt_seg6local"@[1] == 'w' && "lwt_seg6local"@[2] == 't' && "lwt_seg6local"@[3] == '_' && "lwt_seg6local"@[4] == 's',
        "lwt_xmit"@.len() == 8 && "lwt_xmit"@[0] == 'l' && "lwt_xmit"@[1] == 'w' && "lwt_xmit"@[2] == 't' && "lwt_xmit"@[3] == '_' && "lwt_xmit"@[4] == 'x',
        "netfilter"@.len() == 9 && "netfilter"@[0] == 'n' && "netfilter"@[1] == 'e' && "netfilter"@[2] == 't' && "netfilter"@[3] == 'f' && "netfilter"@[4] == 'i',
        "netfilter/"@.len() == 10 && "netfilter/"@[0] == 'n' && "netfilter/"@[1] == 'e' && "netfilter/"@[2] == 't' && "netfilter/"@[3] == 'f' && "netfilter/"@[4] == 'i',
        "netkit/"@.len() == 7 && "netkit/"@[0] == 'n' && "netkit/"@[1] == 'e' && "netkit/"@[2] == 't' && "netkit/"@[3] == 'k' && "netkit/"@[4] == 'i',
        "perf_event"@.len() == 10 && "perf_event"@[0] == 'p' && "perf_event"@[1] == 'e' && "perf_event"@[2] == 'r' && "perf_event"@[3] == 'f' && "perf_event"@[4] == '_',
        "raw_tp"@.len() == 6 && "raw_tp"@[0] == 'r' && "raw_tp"@[1] == 'a' && "raw_tp"@[2] == 'w' && "raw_tp"@[3] == '_' && "raw_tp"@[4] == 't',
        "raw_tp.w"@.len() == 8 && "raw_tp.w"@[0] == 'r' && "raw_tp.w"@[1] == 'a' && "raw_tp.w"@[2] == 'w' && "raw_tp.w"@[3] == '_' && "raw_tp.w"@[4] == 't',
        "raw_tp.w/"@.len() == 9 && "raw_tp.w/"@[0] == 'r' && "raw_tp.w/"@[1] == 'a' && "raw_tp.w/"@[2] == 'w' && "raw_tp.w/"@[3] == '_' && "raw_tp.w/"@[4] == 't',
        "raw_tp/"@.len() == 7 && "raw_tp/"@[0] == 'r' && "raw_tp/"@[1] == 'a' && "raw_tp/"@[2] == 'w' && "raw_tp/"@[3] == '_' && "raw_tp/"@[4] == 't',
        "raw_tracepoint"@.len() == 14 && "raw_tracepoint"@[0] == 'r' && "raw_tracepoint"@[1] == 'a' && "raw_tracepoint"@[2] == 'w' && "raw_tracepoint"@[3] == '_' && "raw_tracepoint"@[4] == 't',
        "redir_egress"@.len() == 12 && "redir_egress"@[0] == 'r' && "redir_egress"@[1] == 'e' && "redir_egress"@[2] == 'd' && "redir_egress"@[3] == 'i' && "redir_egress"@[4] == 'r',
        "redir_egress_nomac"@.len() == 18 && "redir_egress_nomac"@[0] == 'r' && "redir_egress_nomac"@[1] == 'e' && "redir_egress_nomac"@[2] == 'd' && "redir_egress_nomac"@[3] == 'i' && "redir_egress_nomac"@[4] == 'r',
        "redir_ingress"@.len() == 13 && "redir_ingress"@[0] == 'r' && "redir_ingress"@[1] == 'e' && "redir_ingress"@[2] == 'd' && "redir_ingress"@[3] == 'i' && "redir_ingress"@[4] == 'r',
        "redir_ingress_nomac"@.len() == 19 && "redir_ingress_nomac"@[0] == 'r' && "redir_ingress_nomac"@[1] == 'e' && "redir_ingress_nomac"@[2] == 'd' && "redir_ingress_nomac"@[3] == 'i' && "redir_ingress_nomac"@[4] == 'r',
        "sched_cls"@.len() == 9 && "sched_cls"@[0] == 's' && "sched_cls"@[1] == 'c' && "sched_cls"@[2] == 'h' && "sched_cls"@[3] == 'e' && "sched_cls"@[4] == 'd',
        "sk_lookup"@.len() == 9 && "sk_lookup"@[0] == 's' && "sk_lookup"@[1] == 'k' && "sk_lookup"@[2] == '_' && "sk_lookup"@[3] == 'l' && "sk_lookup"@[4] == 'o',
        "sk_lookup/"@.len() == 10 && "sk_lookup/"@[0] == 's' && "sk_lookup/"@[1] == 'k' && "sk_lookup/"@[2] == '_' && "sk_lookup/"@[3] == 'l' && "sk_lookup/"@[4] == 'o',
        "sk_msg"@.len() == 6 && "sk_msg"@[0] == 's' && "sk_msg"@[1] == 'k' && "sk_msg"@[2] == '_' && "sk_msg"@[3] == 'm' && "sk_msg"@[4] == 's',
        "sk_reuseport"@.len() == 12 && "sk_reuseport"@[0] == 's' && "sk_reuseport"@[1] == 'k' && "sk_reuseport"@[2] == '_' && "sk_reuseport"@[3] == 'r' && "sk_reuseport"@[4] == 'e',
        "sk_reuseport/"@.len() == 13 && "sk_reuseport/"@[0] == 's' && "sk_reuseport/"@[1] == 'k' && "sk_reuseport/"@[2] == '_' && "sk_reuseport/"@[3] == 'r' && "sk_reuseport/"@[4] == 'e',
        "socket"@.len() == 6 && "socket"@[0] == 's' && "socket"@[1] == 'o' && "socket"@[2] == 'c' && "socket"@[3] == 'k' && "socket"@[4] == 'e',
        "sockops"@.len() == 7 && "sockops"@[0] == 's' && "sockops"@[1] == 'o' && "sockops"@[2] == 'c' && "sockops"@[3] == 'k' && "sockops"@[4] == 'o',
        "struct_ops"@.len() == 10 && "struct_ops"@[0] == 's' && "struct_ops"@[1] == 't' && "struct_ops"@[2] == 'r' && "struct_ops"@[3] == 'u' && "struct_ops"@[4] == 'c',
        "struct_ops.s/"@.len() == 13 && "struct_ops.s/"@[0] == 's' && "struct_ops.s/"@[1] == 't' && "struct_ops.s/"@[2] == 'r' && "struct_ops.s/"@[3] == 'u' && "struct_ops.s/"@[4] == 'c',
        "struct_ops/"@.len() == 11 && "struct_ops/"@[0] == 's' && "struct_ops/"@[1] == 't' && "struct_ops/"@[2] == 'r' && "struct_ops/"@[3] == 'u' && "struct_ops/"@[4] == 'c',
        "syscall"@.len() == 7 && "syscall"@[0] == 's' && "syscall"@[1] == 'y' && "syscall"@[2] == 's' && "syscall"@[3] == 'c' && "syscall"@[4] == 'a',
        "tail"@.len() == 4 && "tail"@[0] == 't' && "tail"@[1] == 'a' && "tail"@[2] == 'i' && "tail"@[3] == 'l',
        "tc"@.len() == 2 && "tc"@[0] == 't' && "tc"@[1] == 'c',
        "tcx/"@.len() == 4 && "tcx/"@[0] == 't' && "tcx/"@[1] == 'c' && "tcx/"@[2] == 'x' && "tcx/"@[3] == '/',
        "to-container"@.len() == 12 && "to-container"@[0] == 't' && "to-container"@[1] == 'o' && "to-container"@[2] == '-' && "to-container"@[3] == 'c' && "to-container"@[4] == 'o',
        "to-netdev"@.len() == 9 && "to-netdev"@[0] == 't' && "to-netdev"@[1] == 'o' && "to-netdev"@[2] == '-' && "to-netdev"@[3] == 'n' && "to-netdev"@[4] == 'e',
        "tp_btf/"@.len() == 7 && "tp_btf/"@[0] == 't' && "tp_btf/"@[1] == 'p' && "tp_btf/"@[2] == '_' && "tp_btf/"@[3] == 'b' && "tp_btf/"@[4] == 't',
        "tracepoint"@.len() == 10 && "tracepoint"@[0] == 't' && "tracepoint"@[1] == 'r' && "tracepoint"@[2] == 'a' && "tracepoint"@[3] == 'c' && "tracepoint"@[4] == 'e',
        "tracepoint/"@.len() == 11 && "tracepoint/"@[0] == 't' && "tracepoint/"@[1] == 'r' && "tracepoint/"@[2] == 'a' && "tracepoint/"@[3] == 'c' && "tracepoint/"@[4] == 'e',
        "uprobe.s/"@.len() == 9 && "uprobe.s/"@[0] == 'u' && "uprobe.s/"@[1] == 'p' && "uprobe.s/"@[2] == 'r' && "uprobe.s/"@[3] == 'o' && "uprobe.s/"@[4] == 'b',
        "uprobe.session"@.len() == 14 && "uprobe.session"@[0] == 'u' && "uprobe.session"@[1] == 'p' && "uprobe.session"@[2] == 'r' && "uprobe.session"@[3] == 'o' && "uprobe.session"@[4] == 'b',
        "uprobe/"@.len() == 7 && "uprobe/"@[0] == 'u' && "uprobe/"@[1] == 'p' && "uprobe/"@[2] == 'r' && "uprobe/"@[3] == 'o' && "uprobe/"@[4] == 'b',
        "uretprobe.s/"@.len() == 12 && "uretprobe.s/"@[0] == 'u' && "uretprobe.s/"@[1] == 'r' && "uretprobe.s/"@[2] == 'e' && "uretprobe.s/"@[3] == 't' && "uretprobe.s/"@[4] == 'p',
        "uretprobe.session"@.len() == 17 && "uretprobe.session"@[0] == 'u' && "uretprobe.session"@[1] == 'r' && "uretprobe.session"@[2] == 'e' && "uretprobe.session"@[3] == 't' && "uretprobe.session"@[4] == 'p',
        "uretprobe/"@.len() == 10 && "uretprobe/"@[0] == 'u' && "uretprobe/"@[1] == 'r' && "uretprobe/"@[2] == 'e' && "uretprobe/"@[3] == 't' && "uretprobe/"@[4] == 'p',
        "vlan_filter"@.len() == 11 && "vlan_filter"@[0] == 'v' && "vlan_filter"@[1] == 'l' && "vlan_filter"@[2] == 'a' && "vlan_filter"@[3] == 'n' && "vlan_filter"@[4] == '_',
        "xdp"@.len() == 3 && "xdp"@[0] == 'x' && "xdp"@[1] == 'd' && "xdp"@[2] == 'p',
{
    reveal_strlit("?tp_btf/");
    reveal_strlit("?xdp");
    reveal_strlit("action");
    reveal_strlit("bypass_filter");
    reveal_strlit("cgroup/");
    reveal_strlit("cgroup/bind");
    reveal_strlit("cgroup/connect");
    reveal_strlit("cgroup/getpeername");
    reveal_strlit("cgroup/getsockname");
    reveal_strlit("cgroup/getsockopt");
    reveal_strlit("cgroup/post_bind");
    reveal_strlit("cgroup/recvmsg");
    reveal_strlit("cgroup/sendmsg");
    reveal_strlit("cgroup/setsockopt");
    reveal_strlit("cgroup/skb");
    reveal_strlit("cgroup/sock");
    reveal_strlit("cgroup_skb/");
    reveal_strlit("classifier");
    reveal_strlit("downcall");
    reveal_strlit("drop_");
    reveal_strlit("egress");
    reveal_strlit("fentry.s/");
    reveal_strlit("fentry/");
    reveal_strlit("fexit.s/");
    reveal_strlit("fexit/");
    reveal_strlit("filter");
    reveal_strlit("flow_dissector");
    reveal_strlit("flow_dissector/");
    reveal_strlit("fmod_ret.s/");
    reveal_strlit("fmod_ret/");
    reveal_strlit("freplace/");
    reveal_strlit("from-container");
    reveal_strlit("from-netdev");
    reveal_strlit("ingress");
    reveal_strlit("iter.s/");
    reveal_strlit("iter/");
    reveal_strlit("kprobe");
    reveal_strlit("kprobe.session");
    reveal_strlit("kprobe/");
    reveal_strlit("kretprobe");
    reveal_strlit("kretprobe.session");
    reveal_strlit("kretprobe/");
    reveal_strlit("l2_");
    reveal_strlit("lb");
    reveal_strlit("loadbalancer");
    reveal_strlit("lsm.s/");
    reveal_strlit("lsm/");
    reveal_strlit("lwt_in");
    reveal_strlit("lwt_out");
    reveal_strlit("lwt_seg6local");
    reveal_strlit("lwt_xmit");
    reveal_strlit("netfilter");
    reveal_strlit("netfilter/");
    reveal_strlit("netkit/");
    reveal_strlit("perf_event");
    reveal_strlit("raw_tp");
    reveal_strlit("raw_tp.w");
    reveal_strlit("raw_tp.w/");
    reveal_strlit("raw_tp/");
    reveal_strlit("raw_tracepoint");
    reveal_strlit("redir_egress");
    reveal_strlit("redir_egress_nomac");
    reveal_strlit("redir_ingress");
    reveal_strlit("redir_ingress_nomac");
    reveal_strlit("sched_cls");
    reveal_strlit("sk_lookup");
    reveal_strlit("sk_lookup/");
    reveal_strlit("sk_msg");
    reveal_strlit("sk_reuseport");
    reveal_strlit("sk_reuseport/");
    reveal_strlit("socket");
    reveal_strlit("sockops");
    reveal_strlit("struct_ops");
    reveal_strlit("struct_ops.s/");
    reveal_strlit("struct_ops/");
    reveal_strlit("syscall");
    reveal_strlit("tail");
    reveal_strlit("tc");
    reveal_strlit("tcx/");
    reveal_strlit("to-container");
    reveal_strlit("to-netdev");
    reveal_strlit("tp_btf/");
    reveal_strlit("tracepoint");
    reveal_strlit("tracepoint/");
    reveal_strlit("uprobe.s/");
    reveal_strlit("uprobe.session");
    reveal_strlit("uprobe/");
    reveal_strlit("uretprobe.s/");
    reveal_strlit("uretprobe.session");
    reveal_strlit("uretprobe/");
    reveal_strlit("vlan_filter");
    reveal_strlit("xdp");
}

proof fn lemma_other_letters(s: Seq<char>, p: Seq<char>, i: int)
    requires
        0 <= i < p.len(),
        i >= s.len() || s[i] != p[i],
    ensures
        !begins(s, p),
        s != p,
{
    lemma_begins_opens(s, p);
    if opens(s, p) {
        assert(s[i] == p[i]);
    }
}

proof fn lemma_told_apart(s: Seq<char>)
    ensures
        forall|p: Seq<char>|
            #![trigger begins(s, p)]
            begins(s, p) ==> (p.len() > 0 ==> s.len() > 0 && s[0] == p[0]) && (p.len() > 1
                ==> s.len() > 1 && s[1] == p[1]) && (p.len() > 2 ==> s.len() > 2 && s[2] == p[2])
                && (p.len() > 3 ==> s.len() > 3 && s[3] == p[3]) && (p.len() > 4 ==> s.len() > 4
                && s[4] == p[4]),
{
    assert forall|p: Seq<char>| #![trigger begins(s, p)]
        begins(s, p) implies (p.len() > 0 ==> s.len() > 0 && s[0] == p[0]) && (p.len() > 1
        ==> s.len() > 1 && s[1] == p[1]) && (p.len() > 2 ==> s.len() > 2 && s[2] == p[2]) && (
    p.len() > 3 ==> s.len() > 3 && s[3] == p[3]) && (p.len() > 4 ==> s.len() > 4 && s[4] == p[4]) by {
        lemma_begins_opens(s, p);
    }
}

/// A section whose name begins with `xdp` holds a program of kind `Xdp`.
pub proof fn law_sections_of_drivers(s: Seq<char>)
    requires
        opens(s, "xdp"@),
    ensures
        kind_of_section(s) is Xdp,
{
    lemma_letters();
    lemma_told_apart(s);
    lemma_begins_opens(s, "xdp"@);
    assert(s[0] == "xdp"@[0] && s[1] == "xdp"@[1]);
    assert(s[2] == "xdp"@[2]);
}

/// A section whose name begins with `kprobe` holds a program of kind `Kprobe`.
pub proof fn law_sections_of_probes(s: Seq<char>)
    requires
        opens(s, "kprobe"@),
    ensures
        kind_of_section(s) is Kprobe,
{
    lemma_letters();
    lemma_told_apart(s);
    lemma_begins_opens(s, "kprobe"@);
    assert(s[0] == "kprobe"@[0] && s[1] == "kprobe"@[1]);
    assert(s[2] == "kprobe"@[2]);
    assert(s[3] == "kprobe"@[3]);
    assert(s[4] == "kprobe"@[4]);
}

/// A section whose name begins with `kretprobe` holds a program of kind `Kprobe`.
pub proof fn law_sections_of_return_probes(s: Seq<char>)
    requires
        opens(s, "kretprobe"@),
    ensures
        kind_of_section(s) is Kprobe,
{
    lemma_letters();
    lemma_told_apart(s);
    lemma_begins_opens(s, "kretprobe"@);
    assert(s[0] == "kretprobe"@[0] && s[1] == "kretprobe"@[1]);
    assert(s[2] == "kretprobe"@[2]);
    assert(s[3] == "kretprobe"@[3]);
    assert(s[4] == "kretprobe"@[4]);
}

/// A section whose name begins with `fentry/` holds a program of kind `Tracing`.
pub proof fn law_sections_of_entries(s: Seq<char>)
    requires
        opens(s, "fentry/"@),
    ensures
        kind_of_section(s) is Tracing,
{
    lemma_letters();
    lemma_told_apart(s);
    lemma_begins_opens(s, "fentry/"@);
    assert(s[0] == "fentry/"@[0] && s[1] == "fentry/"@[1]);
    assert(s[2] == "fentry/"@[2]);
    assert(s[3] == "fentry/"@[3]);
    assert(s[4] == "fentry/"@[4]);
}

/// A section whose name begins with `fexit/` holds a program of kind `Tracing`.
pub proof fn law_sections_of_exits(s: Seq<char>)
    requires
        opens(s, "fexit/"@),
    ensures
        kind_of_section(s) is Tracing,
{
    lemma_letters();
    lemma_told_apart(s);
    lemma_begins_opens(s, "fexit/"@);
    assert(s[0] == "fexit/"@[0] && s[1] == "fexit/"@[1]);
    assert(s[2] == "fexit/"@[2]);
    assert(s[3] == "fexit/"@[3]);
    assert(s[4] == "fexit/"@[4]);
}

/// A section whose name begins with `iter/` holds a program of kind `Tracing`.
pub proof fn law_sections_of_iterators(s: Seq<char>)
    requires
        opens(s, "iter/"@),
    ensures
        kind_of_section(s) is Tracing,
{
    lemma_letters();
    lemma_told_apart(s);
    lemma_begins_opens(s, "iter/"@);
    assert(s[0] == "iter/"@[0] && s[1] == "iter/"@[1]);
    assert(s[2] == "iter/"@[2]);
    assert(s[3] == "iter/"@[3]);
    assert(s[4] == "iter/"@[4]);
}

/// A section whose name begins with `lsm/` holds a program of kind `Lsm`.
pub proof fn law_sections_of_hooks(s: Seq<char>)
    requires
        opens(s, "lsm/"@),
    ensures
        kind_of_section(s) is Lsm,
{
    lemma_letters();
    lemma_told_apart(s);
    lemma_begins_opens(s, "lsm/"@);
    assert(s[0] == "lsm/"@[0] && s[1] == "lsm/"@[1]);
    assert(s[2] == "lsm/"@[2]);
    assert(s[3] == "lsm/"@[3]);
}

/// A section whose name begins with `uprobe/` holds a program of kind `Kprobe`.
pub proof fn law_sections_of_user_probes(s: Seq<char>)
    requires
        opens(s, "uprobe/"@),
    ensures
        kind_of_section(s) is Kprobe,
{
    lemma_letters();
    lemma_told_apart(s);
    lemma_begins_opens(s, "uprobe/"@);
    assert(s[0] == "uprobe/"@[0] && s[1] == "uprobe/"@[1]);
    assert(s[2] == "uprobe/"@[2]);
    assert(s[3] == "uprobe/"@[3]);
    assert(s[4] == "uprobe/"@[4]);
}

/// A section whose name begins with `perf_event` holds a program of kind `PerfEvent`.
pub proof fn law_sections_of_counters(s: Seq<char>)
    requires
        opens(s, "perf_event"@),
    ensures
        kind_of_section(s) is PerfEvent,
{
    lemma_letters();
    lemma_told_apart(s);
    lemma_begins_opens(s, "perf_event"@);
    assert(s[0] == "perf_event"@[0] && s[1] == "perf_event"@[1]);
    assert(s[2] == "perf_event"@[2]);
    assert(s[3] == "perf_event"@[3]);
    assert(s[4] == "perf_event"@[4]);
}

/// A section whose name begins with `classifier` holds a program of kind `SchedCls`.
pub proof fn law_sections_of_classifiers(s: Seq<char>)
    requires
        opens(s, "classifier"@),
    ensures
        kind_of_section(s) is SchedCls,
{
    lemma_letters();
    lemma_told_apart(s);
    lemma_begins_opens(s, "classifier"@);
    assert(s[0] == "classifier"@[0] && s[1] == "classifier"@[1]);
    assert(s[2] == "classifier"@[2]);
    assert(s[3] == "classifier"@[3]);
    assert(s[4] == "classifier"@[4]);
}

/// A section whose name begins with `socket` holds a program of kind `SocketFilter`.
pub proof fn law_sections_of_socket_filters(s: Seq<char>)
    requires
        opens(s, "socket"@),
    ensures
        kind_of_section(s) is SocketFilter,
{
    lemma_letters();
    lemma_told_apart(s);
    lemma_begins_opens(s, "socket"@);
    assert(s[0] == "socket"@[0] && s[1] == "socket"@[1]);
    assert(s[2] == "socket"@[2]);
    assert(s[3] == "socket"@[3]);
    assert(s[4] == "socket"@[4]);
}

/// A section whose name begins with `sockops` holds a program of kind `SockOps`.
pub proof fn law_sections_of_socket_events(s: Seq<char>)
    requires
        opens(s, "sockops"@),
    ensures
        kind_of_section(s) is SockOps,
{
    lemma_letters();
    lemma_told_apart(s);
    lemma_begins_opens(s, "sockops"@);
    assert(s[0] == "sockops"@[0] && s[1] == "sockops"@[1]);
    assert(s[2] == "sockops"@[2]);
    assert(s[3] == "sockops"@[3]);
    assert(s[4] == "sockops"@[4]);
}

/// A section whose name begins with `sk_msg` holds a program of kind `SkMsg`.
pub proof fn law_sections_of_messages(s: Seq<char>)
    requires
        opens(s, "sk_msg"@),
    ensures
        kind_of_section(s) is SkMsg,
{
    lemma_letters();
    lemma_told_apart(s);
    lemma_begins_opens(s, "sk_msg"@);
    assert(s[0] == "sk_msg"@[0] && s[1] == "sk_msg"@[1]);
    assert(s[2] == "sk_msg"@[2]);
    assert(s[3] == "sk_msg"@[3]);
    assert(s[4] == "sk_msg"@[4]);
}

/// A section whose name begins with `tracepoint` holds a program of kind `Tracepoint`.
pub proof fn law_sections_of_tracepoints(s: Seq<char>)
    requires
        opens(s, "tracepoint"@),
    ensures
        kind_of_section(s) is Tracepoint,
{
    lemma_letters();
    lemma_told_apart(s);
    lemma_begins_opens(s, "tracepoint"@);
    assert(s[0] == "tracepoint"@[0] && s[1] == "tracepoint"@[1]);
    assert(s[2] == "tracepoint"@[2]);
    assert(s[3] == "tracepoint"@[3]);
    assert(s[4] == "tracepoint"@[4]);
}

/// A section whose name begins with `raw_tp/` holds a program of kind `RawTracepoint`.
pub proof fn law_sections_of_raw_tracepoints(s: Seq<char>)
    requires
        opens(s, "raw_tp/"@),
    ensures
        kind_of_section(s) is RawTracepoint,
{
    lemma_letters();
    lemma_told_apart(s);
    lemma_begins_opens(s, "raw_tp/"@);
    assert(s[0] == "raw_tp/"@[0] && s[1] == "raw_tp/"@[1]);
    assert(s[2] == "raw_tp/"@[2]);
    assert(s[3] == "raw_tp/"@[3]);
    assert(s[4] == "raw_tp/"@[4]);
}

/// A section whose name begins with `netfilter/` holds a program of kind `Netfilter`.
pub proof fn law_sections_of_netfilters(s: Seq<char>)
    requires
        opens(s, "netfilter/"@),
    ensures
        kind_of_section(s) is Netfilter,
{
    lemma_letters();
    lemma_told_apart(s);
    lemma_begins_opens(s, "netfilter/"@);
    assert(s[0] == "netfilter/"@[0] && s[1] == "netfilter/"@[1]);
    assert(s[2] == "netfilter/"@[2]);
    assert(s[3] == "netfilter/"@[3]);
    assert(s[4] == "netfilter/"@[4]);
}

/// A section whose name begins with `cgroup_skb/` holds a program of kind `CgroupSkb`.
pub proof fn law_sections_of_cgroup_packets(s: Seq<char>)
    requires
        opens(s, "cgroup_skb/"@),
    ensures
        kind_of_section(s) is CgroupSkb,
{
    lemma_letters();
    lemma_told_apart(s);
    lemma_begins_opens(s, "cgroup_skb/"@);
    assert(s[0] == "cgroup_skb/"@[0] && s[1] == "cgroup_skb/"@[1]);
    assert(s[2] == "cgroup_skb/"@[2]);
    assert(s[3] == "cgroup_skb/"@[3]);
    assert(s[4] == "cgroup_skb/"@[4]);
    reveal_strlit("cgroup_skb/");
    assert(s[6] == "cgroup_skb/"@[6]);
    reveal_strlit("cgroup/bind");
    lemma_other_letters(s, "cgroup/bind"@, 6);
    reveal_strlit("cgroup/connect");
    lemma_other_letters(s, "cgroup/connect"@, 6);
    reveal_strlit("cgroup/sendmsg");
    lemma_other_letters(s, "cgroup/sendmsg"@, 6);
    reveal_strlit("cgroup/recvmsg");
    lemma_other_letters(s, "cgroup/recvmsg"@, 6);
    reveal_strlit("cgroup/getpeername");
    lemma_other_letters(s, "cgroup/getpeername"@, 6);
    reveal_strlit("cgroup/getsockname");
    lemma_other_letters(s, "cgroup/getsockname"@, 6);
}

/// A section whose name begins with `sk_lookup/` holds a program of kind `SkLookup`.
pub proof fn law_sections_of_lookups(s: Seq<char>)
    requires
        opens(s, "sk_lookup/"@),
    ensures
        kind_of_section(s) is SkLookup,
{
    lemma_letters();
    lemma_told_apart(s);
    lemma_begins_opens(s, "sk_lookup/"@);
    assert(s[0] == "sk_lookup/"@[0] && s[1] == "sk_lookup/"@[1]);
    assert(s[2] == "sk_lookup/"@[2]);
    assert(s[3] == "sk_lookup/"@[3]);
    assert(s[4] == "sk_lookup/"@[4]);
}

/// A section whose name begins with `struct_ops/` holds a program of kind `StructOps`.
pub proof fn law_sections_of_struct_ops(s: Seq<char>)
    requires
        opens(s, "struct_ops/"@),
    ensures
        kind_of_section(s) is StructOps,
{
    lemma_letters();
    lemma_told_apart(s);
    lemma_begins_opens(s, "struct_ops/"@);
    assert(s[0] == "struct_ops/"@[0] && s[1] == "struct_ops/"@[1]);
    assert(s[2] == "struct_ops/"@[2]);
    assert(s[3] == "struct_ops/"@[3]);
    assert(s[4] == "struct_ops/"@[4]);
}

/// A section whose name begins with `tc` holds a program of kind `SchedCls`.
pub proof fn law_sections_of_traffic(s: Seq<char>)
    requires
        opens(s, "tc"@),
    ensures
        kind_of_section(s) is SchedCls,
{
    lemma_letters();
    lemma_told_apart(s);
    lemma_begins_opens(s, "tc"@);
    assert(s[0] == "tc"@[0] && s[1] == "tc"@[1]);
}

/// A section whose name begins with `cgroup/skb` holds a program of kind `CgroupSkb`.
pub proof fn law_sections_of_cgroup_buffers(s: Seq<char>)
    requires
        opens(s, "cgroup/skb"@),
    ensures
        kind_of_section(s) is CgroupSkb,
{
    lemma_letters();
    lemma_told_apart(s);
    lemma_begins_opens(s, "cgroup/skb"@);
    reveal_strlit("cgroup/skb");
    assert(s[0] == "cgroup/skb"@[0]);
    assert(s[1] == "cgroup/skb"@[1]);
    assert(s[2] == "cgroup/skb"@[2]);
    assert(s[3] == "cgroup/skb"@[3]);
    assert(s[4] == "cgroup/skb"@[4]);
    assert(s[5] == "cgroup/skb"@[5]);
    assert(s[6] == "cgroup/skb"@[6]);
    assert(s[7] == "cgroup/skb"@[7]);
    assert(s[8] == "cgroup/skb"@[8]);
    assert(s[9] == "cgroup/skb"@[9]);
    reveal_strlit("cgroup/bind");
    lemma_other_letters(s, "cgroup/bind"@, 7);
    reveal_strlit("cgroup/connect");
    lemma_other_letters(s, "cgroup/connect"@, 7);
    reveal_strlit("cgroup/sendmsg");
    lemma_other_letters(s, "cgroup/sendmsg"@, 8);
    reveal_strlit("cgroup/recvmsg");
    lemma_other_letters(s, "cgroup/recvmsg"@, 7);
    reveal_strlit("cgroup/getpeername");
    lemma_other_letters(s, "cgroup/getpeername"@, 7);
    reveal_strlit("cgroup/getsockname");
    lemma_other_letters(s, "cgroup/getsockname"@, 7);
}

/// A section whose name begins with `cgroup/setsockopt` holds a program of kind `CgroupSockopt`.
pub proof fn law_sections_of_cgroup_options(s: Seq<char>)
    requires
        opens(s, "cgroup/setsockopt"@),
    ensures
        kind_of_section(s) is CgroupSockopt,
{
    lemma_letters();
    lemma_told_apart(s);
    lemma_begins_opens(s, "cgroup/setsockopt"@);
    reveal_strlit("cgroup/setsockopt");
    assert(s[0] == "cgroup/setsockopt"@[0]);
    assert(s[1] == "cgroup/setsockopt"@[1]);
    assert(s[2] == "cgroup/setsockopt"@[2]);
    assert(s[3] == "cgroup/setsockopt"@[3]);
    assert(s[4] == "cgroup/setsockopt"@[4]);
    assert(s[5] == "cgroup/setsockopt"@[5]);
    assert(s[6] == "cgroup/setsockopt"@[6]);
    assert(s[7] == "cgroup/setsockopt"@[7]);
    assert(s[8] == "cgroup/setsockopt"@[8]);
    assert(s[9] == "cgroup/setsockopt"@[9]);
    reveal_strlit("cgroup/bind");
    lemma_other_letters(s, "cgroup/bind"@, 7);
    reveal_strlit("cgroup/connect");
    lemma_other_letters(s, "cgroup/connect"@, 7);
    reveal_strlit("cgroup/sendmsg");
    lemma_other_letters(s, "cgroup/sendmsg"@, 9);
    reveal_strlit("cgroup/recvmsg");
    lemma_other_letters(s, "cgroup/recvmsg"@, 7);
    reveal_strlit("cgroup/getpeername");
    lemma_other_letters(s, "cgroup/getpeername"@, 7);
    reveal_strlit("cgroup/getsockname");
    lemma_other_letters(s, "cgroup/getsockname"@, 7);
    reveal_strlit("cgroup_skb/");
    lemma_other_letters(s, "cgroup_skb/"@, 6);
    reveal_strlit("cgroup/skb");
    lemma_other_letters(s, "cgroup/skb"@, 8);
    reveal_strlit("cgroup/getsockopt");
    lemma_other_letters(s, "cgroup/getsockopt"@, 7);
}

/// A section whose name begins with `cgroup/sock` holds a program of kind `CgroupSock`.
pub proof fn law_sections_of_cgroup_sockets(s: Seq<char>)
    requires
        opens(s, "cgroup/sock"@),
    ensures
        kind_of_section(s) is CgroupSock,
{
    lemma_letters();
    lemma_told_apart(s);
    lemma_begins_opens(s, "cgroup/sock"@);
    reveal_strlit("cgroup/sock");
    assert(s[0] == "cgroup/sock"@[0]);
    assert(s[1] == "cgroup/sock"@[1]);
    assert(s[2] == "cgroup/sock"@[2]);
    assert(s[3] == "cgroup/sock"@[3]);
    assert(s[4] == "cgroup/sock"@[4]);
    assert(s[5] == "cgroup/sock"@[5]);
    assert(s[6] == "cgroup/sock"@[6]);
    assert(s[7] == "cgroup/sock"@[7]);
    assert(s[8] == "cgroup/sock"@[8]);
    assert(s[9] == "cgroup/sock"@[9]);
    reveal_strlit("cgroup/bind");
    lemma_other_letters(s, "cgroup/bind"@, 7);
    reveal_strlit("cgroup/connect");
    lemma_other_letters(s, "cgroup/connect"@, 7);
    reveal_strlit("cgroup/sendmsg");
    lemma_other_letters(s, "cgroup/sendmsg"@, 8);
    reveal_strlit("cgroup/recvmsg");
    lemma_other_letters(s, "cgroup/recvmsg"@, 7);
    reveal_strlit("cgroup/getpeername");
    lemma_other_letters(s, "cgroup/getpeername"@, 7);
    reveal_strlit("cgroup/getsockname");
    lemma_other_letters(s, "cgroup/getsockname"@, 7);
    reveal_strlit("cgroup_skb/");
    lemma_other_letters(s, "cgroup_skb/"@, 6);
    reveal_strlit("cgroup/skb");
    lemma_other_letters(s, "cgroup/skb"@, 8);
    reveal_strlit("cgroup/getsockopt");
    lemma_other_letters(s, "cgroup/getsockopt"@, 7);
    reveal_strlit("cgroup/setsockopt");
    lemma_other_letters(s, "cgroup/setsockopt"@, 8);
}

/// A section whose name begins with `cgroup/bind` holds a program of kind `CgroupSockAddr`.
pub proof fn law_sections_of_cgroup_binds(s: Seq<char>)
    requires
        opens(s, "cgroup/bind"@),
    ensures
        kind_of_section(s) is CgroupSockAddr,
{
    lemma_letters();
    lemma_told_apart(s);
    lemma_begins_opens(s, "cgroup/bind"@);
    reveal_strlit("cgroup/bind");
    assert(s[0] == "cgroup/bind"@[0]);
    assert(s[1] == "cgroup/bind"@[1]);
    assert(s[2] == "cgroup/bind"@[2]);
    assert(s[3] == "cgroup/bind"@[3]);
    assert(s[4] == "cgroup/bind"@[4]);
    assert(s[5] == "cgroup/bind"@[5]);
    assert(s[6] == "cgroup/bind"@[6]);
    assert(s[7] == "cgroup/bind"@[7]);
    assert(s[8] == "cgroup/bind"@[8]);
    assert(s[9] == "cgroup/bind"@[9]);
}

/// A section whose name begins with `cgroup/connect` holds a program of kind `CgroupSockAddr`.
pub proof fn law_sections_of_cgroup_connects(s: Seq<char>)
    requires
        opens(s, "cgroup/connect"@),
    ensures
        kind_of_section(s) is CgroupSockAddr,
{
    lemma_letters();
    lemma_told_apart(s);
    lemma_begins_opens(s, "cgroup/connect"@);
    reveal_strlit("cgroup/connect");
    assert(s[0] == "cgroup/connect"@[0]);
    assert(s[1] == "cgroup/connect"@[1]);
    assert(s[2] == "cgroup/connect"@[2]);
    assert(s[3] == "cgroup/connect"@[3]);
    assert(s[4] == "cgroup/connect"@[4]);
    assert(s[5] == "cgroup/connect"@[5]);
    assert(s[6] == "cgroup/connect"@[6]);
    assert(s[7] == "cgroup/connect"@[7]);
    assert(s[8] == "cgroup/connect"@[8]);
    assert(s[9] == "cgroup/connect"@[9]);
}

} // verus!

use vstd::prelude::*;
use vstd::string::StrSliceExecFns;
use crate::unit_base::UnitType;
use crate::relation::UnitRelations;

verus! {

/// The kind of a listening port.
#[derive(Clone, Copy, Debug, PartialEq, Eq, Structural)]
pub enum PortType {
    Socket,
    Fifo,
    Invalid,
}

/// A port of a socket unit: its kind and whether its address family and
/// socket type allow accepting connections.
#[derive(Clone, Copy, Debug, PartialEq, Eq, Structural)]
pub struct SocketPort {
    pub p_type: PortType,
    pub sa_can_accept: bool,
}

/// The load-time view of a socket unit: its `Accept=` setting and ports.
pub struct SocketLoad {
    pub accept: bool,
    pub ports: Vec<SocketPort>,
}

/// Some port is not an accepting socket.
pub open spec fn spec_no_accept_socket(ports: Seq<SocketPort>) -> bool {
    exists|i: int|
        0 <= i < ports.len() && (#[trigger] ports[i].p_type != PortType::Socket
            || !ports[i].sa_can_accept)
}

impl SocketLoad {
    /// A socket unit with the given `Accept=` and ports.
    pub fn new(accept: bool, ports: Vec<SocketPort>) -> (s: SocketLoad)
        ensures
            s.accept == accept,
            s.ports@ == ports@,
    {
        SocketLoad { accept, ports }
    }

    /// Socket units have nothing to verify beyond their parsing.
    pub fn socket_verify(&self) -> (r: Result<(), ()>)
        ensures
            r is Ok,
    {
        Ok(())
    }

    /// Whether the unit may trigger a service: always without `Accept=`;
    /// with it, only where some port is not an accepting socket.
    pub fn can_accept(&self) -> (r: bool)
        ensures
            r == (!self.accept || spec_no_accept_socket(self.ports@)),
    {
        if !self.accept {
            return true;
        }
        self.no_accept_socket()
    }

    /// Whether some port is not an accepting socket.
    pub fn no_accept_socket(&self) -> (r: bool)
        ensures
            r == spec_no_accept_socket(self.ports@),
    {
        let mut i: usize = 0;
        while i < self.ports.len()
            invariant
                i <= self.ports@.len(),
                forall|j: int|
                    0 <= j < i ==> !(#[trigger] self.ports@[j].p_type != PortType::Socket
                        || !self.ports@[j].sa_can_accept),
            decreases self.ports@.len() - i,
        {
            let p = self.ports[i];
            if p.p_type != PortType::Socket {
                return true;
            }
            if !p.sa_can_accept {
                return true;
            }
            i = i + 1;
        }
        false
    }
}

/// The suffix of unit names of type `t` (empty for an invalid type).
pub fn unit_type_suffix(t: UnitType) -> (r: String)
    ensures
        t == UnitType::UnitService ==> r@ == "service"@,
        t == UnitType::UnitSocket ==> r@ == "socket"@,
        t == UnitType::UnitTarget ==> r@ == "target"@,
        t == UnitType::UnitMount ==> r@ == "mount"@,
        t == UnitType::UnitTypeInvalid ==> r@.len() == 0,
{
    match t {
        UnitType::UnitService => String::from_str("service"),
        UnitType::UnitSocket => String::from_str("socket"),
        UnitType::UnitTarget => String::from_str("target"),
        UnitType::UnitMount => String::from_str("mount"),
        UnitType::UnitTypeInvalid => String::new(),
    }
}

/// Position of the last `.` of `s`, or -1.
pub open spec fn last_dot(s: Seq<char>) -> int
    decreases s.len(),
{
    if s.len() == 0 {
        -1
    } else if s.last() == '.' {
        s.len() - 1
    } else {
        last_dot(s.drop_last())
    }
}

/// The name without its last extension; a name whose only `.` leads keeps it.
pub open spec fn file_stem(s: Seq<char>) -> Seq<char> {
    if last_dot(s) > 0 {
        s.subrange(0, last_dot(s))
    } else {
        s
    }
}

proof fn lemma_last_dot_range(s: Seq<char>)
    ensures
        -1 <= last_dot(s) < s.len(),
    decreases s.len(),
{
    if s.len() > 0 {
        lemma_last_dot_range(s.drop_last());
    }
}

fn find_last_dot(s: &str) -> (r: usize)
    ensures
        r == last_dot(s@) + 1,
{
    let mut i = s.unicode_len();
    proof {
        assert(s@.subrange(0, i as int) =~= s@);
    }
    while i > 0 && s.get_char(i - 1) != '.'
        invariant
            i <= s@.len(),
            last_dot(s@) == last_dot(s@.subrange(0, i as int)),
        decreases i,
    {
        proof {
            assert(s@.subrange(0, i as int).drop_last() =~= s@.subrange(0, i - 1));
        }
        i = i - 1;
    }
    proof {
        if i > 0 {
            assert(s@.subrange(0, i as int).last() == '.');
        }
    }
    i
}

/// The name of the unit of type `related` that belongs to the unit called
/// `unit_name`: its stem with the type's suffix. An invalid type has no
/// suffix and gives `None`.
pub fn related_unit_name(unit_name: &str, related: UnitType) -> (r: Option<String>)
    ensures
        related == UnitType::UnitTypeInvalid ==> r is None,
        related != UnitType::UnitTypeInvalid ==> r is Some && r->Some_0@ == file_stem(unit_name@)
            + "."@ + (if related == UnitType::UnitService {
            "service"@
        } else if related == UnitType::UnitSocket {
            "socket"@
        } else if related == UnitType::UnitTarget {
            "target"@
        } else {
            "mount"@
        }),
{
    let suffix = unit_type_suffix(related);
    if suffix.as_str().unicode_len() == 0 {
        proof {
            reveal_strlit("service");
            reveal_strlit("socket");
            reveal_strlit("target");
            reveal_strlit("mount");
        }
        return None;
    }
    let p = find_last_dot(unit_name);
    proof {
        lemma_last_dot_range(unit_name@);
    }
    let stem = if p > 1 {
        unit_name.substring_char(0, p - 1)
    } else {
        unit_name
    };
    let mut name = String::from_str(stem);
    name.append(".");
    name.append(suffix.as_str());
    Some(name)
}

/// The default dependencies of a socket unit, where it has them: after
/// `sockets.target`; after and requiring `sysinit.target`; before and
/// conflicting with `shutdown.target`.
pub fn socket_default_dependencies(default_dependencies: bool) -> (r: Vec<(UnitRelations, String)>)
    ensures
        !default_dependencies ==> r@.len() == 0,
        default_dependencies ==> r@.len() == 5 && r@[0].0 == UnitRelations::UnitAfter && r@[0].1@
            == "sockets.target"@ && r@[1].0 == UnitRelations::UnitAfter && r@[1].1@
            == "sysinit.target"@ && r@[2].0 == UnitRelations::UnitRequires && r@[2].1@
            == "sysinit.target"@ && r@[3].0 == UnitRelations::UnitBefore && r@[3].1@
            == "shutdown.target"@ && r@[4].0 == UnitRelations::UnitConflicts && r@[4].1@
            == "shutdown.target"@,
{
    let mut r: Vec<(UnitRelations, String)> = Vec::new();
    if !default_dependencies {
        return r;
    }
    r.push((UnitRelations::UnitAfter, String::from_str("sockets.target")));
    r.push((UnitRelations::UnitAfter, String::from_str("sysinit.target")));
    r.push((UnitRelations::UnitRequires, String::from_str("sysinit.target")));
    r.push((UnitRelations::UnitBefore, String::from_str("shutdown.target")));
    r.push((UnitRelations::UnitConflicts, String::from_str("shutdown.target")));
    r
}

} // verus!

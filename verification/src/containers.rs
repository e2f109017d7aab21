//! Containers as listed to the user.
use vstd::prelude::*;
use crate::text::{
    decimal, join, opt_chars, prefix, prefix_string, push_decimal, push_str, string_of,
    trim_leading, trim_leading_string, views,
};

verus! {

/// The protocol of a published port.
#[derive(PartialEq, Eq, Structural, Clone, Copy, Debug)]
pub enum PortProtocol {
    Tcp,
    Udp,
    Sctp,
    /// No protocol, or an empty one.
    Unspecified,
}

/// A port of a container as the daemon lists it.
pub struct PortSummary {
    pub ip: Option<String>,
    pub private_port: u16,
    pub public_port: Option<u16>,
    pub protocol: PortProtocol,
}

/// A container as the daemon lists it.
pub struct ContainerSummary {
    pub id: Option<String>,
    pub names: Option<Vec<String>>,
    pub image: Option<String>,
    pub state: Option<String>,
    pub status: Option<String>,
    pub ports: Option<Vec<PortSummary>>,
    pub created: Option<i64>,
    /// The address of the container on the first network the daemon lists for it.
    pub ip_address: Option<String>,
    pub labels: Option<Vec<(String, String)>>,
}

/// A container as shown to the user.
pub struct ContainerInfo {
    pub id: String,
    pub name: String,
    pub image: String,
    /// The daemon's state word ("running", "exited", ...).
    pub status: String,
    /// The daemon's status sentence ("Up 2 hours", ...).
    pub state: String,
    pub ports: String,
    pub created: i64,
    pub ip_address: String,
    pub labels: Vec<(String, String)>,
}

/// The text of an optional string, empty when there is none.
pub open spec fn or_empty(o: Option<String>) -> Seq<char> {
    match o {
        Some(s) => s@,
        None => Seq::<char>::empty(),
    }
}

pub open spec fn protocol_name(p: PortProtocol) -> Seq<char> {
    match p {
        PortProtocol::Tcp => "tcp"@,
        PortProtocol::Udp => "udp"@,
        PortProtocol::Sctp => "sctp"@,
        PortProtocol::Unspecified => Seq::<char>::empty(),
    }
}

/// "ip:public->private/protocol" for a published port, else "private/protocol".
pub open spec fn port_text(p: PortSummary) -> Seq<char> {
    match p.public_port {
        Some(public) => or_empty(p.ip) + ":"@ + decimal(public as nat) + "->"@ + decimal(
            p.private_port as nat,
        ) + "/"@ + protocol_name(p.protocol),
        None => decimal(p.private_port as nat) + "/"@ + protocol_name(p.protocol),
    }
}

/// The ports of a container, separated by ", ".
pub open spec fn ports_text(ps: Seq<PortSummary>) -> Seq<char> {
    join(ps.map_values(|p: PortSummary| port_text(p)), ", "@)
}

/// The first name of a container without its leading slashes, if it has a name.
pub open spec fn first_name(names: Option<Vec<String>>) -> Option<Seq<char>> {
    match names {
        Some(ns) => if ns.len() > 0 {
            Some(trim_leading(ns@[0]@, '/'))
        } else {
            None
        },
        None => None,
    }
}

fn protocol_text(p: PortProtocol) -> (s: String)
    ensures
        s@ == protocol_name(p),
{
    match p {
        PortProtocol::Tcp => String::from_str("tcp"),
        PortProtocol::Udp => String::from_str("udp"),
        PortProtocol::Sctp => String::from_str("sctp"),
        PortProtocol::Unspecified => String::new(),
    }
}

proof fn lemma_join_push(parts: Seq<Seq<char>>, sep: Seq<char>, i: int)
    requires
        0 <= i < parts.len(),
    ensures
        join(parts.take(i + 1), sep) == if i == 0 {
            parts[0]
        } else {
            join(parts.take(i), sep) + sep + parts[i]
        },
{
    assert(parts.take(i + 1).drop_last() =~= parts.take(i));
    assert(parts.take(i + 1).last() == parts[i]);
    if i == 0 {
        assert(parts.take(1)[0] == parts[0]);
    }
}

/// The port list of a container as one line.
pub fn format_ports(ports: &Vec<PortSummary>) -> (s: String)
    ensures
        s@ == ports_text(ports@),
{
    let ghost texts = ports@.map_values(|p: PortSummary| port_text(p));
    let mut out: Vec<char> = Vec::new();
    let mut i: usize = 0;
    assert(texts.take(0) =~= Seq::<Seq<char>>::empty());
    while i < ports.len()
        invariant
            i <= ports.len(),
            texts == ports@.map_values(|p: PortSummary| port_text(p)),
            out@ == join(texts.take(i as int), ", "@),
        decreases ports.len() - i,
    {
        proof {
            lemma_join_push(texts, ", "@, i as int);
        }
        let ghost before = out@;
        if i > 0 {
            push_str(&mut out, ", ");
        }
        let p = &ports[i];
        let proto = protocol_text(p.protocol);
        match p.public_port {
            Some(public) => {
                match &p.ip {
                    Some(ip) => push_str(&mut out, ip.as_str()),
                    None => {},
                }
                push_str(&mut out, ":");
                push_decimal(&mut out, public as u64);
                push_str(&mut out, "->");
                push_decimal(&mut out, p.private_port as u64);
                push_str(&mut out, "/");
                push_str(&mut out, proto.as_str());
            },
            None => {
                push_decimal(&mut out, p.private_port as u64);
                push_str(&mut out, "/");
                push_str(&mut out, proto.as_str());
            },
        }
        assert(texts[i as int] == port_text(ports@[i as int]));
        if i > 0 {
            assert(out@ =~= before + ", "@ + texts[i as int]);
        } else {
            assert(out@ =~= texts[i as int]);
        }
        i = i + 1;
    }
    assert(texts.take(ports.len() as int) =~= texts);
    string_of(&out)
}

fn text_or_empty(o: &Option<String>) -> (s: String)
    ensures
        s@ == or_empty(*o),
{
    match o {
        Some(s) => s.clone(),
        None => String::new(),
    }
}

/// The first name of a container without its leading slashes.
pub fn container_first_name(names: &Option<Vec<String>>) -> (r: Option<String>)
    ensures
        opt_chars(r) == first_name(*names),
{
    match names {
        Some(ns) => if ns.len() > 0 {
            Some(trim_leading_string(ns[0].as_str(), '/'))
        } else {
            None
        },
        None => None,
    }
}

/// The name shown for a container: its first name, else "unnamed".
pub open spec fn display_name(names: Option<Vec<String>>) -> Seq<char> {
    match first_name(names) {
        Some(n) => n,
        None => "unnamed"@,
    }
}

/// A listed container as shown to the user. The daemon's state word goes to
/// `status` and its status sentence to `state`; missing texts are empty, a
/// missing creation time is 0 and missing labels are none.
pub fn container_info(c: ContainerSummary) -> (info: ContainerInfo)
    ensures
        info.id@ == or_empty(c.id),
        info.name@ == display_name(c.names),
        info.image@ == or_empty(c.image),
        info.status@ == or_empty(c.state),
        info.state@ == or_empty(c.status),
        info.ports@ == match c.ports {
            Some(ps) => ports_text(ps@),
            None => Seq::<char>::empty(),
        },
        info.created == match c.created {
            Some(t) => t,
            None => 0,
        },
        info.ip_address@ == or_empty(c.ip_address),
        info.labels@ == match c.labels {
            Some(l) => l@,
            None => Seq::<(String, String)>::empty(),
        },
{
    let name = match container_first_name(&c.names) {
        Some(n) => n,
        None => String::from_str("unnamed"),
    };
    let ports = match &c.ports {
        Some(ps) => format_ports(ps),
        None => String::new(),
    };
    let created: i64 = match c.created {
        Some(t) => t,
        None => 0,
    };
    let labels = match c.labels {
        Some(l) => l,
        None => Vec::new(),
    };
    ContainerInfo {
        id: text_or_empty(&c.id),
        name: name,
        image: text_or_empty(&c.image),
        status: text_or_empty(&c.state),
        state: text_or_empty(&c.status),
        ports: ports,
        created: created,
        ip_address: text_or_empty(&c.ip_address),
        labels: labels,
    }
}

/// A container with the names of the volumes it mounts.
pub struct MountedContainer {
    pub id: Option<String>,
    pub names: Option<Vec<String>>,
    /// The volume name of each mount; none for a mount without a volume.
    pub mounts: Option<Vec<Option<String>>>,
}

/// Whether the container mounts the volume `volume`.
pub open spec fn mounts_volume(c: MountedContainer, volume: Seq<char>) -> bool {
    match c.mounts {
        Some(ms) => exists|i: int| 0 <= i < ms@.len() && #[trigger] opt_chars(ms@[i]) == Some(volume),
        None => false,
    }
}

/// How a container using a volume is named: its first name without leading
/// slashes, else the first twelve characters of its id.
pub open spec fn user_name(c: MountedContainer) -> Seq<char> {
    match first_name(c.names) {
        Some(n) => n,
        None => prefix(or_empty(c.id), 12),
    }
}

/// The names of the containers that mount `volume`, in list order.
pub open spec fn volume_users_spec(cs: Seq<MountedContainer>, volume: Seq<char>) -> Seq<Seq<char>>
    decreases cs.len(),
{
    if cs.len() == 0 {
        Seq::<Seq<char>>::empty()
    } else if mounts_volume(cs.last(), volume) {
        volume_users_spec(cs.drop_last(), volume).push(user_name(cs.last()))
    } else {
        volume_users_spec(cs.drop_last(), volume)
    }
}

fn mounts_volume_exec(c: &MountedContainer, volume: &String) -> (r: bool)
    ensures
        r == mounts_volume(*c, volume@),
        r <==> match c.mounts {
            Some(ms) => exists|i: int|
                0 <= i < ms@.len() && #[trigger] ms@[i] is Some && ms@[i]->0@ == volume@,
            None => false,
        },
{
    match &c.mounts {
        Some(ms) => {
            let mut i: usize = 0;
            while i < ms.len()
                invariant
                    c.mounts == Some(*ms),
                    i <= ms.len(),
                    forall|k: int| 0 <= k < i ==> #[trigger] opt_chars(ms@[k]) != Some(volume@),
                decreases ms.len() - i,
            {
                match &ms[i] {
                    Some(m) => {
                        if *m == *volume {
                            assert(opt_chars(ms@[i as int]) == Some(volume@));
                            assert(ms@[i as int] is Some && ms@[i as int]->0@ == volume@);
                            return true;
                        }
                    },
                    None => {},
                }
                i = i + 1;
            }
            assert forall|k: int| 0 <= k < ms@.len() && #[trigger] ms@[k] is Some implies ms@[k]->0@ != volume@ by {
                assert(opt_chars(ms@[k]) != Some(volume@));
            }
            false
        },
        None => false,
    }
}

/// The containers that use the volume `volume`, each by its display name.
pub fn volume_users(containers: &Vec<MountedContainer>, volume: &String) -> (users: Vec<String>)
    ensures
        views(users@) == volume_users_spec(containers@, volume@),
{
    let mut users: Vec<String> = Vec::new();
    let mut i: usize = 0;
    assert(containers@.take(0) =~= Seq::<MountedContainer>::empty());
    assert(views(users@) =~= Seq::<Seq<char>>::empty());
    while i < containers.len()
        invariant
            i <= containers.len(),
            views(users@) == volume_users_spec(containers@.take(i as int), volume@),
        decreases containers.len() - i,
    {
        let c = &containers[i];
        assert(containers@.take(i + 1).drop_last() =~= containers@.take(i as int));
        assert(containers@.take(i + 1).last() == containers@[i as int]);
        if mounts_volume_exec(c, volume) {
            let name = match container_first_name(&c.names) {
                Some(n) => n,
                None => match &c.id {
                    Some(id) => prefix_string(id.as_str(), 12),
                    None => String::new(),
                },
            };
            assert(name@ == user_name(*c)) by {
                if first_name(c.names) is None && c.id is None {
                    assert(prefix(Seq::<char>::empty(), 12) =~= Seq::<char>::empty());
                }
            }
            let ghost old_users = users@;
            users.push(name);
            assert(views(users@) =~= views(old_users).push(name@));
        }
        i = i + 1;
    }
    assert(containers@.take(containers.len() as int) =~= containers@);
    users
}

/// A container uses a volume exactly when one of its mounts, at any
/// position, names that volume.
pub proof fn lemma_mounts_volume_any_position(c: MountedContainer, volume: Seq<char>)
    ensures
        mounts_volume(c, volume) <==> match c.mounts {
            Some(ms) => exists|i: int|
                0 <= i < ms@.len() && #[trigger] ms@[i] is Some && ms@[i]->0@ == volume,
            None => false,
        },
{
    match c.mounts {
        Some(ms) => {
            if mounts_volume(c, volume) {
                let i = choose|i: int| 0 <= i < ms@.len() && #[trigger] opt_chars(ms@[i]) == Some(volume);
                assert(ms@[i] is Some && ms@[i]->0@ == volume);
            }
            if exists|i: int| 0 <= i < ms@.len() && #[trigger] ms@[i] is Some && ms@[i]->0@ == volume {
                let i = choose|i: int| 0 <= i < ms@.len() && #[trigger] ms@[i] is Some && ms@[i]->0@ == volume;
                assert(opt_chars(ms@[i]) == Some(volume));
            }
        },
        None => {},
    }
}

/// Adding a container to the list adds its name to the users of a volume
/// exactly when one of its mounts (at any position) names the volume, and
/// leaves the users found so far as they are.
pub proof fn lemma_volume_users_push(cs: Seq<MountedContainer>, c: MountedContainer, volume: Seq<char>)
    ensures
        volume_users_spec(cs.push(c), volume) == if match c.mounts {
            Some(ms) => exists|i: int|
                0 <= i < ms@.len() && #[trigger] ms@[i] is Some && ms@[i]->0@ == volume,
            None => false,
        } {
            volume_users_spec(cs, volume).push(user_name(c))
        } else {
            volume_users_spec(cs, volume)
        },
{
    lemma_mounts_volume_any_position(c, volume);
    assert(cs.push(c).drop_last() =~= cs);
    assert(cs.push(c).last() == c);
}

/// The text of a published port begins with the port's own host address as
/// the daemon gives it (empty when absent), then ':' and the public port.
pub proof fn lemma_published_port_text(p: PortSummary)
    ensures
        match p.public_port {
            Some(public) => {
                let ip: Seq<char> = match p.ip {
                    Some(a) => a@,
                    None => Seq::<char>::empty(),
                };
                &&& port_text(p).len() > ip.len() + decimal(public as nat).len()
                &&& port_text(p).subrange(0, ip.len() as int) == ip
                &&& port_text(p)[ip.len() as int] == ':'
                &&& port_text(p).subrange(ip.len() as int + 1, ip.len() + 1 + decimal(public as nat).len() as int)
                    == decimal(public as nat)
            },
            None => true,
        },
{
    match p.public_port {
        Some(public) => {
            let ip: Seq<char> = match p.ip {
                Some(a) => a@,
                None => Seq::<char>::empty(),
            };
            let d = decimal(public as nat);
            reveal_strlit(":");
            reveal_strlit("->");
            let rest = "->"@ + decimal(p.private_port as nat) + "/"@ + protocol_name(p.protocol);
            assert(port_text(p) =~= ip + (seq![':'] + (d + rest)));
            assert(port_text(p).subrange(0, ip.len() as int) =~= ip);
            assert(port_text(p).subrange(ip.len() as int + 1, ip.len() + 1 + d.len() as int) =~= d);
        },
        None => {},
    }
}

/// The ports line of one port is that port's text; of more ports, the line
/// of all but the last, ", " and the text of the last.
pub proof fn lemma_ports_text_extend(ps: Seq<PortSummary>)
    ensures
        ps.len() == 1 ==> ports_text(ps) == port_text(ps[0]),
        ps.len() > 1 ==> ports_text(ps) == ports_text(ps.drop_last()) + ", "@ + port_text(ps.last()),
{
    let texts = ps.map_values(|p: PortSummary| port_text(p));
    if ps.len() == 1 {
        assert(texts[0] == port_text(ps[0]));
    }
    if ps.len() > 1 {
        assert(texts.drop_last() =~= ps.drop_last().map_values(|p: PortSummary| port_text(p)));
        assert(texts.last() == port_text(ps.last()));
    }
}

} // verus!

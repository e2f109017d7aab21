//! The request that creates a container from the user's form.
use vstd::prelude::*;
use crate::text::{blank, chars_of, contains_char, is_blank, push_str, split, split_string, string_of, views};

verus! {

/// One published port: the container port (with its protocol) and where the
/// host exposes it.
pub struct PortBindingPlan {
    pub container_port: String,
    pub host_ip: String,
    pub host_port: String,
}

/// Everything the daemon is asked to create a container with.
pub struct ContainerPlan {
    /// The container's name; none when the user left it blank.
    pub name: Option<String>,
    pub image: String,
    /// One binding per container port; none when there is no binding.
    pub port_bindings: Option<Vec<PortBindingPlan>>,
    /// The container ports, in the order of `port_bindings`.
    pub exposed_ports: Option<Vec<String>>,
    pub env: Option<Vec<String>>,
    pub binds: Option<Vec<String>>,
}

/// The address a published port listens on.
pub open spec fn any_host() -> Seq<char> {
    "0.0.0.0"@
}

/// A container port with its protocol; "/tcp" when none is given.
pub open spec fn with_protocol(port: Seq<char>) -> Seq<char> {
    if port.contains('/') {
        port
    } else {
        port + "/tcp"@
    }
}

/// The (container port, host port) that a "host:container" mapping asks
/// for; none when the text does not hold exactly one ':'.
pub open spec fn parse_mapping(m: Seq<char>) -> Option<(Seq<char>, Seq<char>)> {
    let parts = split(m, ':');
    if parts.len() == 2 {
        Some((with_protocol(parts[1]), parts[0]))
    } else {
        None
    }
}

/// The host port of each container port after reading the mappings in
/// order; a later mapping of the same container port replaces an earlier one.
pub open spec fn port_map(ms: Seq<Seq<char>>) -> Map<Seq<char>, Seq<char>>
    decreases ms.len(),
{
    if ms.len() == 0 {
        Map::empty()
    } else {
        match parse_mapping(ms.last()) {
            Some(kv) => port_map(ms.drop_last()).insert(kv.0, kv.1),
            None => port_map(ms.drop_last()),
        }
    }
}

/// The map from container port to host port that a list of bindings holds.
pub open spec fn binding_map(bs: Seq<PortBindingPlan>) -> Map<Seq<char>, Seq<char>>
    decreases bs.len(),
{
    if bs.len() == 0 {
        Map::empty()
    } else {
        binding_map(bs.drop_last()).insert(bs.last().container_port@, bs.last().host_port@)
    }
}

pub open spec fn ports_distinct(bs: Seq<PortBindingPlan>) -> bool {
    forall|i: int, j: int|
        0 <= i < bs.len() && 0 <= j < bs.len() && i != j ==> #[trigger] bs[i].container_port@
            != #[trigger] bs[j].container_port@
}

proof fn lemma_binding_map_update(bs: Seq<PortBindingPlan>, j: int, b: PortBindingPlan)
    requires
        ports_distinct(bs),
        0 <= j < bs.len(),
        b.container_port@ == bs[j].container_port@,
    ensures
        binding_map(bs.update(j, b)) == binding_map(bs).insert(b.container_port@, b.host_port@),
    decreases bs.len(),
{
    let n = bs.len() - 1;
    let bs2 = bs.update(j, b);
    if j == n {
        assert(bs2.drop_last() =~= bs.drop_last());
        assert(binding_map(bs2) =~= binding_map(bs).insert(b.container_port@, b.host_port@));
    } else {
        assert(bs2.drop_last() =~= bs.drop_last().update(j, b));
        assert(ports_distinct(bs.drop_last())) by {
            assert forall|i: int, k: int|
                0 <= i < bs.drop_last().len() && 0 <= k < bs.drop_last().len() && i != k implies
                #[trigger] bs.drop_last()[i].container_port@ != #[trigger] bs.drop_last()[k].container_port@ by {
                assert(bs.drop_last()[i] == bs[i]);
                assert(bs.drop_last()[k] == bs[k]);
            }
        }
        lemma_binding_map_update(bs.drop_last(), j, b);
        assert(bs[n].container_port@ != bs[j].container_port@);
        assert(bs2.last() == bs.last());
        assert(binding_map(bs2) =~= binding_map(bs).insert(b.container_port@, b.host_port@));
    }
}

proof fn lemma_binding_map_keys(bs: Seq<PortBindingPlan>)
    ensures
        forall|k: Seq<char>|
            binding_map(bs).contains_key(k) <==> exists|i: int|
                0 <= i < bs.len() && #[trigger] bs[i].container_port@ == k,
    decreases bs.len(),
{
    if bs.len() > 0 {
        lemma_binding_map_keys(bs.drop_last());
        assert forall|k: Seq<char>|
            binding_map(bs).contains_key(k) <==> exists|i: int|
                0 <= i < bs.len() && #[trigger] bs[i].container_port@ == k by {
            if binding_map(bs.drop_last()).contains_key(k) {
                let i = choose|i: int|
                    0 <= i < bs.drop_last().len() && #[trigger] bs.drop_last()[i].container_port@ == k;
                assert(bs[i] == bs.drop_last()[i]);
            }
            if exists|i: int| 0 <= i < bs.len() && #[trigger] bs[i].container_port@ == k {
                let i = choose|i: int| 0 <= i < bs.len() && #[trigger] bs[i].container_port@ == k;
                if i < bs.len() - 1 {
                    assert(bs.drop_last()[i] == bs[i]);
                }
            }
        }
    }
}

/// A mapping that does not hold exactly one ':' leaves the port map as it
/// was; a well-formed one binds its container port to its host port,
/// whatever an earlier mapping said, and leaves the other ports alone.
pub proof fn lemma_port_map_push(ms: Seq<Seq<char>>, m: Seq<char>)
    ensures
        split(m, ':').len() != 2 ==> port_map(ms.push(m)) == port_map(ms),
        split(m, ':').len() == 2 ==> port_map(ms.push(m))[with_protocol(split(m, ':')[1])]
            == split(m, ':')[0],
        forall|k: Seq<char>|
            k != with_protocol(split(m, ':')[1]) ==> (#[trigger] port_map(ms.push(m)).contains_key(k)
                <==> port_map(ms).contains_key(k)),
        forall|k: Seq<char>|
            k != with_protocol(split(m, ':')[1]) && port_map(ms).contains_key(k) ==> #[trigger] port_map(
                ms.push(m),
            )[k] == port_map(ms)[k],
{
    assert(ms.push(m).drop_last() =~= ms);
}

/// The binding of one well-formed mapping.
fn parse_mapping_exec(m: &String) -> (r: Option<(String, String)>)
    ensures
        match r {
            Some(kv) => parse_mapping(m@) == Some((kv.0@, kv.1@)),
            None => parse_mapping(m@) is None,
        },
{
    let parts = split_string(m.as_str(), ':');
    proof {
        assert(parts@.len() == views(parts@).len());
    }
    if parts.len() == 2 {
        assert(views(parts@)[0] == parts@[0]@);
        assert(views(parts@)[1] == parts@[1]@);
        let host = parts[0].clone();
        let cs = chars_of(parts[1].as_str());
        if contains_char(&cs, '/') {
            Some((parts[1].clone(), host))
        } else {
            let mut v = cs;
            push_str(&mut v, "/tcp");
            let port = string_of(&v);
            Some((port, host))
        }
    } else {
        None
    }
}

/// Builds the creation request from the user's form: the name unless blank,
/// one binding on 0.0.0.0 per container port named by a "host:container"
/// mapping (the last mapping of a port wins, "/tcp" is added where no
/// protocol is given, other texts are ignored), and the environment and
/// volume lists unless empty.
pub fn plan_container(
    name: String,
    image: String,
    ports: Vec<String>,
    envs: Vec<String>,
    volumes: Vec<String>,
) -> (plan: ContainerPlan)
    ensures
        plan.name is None <==> is_blank(name@),
        plan.name is Some ==> plan.name == Some(name),
        plan.image == image,
        plan.env is None <==> envs.len() == 0,
        plan.env is Some ==> plan.env == Some(envs),
        plan.binds is None <==> volumes.len() == 0,
        plan.binds is Some ==> plan.binds == Some(volumes),
        plan.port_bindings is None <==> port_map(views(ports@)) == Map::<Seq<char>, Seq<char>>::empty(),
        plan.exposed_ports is None <==> plan.port_bindings is None,
        match plan.port_bindings {
            Some(bs) => {
                &&& ports_distinct(bs@)
                &&& binding_map(bs@) == port_map(views(ports@))
                &&& forall|i: int| 0 <= i < bs.len() ==> #[trigger] bs@[i].host_ip@ == any_host()
                &&& match plan.exposed_ports {
                    Some(es) => es.len() == bs.len() && forall|i: int|
                        0 <= i < es.len() ==> #[trigger] es@[i]@ == bs@[i].container_port@,
                    None => false,
                }
            },
            None => true,
        },
{
    let name_opt = if blank(name.as_str()) {
        None
    } else {
        Some(name)
    };
    let mut bindings: Vec<PortBindingPlan> = Vec::new();
    let mut i: usize = 0;
    assert(views(ports@).take(0) =~= Seq::<Seq<char>>::empty());
    while i < ports.len()
        invariant
            i <= ports.len(),
            ports_distinct(bindings@),
            binding_map(bindings@) == port_map(views(ports@).take(i as int)),
            forall|k: int| 0 <= k < bindings.len() ==> #[trigger] bindings@[k].host_ip@ == any_host(),
        decreases ports.len() - i,
    {
        let ghost ms = views(ports@);
        proof {
            assert(ms.take(i + 1).drop_last() =~= ms.take(i as int));
            assert(ms.take(i + 1).last() == ports@[i as int]@);
        }
        match parse_mapping_exec(&ports[i]) {
            None => {},
            Some(kv) => {
                let (port, host) = kv;
                let mut j: usize = 0;
                let mut found: bool = false;
                while j < bindings.len()
                    invariant_except_break
                        !found,
                    invariant
                        j <= bindings.len(),
                        forall|k: int| 0 <= k < j ==> #[trigger] bindings@[k].container_port@ != port@,
                    ensures
                        found ==> j < bindings.len() && bindings@[j as int].container_port@ == port@,
                        !found ==> j == bindings.len(),
                    decreases bindings.len() - j,
                {
                    if bindings[j].container_port == port {
                        found = true;
                        break;
                    }
                    j = j + 1;
                }
                let b = PortBindingPlan {
                    container_port: port,
                    host_ip: String::from_str("0.0.0.0"),
                    host_port: host,
                };
                if found {
                    proof {
                        lemma_binding_map_update(bindings@, j as int, b);
                    }
                    let ghost old_b = bindings@;
                    bindings.set(j, b);
                    proof {
                        assert forall|x: int, y: int|
                            0 <= x < bindings.len() && 0 <= y < bindings.len() && x != y implies
                            #[trigger] bindings@[x].container_port@ != #[trigger] bindings@[y].container_port@ by {
                            assert(bindings@[x].container_port@ == old_b[x].container_port@);
                            assert(bindings@[y].container_port@ == old_b[y].container_port@);
                        }
                    }
                } else {
                    let ghost old_b = bindings@;
                    bindings.push(b);
                    proof {
                        assert(bindings@.drop_last() =~= old_b);
                        assert forall|x: int, y: int|
                            0 <= x < bindings.len() && 0 <= y < bindings.len() && x != y implies
                            #[trigger] bindings@[x].container_port@ != #[trigger] bindings@[y].container_port@ by {
                            if x < old_b.len() {
                                assert(bindings@[x] == old_b[x]);
                            }
                            if y < old_b.len() {
                                assert(bindings@[y] == old_b[y]);
                            }
                        }
                    }
                }
            },
        }
        i = i + 1;
    }
    proof {
        assert(views(ports@).take(ports.len() as int) =~= views(ports@));
        lemma_binding_map_keys(bindings@);
        if bindings.len() > 0 {
            assert(binding_map(bindings@).contains_key(bindings@[0].container_port@));
        }
        if bindings.len() == 0 {
            assert(binding_map(bindings@) =~= Map::<Seq<char>, Seq<char>>::empty());
        }
    }
    let (port_bindings, exposed_ports) = if bindings.len() == 0 {
        (None, None)
    } else {
        let mut es: Vec<String> = Vec::new();
        let mut k: usize = 0;
        while k < bindings.len()
            invariant
                k <= bindings.len(),
                es.len() == k,
                forall|m: int| 0 <= m < k ==> #[trigger] es@[m]@ == bindings@[m].container_port@,
            decreases bindings.len() - k,
        {
            es.push(bindings[k].container_port.clone());
            k = k + 1;
        }
        (Some(bindings), Some(es))
    };
    let env = if envs.len() == 0 {
        None
    } else {
        Some(envs)
    };
    let binds = if volumes.len() == 0 {
        None
    } else {
        Some(volumes)
    };
    ContainerPlan {
        name: name_opt,
        image: image,
        port_bindings: port_bindings,
        exposed_ports: exposed_ports,
        env: env,
        binds: binds,
    }
}

/// Every container port that a mapping binds names its protocol.
pub proof fn lemma_ports_name_protocol(m: Seq<char>)
    ensures
        match parse_mapping(m) {
            Some(kv) => kv.0.contains('/'),
            None => true,
        },
{
    match parse_mapping(m) {
        Some(kv) => {
            let p = split(m, ':')[1];
            if !p.contains('/') {
                reveal_strlit("/tcp");
                assert((p + "/tcp"@)[p.len() as int] == '/');
            }
        },
        None => {},
    }
}

} // verus!

//! Compose stacks: containers grouped by their compose project label.
use vstd::prelude::*;
use crate::text::{opt_chars};

verus! {

/// What a container tells about its place in a compose stack.
pub struct StackContainer {
    /// The container's labels, as key and value pairs with distinct keys.
    pub labels: Option<Vec<(String, String)>>,
    /// The container's state, such as "running" or "exited".
    pub state: Option<String>,
    /// When the container was created, in seconds since the Unix epoch.
    pub created: Option<i64>,
}

/// A compose stack as shown to the user.
pub struct StackInfo {
    pub name: String,
    /// "running" when every container of the stack runs, else "degraded".
    pub status: String,
    /// The number of containers of the stack.
    pub services: usize,
    pub created: i64,
    pub updated: i64,
}

/// The label that names a container's compose project.
pub open spec fn compose_label() -> Seq<char> {
    "com.docker.compose.project"@
}

/// The value of the first label whose key is `key`.
pub open spec fn label_value(labels: Seq<(String, String)>, key: Seq<char>) -> Option<Seq<char>>
    decreases labels.len(),
{
    if labels.len() == 0 {
        None
    } else if labels[0].0@ == key {
        Some(labels[0].1@)
    } else {
        label_value(labels.drop_first(), key)
    }
}

/// The compose project a container belongs to, if any.
pub open spec fn project_of(c: StackContainer) -> Option<Seq<char>> {
    match c.labels {
        Some(labels) => label_value(labels@, compose_label()),
        None => None,
    }
}

/// Whether the container's state is "running".
pub open spec fn is_running(c: StackContainer) -> bool {
    match c.state {
        Some(s) => s@ == "running"@,
        None => false,
    }
}

/// The container's creation time, 0 when unknown.
pub open spec fn created_of(c: StackContainer) -> int {
    match c.created {
        Some(t) => t as int,
        None => 0,
    }
}

/// The running totals of one stack while the containers are read in order.
pub struct StackTally {
    pub name: Seq<char>,
    pub services: nat,
    pub all_running: bool,
    pub created: int,
    pub updated: int,
}

/// The tally of a stack whose first container is `c`.
pub open spec fn new_tally(name: Seq<char>, c: StackContainer) -> StackTally {
    StackTally {
        name: name,
        services: 1,
        all_running: is_running(c),
        created: created_of(c),
        updated: created_of(c),
    }
}

/// The tally `t` after one more container `c` of its stack.
pub open spec fn absorb(t: StackTally, c: StackContainer) -> StackTally {
    StackTally {
        name: t.name,
        services: t.services + 1,
        all_running: t.all_running && is_running(c),
        created: if created_of(c) < t.created && created_of(c) != 0 {
            created_of(c)
        } else {
            t.created
        },
        updated: if created_of(c) > t.updated {
            created_of(c)
        } else {
            t.updated
        },
    }
}

pub open spec fn has_tally(ts: Seq<StackTally>, p: Seq<char>) -> bool {
    exists|i: int| 0 <= i < ts.len() && #[trigger] ts[i].name == p
}

pub open spec fn tally_at(ts: Seq<StackTally>, p: Seq<char>) -> int {
    choose|i: int| 0 <= i < ts.len() && #[trigger] ts[i].name == p
}

/// The tallies after one more container.
pub open spec fn tally_step(ts: Seq<StackTally>, c: StackContainer) -> Seq<StackTally> {
    match project_of(c) {
        None => ts,
        Some(p) => if has_tally(ts, p) {
            let i = tally_at(ts, p);
            ts.update(i, absorb(ts[i], c))
        } else {
            ts.push(new_tally(p, c))
        },
    }
}

/// The tallies of all stacks, in the order in which each stack's first
/// container appears.
pub open spec fn tally_stacks(cs: Seq<StackContainer>) -> Seq<StackTally>
    decreases cs.len(),
{
    if cs.len() == 0 {
        Seq::<StackTally>::empty()
    } else {
        tally_step(tally_stacks(cs.drop_last()), cs.last())
    }
}

/// The status text of a tally.
pub open spec fn status_text(all_running: bool) -> Seq<char> {
    if all_running {
        "running"@
    } else {
        "degraded"@
    }
}

/// Whether `info` shows the tally `t`.
pub open spec fn shows_tally(info: StackInfo, t: StackTally) -> bool {
    &&& info.name@ == t.name
    &&& info.status@ == status_text(t.all_running)
    &&& info.services as nat == t.services
    &&& info.created as int == t.created
    &&& info.updated as int == t.updated
}

/// The number of containers of project `p`.
pub open spec fn member_count(cs: Seq<StackContainer>, p: Seq<char>) -> nat
    decreases cs.len(),
{
    if cs.len() == 0 {
        0
    } else {
        member_count(cs.drop_last(), p) + if project_of(cs.last()) == Some(p) {
            1nat
        } else {
            0nat
        }
    }
}

pub open spec fn is_member(cs: Seq<StackContainer>, k: int, p: Seq<char>) -> bool {
    0 <= k < cs.len() && project_of(cs[k]) == Some(p)
}

pub open spec fn names_distinct(ts: Seq<StackTally>) -> bool {
    forall|i: int, j: int|
        0 <= i < ts.len() && 0 <= j < ts.len() && i != j ==> #[trigger] ts[i].name != #[trigger] ts[j].name
}

/// What a tally says of the containers it counts.
pub open spec fn tally_faithful(cs: Seq<StackContainer>, t: StackTally) -> bool {
    &&& t.services == member_count(cs, t.name)
    &&& t.services >= 1
    &&& (t.all_running <==> (forall|k: int| is_member(cs, k, t.name) ==> #[trigger] is_running(cs[k])))
    &&& (forall|k: int| is_member(cs, k, t.name) ==> #[trigger] created_of(cs[k]) <= t.updated)
    &&& (exists|k: int| is_member(cs, k, t.name) && #[trigger] created_of(cs[k]) == t.updated)
    &&& (forall|k: int|
        is_member(cs, k, t.name) && #[trigger] created_of(cs[k]) != 0 ==> t.created <= created_of(cs[k]))
    &&& (exists|k: int| is_member(cs, k, t.name) && #[trigger] created_of(cs[k]) == t.created)
    &&& t.created <= t.updated
}

proof fn lemma_member_count_zero(cs: Seq<StackContainer>, p: Seq<char>)
    requires
        forall|k: int| 0 <= k < cs.len() ==> project_of(#[trigger] cs[k]) != Some(p),
    ensures
        member_count(cs, p) == 0,
    decreases cs.len(),
{
    if cs.len() > 0 {
        assert(project_of(cs[cs.len() - 1]) != Some(p));
        lemma_member_count_zero(cs.drop_last(), p);
    }
}

/// A tally of a stack that the last container does not belong to is as
/// faithful to all the containers as it was to those before it.
proof fn lemma_untouched_tally(cs: Seq<StackContainer>, t: StackTally)
    requires
        cs.len() > 0,
        tally_faithful(cs.drop_last(), t),
        project_of(cs.last()) != Some(t.name),
    ensures
        tally_faithful(cs, t),
{
    let prev = cs.drop_last();
    let n = (cs.len() - 1) as int;
    assert(forall|k: int| 0 <= k < n ==> #[trigger] prev[k] == cs[k]);
    assert forall|k: int| #[trigger] is_member(prev, k, t.name) implies is_member(cs, k, t.name) by {
        assert(prev[k] == cs[k]);
    }
    assert forall|k: int| #[trigger] is_member(cs, k, t.name) implies is_member(prev, k, t.name) by {
        assert(k != n);
        assert(prev[k] == cs[k]);
    }
    assert(member_count(cs, t.name) == member_count(prev, t.name));
    assert(t.all_running <==> (forall|k: int| is_member(cs, k, t.name) ==> #[trigger] is_running(cs[k]))) by {
        if t.all_running {
            assert forall|k: int| is_member(cs, k, t.name) implies #[trigger] is_running(cs[k]) by {
                assert(is_member(prev, k, t.name));
            }
        } else {
            let kb = choose|k: int| is_member(prev, k, t.name) && !#[trigger] is_running(prev[k]);
            assert(is_member(cs, kb, t.name) && !is_running(cs[kb]));
        }
    }
    assert forall|k: int| is_member(cs, k, t.name) implies #[trigger] created_of(cs[k]) <= t.updated by {
        assert(is_member(prev, k, t.name));
    }
    assert forall|k: int| is_member(cs, k, t.name) && #[trigger] created_of(cs[k]) != 0 implies t.created
        <= created_of(cs[k]) by {
        assert(is_member(prev, k, t.name));
    }
    let ku = choose|k: int| is_member(prev, k, t.name) && #[trigger] created_of(prev[k]) == t.updated;
    assert(is_member(cs, ku, t.name) && created_of(cs[ku]) == t.updated);
    let kc = choose|k: int| is_member(prev, k, t.name) && #[trigger] created_of(prev[k]) == t.created;
    assert(is_member(cs, kc, t.name) && created_of(cs[kc]) == t.created);
}

/// The tallies of a list of containers: one per compose project that occurs
/// among them, no project twice, each with the number of its containers,
/// whether all of them run, the latest creation time among them, and an
/// earliest one that is no later than any known creation time among them.
pub proof fn lemma_tally_stacks(cs: Seq<StackContainer>)
    ensures
        names_distinct(tally_stacks(cs)),
        forall|p: Seq<char>|
            has_tally(tally_stacks(cs), p) <==> (exists|k: int| #[trigger] is_member(cs, k, p)),
        forall|i: int|
            0 <= i < tally_stacks(cs).len() ==> tally_faithful(cs, #[trigger] tally_stacks(cs)[i]),
        tally_stacks(cs).len() <= cs.len(),
    decreases cs.len(),
{
    if cs.len() == 0 {
        return;
    }
    let prev = cs.drop_last();
    let c = cs.last();
    let n = (cs.len() - 1) as int;
    lemma_tally_stacks(prev);
    let ts = tally_stacks(prev);
    let ts2 = tally_stacks(cs);
    assert(forall|k: int| 0 <= k < n ==> #[trigger] prev[k] == cs[k]);
    assert(cs[n] == c);
    assert forall|k: int, p: Seq<char>| #[trigger] is_member(prev, k, p) implies is_member(cs, k, p) by {
        assert(prev[k] == cs[k]);
    }
    assert forall|k: int, p: Seq<char>|
        #[trigger] is_member(cs, k, p) && k != n implies is_member(prev, k, p) by {
        assert(prev[k] == cs[k]);
    }
    match project_of(c) {
        None => {
            assert(ts2 == ts);
            assert forall|p: Seq<char>|
                has_tally(ts2, p) <==> (exists|k: int| #[trigger] is_member(cs, k, p)) by {
                if exists|k: int| #[trigger] is_member(cs, k, p) {
                    let k = choose|k: int| #[trigger] is_member(cs, k, p);
                    assert(k != n);
                    assert(is_member(prev, k, p));
                }
            }
            assert forall|i: int| 0 <= i < ts2.len() implies tally_faithful(cs, #[trigger] ts2[i]) by {
                assert(tally_faithful(prev, ts[i]));
                lemma_untouched_tally(cs, ts2[i]);
            }
        },
        Some(q) => {
            if has_tally(ts, q) {
                let i0 = tally_at(ts, q);
                let t0 = ts[i0];
                let t1 = absorb(t0, c);
                assert(ts2 == ts.update(i0, t1));
                assert(tally_faithful(prev, t0));
                assert forall|i: int, j: int|
                    0 <= i < ts2.len() && 0 <= j < ts2.len() && i != j implies #[trigger] ts2[i].name != #[trigger] ts2[j].name by {
                    assert(ts2[i].name == ts[i].name);
                    assert(ts2[j].name == ts[j].name);
                }
                assert forall|p: Seq<char>|
                    has_tally(ts2, p) <==> (exists|k: int| #[trigger] is_member(cs, k, p)) by {
                    if has_tally(ts2, p) {
                        let i = choose|i: int| 0 <= i < ts2.len() && #[trigger] ts2[i].name == p;
                        assert(ts[i].name == p);
                        assert(has_tally(ts, p));
                        let k = choose|k: int| #[trigger] is_member(prev, k, p);
                        assert(is_member(cs, k, p));
                    }
                    if exists|k: int| #[trigger] is_member(cs, k, p) {
                        let k = choose|k: int| #[trigger] is_member(cs, k, p);
                        if k == n {
                            assert(p == q);
                            assert(ts2[i0].name == p);
                        } else {
                            assert(is_member(prev, k, p));
                            assert(has_tally(ts, p));
                            let i = choose|i: int| 0 <= i < ts.len() && #[trigger] ts[i].name == p;
                            assert(ts2[i].name == p);
                        }
                    }
                }
                assert forall|i: int| 0 <= i < ts2.len() implies tally_faithful(cs, #[trigger] ts2[i]) by {
                    assert(tally_faithful(prev, ts[i]));
                    if i == i0 {
                        let t = t1;
                        assert(ts2[i] == t1);
                        assert(t.name == q);
                        assert(member_count(cs, q) == member_count(prev, q) + 1);
                        assert(is_member(cs, n, q));
                        assert(t.all_running <==> (forall|k: int| is_member(cs, k, q) ==> #[trigger] is_running(cs[k]))) by {
                            if t.all_running {
                                assert forall|k: int| is_member(cs, k, q) implies #[trigger] is_running(cs[k]) by {
                                    if k != n {
                                        assert(is_member(prev, k, q));
                                    }
                                }
                            } else if !t0.all_running {
                                let kb = choose|k: int| is_member(prev, k, q) && !#[trigger] is_running(prev[k]);
                                assert(is_member(cs, kb, q) && !is_running(cs[kb]));
                            } else {
                                assert(!is_running(cs[n]));
                            }
                        }
                        assert forall|k: int| is_member(cs, k, q) implies #[trigger] created_of(cs[k]) <= t.updated by {
                            if k != n {
                                assert(is_member(prev, k, q));
                            }
                        }
                        assert forall|k: int| is_member(cs, k, q) && #[trigger] created_of(cs[k]) != 0 implies t.created <= created_of(cs[k]) by {
                            if k != n {
                                assert(is_member(prev, k, q));
                            }
                        }
                        let ku = choose|k: int| is_member(prev, k, q) && #[trigger] created_of(prev[k]) == t0.updated;
                        assert(is_member(cs, ku, q) && created_of(cs[ku]) == t0.updated);
                        let kc = choose|k: int| is_member(prev, k, q) && #[trigger] created_of(prev[k]) == t0.created;
                        assert(is_member(cs, kc, q) && created_of(cs[kc]) == t0.created);
                        if created_of(c) > t0.updated {
                            assert(created_of(cs[n]) == t.updated);
                        } else {
                            assert(created_of(cs[ku]) == t.updated);
                        }
                        if created_of(c) < t0.created && created_of(c) != 0 {
                            assert(created_of(cs[n]) == t.created);
                        } else {
                            assert(created_of(cs[kc]) == t.created);
                        }
                    } else {
                        let t = ts[i];
                        assert(ts2[i] == t);
                        assert(t.name != q);
                        lemma_untouched_tally(cs, t);
                    }
                }
            } else {
                let t1 = new_tally(q, c);
                assert(ts2 == ts.push(t1));
                assert forall|k: int| 0 <= k < prev.len() implies project_of(#[trigger] prev[k]) != Some(q) by {
                    if project_of(prev[k]) == Some(q) {
                        assert(is_member(prev, k, q));
                    }
                }
                lemma_member_count_zero(prev, q);
                assert forall|i: int, j: int|
                    0 <= i < ts2.len() && 0 <= j < ts2.len() && i != j implies #[trigger] ts2[i].name != #[trigger] ts2[j].name by {
                    if i < ts.len() && j < ts.len() {
                        assert(ts2[i].name == ts[i].name);
                        assert(ts2[j].name == ts[j].name);
                    } else if i < ts.len() {
                        assert(ts2[i].name == ts[i].name);
                    } else {
                        assert(ts2[j].name == ts[j].name);
                    }
                }
                assert forall|p: Seq<char>|
                    has_tally(ts2, p) <==> (exists|k: int| #[trigger] is_member(cs, k, p)) by {
                    if has_tally(ts2, p) {
                        let i = choose|i: int| 0 <= i < ts2.len() && #[trigger] ts2[i].name == p;
                        if i < ts.len() {
                            assert(ts[i].name == p);
                            assert(has_tally(ts, p));
                            let k = choose|k: int| #[trigger] is_member(prev, k, p);
                            assert(is_member(cs, k, p));
                        } else {
                            assert(is_member(cs, n, p));
                        }
                    }
                    if exists|k: int| #[trigger] is_member(cs, k, p) {
                        let k = choose|k: int| #[trigger] is_member(cs, k, p);
                        if k == n {
                            assert(ts2[ts.len() as int].name == p);
                        } else {
                            assert(is_member(prev, k, p));
                            assert(has_tally(ts, p));
                            let i = choose|i: int| 0 <= i < ts.len() && #[trigger] ts[i].name == p;
                            assert(ts2[i].name == p);
                        }
                    }
                }
                assert forall|i: int| 0 <= i < ts2.len() implies tally_faithful(cs, #[trigger] ts2[i]) by {
                    if i == ts.len() {
                        assert(ts2[i] == t1);
                        assert(member_count(cs, q) == 1);
                        assert(is_member(cs, n, q));
                        assert forall|k: int| is_member(cs, k, q) implies k == n by {
                            if k != n {
                                assert(prev[k] == cs[k]);
                                assert(project_of(prev[k]) != Some(q));
                            }
                        }
                    } else {
                        let t = ts[i];
                        assert(tally_faithful(prev, t));
                        assert(ts2[i] == t);
                        assert(t.name != q) by {
                            if t.name == q {
                                assert(has_tally(ts, q));
                            }
                        }
                        lemma_untouched_tally(cs, t);
                    }
                }
            }
        },
    }
}

/// A stack is shown "running" exactly when every container of its project
/// is in the state "running"; any other state (or none) of any of its
/// containers shows it "degraded".
pub proof fn lemma_stack_status(cs: Seq<StackContainer>, i: int)
    requires
        0 <= i < tally_stacks(cs).len(),
    ensures
        status_text(tally_stacks(cs)[i].all_running) == "running"@ || status_text(
            tally_stacks(cs)[i].all_running,
        ) == "degraded"@,
        status_text(tally_stacks(cs)[i].all_running) == "running"@ <==> forall|k: int|
            0 <= k < cs.len() && project_of(#[trigger] cs[k]) == Some(tally_stacks(cs)[i].name)
                ==> match cs[k].state {
                Some(st) => st@ == "running"@,
                None => false,
            },
{
    lemma_tally_stacks(cs);
    let t = tally_stacks(cs)[i];
    assert(tally_faithful(cs, t));
    reveal_strlit("running");
    reveal_strlit("degraded");
    assert("running"@.len() != "degraded"@.len());
    if t.all_running {
        assert forall|k: int|
            0 <= k < cs.len() && project_of(#[trigger] cs[k]) == Some(t.name) implies match cs[k].state {
            Some(st) => st@ == "running"@,
            None => false,
        } by {
            assert(is_member(cs, k, t.name));
            assert(is_running(cs[k]));
        }
    } else {
        let kb = choose|k: int| is_member(cs, k, t.name) && !#[trigger] is_running(cs[k]);
        assert(!is_running(cs[kb]));
    }
}

/// The running totals of one stack, as the summary loop keeps them.
struct Tally {
    name: String,
    services: usize,
    all_running: bool,
    created: i64,
    updated: i64,
}

spec fn tally_view(t: Tally) -> StackTally {
    StackTally {
        name: t.name@,
        services: t.services as nat,
        all_running: t.all_running,
        created: t.created as int,
        updated: t.updated as int,
    }
}

/// The value of the label `key`, taking the first pair with that key.
pub fn label_lookup(labels: &Vec<(String, String)>, key: &String) -> (r: Option<String>)
    ensures
        opt_chars(r) == label_value(labels@, key@),
{
    let mut i: usize = 0;
    assert(labels@.skip(0) =~= labels@);
    while i < labels.len()
        invariant
            i <= labels.len(),
            label_value(labels@, key@) == label_value(labels@.skip(i as int), key@),
        decreases labels.len() - i,
    {
        let ghost rest = labels@.skip(i as int);
        assert(rest[0] == labels@[i as int]);
        if labels[i].0 == *key {
            return Some(labels[i].1.clone());
        }
        assert(rest.drop_first() =~= labels@.skip(i + 1));
        i = i + 1;
    }
    None
}

/// The compose project named by a container's labels.
pub fn compose_project(labels: &Option<Vec<(String, String)>>) -> (r: Option<String>)
    ensures
        opt_chars(r) == match labels {
            Some(l) => label_value(l@, compose_label()),
            None => None,
        },
{
    match labels {
        Some(l) => {
            let key = String::from_str("com.docker.compose.project");
            label_lookup(l, &key)
        },
        None => None,
    }
}

fn container_running(state: &Option<String>) -> (r: bool)
    ensures
        r == match state {
            Some(s) => s@ == "running"@,
            None => false,
        },
{
    match state {
        Some(s) => {
            let running = String::from_str("running");
            *s == running
        },
        None => false,
    }
}

/// Groups the containers by compose project, one stack per project in the
/// order in which each project first appears.
pub fn summarize_stacks(containers: &Vec<StackContainer>) -> (stacks: Vec<StackInfo>)
    ensures
        stacks.len() == tally_stacks(containers@).len(),
        forall|i: int|
            0 <= i < stacks.len() ==> shows_tally(#[trigger] stacks[i], tally_stacks(containers@)[i]),
        forall|i: int|
            0 <= i < stacks.len() ==> (#[trigger] stacks[i].status@ == "running"@ || stacks[i].status@
                == "degraded"@),
        forall|i: int|
            0 <= i < stacks.len() ==> (#[trigger] stacks[i].status@ == "running"@ <==> forall|k: int|
                0 <= k < containers.len() && project_of(#[trigger] containers@[k]) == Some(stacks[i].name@)
                    ==> match containers@[k].state {
                    Some(st) => st@ == "running"@,
                    None => false,
                }),
{
    let mut tallies: Vec<Tally> = Vec::new();
    let mut i: usize = 0;
    while i < containers.len()
        invariant
            i <= containers.len(),
            tallies@.map_values(|t: Tally| tally_view(t)) == tally_stacks(containers@.take(i as int)),
            forall|j: int| 0 <= j < tallies.len() ==> #[trigger] tallies[j].services <= i,
        decreases containers.len() - i,
    {
        let ghost before = containers@.take(i as int);
        let ghost ts = tally_stacks(before);
        proof {
            lemma_tally_stacks(before);
            assert(containers@.take(i + 1).drop_last() =~= before);
            assert(containers@.take(i + 1).last() == containers@[i as int]);
        }
        let c = &containers[i];
        let project = compose_project(&c.labels);
        match project {
            None => {},
            Some(p) => {
                let created: i64 = match c.created {
                    Some(t) => t,
                    None => 0,
                };
                let running = container_running(&c.state);
                let mut j: usize = 0;
                let mut found: bool = false;
                while j < tallies.len()
                    invariant_except_break
                        !found,
                    invariant
                        j <= tallies.len(),
                        forall|k: int| 0 <= k < j ==> #[trigger] tallies[k].name@ != p@,
                    ensures
                        found ==> j < tallies.len() && tallies[j as int].name@ == p@,
                        !found ==> j == tallies.len(),
                    decreases tallies.len() - j,
                {
                    if tallies[j].name == p {
                        found = true;
                        break;
                    }
                    j = j + 1;
                }
                proof {
                    assert(tallies@.map_values(|t: Tally| tally_view(t)).len() == tallies.len());
                    assert(forall|k: int| 0 <= k < tallies.len() ==> #[trigger] ts[k] == tally_view(tallies@[k]));
                }
                if found {
                    proof {
                        assert(ts[j as int].name == p@);
                        assert(has_tally(ts, p@));
                        let k = tally_at(ts, p@);
                        assert(ts[k].name == p@);
                        assert(k == j);
                    }
                    let t = &tallies[j];
                    let nt = Tally {
                        name: t.name.clone(),
                        services: t.services + 1,
                        all_running: t.all_running && running,
                        created: if created < t.created && created != 0 {
                            created
                        } else {
                            t.created
                        },
                        updated: if created > t.updated {
                            created
                        } else {
                            t.updated
                        },
                    };
                    tallies.set(j, nt);
                } else {
                    proof {
                        assert forall|k: int| 0 <= k < ts.len() implies #[trigger] ts[k].name != p@ by {
                            assert(ts[k] == tally_view(tallies@[k]));
                        }
                    }
                    tallies.push(Tally {
                        name: p,
                        services: 1,
                        all_running: running,
                        created: created,
                        updated: created,
                    });
                }
            },
        }
        i = i + 1;
        proof {
            assert(tallies@.map_values(|t: Tally| tally_view(t)) =~= tally_stacks(containers@.take(i as int)));
        }
    }
    proof {
        assert(containers@.take(containers.len() as int) =~= containers@);
    }
    let ghost ts = tally_stacks(containers@);
    let mut stacks: Vec<StackInfo> = Vec::new();
    let mut k: usize = 0;
    while k < tallies.len()
        invariant
            k <= tallies.len(),
            tallies@.map_values(|t: Tally| tally_view(t)) == ts,
            stacks.len() == k,
            forall|m: int| 0 <= m < k ==> shows_tally(#[trigger] stacks[m], ts[m]),
        decreases tallies.len() - k,
    {
        let t = &tallies[k];
        assert(ts[k as int] == tally_view(tallies@[k as int]));
        let status = if t.all_running {
            String::from_str("running")
        } else {
            String::from_str("degraded")
        };
        stacks.push(StackInfo {
            name: t.name.clone(),
            status: status,
            services: t.services,
            created: t.created,
            updated: t.updated,
        });
        k = k + 1;
    }
    proof {
        assert forall|i: int| 0 <= i < stacks.len() implies (#[trigger] stacks[i].status@ == "running"@
            <==> forall|k: int|
            0 <= k < containers.len() && project_of(#[trigger] containers@[k]) == Some(stacks[i].name@)
                ==> match containers@[k].state {
                Some(st) => st@ == "running"@,
                None => false,
            }) by {
            lemma_stack_status(containers@, i);
        }
        assert forall|i: int| 0 <= i < stacks.len() implies (#[trigger] stacks[i].status@ == "running"@
            || stacks[i].status@ == "degraded"@) by {
            lemma_stack_status(containers@, i);
        }
    }
    stacks
}

} // verus!

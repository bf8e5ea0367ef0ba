//! The bind part of the template rendering context: for every bind of a
//! service, the census group that provides it, ordered by bind name.

use crate::service_bind::ServiceBind;
use crate::service_group::ServiceGroup;
use crate::text::text_eq;
use crate::text_order::{
    compare_text, lemma_text_less_irreflexive, lemma_text_less_total, lemma_text_less_transitive,
    text_less, TextOrder,
};
use vstd::prelude::*;

verus! {

/// A member of a census group, as far as bind selection reads it: its
/// member id and whether it is alive.
#[derive(Debug, PartialEq, Eq)]
pub struct CensusMember {
    pub member_id: String,
    pub alive: bool,
}

impl Clone for CensusMember {
    fn clone(&self) -> (r: Self)
        ensures
            r == *self,
    {
        CensusMember { member_id: self.member_id.clone(), alive: self.alive }
    }
}

/// The state of a leader election in a service group.
#[derive(Clone, Copy, Debug, PartialEq, Eq, Structural)]
pub enum ElectionStatus {
    /// No election has been held.
    NoElection,
    ElectionInProgress,
    ElectionNoQuorum,
    ElectionFinished,
}

/// The census of one service group: every member, in census order, the
/// local member, the elected leader and update leader, if any, and the
/// state of both elections.
#[derive(Debug)]
pub struct CensusGroup {
    pub service_group: ServiceGroup,
    pub population: Vec<CensusMember>,
    pub me: Option<CensusMember>,
    pub leader: Option<CensusMember>,
    pub update_leader: Option<CensusMember>,
    pub election_status: ElectionStatus,
    pub update_election_status: ElectionStatus,
}

/// The census of every known service group.
#[derive(Debug)]
pub struct CensusRing {
    pub groups: Vec<CensusGroup>,
}

/// The leader of a group, or else its first member (`first` is populated
/// from all members, alive or not).
pub open spec fn first_member(g: CensusGroup) -> Option<CensusMember> {
    match g.leader {
        Some(m) => Some(m),
        None => if g.population@.len() > 0 {
            Some(g.population@[0])
        } else {
            None
        },
    }
}

/// The alive members of `s`, in order.
pub open spec fn alive_members(s: Seq<CensusMember>) -> Seq<CensusMember>
    decreases s.len(),
{
    if s.len() == 0 {
        Seq::empty()
    } else if s.last().alive {
        alive_members(s.drop_last()).push(s.last())
    } else {
        alive_members(s.drop_last())
    }
}

/// The alive members are exactly the members filtered by aliveness, in
/// census order: each one listed is alive, and each alive member is
/// listed.
pub proof fn law_alive_members(s: Seq<CensusMember>)
    ensures
        alive_members(s) == s.filter(|m: CensusMember| m.alive),
        forall|i: int| 0 <= i < alive_members(s).len() ==> (#[trigger] alive_members(s)[i]).alive,
        forall|i: int| 0 <= i < s.len() && (#[trigger] s[i]).alive ==> alive_members(s).contains(s[i]),
        alive_members(s).len() <= s.len(),
    decreases s.len(),
{
    reveal(Seq::filter);
    if s.len() > 0 {
        law_alive_members(s.drop_last());
    }
    assert(alive_members(s) =~= s.filter(|m: CensusMember| m.alive));
    s.filter_lemma(|m: CensusMember| m.alive);
}

/// The first group of `gs` for the service group named `t`.
pub open spec fn group_for(gs: Seq<CensusGroup>, t: Seq<char>) -> Option<CensusGroup>
    decreases gs.len(),
{
    if gs.len() == 0 {
        None
    } else if gs[0].service_group@ == t {
        Some(gs[0])
    } else {
        group_for(gs.drop_first(), t)
    }
}

/// The census group found for a name is the first group of that name;
/// none is found exactly when no group has that name.
pub proof fn law_group_for(gs: Seq<CensusGroup>, t: Seq<char>)
    ensures
        group_for(gs, t) matches Some(g) ==> g.service_group@ == t && exists|i: int|
            0 <= i < gs.len() && gs[i] == g && forall|j: int|
                0 <= j < i ==> (#[trigger] gs[j]).service_group@ != t,
        group_for(gs, t) is None ==> forall|i: int|
            0 <= i < gs.len() ==> (#[trigger] gs[i]).service_group@ != t,
    decreases gs.len(),
{
    if gs.len() > 0 {
        let rest = gs.drop_first();
        law_group_for(rest, t);
        assert forall|j: int| 0 <= j < rest.len() implies #[trigger] rest[j] == gs[j + 1] by {}
        if gs[0].service_group@ == t {
            assert(gs[0] == group_for(gs, t)->0);
        } else {
            if group_for(gs, t) is Some {
                let i = choose|i: int|
                    0 <= i < rest.len() && rest[i] == group_for(gs, t)->0 && forall|j: int|
                        0 <= j < i ==> (#[trigger] rest[j]).service_group@ != t;
                assert(gs[i + 1] == rest[i]);
                assert forall|j: int| 0 <= j < i + 1 implies (#[trigger] gs[j]).service_group@ != t by {
                    if j > 0 {
                        assert(rest[j - 1] == gs[j]);
                    }
                }
            } else {
                assert forall|i: int| 0 <= i < gs.len() implies (#[trigger] gs[i]).service_group@ != t by {
                    if i > 0 {
                        assert(rest[i - 1] == gs[i]);
                    }
                }
            }
        }
    }
}

/// The leader, or else the first of all members, of a census group.
pub fn select_first(census_group: &CensusGroup) -> (r: Option<CensusMember>)
    ensures
        r == first_member(*census_group),
        census_group.leader is Some ==> r == census_group.leader,
        census_group.leader is None && census_group.population@.len() > 0 ==> r == Some(
            census_group.population@[0],
        ),
        census_group.leader is None && census_group.population@.len() == 0 ==> r is None,
{
    match &census_group.leader {
        Some(m) => Some(m.clone()),
        None => if census_group.population.len() > 0 {
            Some(census_group.population[0].clone())
        } else {
            None
        },
    }
}

/// The alive members of a census group, in census order.
pub fn active_members(census_group: &CensusGroup) -> (r: Vec<CensusMember>)
    ensures
        r@ == alive_members(census_group.population@),
        r@ == census_group.population@.filter(|m: CensusMember| m.alive),
        forall|i: int| 0 <= i < r@.len() ==> (#[trigger] r@[i]).alive,
        forall|i: int|
            0 <= i < census_group.population@.len() && (#[trigger] census_group.population@[i]).alive
                ==> r@.contains(census_group.population@[i]),
{
    proof {
        law_alive_members(census_group.population@);
    }
    let s = &census_group.population;
    let mut r: Vec<CensusMember> = Vec::new();
    let mut i: usize = 0;
    while i < s.len()
        invariant
            i <= s.len(),
            r@ == alive_members(s@.take(i as int)),
        decreases s.len() - i,
    {
        assert(s@.take(i + 1).drop_last() =~= s@.take(i as int));
        if s[i].alive {
            r.push(s[i].clone());
        }
        i += 1;
    }
    assert(s@.take(s.len() as int) =~= s@);
    r
}

/// Clones an optional member.
fn clone_member(m: &Option<CensusMember>) -> (r: Option<CensusMember>)
    ensures
        r == *m,
{
    match m {
        Some(m) => Some(m.clone()),
        None => None,
    }
}

/// What the template sees of the local service group, under `svc`.
#[derive(Debug)]
pub struct Svc {
    pub service_group: ServiceGroup,
    pub election_status: ElectionStatus,
    pub update_election_status: ElectionStatus,
    pub members: Vec<CensusMember>,
    pub leader: Option<CensusMember>,
    pub update_leader: Option<CensusMember>,
    pub me: CensusMember,
    pub first: CensusMember,
}

/// Which election states hold, as exposed to templates.
#[derive(Clone, Copy, Debug, PartialEq, Eq, Structural)]
pub struct ElectionFlags {
    pub election_is_running: bool,
    pub election_is_no_quorum: bool,
    pub election_is_finished: bool,
    pub update_election_is_running: bool,
    pub update_election_is_no_quorum: bool,
    pub update_election_is_finished: bool,
}

impl Svc {
    /// The template view of a census group. The local member is always
    /// present, and so is `first`, since the local member is a member.
    pub fn new(census_group: &CensusGroup) -> (r: Svc)
        requires
            census_group.me is Some,
            first_member(*census_group) is Some,
        ensures
            r.service_group@ == census_group.service_group@,
            r.election_status == census_group.election_status,
            r.update_election_status == census_group.update_election_status,
            r.members@ == alive_members(census_group.population@),
            r.members@ == census_group.population@.filter(|m: CensusMember| m.alive),
            r.leader == census_group.leader,
            r.update_leader == census_group.update_leader,
            Some(r.me) == census_group.me,
            Some(r.first) == first_member(*census_group),
            census_group.leader is Some ==> r.first == census_group.leader->0,
            census_group.leader is None ==> r.first == census_group.population@[0],
    {
        let me = match &census_group.me {
            Some(m) => m.clone(),
            None => unreached(),
        };
        let first = match select_first(census_group) {
            Some(m) => m,
            None => unreached(),
        };
        Svc {
            service_group: census_group.service_group.clone(),
            election_status: census_group.election_status,
            update_election_status: census_group.update_election_status,
            members: active_members(census_group),
            leader: clone_member(&census_group.leader),
            update_leader: clone_member(&census_group.update_leader),
            me,
            first,
        }
    }

    /// Which election states hold for this group.
    pub fn election_flags(&self) -> (r: ElectionFlags)
        ensures
            r.election_is_running == (self.election_status == ElectionStatus::ElectionInProgress),
            r.election_is_no_quorum == (self.election_status == ElectionStatus::ElectionNoQuorum),
            r.election_is_finished == (self.election_status == ElectionStatus::ElectionFinished),
            r.update_election_is_running == (self.update_election_status
                == ElectionStatus::ElectionInProgress),
            r.update_election_is_no_quorum == (self.update_election_status
                == ElectionStatus::ElectionNoQuorum),
            r.update_election_is_finished == (self.update_election_status
                == ElectionStatus::ElectionFinished),
    {
        ElectionFlags {
            election_is_running: self.election_status == ElectionStatus::ElectionInProgress,
            election_is_no_quorum: self.election_status == ElectionStatus::ElectionNoQuorum,
            election_is_finished: self.election_status == ElectionStatus::ElectionFinished,
            update_election_is_running: self.update_election_status
                == ElectionStatus::ElectionInProgress,
            update_election_is_no_quorum: self.update_election_status
                == ElectionStatus::ElectionNoQuorum,
            update_election_is_finished: self.update_election_status
                == ElectionStatus::ElectionFinished,
        }
    }
}

impl CensusRing {
    /// The census group of the service group `service_group`, if known.
    pub fn census_group_for(&self, service_group: &ServiceGroup) -> (r: Option<&CensusGroup>)
        ensures
            match r {
                Some(g) => group_for(self.groups@, service_group@) == Some(*g),
                None => group_for(self.groups@, service_group@) is None,
            },
            r matches Some(g) ==> g.service_group@ == service_group@ && exists|i: int|
                0 <= i < self.groups@.len() && self.groups@[i] == *g && forall|j: int|
                    0 <= j < i ==> (#[trigger] self.groups@[j]).service_group@ != service_group@,
            r is None ==> forall|i: int|
                0 <= i < self.groups@.len() ==> (#[trigger] self.groups@[i]).service_group@
                    != service_group@,
    {
        proof {
            law_group_for(self.groups@, service_group@);
        }
        let gs = &self.groups;
        let mut i: usize = 0;
        assert(gs@.skip(0) =~= gs@);
        while i < gs.len()
            invariant
                i <= gs.len(),
                gs@ == self.groups@,
                group_for(gs@, service_group@) == group_for(gs@.skip(i as int), service_group@),
            decreases gs.len() - i,
        {
            assert(gs@.skip(i as int).drop_first() =~= gs@.skip(i + 1));
            assert(gs@.skip(i as int)[0] == gs@[i as int]);
            if text_eq(gs[i].service_group.as_str(), service_group.as_str()) {
                proof {
                    law_group_for(self.groups@, service_group@);
                }
                return Some(&gs[i]);
            }
            i += 1;
        }
        None
    }
}

/// What the template sees of a bound group.
pub struct BindGroupView {
    pub first: Option<CensusMember>,
    pub leader: Option<CensusMember>,
    pub members: Seq<CensusMember>,
}

/// What the template sees of the census group `g`: its leader or first
/// member, its leader, and its alive members.
pub open spec fn bind_group_of(g: CensusGroup) -> BindGroupView {
    BindGroupView { first: first_member(g), leader: g.leader, members: alive_members(g.population@) }
}

/// A bound group as exposed to templates.
#[derive(Clone, Debug)]
pub struct BindGroup {
    pub first: Option<CensusMember>,
    pub leader: Option<CensusMember>,
    pub members: Vec<CensusMember>,
}

impl View for BindGroup {
    type V = BindGroupView;

    open spec fn view(&self) -> BindGroupView {
        BindGroupView { first: self.first, leader: self.leader, members: self.members@ }
    }
}

impl BindGroup {
    pub fn new(group: &CensusGroup) -> (r: BindGroup)
        ensures
            r@ == bind_group_of(*group),
            r.leader == group.leader,
            r.first == (match group.leader {
                Some(l) => Some(l),
                None => if group.population@.len() > 0 {
                    Some(group.population@[0])
                } else {
                    None
                },
            }),
            r.members@ == group.population@.filter(|m: CensusMember| m.alive),
    {
        proof {
            law_alive_members(group.population@);
        }
        BindGroup {
            first: select_first(group),
            leader: clone_member(&group.leader),
            members: active_members(group),
        }
    }
}

/// The names of `es`, in strictly increasing order.
pub open spec fn sorted_by_name(es: Seq<(Seq<char>, BindGroupView)>) -> bool {
    forall|i: int, j: int| 0 <= i < j < es.len() ==> text_less(#[trigger] es[i].0, #[trigger] es[j].0)
}

/// `es` holds an entry named `k`.
pub open spec fn has_name(es: Seq<(Seq<char>, BindGroupView)>, k: Seq<char>) -> bool {
    exists|j: int| 0 <= j < es.len() && #[trigger] es[j].0 == k
}

/// The entries of `es` as a map from name to group.
pub open spec fn entries_map(es: Seq<(Seq<char>, BindGroupView)>) -> Map<Seq<char>, BindGroupView> {
    Map::new(
        |k: Seq<char>| has_name(es, k),
        |k: Seq<char>| es[choose|j: int| 0 <= j < es.len() && #[trigger] es[j].0 == k].1,
    )
}

/// In sorted entries, the entry named `es[j].0` is `es[j]`.
proof fn lemma_entries_map_at(es: Seq<(Seq<char>, BindGroupView)>, j: int)
    requires
        sorted_by_name(es),
        0 <= j < es.len(),
    ensures
        entries_map(es).contains_key(es[j].0),
        entries_map(es)[es[j].0] == es[j].1,
{
    let k = es[j].0;
    assert(has_name(es, k));
    let c = choose|c: int| 0 <= c < es.len() && #[trigger] es[c].0 == k;
    lemma_text_less_irreflexive(k);
    if c < j {
        assert(text_less(es[c].0, es[j].0));
    } else if c > j {
        assert(text_less(es[j].0, es[c].0));
    }
    assert(c == j);
}

/// The map a sequence of binds yields: later binds of the same name win,
/// and binds whose service group has no census group are left out.
pub open spec fn binds_model(bs: Seq<ServiceBind>, gs: Seq<CensusGroup>) -> Map<
    Seq<char>,
    BindGroupView,
>
    decreases bs.len(),
{
    if bs.len() == 0 {
        Map::empty()
    } else {
        let m = binds_model(bs.drop_last(), gs);
        match group_for(gs, bs.last()@.1) {
            Some(g) => m.insert(bs.last()@.0, bind_group_of(g)),
            None => m,
        }
    }
}

/// The bound groups of a service, keyed and ordered by bind name.
#[derive(Debug)]
pub struct Binds {
    entries: Vec<(String, BindGroup)>,
}

/// The names and views of a sequence of entries.
pub open spec fn entries_view(es: Seq<(String, BindGroup)>) -> Seq<(Seq<char>, BindGroupView)> {
    es.map_values(|e: (String, BindGroup)| (e.0@, e.1@))
}

impl View for Binds {
    /// The entries, in order of name.
    type V = Seq<(Seq<char>, BindGroupView)>;

    closed spec fn view(&self) -> Seq<(Seq<char>, BindGroupView)> {
        entries_view(self.entries@)
    }
}

impl Binds {
    /// Entries stay ordered by name, each name once.
    #[verifier::type_invariant]
    spec fn ordered(self) -> bool {
        sorted_by_name(entries_view(self.entries@))
    }

    /// Binds with no entry.
    pub fn empty() -> (r: Binds)
        ensures
            r@ == Seq::<(Seq<char>, BindGroupView)>::empty(),
    {
        let r = Binds { entries: Vec::new() };
        assert(entries_view(r.entries@) =~= Seq::<(Seq<char>, BindGroupView)>::empty());
        r
    }

    /// The entries are ordered by name, each name once.
    pub fn len(&self) -> (r: usize)
        ensures
            r == self@.len(),
            sorted_by_name(self@),
    {
        proof {
            use_type_invariant(self);
        }
        self.entries.len()
    }

    /// The `i`-th entry in order of name.
    pub fn entry(&self, i: usize) -> (r: (&str, &BindGroup))
        requires
            i < self@.len(),
        ensures
            (r.0@, r.1@) == self@[i as int],
    {
        let e = &self.entries[i];
        (e.0.as_str(), &e.1)
    }

    /// The group recorded under `name`, if any.
    pub fn get(&self, name: &str) -> (r: Option<&BindGroup>)
        ensures
            match r {
                Some(g) => entries_map(self@).contains_key(name@) && entries_map(self@)[name@]
                    == g@,
                None => !entries_map(self@).contains_key(name@),
            },
    {
        proof {
            use_type_invariant(self);
        }
        let (i, found) = self.position(name);
        if found {
            proof {
                lemma_entries_map_at(self@, i as int);
            }
            Some(&self.entries[i].1)
        } else {
            proof {
                if has_name(self@, name@) {
                    let j = choose|j: int| 0 <= j < self@.len() && #[trigger] self@[j].0 == name@;
                    lemma_text_less_irreflexive(name@);
                    if j < i {
                        assert(text_less(self@[j].0, name@));
                    } else {
                        if j > i {
                            assert(text_less(self@[i as int].0, self@[j].0));
                            lemma_text_less_transitive(name@, self@[i as int].0, name@);
                        }
                    }
                }
            }
            None
        }
    }

    /// Where `name` stands or would stand among the entries, and whether
    /// it is there.
    fn position(&self, name: &str) -> (r: (usize, bool))
        ensures
            r.0 <= self@.len(),
            forall|k: int| 0 <= k < r.0 ==> text_less(#[trigger] self@[k].0, name@),
            r.1 ==> r.0 < self@.len() && self@[r.0 as int].0 == name@,
            !r.1 ==> r.0 == self@.len() || text_less(name@, self@[r.0 as int].0),
    {
        let mut i: usize = 0;
        while i < self.entries.len()
            invariant
                i <= self.entries.len(),
                forall|k: int| 0 <= k < i ==> text_less(#[trigger] self@[k].0, name@),
            decreases self.entries.len() - i,
        {
            match compare_text(self.entries[i].0.as_str(), name) {
                TextOrder::Less => {
                    i += 1;
                },
                TextOrder::Equal => {
                    return (i, true);
                },
                TextOrder::Greater => {
                    return (i, false);
                },
            }
        }
        (i, false)
    }

    /// Records `group` under `name`, replacing any group recorded under it.
    pub fn insert(&mut self, name: String, group: BindGroup)
        ensures
            entries_map(final(self)@) == entries_map(old(self)@).insert(name@, group@),
    {
        proof {
            use_type_invariant(&*self);
        }
        let ghost old_es = self@;
        let (i, found) = self.position(name.as_str());
        let ghost e = (name@, group@);
        let ghost new_es = if found {
            old_es.update(i as int, e)
        } else {
            old_es.insert(i as int, e)
        };
        proof {
            assert forall|a: int, b: int| 0 <= a < b < new_es.len() implies text_less(
                #[trigger] new_es[a].0,
                #[trigger] new_es[b].0,
            ) by {
                if found {
                    if b == i {
                        assert(text_less(old_es[a].0, name@));
                    } else if a == i {
                        assert(text_less(old_es[a].0, old_es[b].0));
                    } else {
                        assert(text_less(old_es[a].0, old_es[b].0));
                    }
                } else {
                    if b == i {
                        assert(text_less(old_es[a].0, name@));
                    } else if a == i {
                        assert(text_less(name@, old_es[i as int].0));
                        if b - 1 > i {
                            assert(text_less(old_es[i as int].0, old_es[b - 1].0));
                            lemma_text_less_transitive(name@, old_es[i as int].0, old_es[b - 1].0);
                        }
                    } else if b < i {
                        assert(text_less(old_es[a].0, old_es[b].0));
                    } else if a < i {
                        assert(text_less(old_es[a].0, old_es[b - 1].0));
                    } else {
                        assert(text_less(old_es[a - 1].0, old_es[b - 1].0));
                    }
                }
            }
            let m_old = entries_map(old_es);
            let m_new = entries_map(new_es);
            let expected = m_old.insert(name@, group@);
            assert forall|k: Seq<char>| #[trigger] m_new.contains_key(k) == expected.contains_key(
                k,
            ) && (m_new.contains_key(k) ==> m_new[k] == expected[k]) by {
                if k == name@ {
                    assert(new_es[i as int] == e);
                    lemma_entries_map_at(new_es, i as int);
                } else {
                    if has_name(new_es, k) {
                        let j = choose|j: int| 0 <= j < new_es.len() && #[trigger] new_es[j].0 == k;
                        let oj = if found || j < i {
                            j
                        } else {
                            j - 1
                        };
                        assert(old_es[oj] == new_es[j]);
                        lemma_entries_map_at(new_es, j);
                        lemma_entries_map_at(old_es, oj);
                    }
                    if has_name(old_es, k) {
                        let j = choose|j: int| 0 <= j < old_es.len() && #[trigger] old_es[j].0 == k;
                        let nj = if found || j < i {
                            j
                        } else {
                            j + 1
                        };
                        assert(new_es[nj] == old_es[j]);
                    }
                }
            }
            assert(m_new =~= expected);
        }
        let mut es: Vec<(String, BindGroup)> = Vec::new();
        std::mem::swap(&mut es, &mut self.entries);
        if found {
            es.set(i, (name, group));
        } else {
            es.insert(i, (name, group));
        }
        assert(entries_view(es@) =~= new_es);
        self.entries = es;
    }

    /// The bound groups of `bindings`: for each bind whose service group
    /// has a census group, its name mapped to that group; a later bind of
    /// the same name replaces an earlier one.
    pub fn new(bindings: &Vec<ServiceBind>, census: &CensusRing) -> (r: Binds)
        ensures
            entries_map(r@) == binds_model(bindings@, census.groups@),
            sorted_by_name(r@),
    {
        let mut binds = Binds::empty();
        let mut i: usize = 0;
        proof {
            assert(entries_map(binds@) =~= Map::<Seq<char>, BindGroupView>::empty());
        }
        while i < bindings.len()
            invariant
                i <= bindings.len(),
                entries_map(binds@) == binds_model(bindings@.take(i as int), census.groups@),
            decreases bindings.len() - i,
        {
            let bind = &bindings[i];
            assert(bindings@.take(i + 1).drop_last() =~= bindings@.take(i as int));
            match census.census_group_for(bind.service_group()) {
                Some(group) => {
                    binds.insert(String::from_str(bind.name()), BindGroup::new(group));
                },
                None => {},
            }
            i += 1;
        }
        assert(bindings@.take(bindings.len() as int) =~= bindings@);
        proof {
            use_type_invariant(&binds);
        }
        binds
    }
}

/// What templates see of a service: its own census group, under `svc`,
/// and the groups bound to it, under `bind`.
#[derive(Debug)]
pub struct RenderContext {
    pub svc: Svc,
    pub bind: Binds,
}

impl RenderContext {
    /// The context for the service group `service_group`, whose census
    /// group must be known and hold the local member, and whose binds are
    /// `bindings`.
    pub fn new(service_group: &ServiceGroup, census: &CensusRing, bindings: &Vec<ServiceBind>) -> (r:
        RenderContext)
        requires
            group_for(census.groups@, service_group@) matches Some(g) && g.me is Some
                && first_member(g) is Some,
        ensures
            ({
                let g = group_for(census.groups@, service_group@)->0;
                &&& r.svc.service_group@ == g.service_group@
                &&& r.svc.election_status == g.election_status
                &&& r.svc.update_election_status == g.update_election_status
                &&& r.svc.members@ == alive_members(g.population@)
                &&& r.svc.leader == g.leader
                &&& r.svc.update_leader == g.update_leader
                &&& Some(r.svc.me) == g.me
                &&& Some(r.svc.first) == first_member(g)
            }),
            entries_map(r.bind@) == binds_model(bindings@, census.groups@),
            sorted_by_name(r.bind@),
    {
        let census_group = match census.census_group_for(service_group) {
            Some(g) => g,
            None => unreached(),
        };
        RenderContext { svc: Svc::new(census_group), bind: Binds::new(bindings, census) }
    }

    /// The name of the service group this context is for.
    pub fn service_group_name(&self) -> (r: String)
        ensures
            r@ == self.svc.service_group@,
    {
        self.svc.service_group.to_string()
    }
}

/// What a read gives back of a write: after `insert(name, group)` turned
/// `before` into `after`, `get(name)` gives `group` and `get` of every
/// other name gives what it gave before.
pub proof fn law_insert_then_get(
    before: Binds,
    after: Binds,
    name: Seq<char>,
    group: BindGroupView,
    other: Seq<char>,
)
    requires
        entries_map(after@) == entries_map(before@).insert(name, group),
        other != name,
    ensures
        entries_map(after@).contains_key(name),
        entries_map(after@)[name] == group,
        entries_map(after@).contains_key(other) == entries_map(before@).contains_key(other),
        entries_map(before@).contains_key(other) ==> entries_map(after@)[other] == entries_map(
            before@,
        )[other],
{
}

/// `v` shows the census group `g`: its leader as leader, the leader (or
/// else the first of all members) as first, and its alive members in
/// census order.
pub open spec fn shows_group(v: BindGroupView, g: CensusGroup) -> bool {
    &&& v.leader == g.leader
    &&& v.first == (match g.leader {
        Some(l) => Some(l),
        None => if g.population@.len() > 0 {
            Some(g.population@[0])
        } else {
            None
        },
    })
    &&& v.members == g.population@.filter(|m: CensusMember| m.alive)
}

/// Every bound name comes from a bind whose service group has a census
/// group, the last such bind of that name, and is bound to what that
/// census group shows; and every bind whose service group has a census
/// group binds its name.
pub proof fn law_bound_groups_show_census_groups(bs: Seq<ServiceBind>, gs: Seq<CensusGroup>, k: Seq<char>)
    ensures
        binds_model(bs, gs).contains_key(k) ==> exists|i: int|
            #![trigger bs[i]]
            0 <= i < bs.len() && bs[i]@.0 == k && group_for(gs, bs[i]@.1) is Some && shows_group(
                binds_model(bs, gs)[k],
                group_for(gs, bs[i]@.1)->0,
            ) && forall|j: int|
                i < j < bs.len() && #[trigger] bs[j]@.0 == k ==> group_for(gs, bs[j]@.1) is None,
        forall|i: int|
            0 <= i < bs.len() && #[trigger] bs[i]@.0 == k && group_for(gs, bs[i]@.1) is Some
                ==> binds_model(bs, gs).contains_key(k),
    decreases bs.len(),
{
    if bs.len() > 0 {
        let init = bs.drop_last();
        let n = bs.len() - 1;
        law_bound_groups_show_census_groups(init, gs, k);
        assert forall|i: int| 0 <= i < init.len() implies #[trigger] init[i] == bs[i] by {}
        let m = binds_model(bs, gs);
        if bs[n]@.0 == k && group_for(gs, bs[n]@.1) is Some {
            let g = group_for(gs, bs[n]@.1)->0;
            law_alive_members(g.population@);
            assert(shows_group(m[k], g));
            assert(bs[n]@.0 == k);
        } else if m.contains_key(k) {
            let i = choose|i: int|
                #![trigger init[i]]
                0 <= i < init.len() && init[i]@.0 == k && group_for(gs, init[i]@.1) is Some
                    && shows_group(binds_model(init, gs)[k], group_for(gs, init[i]@.1)->0)
                    && forall|j: int|
                    i < j < init.len() && #[trigger] init[j]@.0 == k ==> group_for(gs, init[j]@.1) is None;
            assert(bs[i] == init[i]);
            assert forall|j: int| i < j < bs.len() && #[trigger] bs[j]@.0 == k implies group_for(
                gs,
                bs[j]@.1,
            ) is None by {
                if j < n {
                    assert(init[j] == bs[j]);
                }
            }
        }
        assert forall|i: int|
            0 <= i < bs.len() && #[trigger] bs[i]@.0 == k && group_for(gs, bs[i]@.1) is Some
                implies m.contains_key(k) by {
            if i < n {
                assert(init[i] == bs[i]);
            }
        }
    }
}

/// No two binds of `bs` share a name.
pub open spec fn names_distinct(bs: Seq<ServiceBind>) -> bool {
    forall|i: int, j: int| 0 <= i < j < bs.len() ==> #[trigger] bs[i]@.0 != #[trigger] bs[j]@.0
}

/// For binds with distinct names, a name is bound exactly when some bind
/// of that name has a census group, and then to that group.
proof fn lemma_binds_model_distinct(bs: Seq<ServiceBind>, gs: Seq<CensusGroup>, k: Seq<char>)
    requires
        names_distinct(bs),
    ensures
        binds_model(bs, gs).contains_key(k) <==> exists|i: int|
            0 <= i < bs.len() && #[trigger] bs[i]@.0 == k && group_for(gs, bs[i]@.1) is Some,
        forall|i: int|
            0 <= i < bs.len() && #[trigger] bs[i]@.0 == k && group_for(gs, bs[i]@.1) is Some
                ==> binds_model(bs, gs)[k] == bind_group_of(group_for(gs, bs[i]@.1)->0),
    decreases bs.len(),
{
    if bs.len() > 0 {
        let init = bs.drop_last();
        assert(names_distinct(init)) by {
            assert forall|i: int, j: int| 0 <= i < j < init.len() implies #[trigger] init[i]@.0
                != #[trigger] init[j]@.0 by {
                assert(init[i] == bs[i] && init[j] == bs[j]);
            }
        }
        lemma_binds_model_distinct(init, gs, k);
        let n = bs.len() - 1;
        assert forall|i: int| 0 <= i < init.len() implies #[trigger] init[i] == bs[i] by {}
        if bs[n]@.0 == k {
            assert forall|i: int| 0 <= i < init.len() implies #[trigger] init[i]@.0 != k by {
                assert(bs[i]@.0 != bs[n]@.0);
            }
        }
        if exists|i: int|
            0 <= i < bs.len() && #[trigger] bs[i]@.0 == k && group_for(gs, bs[i]@.1) is Some {
            let i = choose|i: int|
                0 <= i < bs.len() && #[trigger] bs[i]@.0 == k && group_for(gs, bs[i]@.1) is Some;
            if i < n {
                assert(init[i]@.0 == k);
            }
        }
    }
}

/// Binds with distinct names give the same bound groups in whatever order
/// they come.
pub proof fn law_binds_order_independent(
    bs1: Seq<ServiceBind>,
    bs2: Seq<ServiceBind>,
    gs: Seq<CensusGroup>,
)
    requires
        names_distinct(bs1),
        names_distinct(bs2),
        forall|b: ServiceBind| bs1.contains(b) <==> bs2.contains(b),
    ensures
        binds_model(bs1, gs) == binds_model(bs2, gs),
{
    let m1 = binds_model(bs1, gs);
    let m2 = binds_model(bs2, gs);
    assert forall|k: Seq<char>| #[trigger] m1.contains_key(k) == m2.contains_key(k) && (
    m1.contains_key(k) ==> m1[k] == m2[k]) by {
        lemma_binds_model_distinct(bs1, gs, k);
        lemma_binds_model_distinct(bs2, gs, k);
        if m1.contains_key(k) {
            let i = choose|i: int|
                0 <= i < bs1.len() && #[trigger] bs1[i]@.0 == k && group_for(gs, bs1[i]@.1) is Some;
            assert(bs1.contains(bs1[i]));
            let j = choose|j: int| 0 <= j < bs2.len() && bs2[j] == bs1[i];
            assert(bs2[j]@.0 == k);
        }
        if m2.contains_key(k) {
            let j = choose|j: int|
                0 <= j < bs2.len() && #[trigger] bs2[j]@.0 == k && group_for(gs, bs2[j]@.1) is Some;
            assert(bs2.contains(bs2[j]));
            let i = choose|i: int| 0 <= i < bs1.len() && bs1[i] == bs2[j];
            assert(bs1[i]@.0 == k);
        }
    }
    assert(m1 =~= m2);
}

/// `a` and `b` hold the same first `n` entries.
spec fn agree_upto(a: Seq<(Seq<char>, BindGroupView)>, b: Seq<(Seq<char>, BindGroupView)>, n: int) -> bool {
    forall|m: int| 0 <= m < n ==> m < b.len() && #[trigger] a[m] === b[m]
}

/// Two sorted entry sequences with the same map agree at position `i` once
/// they agree before it.
proof fn lemma_same_at(
    a: Seq<(Seq<char>, BindGroupView)>,
    b: Seq<(Seq<char>, BindGroupView)>,
    i: int,
)
    requires
        sorted_by_name(a),
        sorted_by_name(b),
        entries_map(a) == entries_map(b),
        0 <= i < a.len(),
        agree_upto(a, b, i),
    ensures
        i < b.len(),
        a[i] == b[i],
{
    let x = a[i].0;
    lemma_entries_map_at(a, i);
    assert(has_name(b, x));
    let j = choose|j: int| 0 <= j < b.len() && #[trigger] b[j].0 == x;
    lemma_text_less_irreflexive(x);
    if j < i {
        assert(a[j] == b[j]);
        assert(text_less(a[j].0, a[i].0));
    }
    if j > i {
        let y = b[i].0;
        assert(text_less(b[i].0, b[j].0));
        lemma_entries_map_at(b, i);
        assert(has_name(a, y));
        let l = choose|l: int| 0 <= l < a.len() && #[trigger] a[l].0 == y;
        lemma_text_less_irreflexive(y);
        if l < i {
            assert(a[l] == b[l]);
            assert(text_less(b[l].0, b[i].0));
        } else if l > i {
            assert(text_less(a[i].0, a[l].0));
            lemma_text_less_total(x, y);
        }
    }
    lemma_entries_map_at(b, i);
}

/// Two sorted entry sequences with the same map agree on their first `n`
/// entries.
proof fn lemma_same_prefix(
    a: Seq<(Seq<char>, BindGroupView)>,
    b: Seq<(Seq<char>, BindGroupView)>,
    n: int,
)
    requires
        sorted_by_name(a),
        sorted_by_name(b),
        entries_map(a) == entries_map(b),
        0 <= n <= a.len(),
    ensures
        agree_upto(a, b, n),
    decreases n,
{
    if n > 0 {
        lemma_same_prefix(a, b, n - 1);
        lemma_same_at(a, b, n - 1);
    }
}

/// The bound groups determine the output: entries sorted by name that map
/// names to the same groups are the same entries, in the same order, so
/// every rendering of them is the same.
pub proof fn law_binds_output_determined(
    a: Seq<(Seq<char>, BindGroupView)>,
    b: Seq<(Seq<char>, BindGroupView)>,
)
    requires
        sorted_by_name(a),
        sorted_by_name(b),
        entries_map(a) == entries_map(b),
    ensures
        a == b,
{
    lemma_same_prefix(a, b, a.len() as int);
    lemma_same_prefix(b, a, b.len() as int);
    if a.len() < b.len() {
        lemma_same_at(b, a, a.len() as int);
    } else if b.len() < a.len() {
        lemma_same_at(a, b, b.len() as int);
    }
    assert(a =~= b);
}

/// `Binds::new` gives the same entries, in the same order, for binds with
/// distinct names in whatever order they come: the output is consistent.
pub proof fn law_binds_new_order_independent(
    bs1: Seq<ServiceBind>,
    bs2: Seq<ServiceBind>,
    census: CensusRing,
    r1: Binds,
    r2: Binds,
)
    requires
        names_distinct(bs1),
        names_distinct(bs2),
        forall|b: ServiceBind| bs1.contains(b) <==> bs2.contains(b),
        entries_map(r1@) == binds_model(bs1, census.groups@),
        sorted_by_name(r1@),
        entries_map(r2@) == binds_model(bs2, census.groups@),
        sorted_by_name(r2@),
    ensures
        r1@ == r2@,
{
    law_binds_order_independent(bs1, bs2, census.groups@);
    law_binds_output_determined(r1@, r2@);
}

} // verus!

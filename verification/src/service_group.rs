//! Service groups: names of the form `service.group` or
//! `service.group@organization`.
//!
//! For backward compatibility a name may also carry a leading
//! `application.environment#` part, which is accepted and ignored.

use crate::error::Error;
use crate::text::{chars_of, find_char, first_at_or_after, lacks, lemma_first_occurrence,
    lemma_holds_separator, lemma_split_at_first, opt_index};
use vstd::prelude::*;

verus! {

/// A character that may stand in a service, group or organization name.
pub open spec fn is_segment_char(c: char) -> bool {
    c != '#' && c != '@' && c != '.'
}

/// A non-empty service, group or organization name.
pub open spec fn is_segment(s: Seq<char>) -> bool {
    s.len() > 0 && forall|i: int| 0 <= i < s.len() ==> is_segment_char(#[trigger] s[i])
}

/// A non-empty legacy `application.environment` prefix: it may hold
/// periods, but neither `#` nor `@`.
pub open spec fn is_app_env(s: Seq<char>) -> bool {
    s.len() > 0 && lacks(s, '#') && lacks(s, '@')
}

/// `@organization`, or nothing.
pub open spec fn org_suffix(org: Option<Seq<char>>) -> Seq<char> {
    match org {
        Some(o) => seq!['@'] + o,
        None => Seq::empty(),
    }
}

/// `application.environment#`, or nothing.
pub open spec fn app_env_prefix(app_env: Option<Seq<char>>) -> Seq<char> {
    match app_env {
        Some(a) => a + seq!['#'],
        None => Seq::empty(),
    }
}

/// The text `service.group` or `service.group@organization`.
pub open spec fn sg_text(service: Seq<char>, group: Seq<char>, org: Option<Seq<char>>) -> Seq<
    char,
> {
    service + seq!['.'] + group + org_suffix(org)
}

/// The view of an optional string slice.
pub open spec fn opt_view(o: Option<&str>) -> Option<Seq<char>> {
    match o {
        Some(s) => Some(s@),
        None => None,
    }
}

/// The parts of a service-group text.
pub struct SgParts {
    pub app_env: Option<Seq<char>>,
    pub service: Seq<char>,
    pub group: Seq<char>,
    pub org: Option<Seq<char>>,
}

impl SgParts {
    /// Every part is a well-formed name.
    pub open spec fn is_well_formed(self) -> bool {
        &&& match self.app_env {
            Some(a) => is_app_env(a),
            None => true,
        }
        &&& is_segment(self.service)
        &&& is_segment(self.group)
        &&& match self.org {
            Some(o) => is_segment(o),
            None => true,
        }
    }

    /// The name without the legacy prefix.
    pub open spec fn name(self) -> Seq<char> {
        sg_text(self.service, self.group, self.org)
    }

    /// The full text these parts spell.
    pub open spec fn text(self) -> Seq<char> {
        app_env_prefix(self.app_env) + self.name()
    }
}

/// `s` is spelled by the well-formed parts `p`.
pub open spec fn parses_as(s: Seq<char>, p: SgParts) -> bool {
    p.is_well_formed() && p.text() == s
}

/// `s` is a service group: `[application.environment#]service.group[@organization]`,
/// where service, group and organization are non-empty and hold none of
/// `#`, `@`, `.`, and the prefix is non-empty and holds neither `#` nor `@`.
pub open spec fn is_valid_service_group(s: Seq<char>) -> bool {
    exists|p: SgParts| parses_as(s, p)
}

/// The parts of a service group (unique, see `lemma_parts_unique`).
pub open spec fn sg_parts(s: Seq<char>) -> SgParts
    recommends
        is_valid_service_group(s),
{
    choose|p: SgParts| parses_as(s, p)
}

/// The canonical text of a valid service group: its name without the
/// legacy prefix.
pub open spec fn canonical_sg_text(s: Seq<char>) -> Seq<char> {
    sg_parts(s).name()
}

/// The name built from well-formed parts holds no `#`.
proof fn lemma_name_lacks_hash(p: SgParts)
    requires
        p.is_well_formed(),
    ensures
        lacks(p.name(), '#'),
{
    let n = p.name();
    assert forall|i: int| 0 <= i < n.len() implies n[i] != '#' by {
        let sl = p.service.len() as int;
        let gl = p.group.len() as int;
        if i < sl {
            assert(n[i] == p.service[i]);
        } else if i == sl {
        } else if i < sl + 1 + gl {
            assert(n[i] == p.group[i - sl - 1]);
        } else {
            match p.org {
                Some(o) => {
                    if i > sl + 1 + gl {
                        assert(n[i] == o[i - sl - 2 - gl]);
                    }
                },
                None => {},
            }
        }
    }
}

/// Where the first `#` stands determines the legacy prefix.
proof fn lemma_hash_position(s: Seq<char>, p: SgParts, h: Option<int>)
    requires
        parses_as(s, p),
        first_at_or_after(s, 0, '#', h),
    ensures
        match h {
            Some(i) => p.app_env == Some(s.subrange(0, i)) && p.name() == s.subrange(
                i + 1,
                s.len() as int,
            ),
            None => p.app_env is None && p.name() == s,
        },
{
    lemma_name_lacks_hash(p);
    match p.app_env {
        Some(a) => {
            assert(s == a + seq!['#'] + p.name());
            match h {
                Some(i) => {
                    lemma_split_at_first(s, '#', a, p.name(), i);
                },
                None => {
                    lemma_holds_separator(s, '#', a, p.name(), 0);
                    assert(s.subrange(0, s.len() as int) =~= s);
                },
            }
        },
        None => {
            assert(s =~= p.name());
            match h {
                Some(i) => {
                    assert(s[i] == '#');
                },
                None => {},
            }
        },
    }
}

/// Where the first `.` after the prefix stands determines the service.
proof fn lemma_dot_position(s: Seq<char>, p: SgParts, start: int, d: Option<int>)
    requires
        p.is_well_formed(),
        0 <= start <= s.len(),
        s.subrange(start, s.len() as int) == p.name(),
        first_at_or_after(s, start, '.', d),
    ensures
        d is Some,
        p.service == s.subrange(start, d->0),
        p.group + org_suffix(p.org) == s.subrange(d->0 + 1, s.len() as int),
{
    let r = s.subrange(start, s.len() as int);
    let tail = p.group + org_suffix(p.org);
    assert(r =~= p.service + seq!['.'] + tail);
    assert(lacks(p.service, '.'));
    match d {
        Some(i) => {
            assert(r.subrange(0, i - start) =~= s.subrange(start, i));
            lemma_split_at_first(r, '.', p.service, tail, i - start);
            assert(r.subrange(i - start + 1, r.len() as int) =~= s.subrange(i + 1, s.len() as int));
        },
        None => {
            lemma_holds_separator(r, '.', p.service, tail, 0);
            assert(r.subrange(0, r.len() as int) =~= r);
        },
    }
}

/// Where the first `@` after the service stands determines group and
/// organization.
proof fn lemma_at_position(s: Seq<char>, p: SgParts, from: int, e: Option<int>)
    requires
        p.is_well_formed(),
        0 <= from <= s.len(),
        s.subrange(from, s.len() as int) == p.group + org_suffix(p.org),
        first_at_or_after(s, from, '@', e),
    ensures
        match e {
            Some(i) => p.group == s.subrange(from, i) && p.org == Some(
                s.subrange(i + 1, s.len() as int),
            ),
            None => p.group == s.subrange(from, s.len() as int) && p.org is None,
        },
{
    let t = s.subrange(from, s.len() as int);
    assert(lacks(p.group, '@'));
    match p.org {
        Some(o) => {
            assert(t =~= p.group + seq!['@'] + o);
            match e {
                Some(i) => {
                    assert(t.subrange(0, i - from) =~= s.subrange(from, i));
                    lemma_split_at_first(t, '@', p.group, o, i - from);
                    assert(t.subrange(i - from + 1, t.len() as int) =~= s.subrange(
                        i + 1,
                        s.len() as int,
                    ));
                },
                None => {
                    lemma_holds_separator(t, '@', p.group, o, 0);
                    assert(t.subrange(0, t.len() as int) =~= t);
                },
            }
        },
        None => {
            assert(t =~= p.group);
            match e {
                Some(i) => {
                    assert(t[i - from] == '@');
                },
                None => {},
            }
        },
    }
}

/// A service-group text has exactly one decomposition into parts: the
/// service, group, organization and legacy prefix it names are unambiguous.
pub proof fn lemma_parts_unique(s: Seq<char>, p: SgParts, q: SgParts)
    requires
        parses_as(s, p),
        parses_as(s, q),
    ensures
        p == q,
{
    let h = lemma_first_occurrence(s, 0, '#');
    lemma_hash_position(s, p, h);
    lemma_hash_position(s, q, h);
    let start = match h {
        Some(i) => i + 1,
        None => 0,
    };
    assert(s.subrange(start, s.len() as int) == p.name()) by {
        if h is None {
            assert(s.subrange(0, s.len() as int) =~= s);
        }
    }
    let d = lemma_first_occurrence(s, start, '.');
    lemma_dot_position(s, p, start, d);
    lemma_dot_position(s, q, start, d);
    let e = lemma_first_occurrence(s, d->0 + 1, '@');
    lemma_at_position(s, p, d->0 + 1, e);
    lemma_at_position(s, q, d->0 + 1, e);
}

/// A valid service group is spelled by the parts `sg_parts` picks.
pub proof fn lemma_sg_parts(s: Seq<char>)
    requires
        is_valid_service_group(s),
    ensures
        parses_as(s, sg_parts(s)),
{
}

/// Any parts that spell `s` are the parts `sg_parts` picks.
pub proof fn lemma_sg_parts_of(s: Seq<char>, p: SgParts)
    requires
        parses_as(s, p),
    ensures
        sg_parts(s) == p,
{
    lemma_parts_unique(s, sg_parts(s), p);
}

/// Where the separators of a service group stand: the first `#` (if
/// any), the first `.` after it, and the first `@` after that.
pub struct SgPositions {
    pub hash: Option<usize>,
    pub dot: usize,
    pub at: Option<usize>,
}

impl SgPositions {
    /// Index of the first character of the service name.
    pub open spec fn start(self) -> int {
        match self.hash {
            Some(h) => h + 1,
            None => 0,
        }
    }

    /// The parts these positions cut `s` into.
    pub open spec fn parts(self, s: Seq<char>) -> SgParts {
        SgParts {
            app_env: match self.hash {
                Some(h) => Some(s.subrange(0, h as int)),
                None => None,
            },
            service: s.subrange(self.start(), self.dot as int),
            group: s.subrange(
                self.dot + 1,
                match self.at {
                    Some(e) => e as int,
                    None => s.len() as int,
                },
            ),
            org: match self.at {
                Some(e) => Some(s.subrange(e + 1, s.len() as int)),
                None => None,
            },
        }
    }
}

/// Whether `cs[from..to]` is a service, group or organization name.
fn segment_range(cs: &Vec<char>, from: usize, to: usize) -> (r: bool)
    requires
        from <= to <= cs.len(),
    ensures
        r == is_segment(cs@.subrange(from as int, to as int)),
{
    if from == to {
        return false;
    }
    let mut i = from;
    while i < to
        invariant
            from <= i <= to <= cs.len(),
            forall|k: int| from <= k < i ==> is_segment_char(#[trigger] cs@[k]),
        decreases to - i,
    {
        let c = cs[i];
        if c == '#' || c == '@' || c == '.' {
            assert(cs@.subrange(from as int, to as int)[i - from] == c);
            return false;
        }
        i += 1;
    }
    assert forall|k: int| 0 <= k < to - from implies is_segment_char(
        #[trigger] cs@.subrange(from as int, to as int)[k],
    ) by {
        assert(cs@.subrange(from as int, to as int)[k] == cs@[from + k]);
    }
    true
}

/// Whether `cs[0..to]` is a legacy `application.environment` prefix.
fn app_env_range(cs: &Vec<char>, to: usize) -> (r: bool)
    requires
        to <= cs.len(),
    ensures
        r == is_app_env(cs@.subrange(0, to as int)),
{
    if to == 0 {
        return false;
    }
    let mut i: usize = 0;
    while i < to
        invariant
            i <= to <= cs.len(),
            forall|k: int| 0 <= k < i ==> #[trigger] cs@[k] != '#' && cs@[k] != '@',
        decreases to - i,
    {
        let c = cs[i];
        if c == '#' || c == '@' {
            assert(cs@.subrange(0, to as int)[i as int] == c);
            return false;
        }
        i += 1;
    }
    true
}

/// Finds the separators of the service group spelled by `cs`, if it is one.
#[verifier::rlimit(30)]
fn locate(cs: &Vec<char>) -> (r: Option<SgPositions>)
    ensures
        r is Some <==> is_valid_service_group(cs@),
        r matches Some(pos) ==> {
            &&& pos.dot < cs.len()
            &&& pos.start() <= pos.dot
            &&& match pos.at {
                Some(e) => pos.dot < e < cs.len(),
                None => true,
            }
            &&& match pos.hash {
                Some(h) => h < pos.dot,
                None => true,
            }
            &&& sg_parts(cs@) == pos.parts(cs@)
        },
{
    let ghost s = cs@;
    let n = cs.len();
    let hash = find_char(cs, 0, '#');
    let start = match hash {
        Some(h) => h + 1,
        None => 0,
    };
    let dot = match find_char(cs, start, '.') {
        Some(d) => d,
        None => {
            proof {
                assert forall|p: SgParts| !parses_as(s, p) by {
                    if parses_as(s, p) {
                        lemma_hash_position(s, p, opt_index(hash));
                        if hash is None {
                            assert(s.subrange(0, s.len() as int) =~= s);
                        }
                        lemma_dot_position(s, p, start as int, None);
                    }
                }
            }
            return None;
        },
    };
    let at = find_char(cs, dot + 1, '@');
    let pos = SgPositions { hash, dot, at };
    let group_end = match at {
        Some(e) => e,
        None => n,
    };
    let prefix_ok = match hash {
        Some(h) => app_env_range(cs, h),
        None => true,
    };
    let org_ok = match at {
        Some(e) => segment_range(cs, e + 1, n),
        None => true,
    };
    let ok = prefix_ok && segment_range(cs, start, dot) && segment_range(cs, dot + 1, group_end)
        && org_ok;
    proof {
        let c = pos.parts(s);
        // Any decomposition of `s` is the one cut at the first separators.
        assert forall|p: SgParts| parses_as(s, p) implies p == c by {
            lemma_hash_position(s, p, opt_index(hash));
            if hash is None {
                assert(s.subrange(0, s.len() as int) =~= s);
            }
            lemma_dot_position(s, p, start as int, Some(dot as int));
            lemma_at_position(s, p, dot + 1, opt_index(at));
        }
        if ok {
            assert(c.text() =~= s) by {
                match hash {
                    Some(h) => {
                        assert(s =~= s.subrange(0, h as int) + seq!['#'] + s.subrange(
                            h + 1,
                            s.len() as int,
                        ));
                    },
                    None => {},
                }
                assert(s.subrange(start as int, s.len() as int) =~= c.service + seq!['.']
                    + s.subrange(dot + 1, s.len() as int));
                match at {
                    Some(e) => {
                        assert(s.subrange(dot + 1, s.len() as int) =~= c.group + seq!['@']
                            + s.subrange(e + 1, s.len() as int));
                    },
                    None => {},
                }
            }
            assert(parses_as(s, c));
            lemma_sg_parts_of(s, c);
        }
    }
    if ok {
        Some(pos)
    } else {
        None
    }
}

impl SgPositions {
    /// Index of the first character of the service name.
    fn start_index(&self) -> (r: usize)
        requires
            self.hash matches Some(h) ==> h < usize::MAX,
        ensures
            r == self.start(),
    {
        match self.hash {
            Some(h) => h + 1,
            None => 0,
        }
    }
}

/// The canonical form of a valid service group is itself a valid service
/// group, with the same service, group and organization and no prefix.
pub proof fn lemma_canonical_parts(s: Seq<char>)
    requires
        is_valid_service_group(s),
    ensures
        is_valid_service_group(canonical_sg_text(s)),
        sg_parts(canonical_sg_text(s)) == (SgParts { app_env: None, ..sg_parts(s) }),
{
    let p = sg_parts(s);
    let q = SgParts { app_env: None, ..p };
    assert(q.text() =~= p.name());
    assert(parses_as(canonical_sg_text(s), q));
    lemma_sg_parts_of(canonical_sg_text(s), q);
}

/// Parts that are well-formed names spell a valid service group, and are
/// exactly the parts read back from it.
pub proof fn lemma_sg_text_parts(service: Seq<char>, group: Seq<char>, org: Option<Seq<char>>)
    requires
        is_segment(service),
        is_segment(group),
        org matches Some(o) ==> is_segment(o),
    ensures
        is_valid_service_group(sg_text(service, group, org)),
        sg_parts(sg_text(service, group, org)) == (SgParts {
            app_env: None,
            service,
            group,
            org,
        }),
{
    let q = SgParts { app_env: None, service, group, org };
    assert(q.text() =~= sg_text(service, group, org));
    assert(parses_as(sg_text(service, group, org), q));
    lemma_sg_parts_of(sg_text(service, group, org), q);
}

/// Parsing ignores a legacy prefix: for a prefix `a` (non-empty, holding
/// neither `#` nor `@`) and a text `t` without `#`, `a#t` is a service
/// group exactly when `t` is, and both name the same canonical group.
pub proof fn law_legacy_prefix_ignored(app_env: Seq<char>, t: Seq<char>)
    requires
        is_app_env(app_env),
        lacks(t, '#'),
    ensures
        is_valid_service_group(app_env + seq!['#'] + t) == is_valid_service_group(t),
        is_valid_service_group(t) ==> canonical_sg_text(app_env + seq!['#'] + t)
            == canonical_sg_text(t),
{
    let s = app_env + seq!['#'] + t;
    if is_valid_service_group(t) {
        let p = sg_parts(t);
        if p.app_env is Some {
            assert(t[p.app_env->0.len() as int] == '#');
        }
        let q = SgParts { app_env: Some(app_env), ..p };
        assert(t =~= p.name());
        assert(q.text() =~= s);
        assert(parses_as(s, q));
        lemma_sg_parts_of(s, q);
    }
    if is_valid_service_group(s) {
        let q = sg_parts(s);
        let h = lemma_first_occurrence(s, 0, '#');
        lemma_hash_position(s, q, h);
        match h {
            Some(i) => {
                lemma_split_at_first(s, '#', app_env, t, i);
            },
            None => {
                lemma_holds_separator(s, '#', app_env, t, 0);
                assert(s.subrange(0, s.len() as int) =~= s);
            },
        }
        let p = SgParts { app_env: None, ..q };
        assert(p.text() =~= t);
        assert(parses_as(t, p));
    }
}

/// Canonicalizing is idempotent: the canonical text of a service group is
/// a service group whose canonical text is itself.
pub proof fn law_canonical_idempotent(s: Seq<char>)
    requires
        is_valid_service_group(s),
    ensures
        is_valid_service_group(canonical_sg_text(s)),
        canonical_sg_text(canonical_sg_text(s)) == canonical_sg_text(s),
{
    lemma_canonical_parts(s);
}

/// Setting an organization keeps service and group and makes the new
/// organization the one read back.
pub proof fn law_set_org_parts(s: Seq<char>, org: Seq<char>)
    requires
        is_valid_service_group(s),
        is_segment(org),
    ensures
        is_valid_service_group(sg_text(sg_parts(s).service, sg_parts(s).group, Some(org))),
        sg_parts(sg_text(sg_parts(s).service, sg_parts(s).group, Some(org))) == (SgParts {
            app_env: None,
            service: sg_parts(s).service,
            group: sg_parts(s).group,
            org: Some(org),
        }),
{
    lemma_sg_parts(s);
    lemma_sg_text_parts(sg_parts(s).service, sg_parts(s).group, Some(org));
}

/// A name with the organization `org` is a service group only when `org`
/// is itself a name segment.
proof fn lemma_org_must_be_segment(service: Seq<char>, group: Seq<char>, org: Seq<char>)
    requires
        is_segment(service),
        is_segment(group),
        is_valid_service_group(sg_text(service, group, Some(org))),
    ensures
        is_segment(org),
{
    let t = sg_text(service, group, Some(org));
    let q = sg_parts(t);
    let sl = service.len() as int;
    let gl = group.len() as int;
    let at = sl + 1 + gl;
    assert(t[sl] == '.');
    assert(t[at] == '@');
    assert forall|i: int| 0 <= i < sl implies #[trigger] t[i] == service[i] by {}
    assert forall|i: int| sl < i < at implies #[trigger] t[i] == group[i - sl - 1] by {}
    let h = lemma_first_occurrence(t, 0, '#');
    lemma_hash_position(t, q, h);
    match h {
        Some(i) => {
            assert(t[i] == '#');
            if i < sl {
                assert(is_segment_char(service[i]));
            } else if sl < i < at {
                assert(is_segment_char(group[i - sl - 1]));
            }
            assert(i > at);
            let a = q.app_env->0;
            assert(a[at] == '@');
        },
        None => {
            let d = lemma_first_occurrence(t, 0, '.');
            assert(t.subrange(0, t.len() as int) =~= t);
            lemma_dot_position(t, q, 0, d);
            let di = d->0;
            if di < sl {
                assert(t[di] == service[di]);
                assert(is_segment_char(service[di]));
            }
            if di > sl {
                assert(t.subrange(0, di)[sl] == '.');
            }
            assert(di == sl);
            let e = lemma_first_occurrence(t, sl + 1, '@');
            lemma_at_position(t, q, sl + 1, e);
            let ei = e->0;
            if ei < at {
                assert(t[ei] == group[ei - sl - 1]);
                assert(is_segment_char(group[ei - sl - 1]));
            }
            if ei > at {
                assert(t.subrange(sl + 1, ei)[at - sl - 1] == '@');
            }
            assert(ei == at);
            assert(t.subrange(at + 1, t.len() as int) =~= org);
        },
    }
}

/// Formats `service.group` or `service.group@organization`.
fn format(service: &str, group: &str, organization: Option<&str>) -> (r: String)
    ensures
        r@ == sg_text(service@, group@, opt_view(organization)),
{
    let mut r = String::from_str(service);
    r.append(".");
    r.append(group);
    proof {
        reveal_strlit(".");
    }
    match organization {
        Some(org) => {
            r.append("@");
            proof {
                reveal_strlit("@");
                assert(r@ + org@ =~= sg_text(service@, group@, opt_view(organization)));
            }
            r.append(org);
        },
        None => {
            assert(r@ =~= sg_text(service@, group@, opt_view(organization)));
        },
    }
    r
}

/// A service-group name, such as `redis.default` or `redis.default@acme`.
/// `new` and `from_str` build only valid ones; `set_org` with an
/// organization that is not a name segment leaves a text that is not one,
/// whose parts can no longer be read.
#[derive(Debug, PartialEq, Eq, Hash)]
pub struct ServiceGroup(String);

impl Clone for ServiceGroup {
    fn clone(&self) -> (r: Self)
        ensures
            r@ == self@,
    {
        ServiceGroup(self.0.clone())
    }
}

impl View for ServiceGroup {
    type V = Seq<char>;

    closed spec fn view(&self) -> Seq<char> {
        self.0@
    }
}

impl ServiceGroup {
    /// Builds `service.group` or `service.group@organization` and checks it.
    pub fn new(service: &str, group: &str, organization: Option<&str>) -> (r: Result<
        ServiceGroup,
        Error,
    >)
        ensures
            match r {
                Ok(sg) => is_valid_service_group(sg_text(service@, group@, opt_view(organization)))
                    && sg@ == sg_text(service@, group@, opt_view(organization)),
                Err(e) => !is_valid_service_group(
                    sg_text(service@, group@, opt_view(organization)),
                ) && e.refuses_service_group(sg_text(service@, group@, opt_view(organization))),
            },
    {
        let formatted = format(service, group, organization);
        match Self::validate(formatted.as_str()) {
            Ok(()) => Ok(ServiceGroup(formatted)),
            Err(e) => Err(e),
        }
    }

    /// Checks that `value` is a service group.
    pub fn validate(value: &str) -> (r: Result<(), Error>)
        ensures
            r is Ok <==> is_valid_service_group(value@),
            r matches Err(e) ==> e.refuses_service_group(value@),
    {
        let cs = chars_of(value);
        match locate(&cs) {
            Some(_) => Ok(()),
            None => Err(Error::InvalidServiceGroup(String::from_str(value))),
        }
    }

    /// The positions of the separators in this service group's text.
    fn positions(&self) -> (r: SgPositions)
        requires
            is_valid_service_group(self@),
        ensures
            r.dot < self@.len(),
            r.start() <= r.dot,
            r.at matches Some(e) ==> r.dot < e < self@.len(),
            r.hash matches Some(h) ==> h < r.dot,
            sg_parts(self@) == r.parts(self@),
    {
        let cs = chars_of(self.0.as_str());
        locate(&cs).unwrap()
    }

    /// The service name.
    pub fn service(&self) -> (r: &str)
        requires
            is_valid_service_group(self@),
        ensures
            r@ == sg_parts(self@).service,
    {
        let pos = self.positions();
        self.0.as_str().substring_char(pos.start_index(), pos.dot)
    }

    /// The group name.
    pub fn group(&self) -> (r: &str)
        requires
            is_valid_service_group(self@),
        ensures
            r@ == sg_parts(self@).group,
    {
        let pos = self.positions();
        let end = match pos.at {
            Some(e) => e,
            None => self.0.as_str().unicode_len(),
        };
        self.0.as_str().substring_char(pos.dot + 1, end)
    }

    /// The organization, if the name has one.
    pub fn org(&self) -> (r: Option<&str>)
        requires
            is_valid_service_group(self@),
        ensures
            opt_view(r) == sg_parts(self@).org,
    {
        let pos = self.positions();
        match pos.at {
            Some(e) => {
                let n = self.0.as_str().unicode_len();
                Some(self.0.as_str().substring_char(e + 1, n))
            },
            None => None,
        }
    }

    /// Sets a new organization, keeping service and group; any legacy
    /// prefix is dropped. The organization is not checked: the new text is
    /// a service group exactly when the organization is a name segment;
    /// otherwise only the whole text can be read back.
    pub fn set_org(&mut self, org: &str)
        requires
            is_valid_service_group(old(self)@),
        ensures
            final(self)@ == sg_text(sg_parts(old(self)@).service, sg_parts(old(self)@).group, Some(org@)),
            is_valid_service_group(final(self)@) <==> is_segment(org@),
    {
        let formatted = format(self.service(), self.group(), Some(org));
        proof {
            let p = sg_parts(self@);
            lemma_sg_parts(self@);
            if is_segment(org@) {
                lemma_sg_text_parts(p.service, p.group, Some(org@));
            }
            if is_valid_service_group(sg_text(p.service, p.group, Some(org@))) {
                lemma_org_must_be_segment(p.service, p.group, org@);
            }
        }
        self.0 = formatted;
    }

    /// The full text of this service group.
    pub fn as_str(&self) -> (r: &str)
        ensures
            r@ == self@,
    {
        self.0.as_str()
    }

    /// The full text of this service group, as an owned string.
    pub fn to_string(&self) -> (r: String)
        ensures
            r@ == self@,
    {
        String::from_str(self.0.as_str())
    }

    /// Parses a service group, dropping any legacy
    /// `application.environment#` prefix.
    pub fn from_str(value: &str) -> (r: Result<ServiceGroup, Error>)
        ensures
            r is Ok <==> is_valid_service_group(value@),
            r matches Ok(sg) ==> sg@ == canonical_sg_text(value@) && is_valid_service_group(sg@),
            r matches Err(e) ==> e.refuses_service_group(value@),
    {
        let cs = chars_of(value);
        match locate(&cs) {
            Some(pos) => {
                let start = pos.start_index();
                let n = cs.len();
                let service = value.substring_char(start, pos.dot);
                let (group, org) = match pos.at {
                    Some(e) => (value.substring_char(pos.dot + 1, e), Some(value.substring_char(e + 1, n))),
                    None => (value.substring_char(pos.dot + 1, n), None),
                };
                let formatted = format(service, group, org);
                proof {
                    lemma_canonical_parts(value@);
                }
                Ok(ServiceGroup(formatted))
            },
            None => Err(Error::InvalidServiceGroup(String::from_str(value))),
        }
    }
}

impl AsRef<str> for ServiceGroup {
    /// The full text of this service group.
    fn as_ref(&self) -> (r: &str)
        ensures
            r@ == self@,
    {
        self.0.as_str()
    }
}

impl core::str::FromStr for ServiceGroup {
    type Err = Error;

    /// Parses as `ServiceGroup::from_str` does.
    fn from_str(value: &str) -> (r: Result<ServiceGroup, Error>)
        ensures
            r is Ok <==> is_valid_service_group(value@),
            r matches Ok(sg) ==> sg@ == canonical_sg_text(value@) && is_valid_service_group(sg@),
            r matches Err(e) ==> e.refuses_service_group(value@),
    {
        ServiceGroup::from_str(value)
    }
}

} // verus!

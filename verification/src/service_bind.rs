//! Service binds: a bind name paired with the service group that provides
//! it, written `name:service_group`.

use crate::error::Error;
use crate::service_group::{canonical_sg_text, is_valid_service_group, ServiceGroup};
use crate::text::{chars_of, find_char, lacks, lemma_first_occurrence, lemma_holds_separator,
    lemma_split_at_first};
use vstd::prelude::*;

verus! {

/// `s` is `name:rest` with neither part holding a colon.
pub open spec fn is_bind_split(s: Seq<char>, name: Seq<char>, rest: Seq<char>) -> bool {
    lacks(name, ':') && lacks(rest, ':') && s == name + seq![':'] + rest
}

/// `s` holds exactly one colon, so it splits into a name and a service
/// group text.
pub open spec fn has_single_colon(s: Seq<char>) -> bool {
    exists|name: Seq<char>, rest: Seq<char>| is_bind_split(s, name, rest)
}

/// The text before and after the single colon of `s`.
pub open spec fn bind_split(s: Seq<char>) -> (Seq<char>, Seq<char>)
    recommends
        has_single_colon(s),
{
    choose|name: Seq<char>, rest: Seq<char>| is_bind_split(s, name, rest)
}

/// Splitting a bind at its colon is unambiguous.
pub proof fn lemma_bind_split_unique(
    s: Seq<char>,
    n1: Seq<char>,
    r1: Seq<char>,
    n2: Seq<char>,
    r2: Seq<char>,
)
    requires
        is_bind_split(s, n1, r1),
        is_bind_split(s, n2, r2),
    ensures
        n1 == n2,
        r1 == r2,
{
    let i = lemma_first_occurrence(s, 0, ':');
    match i {
        Some(i) => {
            lemma_split_at_first(s, ':', n1, r1, i);
            lemma_split_at_first(s, ':', n2, r2, i);
        },
        None => {
            lemma_holds_separator(s, ':', n1, r1, 0);
            assert(s.subrange(0, s.len() as int) =~= s);
        },
    }
}

/// The parts `bind_split` picks are the only ones.
proof fn lemma_bind_split_of(s: Seq<char>, name: Seq<char>, rest: Seq<char>)
    requires
        is_bind_split(s, name, rest),
    ensures
        bind_split(s) == (name, rest),
{
    let (n, r) = bind_split(s);
    lemma_bind_split_unique(s, n, r, name, rest);
}

/// Writing a bind and reading it back gives the same bind, when neither
/// its name nor its (canonical) service group holds a colon.
pub proof fn law_bind_text_roundtrip(name: Seq<char>, service_group: Seq<char>)
    requires
        lacks(name, ':'),
        lacks(service_group, ':'),
        is_valid_service_group(service_group),
        canonical_sg_text(service_group) == service_group,
    ensures
        has_single_colon(name + seq![':'] + service_group),
        bind_split(name + seq![':'] + service_group) == (name, service_group),
        is_valid_service_group(bind_split(name + seq![':'] + service_group).1),
        canonical_sg_text(bind_split(name + seq![':'] + service_group).1) == service_group,
{
    let t = name + seq![':'] + service_group;
    assert(is_bind_split(t, name, service_group));
    lemma_bind_split_of(t, name, service_group);
}

/// A bind from a name to the service group that provides it.
#[derive(Clone, Debug, PartialEq, Eq, Hash)]
pub struct ServiceBind {
    name: String,
    service_group: ServiceGroup,
}

impl View for ServiceBind {
    /// The bind name and the service group's text.
    type V = (Seq<char>, Seq<char>);

    closed spec fn view(&self) -> (Seq<char>, Seq<char>) {
        (self.name@, self.service_group@)
    }
}

impl ServiceBind {
    pub fn new(name: &str, service_group: ServiceGroup) -> (r: ServiceBind)
        ensures
            r@ == (name@, service_group@),
    {
        ServiceBind { name: String::from_str(name), service_group }
    }

    pub fn name(&self) -> (r: &str)
        ensures
            r@ == self@.0,
    {
        self.name.as_str()
    }

    pub fn service_group(&self) -> (r: &ServiceGroup)
        ensures
            r@ == self@.1,
    {
        &self.service_group
    }

    /// Parses `name:service_group`; the service group is parsed as
    /// `ServiceGroup::from_str` does.
    pub fn from_str(bind_str: &str) -> (r: Result<ServiceBind, Error>)
        ensures
            match r {
                Ok(b) => has_single_colon(bind_str@) && is_valid_service_group(
                    bind_split(bind_str@).1,
                ) && b@ == (bind_split(bind_str@).0, canonical_sg_text(bind_split(bind_str@).1)),
                Err(e) => {
                    ||| !has_single_colon(bind_str@) && e.refuses_binding(bind_str@)
                    ||| has_single_colon(bind_str@) && !is_valid_service_group(
                        bind_split(bind_str@).1,
                    ) && e.refuses_service_group(bind_split(bind_str@).1)
                },
            },
    {
        let cs = chars_of(bind_str);
        let n = cs.len();
        let colon = find_char(&cs, 0, ':');
        match colon {
            Some(k) => {
                let second = find_char(&cs, k + 1, ':');
                match second {
                    None => {
                        let ghost s = bind_str@;
                        proof {
                            assert(lacks(s.subrange(0, k as int), ':'));
                            assert(s =~= s.subrange(0, k as int) + seq![':'] + s.subrange(
                                k + 1,
                                n as int,
                            ));
                            assert(is_bind_split(
                                s,
                                s.subrange(0, k as int),
                                s.subrange(k + 1, n as int),
                            ));
                            lemma_bind_split_of(
                                s,
                                s.subrange(0, k as int),
                                s.subrange(k + 1, n as int),
                            );
                        }
                        let name = bind_str.substring_char(0, k);
                        let rest = bind_str.substring_char(k + 1, n);
                        match ServiceGroup::from_str(rest) {
                            Ok(sg) => Ok(ServiceBind::new(name, sg)),
                            Err(e) => Err(e),
                        }
                    },
                    Some(k2) => {
                        proof {
                            let s = bind_str@;
                            assert forall|a: Seq<char>, b: Seq<char>| !is_bind_split(
                                s,
                                a,
                                b,
                            ) by {
                                if is_bind_split(s, a, b) {
                                    lemma_split_at_first(s, ':', a, b, k as int);
                                    assert(b[k2 - k - 1] == ':');
                                }
                            }
                        }
                        Err(Error::InvalidBinding(String::from_str(bind_str)))
                    },
                }
            },
            None => {
                proof {
                    let s = bind_str@;
                    assert forall|a: Seq<char>, b: Seq<char>| !is_bind_split(s, a, b) by {
                        if is_bind_split(s, a, b) {
                            lemma_holds_separator(s, ':', a, b, 0);
                            assert(s.subrange(0, s.len() as int) =~= s);
                        }
                    }
                }
                Err(Error::InvalidBinding(String::from_str(bind_str)))
            },
        }
    }

    /// The text `name:service_group`.
    pub fn to_string(&self) -> (r: String)
        ensures
            r@ == self@.0 + seq![':'] + self@.1,
    {
        let mut r = String::from_str(self.name.as_str());
        r.append(":");
        proof {
            reveal_strlit(":");
        }
        r.append(self.service_group.as_str());
        r
    }
}

impl core::str::FromStr for ServiceBind {
    type Err = Error;

    /// Parses as `ServiceBind::from_str` does.
    fn from_str(bind_str: &str) -> (r: Result<ServiceBind, Error>)
        ensures
            match r {
                Ok(b) => has_single_colon(bind_str@) && is_valid_service_group(
                    bind_split(bind_str@).1,
                ) && b@ == (bind_split(bind_str@).0, canonical_sg_text(bind_split(bind_str@).1)),
                Err(e) => {
                    ||| !has_single_colon(bind_str@) && e.refuses_binding(bind_str@)
                    ||| has_single_colon(bind_str@) && !is_valid_service_group(
                        bind_split(bind_str@).1,
                    ) && e.refuses_service_group(bind_split(bind_str@).1)
                },
            },
    {
        ServiceBind::from_str(bind_str)
    }
}

} // verus!

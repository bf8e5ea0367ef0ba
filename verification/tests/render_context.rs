use biome_svc::binds::{select_first, BindGroup, Binds, CensusGroup, CensusMember, CensusRing,
                       ElectionStatus, RenderContext, Svc};
use biome_svc::pkg_path_for::{HelperError, PkgPathForHelper};
use biome_svc::service_bind::ServiceBind;
use biome_svc::service_group::ServiceGroup;

fn member(id: &str, alive: bool) -> CensusMember {
    CensusMember { member_id: id.to_string(), alive }
}

fn group(sg: &str, leader: Option<&str>) -> CensusGroup {
    CensusGroup { service_group: ServiceGroup::from_str(sg).unwrap(),
                  population: vec![member("m1", false), member("m2", true), member("m3", true)],
                  me: Some(member("m2", true)),
                  leader: leader.map(|l| member(l, true)),
                  update_leader: None,
                  election_status: ElectionStatus::ElectionInProgress,
                  update_election_status: ElectionStatus::ElectionFinished }
}

#[test]
fn first_is_the_leader_or_the_first_member() {
    assert_eq!(select_first(&group("foo.default", Some("m3"))), Some(member("m3", true)));
    assert_eq!(select_first(&group("foo.default", None)), Some(member("m1", false)));
    let mut empty = group("foo.default", None);
    empty.population = vec![];
    assert_eq!(select_first(&empty), None);
}

#[test]
fn bind_group_lists_alive_members() {
    let bg = BindGroup::new(&group("foo.default", None));
    assert_eq!(bg.first, Some(member("m1", false)));
    assert_eq!(bg.leader, None);
    assert_eq!(bg.members, vec![member("m2", true), member("m3", true)]);
}

#[test]
fn binds_are_output_in_name_order() {
    let census = CensusRing { groups: vec![group("foo.default", None),
                                           group("bar.default", Some("m2"))] };
    let bindings = vec![ServiceBind::from_str("quux:foo.default").unwrap(),
                        ServiceBind::from_str("bar:bar.default").unwrap(),
                        ServiceBind::from_str("missing:nope.default").unwrap(),
                        ServiceBind::from_str("baz:foo.default").unwrap(),
                        ServiceBind::from_str("foo:foo.default").unwrap(),
                        ServiceBind::from_str("bar:foo.default").unwrap()];
    let binds = Binds::new(&bindings, &census);
    let names: Vec<&str> = (0..binds.len()).map(|i| binds.entry(i).0).collect();
    assert_eq!(names, vec!["bar", "baz", "foo", "quux"]);
    // A later bind of the same name replaces the earlier one.
    assert_eq!(binds.get("bar").unwrap().leader, None);
    assert!(binds.get("missing").is_none());
    for _ in 0..50 {
        let again = Binds::new(&bindings, &census);
        let again_names: Vec<&str> = (0..again.len()).map(|i| again.entry(i).0).collect();
        assert_eq!(names, again_names);
    }
}

#[test]
fn census_lookup_by_service_group() {
    let census = CensusRing { groups: vec![group("foo.default", None)] };
    let sg = ServiceGroup::from_str("foo.default").unwrap();
    assert!(census.census_group_for(&sg).is_some());
    let other = ServiceGroup::from_str("foo.default@org").unwrap();
    assert!(census.census_group_for(&other).is_none());
}

#[test]
fn svc_exposes_election_state() {
    let g = group("foo.default", Some("m3"));
    let svc = Svc::new(&g);
    assert_eq!(svc.me, member("m2", true));
    assert_eq!(svc.first, member("m3", true));
    assert_eq!(svc.members.len(), 2);
    let flags = svc.election_flags();
    assert!(flags.election_is_running);
    assert!(!flags.election_is_no_quorum);
    assert!(!flags.election_is_finished);
    assert!(!flags.update_election_is_running);
    assert!(flags.update_election_is_finished);
}

#[test]
fn pkg_path_for_picks_the_first_satisfying_dependency() {
    let helper = PkgPathForHelper;
    let candidates = vec![None, Some("/bio/pkgs/core/b/1/2".to_string()), Some("/x".to_string())];
    assert_eq!(helper.call(true, &candidates), Ok("/bio/pkgs/core/b/1/2".to_string()));
    assert_eq!(helper.call(true, &vec![None, None]), Ok(String::new()));
    assert_eq!(helper.call(false, &candidates), Err(HelperError::InvalidPackageIdent));
}

#[test]
fn pkg_path_for_error_message() {
    assert_eq!(HelperError::InvalidPackageIdent.message(),
               "Invalid package identifier for \"pkgPathFor\"");
}

#[test]
fn render_context_holds_the_service_and_its_binds() {
    let census = CensusRing { groups: vec![group("foo.default", Some("m3")),
                                           group("bar.default", None)] };
    let bindings = vec![ServiceBind::from_str("db:bar.default").unwrap(),
                        ServiceBind::from_str("gone:nope.default").unwrap()];
    let ctx = RenderContext::new(&ServiceGroup::from_str("foo.default").unwrap(), &census, &bindings);
    assert_eq!(ctx.service_group_name(), "foo.default");
    assert_eq!(ctx.svc.me, member("m2", true));
    assert_eq!(ctx.svc.first, member("m3", true));
    assert_eq!(ctx.svc.members, vec![member("m2", true), member("m3", true)]);
    assert_eq!(ctx.bind.len(), 1);
    assert_eq!(ctx.bind.entry(0).0, "db");
    assert_eq!(ctx.bind.get("db").unwrap().first, Some(member("m1", false)));
}

#[test]
fn service_group_reads_back_through_as_ref() {
    let sg = ServiceGroup::from_str("app.env#foo.bar@baz").unwrap();
    let text: &str = sg.as_ref();
    assert_eq!(text, "foo.bar@baz");
}

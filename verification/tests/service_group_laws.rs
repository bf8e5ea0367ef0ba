use biome_svc::service_bind::ServiceBind;
use biome_svc::service_group::ServiceGroup;
use regex::Regex;

const SG_PATTERN: &str = r"\A((?P<application_environment>[^#@]+)#)?(?P<service>[^#@.]+)\.(?P<group>[^#@.]+)(@(?P<organization>[^#@.]+))?\z";

fn all_texts(alphabet: &[char], max_len: usize) -> Vec<String> {
    let mut out = vec![String::new()];
    let mut frontier = vec![String::new()];
    for _ in 0..max_len {
        let mut next = Vec::new();
        for s in &frontier {
            for c in alphabet {
                let mut t = s.clone();
                t.push(*c);
                next.push(t);
            }
        }
        out.extend(next.iter().cloned());
        frontier = next;
    }
    out
}

#[test]
fn parser_agrees_with_the_service_group_pattern() {
    let re = Regex::new(SG_PATTERN).unwrap();
    for text in all_texts(&['a', 'é', '.', '#', '@'], 7) {
        let caps = re.captures(&text);
        let parsed = ServiceGroup::from_str(&text);
        assert_eq!(caps.is_some(), parsed.is_ok(), "text {:?}", text);
        assert_eq!(caps.is_some(), ServiceGroup::validate(&text).is_ok(), "text {:?}", text);
        if let (Some(caps), Ok(sg)) = (caps, parsed) {
            assert_eq!(sg.service(), caps.name("service").unwrap().as_str());
            assert_eq!(sg.group(), caps.name("group").unwrap().as_str());
            assert_eq!(sg.org(), caps.name("organization").map(|m| m.as_str()));
        }
    }
}

#[test]
fn new_service_group_reads_back_its_parts() {
    let sg = ServiceGroup::new("redis", "default", Some("acme")).unwrap();
    assert_eq!(sg.as_str(), "redis.default@acme");
    assert_eq!(sg.service(), "redis");
    assert_eq!(sg.group(), "default");
    assert_eq!(sg.org(), Some("acme"));

    let sg = ServiceGroup::new("redis", "default", None).unwrap();
    assert_eq!(sg.as_str(), "redis.default");
    assert_eq!(sg.org(), None);
}

#[test]
fn new_service_group_refuses_bad_parts() {
    assert!(ServiceGroup::new("re.dis", "default", None).is_err());
    assert!(ServiceGroup::new("redis", "", None).is_err());
    assert!(ServiceGroup::new("redis", "default", Some("")).is_err());
    match ServiceGroup::new("redis", "def@ult", Some("acme")) {
        Err(biome_svc::error::Error::InvalidServiceGroup(v)) => assert_eq!(v, "redis.def@ult@acme"),
        other => panic!("unexpected {:?}", other),
    }
}

#[test]
fn new_keeps_a_legacy_prefix_that_from_str_drops() {
    let sg = ServiceGroup::new("app.env#redis", "default", None).unwrap();
    assert_eq!(sg.as_str(), "app.env#redis.default");
    assert_eq!(sg.service(), "redis");
    assert_eq!(ServiceGroup::from_str(sg.as_str()).unwrap().as_str(), "redis.default");
}

#[test]
fn validate_accepts_legacy_prefix() {
    assert!(ServiceGroup::validate("app.env#foo.bar").is_ok());
    assert!(ServiceGroup::validate("foo.bar.baz").is_err());
}

#[test]
fn set_org_replaces_organization() {
    let mut sg = ServiceGroup::from_str("foo.bar@baz").unwrap();
    sg.set_org("qux");
    assert_eq!(sg.as_str(), "foo.bar@qux");
    let mut sg = ServiceGroup::from_str("app.env#foo.bar").unwrap();
    sg.set_org("acme");
    assert_eq!(sg.to_string(), "foo.bar@acme");
    assert_eq!(sg.org(), Some("acme"));
}

#[test]
fn canonical_form_is_stable() {
    let once = ServiceGroup::from_str("app.env#foo.bar@baz").unwrap();
    let twice = ServiceGroup::from_str(once.as_str()).unwrap();
    assert_eq!(once, twice);
}

#[test]
fn bind_text_roundtrip() {
    let bind = ServiceBind::from_str("cache:redis.default@acme").unwrap();
    let again = ServiceBind::from_str(&bind.to_string()).unwrap();
    assert_eq!(bind, again);
}

#[test]
fn service_names_may_be_unicode() {
    let sg = ServiceGroup::from_str("ünï.cödé@örg").unwrap();
    assert_eq!(sg.service(), "ünï");
    assert_eq!(sg.group(), "cödé");
    assert_eq!(sg.org(), Some("örg"));
}

#[test]
fn service_group_clone_is_equal() {
    let sg = ServiceGroup::from_str("foo.bar").unwrap();
    assert_eq!(sg.clone(), sg);
    let parsed: ServiceGroup = "foo.bar".parse().unwrap();
    assert_eq!(parsed, sg);
}

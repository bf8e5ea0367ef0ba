use biome_svc::binding_mode::BindingMode;
use biome_svc::error::Error;
use biome_svc::health_check::{refusal, refusal_of, HealthCheckInterval, ParseFailure};
use biome_svc::service_bind::ServiceBind;
use biome_svc::service_group::ServiceGroup;

#[test]
fn service_group_from_str_with_org() {
    let x = ServiceGroup::from_str("foo.bar").unwrap();
    assert_eq!(x.service(), "foo");
    assert_eq!(x.group(), "bar");
    assert!(x.org().is_none());

    let y = ServiceGroup::from_str("foo.bar@baz").unwrap();
    assert_eq!(y.service(), "foo");
    assert_eq!(y.group(), "bar");
    assert_eq!(y.org(), Some("baz"));

    assert!(ServiceGroup::from_str("foo@baz").is_err());
}

fn assert_invalid_service_group(group: &str) {
    match ServiceGroup::from_str(group) {
        Err(e) => {
            match e {
                Error::InvalidServiceGroup(val) => assert_eq!(group, val),
                wrong => panic!("Unexpected error returned: {:?}", wrong),
            }
        }
        Ok(_) => panic!("String should fail to parse"),
    }
}

#[test]
fn service_group_from_str_no_group() {
    assert_invalid_service_group("foo@baz");
}

#[test]
fn service_group_from_str_ending_with_at() {
    assert_invalid_service_group("not.allowed@");
}

#[test]
fn service_group_from_str_too_many_periods() {
    assert_invalid_service_group("only.one.period@allowed");
}

#[test]
fn service_group_from_str_too_many_hashes() {
    assert_invalid_service_group("only#one#hash@allowed");
}

#[test]
fn service_group_from_str_start_with_hash_and_ending_with_at() {
    assert_invalid_service_group("#cool.wings@");
}

#[test]
fn service_group_from_str_starting_with_pound() {
    assert_invalid_service_group("#hash.tag");
}

#[test]
fn service_group_from_str_not_enough_periods() {
    assert_invalid_service_group("oh-noes");
}

#[test]
fn service_bind_from_str() {
    let bind_str = "name:service.group@organization";
    let bind = ServiceBind::from_str(bind_str).unwrap();

    assert_eq!(bind.name(), String::from("name"));
    assert_eq!(*bind.service_group(),
               ServiceGroup::from_str("service.group@organization").unwrap());
}

#[test]
fn service_bind_from_str_simple() {
    let bind_str = "name:service.group";
    let bind = ServiceBind::from_str(bind_str).unwrap();

    assert_eq!(bind.name(), String::from("name"));
    assert_eq!(*bind.service_group(), ServiceGroup::from_str("service.group").unwrap());
}

#[test]
fn service_bind_from_str_missing_colon() {
    let bind_str = "uhoh";

    match ServiceBind::from_str(bind_str) {
        Err(e) => {
            match e {
                Error::InvalidBinding(val) => assert_eq!("uhoh", val),
                wrong => panic!("Unexpected error returned: {:?}", wrong),
            }
        }
        Ok(_) => panic!("String should fail to parse"),
    }
}

#[test]
fn service_bind_from_str_too_many_colons() {
    let bind_str = "uhoh:this:is:bad";

    match ServiceBind::from_str(bind_str) {
        Err(e) => {
            match e {
                Error::InvalidBinding(val) => assert_eq!("uhoh:this:is:bad", val),
                wrong => panic!("Unexpected error returned: {:?}", wrong),
            }
        }
        Ok(_) => panic!("String should fail to parse"),
    }
}

#[test]
fn service_bind_from_str_invalid_service_group() {
    let bind_str = "uhoh:nosuchservicegroup@nope";

    match ServiceBind::from_str(bind_str) {
        Err(e) => {
            match e {
                Error::InvalidServiceGroup(val) => assert_eq!("nosuchservicegroup@nope", val),
                wrong => panic!("Unexpected error returned: {:?}", wrong),
            }
        }
        Ok(_) => panic!("String should fail to parse"),
    }
}

#[test]
fn service_bind_to_string() {
    let sg = ServiceGroup::from_str("service.group").expect("valid service group");
    let bind = ServiceBind::new("name", sg);
    assert_eq!("name:service.group", bind.to_string());
}

#[test]
fn default_health_check_interval_has_correct_default() {
    assert_eq!(HealthCheckInterval::default(), HealthCheckInterval::from(30));
}

#[test]
fn health_check_interval_must_be_positive() {
    assert!(HealthCheckInterval::from_str("-123").is_err());
    assert!(HealthCheckInterval::from_str("5").is_ok());
}

#[test]
#[should_panic(expected = "InvalidDigit")]
fn health_check_interval_from_str_invalid() {
    HealthCheckInterval::from_str("oh-noes").unwrap();
}

#[test]
fn health_check_interval_display() {
    assert_eq!("(5s)".to_owned(), HealthCheckInterval::from_str("5").unwrap().to_string());
}

/// This ensures that we can safely transition from the old
/// application/environment formulation of service group names.
#[test]
fn service_group_with_app_and_env_is_converted_to_one_without() {
    let sg = ServiceGroup::from_str("app.env#foo.bar@baz").expect("should still be able to \
                                                                   accommodate app/env in \
                                                                   service group name");
    assert_eq!(sg.service(), "foo");
    assert_eq!(sg.group(), "bar");
    assert_eq!(sg.org(), Some("baz"));

    assert_eq!(sg,
               ServiceGroup::from_str("foo.bar@baz").unwrap(),
               "should be the same as a service group without app/env (i.e., app/env is \
                ignored");
}

/// Backward compatibility as the application/environment feature goes.
#[test]
fn service_bind_with_app_env_from_str_still_works() {
    let bind_str = "name:app.env#service.group@organization";
    let bind = ServiceBind::from_str(bind_str).unwrap();

    assert_eq!(bind.name(), String::from("name"));
    assert_eq!(*bind.service_group(),
               ServiceGroup::from_str("service.group@organization").unwrap());
}

#[test]
fn binding_mode_default_is_strict() {
    assert_eq!(BindingMode::default(), BindingMode::Strict);
}

#[test]
fn binding_mode_parses_in_any_case() {
    assert_eq!(BindingMode::from_str("relaxed").unwrap(), BindingMode::Relaxed);
    assert_eq!(BindingMode::from_str("RELAXED").unwrap(), BindingMode::Relaxed);
    assert_eq!(BindingMode::from_str("Strict").unwrap(), BindingMode::Strict);
    match BindingMode::from_str("lenient") {
        Err(Error::BadBindingMode(v)) => assert_eq!(v, "lenient"),
        other => panic!("unexpected result {:?}", other),
    }
}

#[test]
fn binding_mode_text_roundtrip() {
    for m in [BindingMode::Relaxed, BindingMode::Strict] {
        assert_eq!(BindingMode::from_str(&m.to_string()).unwrap(), m);
    }
    assert_eq!(BindingMode::Relaxed.as_str(), "relaxed");
    assert_eq!(BindingMode::Strict.to_string(), "strict");
}

#[test]
fn health_check_interval_reads_back_its_decimal_text() {
    for n in [0u64, 7, 30, 1234567890, u64::MAX] {
        let h = HealthCheckInterval::from_str(&n.to_string()).unwrap();
        assert_eq!(h, HealthCheckInterval::from(n));
        assert_eq!(h.as_secs(), n);
        assert_eq!(h.to_string(), format!("({}s)", n));
    }
}

#[test]
fn health_check_interval_text_edges() {
    assert_eq!(HealthCheckInterval::from_str("+5").unwrap().as_secs(), 5);
    assert!(HealthCheckInterval::from_str("").is_err());
    assert!(HealthCheckInterval::from_str("+").is_err());
    assert!(HealthCheckInterval::from_str(" 5").is_err());
    assert!(HealthCheckInterval::from_str("18446744073709551616").is_err());
    assert_eq!(HealthCheckInterval::immediately(), HealthCheckInterval::from(0));
    let h = HealthCheckInterval::from_secs_nanos(3, 500);
    assert_eq!(h.as_secs(), 3);
    assert_eq!(h.subsec_nanos(), 500);
    assert!(h > HealthCheckInterval::from(3));
}

#[test]
fn health_check_interval_refusal_is_the_integer_error() {
    let e = HealthCheckInterval::from_str("oh-noes").unwrap_err();
    assert_eq!(*e.kind(), std::num::IntErrorKind::InvalidDigit);
    let e = HealthCheckInterval::from_str("").unwrap_err();
    assert_eq!(*e.kind(), std::num::IntErrorKind::Empty);
    let e = HealthCheckInterval::from_str("18446744073709551616").unwrap_err();
    assert_eq!(*e.kind(), std::num::IntErrorKind::PosOverflow);
    assert_eq!(HealthCheckInterval::from_str("18446744073709551615").unwrap().as_secs(),
               u64::MAX);
}

#[test]
fn service_group_set_org_replaces_the_organization() {
    let mut sg = ServiceGroup::from_str("app.env#foo.bar@baz").unwrap();
    sg.set_org("acme");
    assert_eq!(sg.as_str(), "foo.bar@acme");
    assert_eq!(sg.service(), "foo");
    assert_eq!(sg.group(), "bar");
    assert_eq!(sg.org(), Some("acme"));
    let mut plain = ServiceGroup::from_str("foo.bar").unwrap();
    plain.set_org("x");
    assert_eq!(plain.to_string(), "foo.bar@x");
}

#[test]
fn service_group_set_org_does_not_check_the_organization() {
    let mut sg = ServiceGroup::from_str("foo.bar").unwrap();
    sg.set_org("not.an.org");
    assert_eq!(sg.as_str(), "foo.bar@not.an.org");
    assert!(ServiceGroup::validate(sg.as_str()).is_err());
}

#[test]
fn service_group_reads_as_its_text() {
    let sg = ServiceGroup::from_str("foo.bar@baz").unwrap();
    let text: &str = sg.as_ref();
    assert_eq!(text, "foo.bar@baz");
}

#[test]
fn health_check_interval_refusal_kinds() {
    assert_eq!(refusal_of("oh-noes"), Some(ParseFailure::InvalidDigit));
    assert_eq!(refusal_of("-123"), Some(ParseFailure::InvalidDigit));
    assert_eq!(refusal_of("+"), Some(ParseFailure::InvalidDigit));
    assert_eq!(refusal_of(""), Some(ParseFailure::Empty));
    assert_eq!(refusal_of("18446744073709551616"), Some(ParseFailure::PosOverflow));
    assert_eq!(refusal_of("5"), None);
    let e = HealthCheckInterval::from_str("oh-noes").unwrap_err();
    assert_eq!(refusal(&e, "oh-noes"), ParseFailure::InvalidDigit);
}

#[test]
fn health_check_interval_displays_its_seconds_in_decimal() {
    assert_eq!(HealthCheckInterval::from(0).to_string(), "(0s)");
    assert_eq!(HealthCheckInterval::from(10).to_string(), "(10s)");
    assert_eq!(HealthCheckInterval::from(1234567890).to_string(), "(1234567890s)");
    assert_eq!(HealthCheckInterval::from(u64::MAX).to_string(),
               format!("({}s)", u64::MAX));
}

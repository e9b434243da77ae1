use boardswarm::authenticator::{AttachFailure, Authenticator, Readiness};
use boardswarm::error::{AttachError, AuthConfigError};
use http::header::{HeaderMap, HeaderName, HeaderValue};

fn service_for(token: &str) -> boardswarm::authenticator::AuthenticatorService<u32> {
    Authenticator::from_static(token).into_layer().unwrap().layer(7u32)
}

#[test]
fn from_static_keeps_the_token() {
    let auth = Authenticator::from_static("abc");
    assert_eq!(auth.token(), Some("abc"));
    assert!(matches!(auth, Authenticator::Token { .. }));
}

#[test]
fn default_is_no_auth() {
    let auth = Authenticator::default();
    assert!(matches!(auth, Authenticator::NoAuth));
    assert_eq!(auth.token(), None);
    assert_eq!(auth.header_text(), None);
}

#[test]
fn header_text_is_bearer_then_token() {
    assert_eq!(
        Authenticator::from_static("abc").header_text(),
        Some(String::from("Bearer abc"))
    );
    assert_eq!(
        Authenticator::from_static("").header_text(),
        Some(String::from("Bearer "))
    );
}

#[test]
fn clone_is_equal() {
    let auth = Authenticator::from_static("s3cret");
    let copy = auth.clone();
    assert_eq!(copy.token(), Some("s3cret"));
    assert!(matches!(Authenticator::NoAuth.clone(), Authenticator::NoAuth));
}

#[test]
fn check_accepts_what_a_header_may_carry() {
    assert_eq!(Authenticator::NoAuth.check(), Ok(()));
    assert_eq!(Authenticator::from_static("abc").check(), Ok(()));
    assert_eq!(Authenticator::from_static("a b\tc~").check(), Ok(()));
    assert_eq!(Authenticator::from_static("caf\u{e9}").check(), Ok(()));
}

#[test]
fn check_refuses_control_bytes() {
    assert_eq!(
        Authenticator::from_static("ab\nc").check(),
        Err(AuthConfigError::InvalidCredential)
    );
    assert_eq!(
        Authenticator::from_static("\u{7f}").check(),
        Err(AuthConfigError::InvalidCredential)
    );
    assert_eq!(
        Authenticator::from_static("a\u{0}").check(),
        Err(AuthConfigError::InvalidCredential)
    );
    assert_eq!(
        Authenticator::from_static("a\u{1f}").check(),
        Err(AuthConfigError::InvalidCredential)
    );
}

#[test]
fn check_agrees_with_the_header_parser() {
    for token in ["abc", "a\rb", "\t", " ", "\u{7f}", "x\u{80}y", "\u{1}"] {
        let text = format!("Bearer {}", token);
        let parsed = HeaderValue::from_str(&text).is_ok();
        assert_eq!(Authenticator::from_static(token).check().is_ok(), parsed);
    }
}

#[test]
fn into_layer_fails_on_an_invalid_credential() {
    assert!(matches!(
        Authenticator::from_static("bad\ntoken").into_layer(),
        Err(AuthConfigError::InvalidCredential)
    ));
    assert!(Authenticator::from_static("good").into_layer().is_ok());
    assert!(Authenticator::NoAuth.into_layer().is_ok());
}

#[test]
fn no_auth_attaches_nothing() {
    let service = Authenticator::NoAuth.into_layer().unwrap().layer(());
    let mut headers = HeaderMap::new();
    headers.insert("x-trace", HeaderValue::from_static("1"));
    assert_eq!(service.call(&mut headers), Ok(()));
    assert_eq!(service.call(&mut headers), Ok(()));
    assert_eq!(headers.len(), 1);
    assert!(!headers.contains_key("authorization"));
    assert_eq!(headers.get("x-trace").unwrap(), "1");
}

#[test]
fn token_attaches_bearer_credential() {
    let service = service_for("abc");
    let mut headers = HeaderMap::new();
    assert_eq!(service.call(&mut headers), Ok(()));
    assert_eq!(headers.get("authorization").unwrap(), "Bearer abc");
    assert_eq!(headers.get(http::header::AUTHORIZATION).unwrap().as_bytes(), b"Bearer abc");
    assert_eq!(headers.len(), 1);
}

#[test]
fn every_call_of_every_duplicate_carries_the_credential() {
    let service = service_for("abc");
    let duplicate = service.clone();
    let second = duplicate.clone();
    for s in [&service, &duplicate, &second, &duplicate, &service] {
        let mut headers = HeaderMap::new();
        assert_eq!(s.call(&mut headers), Ok(()));
        assert_eq!(headers.get("authorization").unwrap(), "Bearer abc");
    }
    assert_eq!(*duplicate.inner(), 7);
    assert_eq!(*second.inner(), 7);
}

#[test]
fn layer_can_wrap_many_transports() {
    let layer = Authenticator::from_static("tok").into_layer().unwrap();
    let copy = layer.clone();
    let a = layer.layer("first");
    let b = copy.layer("second");
    assert_eq!(*a.inner(), "first");
    assert_eq!(*b.inner(), "second");
    let mut headers = HeaderMap::new();
    assert_eq!(b.call(&mut headers), Ok(()));
    assert_eq!(headers.get("authorization").unwrap(), "Bearer tok");
}

#[test]
fn credential_replaces_earlier_authorization_values() {
    let service = service_for("new");
    let mut headers = HeaderMap::new();
    headers.append("authorization", HeaderValue::from_static("Basic old"));
    headers.append("authorization", HeaderValue::from_static("Basic older"));
    headers.insert("accept", HeaderValue::from_static("*/*"));
    assert_eq!(service.call(&mut headers), Ok(()));
    let values: Vec<&HeaderValue> = headers.get_all("authorization").iter().collect();
    assert_eq!(values.len(), 1);
    assert_eq!(values[0], "Bearer new");
    assert_eq!(headers.get("accept").unwrap(), "*/*");
    assert_eq!(headers.keys_len(), 2);
}

#[test]
fn attach_reports_an_invalid_credential_and_leaves_headers() {
    let auth = Authenticator::from_static("line\nbreak");
    let mut headers = HeaderMap::new();
    headers.insert("host", HeaderValue::from_static("lab"));
    assert_eq!(
        auth.attach(&mut headers),
        Err(AttachFailure::Credential(AuthConfigError::InvalidCredential))
    );
    assert_eq!(headers.len(), 1);
    assert!(!headers.contains_key("authorization"));
}

#[test]
fn attach_with_valid_credential() {
    let auth = Authenticator::from_static("abc");
    let mut headers = HeaderMap::new();
    assert_eq!(auth.attach(&mut headers), Ok(()));
    assert_eq!(headers.get("authorization").unwrap(), "Bearer abc");
    let mut untouched = HeaderMap::new();
    assert_eq!(Authenticator::NoAuth.attach(&mut untouched), Ok(()));
    assert!(untouched.is_empty());
}

#[test]
fn full_header_table_is_reported_and_left_alone() {
    let mut headers = HeaderMap::new();
    let mut n: u32 = 0;
    loop {
        let name = HeaderName::from_bytes(format!("x-fill-{}", n).as_bytes()).unwrap();
        if headers.try_insert(name, HeaderValue::from_static("v")).is_err() {
            break;
        }
        n += 1;
        assert!(n < 40000);
    }
    let before = headers.len();
    let service = service_for("abc");
    assert_eq!(service.call(&mut headers), Err(AttachError::HeaderTableFull));
    assert_eq!(headers.len(), before);
    assert!(!headers.contains_key("authorization"));
    assert_eq!(
        Authenticator::from_static("abc").attach(&mut headers),
        Err(AttachFailure::Headers(AttachError::HeaderTableFull))
    );
    let passthrough = Authenticator::NoAuth.into_layer().unwrap().layer(());
    assert_eq!(passthrough.call(&mut headers), Ok(()));
    assert_eq!(headers.len(), before);
}

#[test]
fn readiness_is_handed_on_unchanged() {
    let service = service_for("abc");
    assert_eq!(service.poll_ready::<u8>(Readiness::Pending), Readiness::Pending);
    assert_eq!(service.poll_ready::<u8>(Readiness::Ready), Readiness::Ready);
    assert_eq!(service.poll_ready(Readiness::Failed(3u8)), Readiness::Failed(3u8));
}

#[test]
fn readiness_follows_a_transport_that_toggles() {
    let service = service_for("abc");
    let mut ready = false;
    for _ in 0..6 {
        let inner: Readiness<()> = if ready { Readiness::Ready } else { Readiness::Pending };
        let outer = service.poll_ready(inner);
        assert_eq!(outer == Readiness::Ready, ready);
        ready = !ready;
    }
}

use docker_tags::challenge::{parse_challenge, parse_params, trim_str, ChallengeError};
use docker_tags::fetch::prepare_auth;

fn pairs(v: &[(String, String)]) -> Vec<(&str, &str)> {
    v.iter().map(|(k, v)| (k.as_str(), v.as_str())).collect()
}

#[test]
fn bearer_challenge_is_read() {
    let c = parse_challenge(
        r#"Bearer realm="https://auth.docker.io/token",service="registry.docker.io",scope="repository:library/nginx:pull""#,
    )
    .unwrap();
    assert_eq!(c.scheme, "Bearer");
    assert_eq!(c.realm, "https://auth.docker.io/token");
    assert_eq!(
        pairs(&c.params),
        vec![("service", "registry.docker.io"), ("scope", "repository:library/nginx:pull")]
    );
}

#[test]
fn challenge_without_space_is_malformed() {
    assert!(matches!(parse_challenge("Bearer"), Err(ChallengeError::Malformed)));
    assert!(matches!(parse_challenge(""), Err(ChallengeError::Malformed)));
}

#[test]
fn challenge_without_realm() {
    assert!(matches!(
        parse_challenge(r#"Bearer service="x",scope="y""#),
        Err(ChallengeError::NoRealm)
    ));
    assert!(matches!(parse_challenge("Basic "), Err(ChallengeError::NoRealm)));
}

#[test]
fn params_are_trimmed_and_later_values_win() {
    let p = parse_params(r#" a = "1" , b="2",novalue, a="3" ,c=x=y"#);
    assert_eq!(pairs(&p), vec![("a", "3"), ("b", "2"), ("c", "x=y")]);
    assert!(parse_params("").is_empty());
}

#[test]
fn trim_takes_whitespace_or_quotes() {
    assert_eq!(trim_str(" \t\"ab\" \n", true), "\"ab\"");
    assert_eq!(trim_str("\"\"ab\"", false), "ab");
    assert_eq!(trim_str("\u{3000}x\u{a0}", true), "x");
    assert_eq!(trim_str("   ", true), "");
}

#[test]
fn auth_request_url_carries_the_parameters() {
    let a = prepare_auth(r#"Bearer realm="https://ghcr.io/token",service="ghcr.io",scope="repository:a b:pull""#)
        .unwrap();
    assert_eq!(a.scheme, "Bearer");
    assert_eq!(a.url, "https://ghcr.io/token?service=ghcr.io&scope=repository%3Aa+b%3Apull");
}

#[test]
fn auth_request_with_bad_realm() {
    assert!(matches!(prepare_auth(r#"Bearer realm="not a url""#), Err(ChallengeError::BadRealm)));
    assert!(matches!(prepare_auth("Bearer"), Err(ChallengeError::Malformed)));
    assert!(matches!(prepare_auth("Bearer scope=x"), Err(ChallengeError::NoRealm)));
}

#[test]
fn docker_hub_challenge_gives_one_token_url() {
    let a = prepare_auth(
        r#"Bearer realm="https://auth.docker.io/token",service="registry.docker.io",scope="repository:library/nginx:pull""#,
    )
    .unwrap();
    assert_eq!(a.scheme, "Bearer");
    assert_eq!(
        a.url,
        "https://auth.docker.io/token?service=registry.docker.io&scope=repository%3Alibrary%2Fnginx%3Apull"
    );
}

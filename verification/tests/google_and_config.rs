use whatsapp_rust_server::config::{parse_u16, Config, ConfigError, EnvVars};
use whatsapp_rust_server::contacts::{upsert_step, UpsertBatch, UpsertOutcome, UpsertStep, UpsertTally};
use whatsapp_rust_server::google::auth::{
    build_auth_url, credentials_from_config, credentials_path, exchange_params, refresh_params,
    token_expired_flag_at,
    token_from_reply_at, token_path, user_dir, Credentials, Token, TokenReply, TokenReplyError, RefreshError,
};
use whatsapp_rust_server::text::join_path;
use whatsapp_rust_server::google::people::{
    absorb_page, contact_from_raw, contact_payload, contact_to_create, find_contact_by_phone,
    normalized_phones, ContactInfo, InvalidPhone, RawContact, RawPhone,
};

fn vars() -> EnvVars {
    EnvVars {
        port: None,
        secret_key: Some("S".to_string()),
        sessions_dir: None,
        db_user: None,
        db_pass: None,
        db_url: None,
        google_contacts_secret_key: None,
        openai_api_key: None,
        openai_model: None,
        google_contacts_token_dir: None,
        google_client_id: Some("cid".to_string()),
        google_client_secret: None,
        google_redirect_uri: Some("http://localhost/cb".to_string()),
    }
}

#[test]
fn ports_parse_like_std() {
    for s in ["21465", "+80", "007", "0", "65535", "65536", "-1", "+", "", "12a", " 1", "99999999999"] {
        assert_eq!(parse_u16(s), s.parse::<u16>().ok(), "input {s:?}");
    }
}

#[test]
fn config_defaults_and_errors() {
    let c = Config::from_vars(vars()).unwrap();
    assert_eq!(c.port, 21465);
    assert_eq!(c.sessions_dir, "./sessions");
    assert_eq!(c.openai_model, "gpt-3.5-turbo");
    assert_eq!(c.google_contacts_token_dir, "./google-tokens");
    assert_eq!(c.db_user, "");
    let mut v = vars();
    v.secret_key = None;
    assert_eq!(Config::from_vars(v).unwrap_err(), ConfigError::MissingSecretKey);
    let mut v = vars();
    v.port = Some("70000".to_string());
    assert_eq!(Config::from_vars(v).unwrap_err(), ConfigError::InvalidPort);
    let creds = credentials_from_config(&c);
    assert_eq!((creds.client_id.as_str(), creds.client_secret.as_str()), ("cid", ""));
}

#[test]
fn token_expiry() {
    let t = Token {
        access_token: "a".to_string(),
        refresh_token: None,
        token_type: "Bearer".to_string(),
        expires_in: 3600,
        obtained_at: 1000,
    };
    assert!(!t.is_expired_at(4539));
    assert!(t.is_expired_at(4540));
    let short = Token { expires_in: 30, ..t.clone() };
    assert!(short.is_expired_at(1000));
    assert!(!short.is_expired_at(999));
    assert!(t.is_expired());
    assert!(!token_expired_flag_at(false, None, 5000));
    assert!(token_expired_flag_at(true, None, 0));
    assert!(!token_expired_flag_at(true, Some(&t), 4539));
    assert!(token_expired_flag_at(true, Some(&t), 4540));
}

#[test]
fn paths_join_like_std() {
    for (base, key) in [("./google-tokens", "user1"), ("dir/", "k"), ("", "k"), ("dir", "/abs"), ("dir", "")] {
        let expected = std::path::PathBuf::from(base).join(key);
        assert_eq!(join_path(base, key), expected.to_string_lossy(), "{base:?} {key:?}");
        assert_eq!(user_dir(base, key), expected.to_string_lossy());
        assert_eq!(
            credentials_path(base, key),
            expected.join("credentials.json").to_string_lossy()
        );
        assert_eq!(token_path(base, key), expected.join("token.json").to_string_lossy());
    }
}

#[test]
fn token_replies() {
    let reply = TokenReply { access_token: Some("A".to_string()), refresh_token: None, token_type: None, expires_in: None };
    let t = token_from_reply_at(reply, Some("R".to_string()), 42).unwrap();
    assert_eq!(t.access_token, "A");
    assert_eq!(t.refresh_token.as_deref(), Some("R"));
    assert_eq!(t.token_type, "Bearer");
    assert_eq!((t.expires_in, t.obtained_at), (3600, 42));
    let reply = TokenReply { access_token: None, refresh_token: None, token_type: None, expires_in: None };
    assert_eq!(token_from_reply_at(reply, None, 1).unwrap_err(), TokenReplyError::MissingAccessToken);
}

#[test]
fn auth_url_is_encoded() {
    let creds = Credentials {
        client_id: "abc".to_string(),
        client_secret: "s".to_string(),
        redirect_uri: "http://localhost/cb".to_string(),
    };
    assert_eq!(
        build_auth_url(&creds),
        "https://accounts.google.com/o/oauth2/v2/auth?client_id=abc&redirect_uri=http%3A%2F%2Flocalhost%2Fcb&scope=https%3A%2F%2Fwww.googleapis.com%2Fauth%2Fcontacts&response_type=code&access_type=offline&prompt=consent"
    );
}

fn contact(name: &str, phones: &[&str]) -> ContactInfo {
    ContactInfo {
        resource_name: format!("people/{name}"),
        display_name: name.to_string(),
        phones: phones.iter().map(|p| p.to_string()).collect(),
    }
}

#[test]
fn contacts_are_read_and_matched() {
    let raw = RawContact {
        resource_name: Some("people/c1".to_string()),
        first_display_name: None,
        phones: vec![
            RawPhone { canonical_form: Some("+16502530000".to_string()), value: Some("(650)".to_string()) },
            RawPhone { canonical_form: None, value: Some("650 253 0001".to_string()) },
            RawPhone { canonical_form: None, value: None },
        ],
    };
    let c = contact_from_raw(raw).unwrap();
    assert_eq!(c.display_name, "");
    assert_eq!(c.phones, vec!["+16502530000".to_string(), "650 253 0001".to_string()]);
    assert!(contact_from_raw(RawContact { resource_name: None, first_display_name: None, phones: vec![] }).is_none());

    let list = vec![contact("x", &["bad"]), contact("y", &["1 650 253 0000", "zz"])];
    assert_eq!(normalized_phones(&list), vec!["+16502530000".to_string()]);
    assert_eq!(contact_to_create(&list, "+1 650-253-0000"), Ok(None));
    assert_eq!(contact_to_create(&list, "1 650 253 0001"), Ok(Some("+16502530001".to_string())));
    assert_eq!(contact_to_create(&list, "nope"), Err(InvalidPhone::InvalidPhoneNumber));
    let found = find_contact_by_phone(list, "16502530000@c.us").unwrap().unwrap();
    assert_eq!(found.display_name, "y");
    assert!(find_contact_by_phone(vec![contact("x", &["bad"])], "16502530000").unwrap().is_none());
    let p = contact_payload("", "+1");
    assert!(p.display_name.is_none());
    assert_eq!(contact_payload("Ana", "+1").display_name.as_deref(), Some("Ana"));
}

#[test]
fn upsert_steps_and_tally() {
    let existing = vec!["+16502530000".to_string()];
    assert!(matches!(upsert_step(&existing, "16502530000"), UpsertStep::AlreadyPresent));
    assert!(matches!(upsert_step(&existing, "?"), UpsertStep::Invalid));
    let mut t = UpsertTally::new();
    t.record(UpsertOutcome::Created);
    t.record(UpsertOutcome::Skipped);
    t.record(UpsertOutcome::Failed);
    t.record(UpsertOutcome::Created);
    assert_eq!((t.created, t.skipped, t.errors), (2, 1, 1));
}

#[test]
fn token_request_forms() {
    let creds = Credentials {
        client_id: "cid".to_string(),
        client_secret: "cs".to_string(),
        redirect_uri: "https://x/cb".to_string(),
    };
    let pairs = |v: Vec<(String, String)>| v.into_iter().map(|(a, b)| format!("{a}={b}")).collect::<Vec<_>>();
    assert_eq!(
        pairs(exchange_params(&creds, "C0DE")),
        vec!["code=C0DE", "client_id=cid", "client_secret=cs", "redirect_uri=https://x/cb", "grant_type=authorization_code"]
    );
    let mut t = Token {
        access_token: "a".to_string(),
        refresh_token: Some("R".to_string()),
        token_type: "Bearer".to_string(),
        expires_in: 3600,
        obtained_at: 0,
    };
    assert_eq!(
        pairs(refresh_params(&creds, &t).unwrap()),
        vec!["refresh_token=R", "client_id=cid", "client_secret=cs", "grant_type=refresh_token"]
    );
    t.refresh_token = None;
    assert_eq!(refresh_params(&creds, &t).unwrap_err(), RefreshError::NoRefreshToken);
}

#[test]
fn batch_skips_a_number_it_created_earlier() {
    let mut batch = UpsertBatch::new(vec!["+16502530001".to_string()]);
    let step = batch.next("+1 650 253 0000");
    assert!(matches!(&step, UpsertStep::Create(n) if n == "+16502530000"));
    batch.record(step, true);
    assert!(matches!(batch.next("16502530000"), UpsertStep::AlreadyPresent));
    let step = batch.next("16502530000");
    batch.record(step, false);
    let step = batch.next("abc");
    batch.record(step, false);
    let step = batch.next("+16502530001");
    batch.record(step, false);
    assert_eq!(batch.tally, UpsertTally { created: 1, skipped: 2, errors: 1 });
    assert_eq!(batch.existing, vec!["+16502530001".to_string(), "+16502530000".to_string()]);
}

#[test]
fn pages_of_connections_are_gathered_in_order() {
    let raw = |name: Option<&str>, display: &str| RawContact {
        resource_name: name.map(str::to_string),
        first_display_name: Some(display.to_string()),
        phones: vec![RawPhone { canonical_form: None, value: Some("+16502530000".to_string()) }],
    };
    let mut contacts = Vec::new();
    let next = absorb_page(&mut contacts, vec![raw(Some("people/1"), "A"), raw(None, "skip")], Some("p2".to_string()));
    assert_eq!(next.as_deref(), Some("p2"));
    let next = absorb_page(&mut contacts, vec![raw(Some("people/2"), "B")], None);
    assert_eq!(next, None);
    let names: Vec<&str> = contacts.iter().map(|c| c.resource_name.as_str()).collect();
    assert_eq!(names, vec!["people/1", "people/2"]);
    assert_eq!(contacts[1].display_name, "B");
    assert_eq!(contacts[0].phones, vec!["+16502530000".to_string()]);
}

use axum::http::{HeaderMap, HeaderValue};
use sin90::http::actor::{
    bearer_token, forbidden, key_from_bytes, load_or_create_file, random_key, read_file,
    reads_key_file, temporary_key_file, Actor, ActorKeys, KeyError, KeyFile, KeyFileRead, KeyPaths,
    KeySource, Publish, PublishStep, StepResult, KEY_FILE, KEY_FILE_MODE, MIN_KEY_LEN,
};
use sin90::json::Json;

const H: &str = "hhhhhhhhhhhhhhhhhhhhhhhhhhhhhhhhhhhhhhhh";
const A: &str = "aaaaaaaaaaaaaaaaaaaaaaaaaaaaaaaaaaaaaaaa";

fn keys() -> ActorKeys {
    ActorKeys {
        human: "human-secret".into(),
        automation: "auto-secret".into(),
    }
}

fn with_key(value: HeaderValue) -> HeaderMap {
    let mut h = HeaderMap::new();
    h.insert("x-sin90-actor-key", value);
    h
}

#[test]
fn identifies_human_and_automation_by_distinct_keys() {
    let k = keys();
    let mut h = HeaderMap::new();
    h.insert(
        "x-sin90-actor-key",
        HeaderValue::from_static("human-secret"),
    );
    assert_eq!(k.identify(&h), Some(Actor::Human));

    let mut a = HeaderMap::new();
    a.insert("x-sin90-actor-key", HeaderValue::from_static("auto-secret"));
    assert_eq!(k.identify(&a), Some(Actor::Automation));
}

#[test]
fn unrecognized_or_missing_key_identifies_as_none() {
    let k = keys();
    assert_eq!(k.identify(&HeaderMap::new()), None);

    let mut wrong = HeaderMap::new();
    wrong.insert("x-sin90-actor-key", HeaderValue::from_static("nope"));
    assert_eq!(k.identify(&wrong), None);

    let mut auth_header = HeaderMap::new();
    auth_header.insert(
        axum::http::header::AUTHORIZATION,
        HeaderValue::from_static("Bearer human-secret"),
    );
    assert_eq!(k.identify(&auth_header), None);
}

#[test]
fn generated_keys_are_not_reused_between_two_calls() {
    let h1 = random_key();
    let a1 = random_key();
    let h2 = random_key();
    assert_ne!(h1, a1, "human and automation keys must differ");
    assert_ne!(h1, h2, "two generation calls must not collide");
}

#[test]
fn weak_or_identical_keys_are_refused() {
    assert!(matches!(
        ActorKeys::new(String::new(), A.into()),
        Err(KeyError::TooShort("human"))
    ));
    assert!(matches!(
        ActorKeys::new(H.into(), "short".into()),
        Err(KeyError::TooShort("automation"))
    ));
    let spaced = format!("{} x", &H[..MIN_KEY_LEN]);
    assert!(matches!(
        ActorKeys::new(spaced, A.into()),
        Err(KeyError::NotHeaderSafe("human"))
    ));
    assert!(matches!(
        ActorKeys::new(H.into(), H.into()),
        Err(KeyError::Identical)
    ));
    assert!(ActorKeys::new(H.into(), A.into()).is_ok());
}

#[test]
fn keys_are_compared_byte_for_byte() {
    let k = keys();
    for near in ["human-secres", "human-secret ", "human-secre", "Human-secret", ""] {
        assert_eq!(k.identify(&with_key(HeaderValue::from_str(near).unwrap())), None);
    }
}

#[test]
fn the_first_of_several_keys_counts() {
    let mut h = with_key(HeaderValue::from_static("auto-secret"));
    h.append("X-Sin90-Actor-Key", HeaderValue::from_static("human-secret"));
    assert_eq!(keys().identify(&h), Some(Actor::Automation));
}

#[test]
fn a_key_header_that_is_not_text_is_no_key() {
    let opaque = with_key(HeaderValue::from_bytes(b"human-secret\xff").unwrap());
    assert_eq!(bearer_token(&opaque), None);
    assert_eq!(keys().identify(&opaque), None);
    let tabbed = with_key(HeaderValue::from_bytes(b"a\tb c").unwrap());
    assert_eq!(bearer_token(&tabbed), Some("a\tb c"));
}

#[test]
fn a_key_of_the_minimum_length_is_accepted_and_one_byte_less_is_not() {
    let shortest = "k".repeat(32);
    assert!(ActorKeys::new(shortest.clone(), A.into()).is_ok());
    assert!(matches!(
        ActorKeys::new(shortest[1..].to_string(), A.into()),
        Err(KeyError::TooShort("human"))
    ));
    // The length counts bytes, and a long key may still be unfit for a header.
    assert!(matches!(
        ActorKeys::new("é".repeat(16), A.into()),
        Err(KeyError::NotHeaderSafe("human"))
    ));
    assert!(matches!(
        ActorKeys::new(H.into(), format!("{A}\u{7f}")),
        Err(KeyError::NotHeaderSafe("automation"))
    ));
    assert!(ActorKeys::new(format!("{H}!~"), A.into()).is_ok());
}

#[test]
fn a_generated_key_spells_its_bytes_in_lower_case_hex() {
    let mut bytes = [0u8; 24];
    bytes[0] = 0x01;
    bytes[1] = 0xab;
    bytes[2] = 0xf0;
    bytes[23] = 0x9e;
    assert_eq!(
        key_from_bytes(&bytes),
        format!("01abf0{}9e", "00".repeat(20))
    );
    let key = random_key();
    assert_eq!(key.len(), 48);
    assert!(key.bytes().all(|b| b.is_ascii_digit() || (b'a'..=b'f').contains(&b)));
    assert!(ActorKeys::new(key, random_key()).is_ok());
}

#[test]
fn keys_come_from_both_variables_or_from_the_file() {
    match ActorKeys::load(Some(H.into()), Some(A.into()), false) {
        Ok(KeySource::Environment(k)) => {
            assert_eq!(k.human, H);
            assert_eq!(k.automation, A);
        }
        other => panic!("{other:?}"),
    }
    assert!(matches!(
        ActorKeys::load(Some(H.into()), Some(H.into()), true),
        Err(KeyError::Identical)
    ));
    assert!(matches!(
        ActorKeys::load(Some(H.into()), None, true),
        Err(KeyError::PartialEnv)
    ));
    assert!(matches!(
        ActorKeys::load(None, Some(A.into()), true),
        Err(KeyError::PartialEnv)
    ));
    assert!(matches!(ActorKeys::load(None, None, true), Ok(KeySource::File)));
    assert!(matches!(
        ActorKeys::load(None, None, false),
        Err(KeyError::NoSource)
    ));
}

fn file(human: &str, automation: &str) -> KeyFile {
    KeyFile {
        human: human.into(),
        automation: automation.into(),
    }
}

fn on_disk(mode: u32, keys: KeyFile) -> KeyFileRead {
    KeyFileRead {
        mode: Ok(mode),
        contents: Ok(Ok(keys)),
    }
}

#[test]
fn a_key_file_open_to_others_is_refused_before_it_is_read() {
    assert!(read_file("k", on_disk(0o100600, file(H, A))).is_ok());
    assert!(read_file("k", on_disk(0o700, file(H, A))).is_ok());
    for mode in [0o640, 0o604, 0o601, 0o660, 0o777] {
        match read_file("/d/k", on_disk(0o100000 | mode, file(H, H))) {
            Err(KeyError::TooOpen { path, mode: shown }) => {
                assert_eq!(path, "/d/k");
                assert_eq!(shown, mode);
            }
            other => panic!("{other:?}"),
        }
    }
}

#[test]
fn a_key_file_that_does_not_read_parse_or_validate_is_refused() {
    let unreadable = KeyFileRead {
        mode: Err("denied".into()),
        contents: Ok(Ok(file(H, A))),
    };
    assert!(matches!(read_file("k", unreadable), Err(KeyError::Io { .. })));
    let gone = KeyFileRead {
        mode: Ok(0o600),
        contents: Err("gone".into()),
    };
    assert!(matches!(read_file("k", gone), Err(KeyError::Io { .. })));
    let broken = KeyFileRead {
        mode: Ok(0o600),
        contents: Ok(Err("expected value".into())),
    };
    assert!(matches!(read_file("k", broken), Err(KeyError::Parse { .. })));
    assert!(matches!(
        read_file("k", on_disk(0o600, file(H, H))),
        Err(KeyError::Identical)
    ));
}

fn paths() -> KeyPaths {
    KeyPaths {
        file: "/d/actor-keys.json".into(),
        directory: "/d".into(),
        temporary: "/d/.actor-keys.json.7.tmp".into(),
    }
}

#[test]
fn keys_on_file_are_never_replaced() {
    let fresh = || file(&"f".repeat(48), &"e".repeat(48));
    let kept = load_or_create_file(
        &paths(),
        true,
        fresh(),
        Publish::Linked,
        on_disk(0o600, file(H, A)),
    )
    .unwrap();
    assert_eq!(kept.human, H);
    // Another process published first.
    let theirs = load_or_create_file(
        &paths(),
        false,
        fresh(),
        Publish::AlreadyThere,
        on_disk(0o600, file(H, A)),
    )
    .unwrap();
    assert_eq!(theirs.automation, A);
    let ours = load_or_create_file(
        &paths(),
        false,
        fresh(),
        Publish::Linked,
        on_disk(0o600, file(H, A)),
    )
    .unwrap();
    assert_eq!(ours.human, "f".repeat(48));
    assert!(reads_key_file(true, &Publish::Linked));
    assert!(reads_key_file(false, &Publish::AlreadyThere));
    assert!(!reads_key_file(false, &Publish::Linked));
}

#[test]
fn a_restart_reads_back_the_keys_it_published() {
    let fresh = || file(&"f".repeat(48), &"e".repeat(48));
    let none = KeyFileRead {
        mode: Err("not read".into()),
        contents: Err("not read".into()),
    };
    let first = load_or_create_file(&paths(), false, fresh(), Publish::Linked, none).unwrap();
    let later = load_or_create_file(
        &paths(),
        true,
        file(H, A),
        Publish::AlreadyThere,
        on_disk(0o100000 | KEY_FILE_MODE, fresh()),
    )
    .unwrap();
    assert_eq!(first.human, later.human);
    assert_eq!(first.automation, later.automation);
}

/// The steps taken, and how publishing ended.
fn walk(results: Vec<StepResult>) -> (Vec<&'static str>, Publish) {
    let mut step = PublishStep::first();
    let mut taken = vec![];
    for r in results {
        taken.push(match &step {
            PublishStep::MakeDirectory => "directory",
            PublishStep::WriteTemporary => "write",
            PublishStep::Link => "link",
            PublishStep::RemoveTemporary(_) => "remove",
            PublishStep::Ended(_) => panic!("ended"),
        });
        step = step.next(r);
    }
    match step {
        PublishStep::Ended(publish) => (taken, publish),
        other => panic!("{other:?}"),
    }
}

#[test]
fn publishing_removes_its_temporary_file_however_it_ends() {
    let no = || StepResult::Failed("no".into());
    let taken = || StepResult::NameTaken("taken".into());
    let done = || StepResult::Done;
    let (steps, end) = walk(vec![done(), done(), done(), done()]);
    assert_eq!(steps, ["directory", "write", "link", "remove"]);
    assert!(matches!(end, Publish::Linked));
    let (_, end) = walk(vec![done(), done(), taken(), no()]);
    assert!(matches!(end, Publish::AlreadyThere));
    let (_, end) = walk(vec![done(), done(), no(), done()]);
    assert!(matches!(end, Publish::LinkFailed(e) if e == "no"));
    let (steps, end) = walk(vec![done(), taken(), done()]);
    assert_eq!(steps, ["directory", "write", "remove"]);
    assert!(matches!(end, Publish::WriteFailed(e) if e == "taken"));
    let (steps, end) = walk(vec![no()]);
    assert_eq!(steps, ["directory"]);
    assert!(matches!(end, Publish::DirectoryFailed(e) if e == "no"));
}

#[test]
fn a_failed_publish_names_the_path_it_failed_on() {
    let attempt = |publish: Publish| {
        load_or_create_file(
            &paths(),
            false,
            file(H, A),
            publish,
            on_disk(0o600, file(H, A)),
        )
        .unwrap_err()
        .message()
    };
    assert_eq!(attempt(Publish::DirectoryFailed("no".into())), "/d: no");
    assert_eq!(
        attempt(Publish::WriteFailed("full".into())),
        "/d/.actor-keys.json.7.tmp: full"
    );
    assert_eq!(
        attempt(Publish::LinkFailed("cross".into())),
        "/d/actor-keys.json: cross"
    );
}

#[test]
fn errors_in_words() {
    assert_eq!(
        KeyError::TooShort("human").message(),
        "human key is too short (minimum 32 characters)"
    );
    assert_eq!(
        KeyError::NotHeaderSafe("automation").message(),
        "automation key must be printable ASCII with no spaces (it travels in an HTTP header)"
    );
    assert_eq!(
        KeyError::Identical.message(),
        "human and automation keys must differ"
    );
    assert_eq!(
        KeyError::PartialEnv.message(),
        "set both SIN90_HUMAN_KEY and SIN90_AUTOMATION_KEY, or neither"
    );
    assert_eq!(
        KeyError::NoSource.message(),
        "no key source: set SIN90_HUMAN_KEY/SIN90_AUTOMATION_KEY, or give a data directory"
    );
    let open = KeyError::TooOpen {
        path: "/d/k".into(),
        mode: 0o640,
    };
    assert_eq!(
        open.message(),
        "/d/k is readable or writable by group/other (mode 640); run `chmod 600` on it"
    );
    let broken = KeyError::Parse {
        path: "/d/k".into(),
        source: "EOF".into(),
    };
    assert_eq!(broken.message(), "/d/k is not a valid key file: EOF");
}

#[test]
fn the_temporary_key_file_is_hidden_and_per_process() {
    assert_eq!(KEY_FILE, "actor-keys.json");
    assert_eq!(temporary_key_file(4096), ".actor-keys.json.4096.tmp");
    assert_eq!(temporary_key_file(0), ".actor-keys.json.0.tmp");
}

#[test]
fn forbidden_is_a_403_with_a_code() {
    let reply = forbidden("why");
    assert_eq!(reply.status, 403);
    match reply.body {
        Json::Object(fields) => assert_eq!(fields[0].0, "error"),
        other => panic!("{other:?}"),
    }
}

use raven::BuildError;
use raven::Bytes;
use raven::Generator;

fn record(path: &str, raw: &[u8]) -> Bytes {
    Bytes { path: path.to_string(), raw: raw.to_vec() }
}

#[test]
fn round_trip_copy_keeps_bytes_and_relative_path() {
    let entries = vec![
        Ok(record("in/a.txt", b"alpha")),
        Ok(record("in/sub/b.bin", &[0u8, 159, 146, 150])),
    ];
    let generator = Generator::from_entries("in".to_string(), entries).unwrap();
    let out = generator.destination_records("out").unwrap();

    assert_eq!(out.len(), 2);
    assert_eq!(out[0].path, "out/a.txt");
    assert_eq!(out[0].raw, b"alpha");
    assert_eq!(out[1].path, "out/sub/b.bin");
    assert_eq!(out[1].raw, vec![0u8, 159, 146, 150]);
}

#[test]
fn projection_fails_loudly_on_a_record_outside_the_root() {
    let entries = vec![
        Ok(record("in/good.txt", b"fine")),
        Ok(record("elsewhere/bad.txt", b"nope")),
    ];
    let generator = Generator::from_entries("in".to_string(), entries).unwrap();
    match generator.destination_records("out") {
        Err(BuildError::Path { path, .. }) => assert_eq!(path, "elsewhere/bad.txt"),
        other => panic!("expected a path error, got {:?}", other),
    }
}

#[test]
fn enumeration_is_all_or_nothing() {
    let entries: Vec<Result<Bytes, BuildError>> = vec![
        Ok(record("in/ok.txt", b"fine")),
        Err(BuildError::Io {
            path: "in/locked.txt".to_string(),
            detail: "permission denied".to_string(),
        }),
        Ok(record("in/later.txt", b"unseen")),
    ];
    match Generator::from_entries("in".to_string(), entries) {
        Err(BuildError::Io { path, .. }) => assert_eq!(path, "in/locked.txt"),
        other => panic!("expected the build to abort with an access error, got {:?}", other),
    }
}

#[test]
fn first_failure_wins() {
    let entries: Vec<Result<Bytes, BuildError>> = vec![
        Err(BuildError::Io {
            path: "in/first.txt".to_string(),
            detail: "unreadable".to_string(),
        }),
        Err(BuildError::Io {
            path: "in/second.txt".to_string(),
            detail: "unreadable".to_string(),
        }),
    ];
    match Generator::from_entries("in".to_string(), entries) {
        Err(BuildError::Io { path, .. }) => assert_eq!(path, "in/first.txt"),
        other => panic!("expected an access error, got {:?}", other),
    }
}

#[test]
fn generator_holds_records_in_enumeration_order() {
    let entries = vec![
        Ok(record("in/1.txt", b"one")),
        Ok(record("in/2.txt", b"two")),
    ];
    let generator = Generator::from_entries("in".to_string(), entries).unwrap();
    assert_eq!(generator.source, "in");
    assert_eq!(generator.data.len(), 2);
    assert_eq!(generator.data[0].path, "in/1.txt");
    assert_eq!(generator.data[1].raw, b"two");
}

#[test]
fn error_accessors_expose_path_and_detail() {
    let e = BuildError::Transform {
        path: "in/x.hat".to_string(),
        detail: "bad template".to_string(),
    };
    assert_eq!(e.path(), "in/x.hat");
    assert_eq!(e.detail(), "bad template");
    assert_eq!(e.message(), "in/x.hat: bad template");
}

use seedr_dl::seedr::{
    caching_step, delete_folder_payload, fetch_file_url, interpret_add_magnet, interpret_login,
    list_folder_url, list_root_url, AddMagnetError, CachingStep, LoginError, SeedrFile,
    SeedrFolder,
};

fn folder(id: u64, name: &str) -> SeedrFolder {
    SeedrFolder { id, name: name.to_string(), size: None }
}

#[test]
fn resource_urls() {
    assert_eq!(
        list_root_url("tok"),
        "https://www.seedr.cc/oauth_test/resource.php?func=list_contents&access_token=tok"
    );
    assert_eq!(
        list_folder_url(42, "tok"),
        "https://www.seedr.cc/oauth_test/resource.php?func=list_contents&folder_id=42&access_token=tok"
    );
    assert_eq!(
        fetch_file_url(7, "t"),
        "https://www.seedr.cc/oauth_test/resource.php?func=fetch_file&folder_file_id=7&access_token=t"
    );
    assert_eq!(delete_folder_payload(123), r#"[{"type":"folder","id":123}]"#);
}

#[test]
fn file_id_prefers_folder_file_id() {
    let f = SeedrFile { id: Some(1), folder_file_id: Some(2), name: "a".into(), size: 0 };
    assert_eq!(f.file_id(), Some(2));
    let f = SeedrFile { id: Some(1), folder_file_id: None, name: "a".into(), size: 0 };
    assert_eq!(f.file_id(), Some(1));
    let f = SeedrFile { id: None, folder_file_id: None, name: "a".into(), size: 0 };
    assert_eq!(f.file_id(), None);
}

#[test]
fn add_magnet_replies() {
    assert!(matches!(
        interpret_add_magnet(Some("not_enough_space_added".into()), None, Some(5)),
        Err(AddMagnetError::NotEnoughSpace)
    ));
    match interpret_add_magnet(Some("queue_full".into()), Some("e".into()), Some(5)) {
        Err(AddMagnetError::Rejected(r)) => assert_eq!(r, "queue_full"),
        other => panic!("unexpected {other:?}"),
    }
    match interpret_add_magnet(None, Some("bad magnet".into()), Some(5)) {
        Err(AddMagnetError::Api(e)) => assert_eq!(e, "bad magnet"),
        other => panic!("unexpected {other:?}"),
    }
    assert!(matches!(interpret_add_magnet(None, None, Some(99)), Ok(99)));
    assert!(matches!(interpret_add_magnet(None, None, None), Err(AddMagnetError::NoTorrentId)));
}

#[test]
fn login_replies() {
    match interpret_login(Some("a".into()), Some("r".into()), None, None) {
        Ok(auth) => {
            assert_eq!(auth.access_token, "a");
            assert_eq!(auth.refresh_token.as_deref(), Some("r"));
        }
        Err(e) => panic!("unexpected {e:?}"),
    }
    match interpret_login(Some("a".into()), None, Some("invalid_grant".into()), Some("bad password".into())) {
        Err(LoginError::Rejected(e, d)) => {
            assert_eq!(e, "invalid_grant");
            assert_eq!(d, "bad password");
        }
        other => panic!("unexpected {other:?}"),
    }
    match interpret_login(None, None, Some("invalid_grant".into()), None) {
        Err(LoginError::Rejected(e, d)) => {
            assert_eq!(e, "invalid_grant");
            assert_eq!(d, "");
        }
        other => panic!("unexpected {other:?}"),
    }
    assert!(matches!(interpret_login(None, Some("r".into()), None, None), Err(LoginError::NoAccessToken)));
}

#[test]
fn caching_steps() {
    let folders = vec![folder(1, "Other"), folder(2, "Dune.2021"), folder(3, "Dune.2021")];
    assert_eq!(caching_step(&folders, &vec![10], 10, "Dune.2021"), CachingStep::Ready(1));
    let folders = vec![folder(1, "Other")];
    assert_eq!(caching_step(&folders, &vec![4, 10], 10, "Dune.2021"), CachingStep::Waiting);
    let folders = vec![folder(1, "Other"), folder(2, "Dune.2021.1080p")];
    assert_eq!(caching_step(&folders, &vec![4], 10, "Dune.2021"), CachingStep::Ready(1));
    let folders = vec![folder(1, "Dune")];
    assert_eq!(caching_step(&folders, &vec![], 10, "Dune.2021"), CachingStep::Ready(0));
    let folders = vec![folder(1, "Other")];
    assert_eq!(caching_step(&folders, &vec![], 10, "Dune.2021"), CachingStep::Vanished);
}

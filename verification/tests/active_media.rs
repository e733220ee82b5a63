use kitsune_compositor_backend::{ActiveMediaIndex, ActiveMediaKind, ActiveMediaStore};

fn store() -> ActiveMediaStore {
    ActiveMediaStore::new("/tmp/active-media.json".into())
}

#[test]
fn publishes_replaces_and_protects_ownership() {
    let store = store();
    let mut index = store.accept(None).unwrap();
    store
        .publish(
            &mut index,
            "DP-1",
            "kitowall",
            ActiveMediaKind::Static,
            Ok("/media/first.png".into()),
            Ok("/media/first.png".into()),
            1,
        )
        .unwrap();
    let live = store
        .publish(
            &mut index,
            "DP-1",
            "kilivepaper",
            ActiveMediaKind::Live,
            Ok("/media/second.mp4".into()),
            Ok("/media/preview.jpg".into()),
            2,
        )
        .unwrap();
    assert_eq!(store.list(&index), vec![live]);
    assert!(store.remove(&mut index, "DP-1", "kitowall").is_err());
    assert!(store.remove(&mut index, "DP-1", "kilivepaper").unwrap());
    assert_eq!(store.get(&index, "DP-1").unwrap().unwrap().owner, "kitowall");
}

#[test]
fn identifiers_and_paths_are_checked_in_order() {
    let store = store();
    let mut index = ActiveMediaIndex::new();
    assert_eq!(
        store
            .publish(&mut index, "DP 1", "bad owner", ActiveMediaKind::Static, Err("x".into()), Err("y".into()), 0)
            .unwrap_err(),
        "invalid active media output: DP 1"
    );
    assert_eq!(
        store
            .publish(&mut index, "DP-1", "bad owner", ActiveMediaKind::Static, Err("x".into()), Err("y".into()), 0)
            .unwrap_err(),
        "invalid active media owner: bad owner"
    );
    assert_eq!(
        store
            .publish(&mut index, "DP-1", "owner", ActiveMediaKind::Static, Err("x".into()), Err("y".into()), 0)
            .unwrap_err(),
        "x"
    );
    assert!(store.list(&index).is_empty());
    assert_eq!(ActiveMediaKind::parse("live"), Ok(ActiveMediaKind::Live));
    assert_eq!(
        ActiveMediaKind::parse("gif").unwrap_err(),
        "active media kind must be static or live"
    );
}

#[test]
fn listing_follows_output_names_and_schema_is_checked() {
    let store = store();
    let mut index = ActiveMediaIndex::new();
    for output in ["HDMI-A-1", "DP-2", "DP-1"] {
        store
            .publish(&mut index, output, "kitowall", ActiveMediaKind::Static, Ok("/a.png".into()), Ok("/a.png".into()), 3)
            .unwrap();
    }
    let outputs: Vec<String> = store.list(&index).into_iter().map(|r| r.output).collect();
    assert_eq!(outputs, vec!["DP-1", "DP-2", "HDMI-A-1"]);
    let mut stale = ActiveMediaIndex::new();
    stale.schema_version = 2;
    assert_eq!(
        store.accept(Some(stale)).err().unwrap(),
        "unsupported active media state schema: 2"
    );
    assert_eq!(store.remove(&mut index, "DP-9", "kitowall"), Ok(false));
}

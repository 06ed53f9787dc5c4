use cautious_carnival::registry::SceneRegistry;

#[test]
fn scene_add_remove_ids() {
    let mut scene = SceneRegistry::new();
    let id0 = scene.add();
    let id1 = scene.add();
    assert_eq!(id0, 0);
    assert_eq!(id1, 1);
    assert!(scene.remove(id0));
    assert!(!scene.remove(id0));
    assert!(scene.contains(id1));
}

#[test]
fn registry_starts_empty() {
    let r = SceneRegistry::new();
    assert_eq!(r.next_id(), 0);
    assert_eq!(r.last_added_id(), 0);
    assert!(r.live_ids().is_empty());
    assert!(!r.contains(0));
}

#[test]
fn ids_are_not_reused() {
    let mut r = SceneRegistry::new();
    let a = r.add();
    assert!(r.remove(a));
    let b = r.add();
    assert_eq!(b, 1);
    assert_eq!(r.next_id(), 2);
    assert!(!r.contains(a));
    assert!(r.contains(b));
}

#[test]
fn removing_unknown_id_changes_nothing() {
    let mut r = SceneRegistry::new();
    r.add();
    r.add();
    assert!(!r.remove(7));
    assert_eq!(r.live_ids(), vec![0, 1]);
}

#[test]
fn remove_touches_only_its_id_example() {
    let mut r = SceneRegistry::new();
    for _ in 0..4 {
        r.add();
    }
    assert!(r.remove(2));
    assert!(r.contains(0));
    assert!(r.contains(1));
    assert!(!r.contains(2));
    assert!(r.contains(3));
    assert_eq!(r.live_ids(), vec![0, 1, 3]);
}

#[test]
fn last_added_falls_back_after_removal() {
    let mut r = SceneRegistry::new();
    r.add();
    r.add();
    let c = r.add();
    assert_eq!(r.last_added_id(), c);
    assert!(r.remove(c));
    assert_eq!(r.last_added_id(), 1);
    assert!(r.remove(0));
    assert_eq!(r.last_added_id(), 1);
    assert!(r.remove(1));
    assert_eq!(r.last_added_id(), 0);
}

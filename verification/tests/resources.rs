use etest::{
    Location, NotifyToken, Reservation, ResourceBuilder, ResourceId, ResourceLockGuard,
    ResourceManager, ResourceSet,
};

fn at(line: u32, thread: &str) -> Location {
    Location::new("tests/resources.rs".to_string(), line, 1, Some(thread.to_string()))
}

fn named(name: &str) -> ResourceId {
    ResourceId::new(name)
}

fn consuming(names: &[&str]) -> ResourceSet {
    let mut builder = ResourceBuilder::new();
    for name in names {
        builder = builder.consumes(named(name));
    }
    builder.finish()
}

fn using(names: &[&str]) -> ResourceSet {
    let mut builder = ResourceBuilder::new();
    for name in names {
        builder = builder.uses(named(name));
    }
    builder.finish()
}

fn acquired(r: Reservation) -> ResourceLockGuard {
    match r {
        Reservation::Acquired(guard) => guard,
        Reservation::Blocked(_) => panic!("the request should have been granted"),
    }
}

fn blocked(r: Reservation) -> NotifyToken {
    match r {
        Reservation::Acquired(_) => panic!("the request should have been refused"),
        Reservation::Blocked(token) => token,
    }
}

#[test]
fn resource_id_variants() {
    assert_eq!(ResourceId::new("x"), ResourceId::from_string("x".to_string()));
    assert_eq!(ResourceId::from("x"), ResourceId::new("x"));
    assert_eq!(ResourceId::from("x".to_string()), ResourceId::new("x"));
    assert_ne!(ResourceId::new("x"), ResourceId::new("y"));
    assert_ne!(ResourceId::new("x"), ResourceId::Basic);
    assert_ne!(ResourceId::Absent, ResourceId::Basic);
    assert_eq!(ResourceId::Absent, ResourceId::Absent);
    assert!(ResourceId::new("x").is_some());
    assert!(ResourceId::new("").is_some());
    assert!(ResourceId::Basic.is_some());
    assert!(!ResourceId::Absent.is_some());
    assert_eq!(ResourceId::new("x").clone(), ResourceId::new("x"));
}

#[test]
fn resource_id_from_option() {
    let nothing: Option<&str> = None;
    assert_eq!(ResourceId::from(nothing), ResourceId::Absent);
    assert_eq!(ResourceId::from(Some("some-resource-1")), ResourceId::new("some-resource-1"));
    assert_eq!(ResourceId::from(Some("a".to_string())), ResourceId::new("a"));
    assert_eq!(ResourceId::from(Some(ResourceId::Basic)), ResourceId::Basic);
}

#[test]
fn locations_compare_by_position_and_thread() {
    let a = at(10, "t");
    assert_eq!(a, at(10, "t"));
    assert_eq!(a.clone(), a);
    assert_ne!(a, at(11, "t"));
    assert_ne!(a, at(10, "u"));
    assert_ne!(a, Location::new("tests/resources.rs".to_string(), 10, 2, Some("t".to_string())));
    assert_ne!(a, Location::new("tests/other.rs".to_string(), 10, 1, Some("t".to_string())));
    assert_ne!(a, Location::new("tests/resources.rs".to_string(), 10, 1, None));
}

#[test]
fn builder_collapses_duplicates() {
    let set = ResourceBuilder::new()
        .uses(named("a"))
        .uses(named("a"))
        .consumes(named("b"))
        .consumes(named("b"))
        .finish();
    assert_eq!(set.shared(), &vec![named("a")]);
    assert_eq!(set.exclusive(), &vec![named("b")]);
    assert!(!set.is_empty());
}

#[test]
fn builder_exclusive_wins_over_shared() {
    let set = ResourceBuilder::new()
        .uses(named("x"))
        .uses(named("y"))
        .consumes(named("x"))
        .finish();
    assert_eq!(set.shared(), &vec![named("y")]);
    assert_eq!(set.exclusive(), &vec![named("x")]);

    let set = ResourceBuilder::new().consumes(named("x")).uses(named("x")).finish();
    assert!(set.shared().is_empty());
    assert_eq!(set.exclusive(), &vec![named("x")]);
}

#[test]
fn builder_drops_the_empty_resource() {
    let set = ResourceBuilder::new()
        .consumes(ResourceId::Absent)
        .consumes(named("x"))
        .uses(ResourceId::Absent)
        .finish();
    assert!(set.shared().is_empty());
    assert_eq!(set.exclusive(), &vec![named("x")]);

    let set = ResourceBuilder::new().consumes(ResourceId::Absent).uses(ResourceId::Absent).finish();
    assert!(set.is_empty());
}

#[test]
fn empty_builder_gives_empty_request() {
    let set = ResourceBuilder::new().finish();
    assert!(set.is_empty());
    assert!(set.shared().is_empty());
    assert!(set.exclusive().is_empty());
}

#[test]
fn new_registry_is_empty() {
    let registry = ResourceManager::new();
    assert!(!registry.has_entry(&named("x")));
    assert!(registry.is_free(&named("x")));
    assert_eq!(registry.user_count(&named("x")), 0);
    assert!(!registry.is_owned_by(&named("x"), &at(1, "a")));
    assert!(!registry.is_used_by(&named("x"), &at(1, "a")));
    let same = ResourceManager::default();
    assert!(!same.has_entry(&ResourceId::Basic));
}

#[test]
fn grant_enters_the_holder_in_each_role() {
    let mut registry = ResourceManager::new();
    let a = at(1, "a");
    let set = ResourceBuilder::new()
        .consumes(named("video"))
        .consumes(named("audio"))
        .uses(named("network"))
        .finish();
    let guard = registry.try_reserve(&set, &a).expect("everything is free");

    assert!(registry.is_owned_by(&named("video"), &a));
    assert!(registry.is_owned_by(&named("audio"), &a));
    assert!(!registry.is_owned_by(&named("network"), &a));
    assert!(registry.is_used_by(&named("network"), &a));
    assert!(!registry.is_used_by(&named("video"), &a));
    assert_eq!(registry.user_count(&named("video")), 0);
    assert_eq!(registry.user_count(&named("network")), 1);
    assert!(!registry.has_entry(&named("other")));

    assert!(guard.holds(&named("video")));
    assert!(guard.holds(&named("audio")));
    assert!(guard.holds(&named("network")));
    assert!(!guard.holds(&named("other")));
    assert_eq!(guard.owner(), &a);
    assert!(!guard.is_released());
}

#[test]
fn owner_excludes_users_in_every_entry() {
    let mut registry = ResourceManager::new();
    let a = at(1, "a");
    let b = at(2, "b");
    let c = at(3, "c");
    let ids = [named("x"), named("y"), ResourceId::Basic];
    let check = |registry: &ResourceManager| {
        for id in &ids {
            let owned = [&a, &b, &c].iter().any(|l| registry.is_owned_by(id, l));
            assert!(!owned || registry.user_count(id) == 0);
        }
    };
    let mut ga = registry.try_reserve(&using(&["x", "y"]), &a).unwrap();
    check(&registry);
    assert!(registry.try_reserve(&consuming(&["x"]), &b).is_none());
    check(&registry);
    let mut gc = registry.try_reserve(&using(&["y"]), &c).unwrap();
    check(&registry);
    ga.release(&mut registry);
    check(&registry);
    let mut gb = registry.try_reserve(&consuming(&["x"]), &b).unwrap();
    check(&registry);
    gc.release(&mut registry);
    gb.release(&mut registry);
    check(&registry);
}

#[test]
fn refused_attempt_changes_no_holder() {
    let mut registry = ResourceManager::new();
    let a = at(1, "a");
    let b = at(2, "b");
    let _ga = registry.try_reserve(&consuming(&["y"]), &a).unwrap();

    // "x" is free and "y" is taken: nothing of the request may be held.
    let set = ResourceBuilder::new().consumes(named("x")).consumes(named("y")).finish();
    assert!(registry.try_reserve(&set, &b).is_none());
    assert!(registry.is_free(&named("x")));
    assert!(!registry.is_owned_by(&named("x"), &b));
    assert!(registry.is_owned_by(&named("y"), &a));

    let set = ResourceBuilder::new().uses(named("x")).uses(named("y")).finish();
    assert!(registry.try_reserve(&set, &b).is_none());
    assert!(registry.is_free(&named("x")));
    assert!(!registry.is_used_by(&named("x"), &b));
}

#[test]
fn entries_are_never_removed() {
    let mut registry = ResourceManager::new();
    let a = at(1, "a");
    let mut guard = registry.try_reserve(&consuming(&["x"]), &a).unwrap();
    assert!(registry.has_entry(&named("x")));
    guard.release(&mut registry);
    assert!(registry.has_entry(&named("x")));
    assert!(registry.is_free(&named("x")));
}

#[test]
fn empty_request_succeeds_and_changes_nothing() {
    let mut registry = ResourceManager::new();
    let a = at(1, "a");
    let b = at(2, "b");
    let _held = registry.try_reserve(&consuming(&["x"]), &a).unwrap();
    let tok = registry.notify().token();

    let empty = ResourceBuilder::new().finish();
    let mut guard = registry.try_reserve(&empty, &b).expect("nothing is asked for");
    assert!(guard.is_released());
    assert!(registry.is_owned_by(&named("x"), &a));
    assert!(!registry.has_entry(&ResourceId::Basic));
    assert!(!guard.release(&mut registry));
    assert!(registry.notify().wait(tok));
}

#[test]
fn release_scrubs_the_holder_everywhere() {
    let mut registry = ResourceManager::new();
    let a = at(1, "a");
    let b = at(2, "b");
    let set = ResourceBuilder::new().consumes(named("x")).uses(named("y")).finish();
    let mut ga = registry.try_reserve(&set, &a).unwrap();
    let _gb = registry.try_reserve(&using(&["y"]), &b).unwrap();

    assert!(ga.release(&mut registry));
    for id in [named("x"), named("y")] {
        assert!(!registry.is_owned_by(&id, &a));
        assert!(!registry.is_used_by(&id, &a));
    }
    assert!(registry.is_free(&named("x")));
    assert!(registry.is_used_by(&named("y"), &b));
    assert_eq!(registry.user_count(&named("y")), 1);
}

#[test]
fn release_is_idempotent() {
    let mut registry = ResourceManager::new();
    let a = at(1, "a");
    let mut guard = registry.try_reserve(&consuming(&["x"]), &a).unwrap();
    let before = registry.notify().token();

    assert!(guard.release(&mut registry));
    assert!(guard.is_released());
    assert!(!guard.holds(&named("x")));
    assert!(!registry.notify().wait(before));

    let after_first = registry.notify().token();
    assert!(!guard.release(&mut registry));
    assert!(registry.notify().wait(after_first));
    assert!(registry.is_free(&named("x")));
}

#[test]
fn release_of_another_registry_finds_nothing() {
    let mut registry = ResourceManager::new();
    let mut other = ResourceManager::new();
    let a = at(1, "a");
    let mut guard = registry.try_reserve(&consuming(&["x"]), &a).unwrap();
    assert!(!guard.release(&mut other));
    assert!(registry.is_owned_by(&named("x"), &a));
    assert!(!other.has_entry(&named("x")));
}

#[test]
fn overlapping_exclusive_needs_a_release_between() {
    let mut registry = ResourceManager::new();
    let a = at(1, "a");
    let b = at(2, "b");
    let c = at(3, "c");
    let first = consuming(&["x", "y"]);
    let second = consuming(&["y", "z"]);
    let mut ga = registry.try_reserve(&first, &a).unwrap();
    assert!(registry.try_reserve(&second, &b).is_none());
    // another grant does not help
    let _gc = registry.try_reserve(&consuming(&["w"]), &c).unwrap();
    assert!(registry.try_reserve(&second, &b).is_none());
    ga.release(&mut registry);
    assert!(registry.try_reserve(&second, &b).is_some());
}

#[test]
fn reserve_hands_out_token_taken_before_the_attempt() {
    let mut registry = ResourceManager::new();
    let a = at(1, "a");
    let b = at(2, "b");
    let set = consuming(&["x"]);
    let mut ga = acquired(registry.reserve(&set, &a));
    let token = blocked(registry.reserve(&set, &b));
    assert!(registry.notify().wait(token));
    let token = blocked(registry.reserve(&set, &b));
    assert!(ga.release(&mut registry));
    assert!(!registry.notify().wait(token));
    let gb = acquired(registry.reserve(&set, &b));
    assert_eq!(gb.owner(), &b);
}

#[test]
fn builder_reserve_returns_the_finished_request() {
    let mut registry = ResourceManager::new();
    let a = at(1, "a");
    let b = at(2, "b");
    let (set, outcome) = ResourceBuilder::new()
        .uses(named("x"))
        .consumes(named("x"))
        .consumes(ResourceId::Absent)
        .reserve(&mut registry, &a);
    assert_eq!(set.exclusive(), &vec![named("x")]);
    assert!(set.shared().is_empty());
    let _guard = acquired(outcome);
    assert!(registry.is_owned_by(&named("x"), &a));
    assert!(!registry.has_entry(&ResourceId::Absent));

    let (set, outcome) = ResourceBuilder::new().uses(named("x")).reserve(&mut registry, &b);
    let _token = blocked(outcome);
    assert_eq!(set.shared(), &vec![named("x")]);
}

#[test]
fn exclusive_mutual_exclusion() {
    // two tests that both consume "x"
    let mut registry = ResourceManager::new();
    let a = at(1, "a");
    let b = at(2, "b");
    let set = consuming(&["x"]);
    let mut ga = acquired(registry.reserve(&set, &a));
    let token = blocked(registry.reserve(&set, &b));
    assert!(registry.is_owned_by(&named("x"), &a));
    assert!(!registry.is_owned_by(&named("x"), &b));
    assert!(ga.release(&mut registry));
    assert!(!registry.notify().wait(token));
    let mut gb = acquired(registry.reserve(&set, &b));
    assert!(registry.is_owned_by(&named("x"), &b));
    assert!(gb.release(&mut registry));
    assert!(registry.is_free(&named("x")));
}

#[test]
fn shared_concurrency() {
    // three tests that each use "net"
    let mut registry = ResourceManager::new();
    let set = using(&["net"]);
    let holders = [at(1, "a"), at(2, "b"), at(3, "c")];
    let mut guards = Vec::new();
    for holder in &holders {
        guards.push(acquired(registry.reserve(&set, holder)));
    }
    assert_eq!(registry.user_count(&named("net")), 3);
    for holder in &holders {
        assert!(registry.is_used_by(&named("net"), holder));
    }
    for guard in guards.iter_mut() {
        assert!(guard.release(&mut registry));
    }
    assert!(registry.is_free(&named("net")));
}

#[test]
fn shared_blocks_exclusive_until_released() {
    // test A uses "x"; test B, started later, consumes "x"
    let mut registry = ResourceManager::new();
    let a = at(1, "a");
    let b = at(2, "b");
    let mut ga = acquired(registry.reserve(&using(&["x"]), &a));
    let token = blocked(registry.reserve(&consuming(&["x"]), &b));
    assert!(registry.notify().wait(token));
    let token = blocked(registry.reserve(&consuming(&["x"]), &b));
    assert!(ga.release(&mut registry));
    assert!(!registry.notify().wait(token));
    let _gb = acquired(registry.reserve(&consuming(&["x"]), &b));
    assert!(registry.is_owned_by(&named("x"), &b));
    assert_eq!(registry.user_count(&named("x")), 0);
}

#[test]
fn exclusive_blocks_shared() {
    let mut registry = ResourceManager::new();
    let a = at(1, "a");
    let b = at(2, "b");
    let _ga = acquired(registry.reserve(&consuming(&["x"]), &a));
    let _token = blocked(registry.reserve(&using(&["x"]), &b));
    assert!(!registry.is_used_by(&named("x"), &b));
}

#[test]
fn values_of_the_library_are_well_formed() {
    let mut registry = ResourceManager::new();
    assert!(registry.check());
    let a = at(1, "a");
    let b = at(2, "b");
    let builder = ResourceBuilder::new().uses(named("x")).uses(named("x")).consumes(named("y"));
    assert!(builder.check());
    let set = builder.finish();
    assert!(set.check());
    let mut ga = registry.try_reserve(&set, &a).unwrap();
    assert!(registry.check());
    let mut gb = registry.try_reserve(&using(&["x"]), &b).unwrap();
    assert!(registry.check());
    assert!(registry.try_reserve(&consuming(&["x"]), &a).is_none());
    assert!(registry.check());
    ga.release(&mut registry);
    gb.release(&mut registry);
    assert!(registry.check());
    assert!(ResourceBuilder::new().finish().check());
}

#[test]
fn resource_record_roles() {
    let a = at(1, "a");
    let b = at(2, "b");
    let mut entry = etest::Resource::new(&named("x"));
    assert!(entry.check());
    assert!(entry.is_for(&named("x")));
    assert!(!entry.is_for(&named("y")));
    assert!(!entry.has_owner());
    assert!(!entry.has_users());
    entry.add_user(&a);
    entry.add_user(&b);
    entry.add_user(&a);
    assert_eq!(entry.user_count(), 2);
    assert!(entry.is_used_by(&a));
    assert!(!entry.is_owned_by(&a));
    assert!(entry.scrub(&a));
    assert!(!entry.scrub(&a));
    assert!(entry.scrub(&b));
    assert!(!entry.has_users());
    entry.set_owner(&a);
    assert!(entry.has_owner());
    assert!(entry.is_owned_by(&a));
    assert!(!entry.is_owned_by(&b));
    assert!(!entry.scrub(&b));
    assert!(entry.is_owned_by(&a));
    assert!(entry.scrub(&a));
    assert!(!entry.has_owner());
    assert!(entry.check());
    assert!(entry.is_same_resource(&etest::Resource::new(&named("x"))));
}

use flox_envs::bytes::{bytes_eq, bytes_lt, copy_bytes};
use flox_envs::config::{Config, Feature, Features, Impl};
use flox_envs::environment::{
    copy_envs, holds, ActivatedEnvironments, DotFlox, UninitializedEnvironment,
};
use flox_envs::envs::{get_inactive_environments, inactive, ordered_set, Envs, Report};
use flox_envs::error::RegistryError;
use flox_envs::flox::{join_path, Flox};
use flox_envs::key::RegistryKey;
use flox_envs::registered::RegisteredEnvironments;
use flox_envs::registry::RawRecord;

fn local(name: &str, path: &str) -> UninitializedEnvironment {
    UninitializedEnvironment::DotFlox(dot_flox(name, path))
}

fn remote(name: &str) -> UninitializedEnvironment {
    UninitializedEnvironment::Remote(name.as_bytes().to_vec())
}

fn dot_flox(name: &str, path: &str) -> DotFlox {
    DotFlox { name: name.as_bytes().to_vec(), path: path.as_bytes().to_vec() }
}

fn names(envs: &[UninitializedEnvironment]) -> Vec<String> {
    envs.iter().map(|e| String::from_utf8(e.name().clone()).unwrap()).collect()
}

fn resolved(path: &str) -> Option<Vec<u8>> {
    Some(path.as_bytes().to_vec())
}

fn open_empty() -> RegisteredEnvironments {
    RegisteredEnvironments::new(Some(Vec::new())).unwrap()
}

#[test]
fn bytes_are_copied_and_told_apart() {
    let a = b"abc".to_vec();
    assert_eq!(copy_bytes(&a), a);
    assert!(bytes_eq(&a, &b"abc".to_vec()));
    assert!(!bytes_eq(&a, &b"abd".to_vec()));
    assert!(!bytes_eq(&a, &b"ab".to_vec()));
    assert!(bytes_eq(&Vec::new(), &Vec::new()));
}

#[test]
fn identity_is_name_and_path() {
    let a = local("a", "/env/a");
    assert!(a.same_identity(&local("a", "/env/a")));
    assert!(!a.same_identity(&local("a", "/env/other")));
    assert!(!a.same_identity(&local("b", "/env/a")));
    assert!(!a.same_identity(&remote("a")));
    assert!(remote("a").same_identity(&remote("a")));
    assert!(!remote("a").same_identity(&remote("b")));
    assert_eq!(a.path(), Some(&b"/env/a".to_vec()));
    assert_eq!(remote("r").path(), None);
    assert!(a.duplicate().same_identity(&a));
    assert!(holds(&vec![remote("x"), local("a", "/env/a")], &a));
    assert!(!holds(&vec![remote("a")], &a));
    assert_eq!(names(&copy_envs(&vec![remote("x"), local("a", "/env/a")])), vec!["x", "a"]);
}

#[test]
fn session_gives_the_last_activated() {
    let none = ActivatedEnvironments::new(Vec::new());
    assert!(none.last_active().is_none());
    assert!(none.iter().is_empty());
    let some = ActivatedEnvironments::new(vec![local("old", "/o"), remote("new")]);
    assert_eq!(names(some.iter()), vec!["old", "new"]);
    assert!(some.last_active().unwrap().same_identity(&remote("new")));
}

#[test]
fn inactive_is_registered_without_active() {
    let a = local("A", "/env/A");
    let b = local("B", "/env/B");
    let c = local("C", "/env/C");
    let out = inactive(&vec![a, b, c], &vec![local("B", "/env/B")]);
    assert_eq!(names(&out), vec!["A", "C"]);
}

#[test]
fn inactive_with_nothing_active_is_all_registered() {
    let out = inactive(&vec![local("A", "/env/A")], &Vec::new());
    assert_eq!(out.len(), 1);
    assert!(out[0].same_identity(&local("A", "/env/A")));
}

#[test]
fn inactive_of_nothing_is_nothing() {
    assert!(inactive(&Vec::new(), &Vec::new()).is_empty());
    assert!(inactive(&Vec::new(), &vec![remote("r")]).is_empty());
}

#[test]
fn inactive_lists_none_twice() {
    let out = inactive(
        &vec![local("A", "/env/A"), remote("A"), local("A", "/env/A"), local("A", "/else")],
        &vec![remote("A")],
    );
    assert_eq!(out.len(), 2);
    assert!(out[0].same_identity(&local("A", "/else")));
    assert!(out[1].same_identity(&local("A", "/env/A")));
}

#[test]
fn inactive_stands_in_the_order_of_identities() {
    let out = inactive(
        &vec![local("b", "/1"), local("ab", "/9"), remote("b"), local("a", "/5"), remote("a")],
        &Vec::new(),
    );
    assert_eq!(names(&out), vec!["a", "a", "ab", "b", "b"]);
    assert!(out[0].path().is_none());
    assert!(out[1].path().is_some());
    assert!(out[3].path().is_none());
    assert!(out[4].path().is_some());
}

#[test]
fn ordered_set_holds_each_environment_once() {
    let out = ordered_set(&vec![remote("z"), local("m", "/m"), remote("z"), local("a", "/a")]);
    assert_eq!(names(&out), vec!["a", "m", "z"]);
    assert!(ordered_set(&Vec::new()).is_empty());
}

#[test]
fn order_of_identities_goes_by_name_then_path() {
    assert!(local("a", "/z").precedes(&local("b", "/a")));
    assert!(!local("b", "/a").precedes(&local("a", "/z")));
    assert!(remote("a").precedes(&local("a", "/a")));
    assert!(!local("a", "/a").precedes(&remote("a")));
    assert!(local("a", "/a").precedes(&local("a", "/b")));
    assert!(local("a", "/a").precedes(&local("a", "/a/b")));
    assert!(!local("a", "/a").precedes(&local("a", "/a")));
    assert!(!remote("a").precedes(&remote("a")));
    assert!(bytes_lt(&b"".to_vec(), &b"a".to_vec()));
    assert!(!bytes_lt(&b"a".to_vec(), &b"".to_vec()));
    assert!(bytes_lt(&b"ab".to_vec(), &b"b".to_vec()));
    assert!(!bytes_lt(&b"abc".to_vec(), &b"abc".to_vec()));
}

#[test]
fn remote_environments_are_not_registered() {
    let mut registry = open_empty();
    let out = registry.register(&remote("owner/name"), None).unwrap();
    assert!(out.is_none());
    let out = registry.register(&remote("owner/name"), resolved("/tmp")).unwrap();
    assert!(out.is_none());
    assert!(registry.entries().is_empty());
}

#[test]
fn registering_an_unresolvable_path_is_not_found() {
    let mut registry = open_empty();
    let err = registry.register(&local("a", "/env/a"), None).unwrap_err();
    assert_eq!(err, RegistryError::NotFound);
    assert!(registry.entries().is_empty());
}

#[test]
fn registering_uses_the_resolved_path() {
    let mut registry = open_empty();
    let out = registry.register(&local("a", "link/to/a"), resolved("/env/a")).unwrap().unwrap();
    assert!(out.created);
    assert_eq!(out.key.as_bytes(), &b"2f656e762f61".to_vec());
    let again = registry.register(&local("a", "/env/./a"), resolved("/env/a")).unwrap().unwrap();
    assert!(!again.created);
    let entries = registry.entries();
    assert_eq!(entries.len(), 1);
    assert_eq!(entries[0].path().as_bytes(), &b"/env/a".to_vec());
}

#[test]
fn unreadable_registry_is_an_error_of_its_own() {
    assert_eq!(RegisteredEnvironments::new(None).unwrap_err(), RegistryError::Io);
    let twice = vec![
        RawRecord { name: b"x".to_vec(), target: None },
        RawRecord { name: b"x".to_vec(), target: None },
    ];
    assert_eq!(RegisteredEnvironments::new(Some(twice)).unwrap_err(), RegistryError::Io);
}

#[test]
fn descriptors_that_do_not_parse_are_passed_over() {
    let mut registry = open_empty();
    registry.register(&local("a", "/env/a"), resolved("/env/a")).unwrap();
    registry.register(&local("b", "/env/b"), resolved("/env/b")).unwrap();
    registry.register(&local("c", "/env/c"), resolved("/env/c")).unwrap();
    let parsed = vec![dot_flox("sea", "/env/c"), dot_flox("ay", "/env/a"), dot_flox("late", "/env/a")];
    let envs = registry.try_iter(&parsed);
    assert_eq!(envs.len(), 2);
    assert!(envs[0].same_identity(&local("ay", "/env/a")));
    assert!(envs[1].same_identity(&local("sea", "/env/c")));
    assert!(registry.try_iter(&Vec::new()).is_empty());
}

#[test]
fn register_activate_partition_unregister() {
    let mut registry = open_empty();
    let a = local("a", "/env/a");
    let b = local("b", "/env/b");
    registry.register(&a, resolved("/env/a")).unwrap();
    let key_b = registry.register(&b, resolved("/env/b")).unwrap().unwrap().key;
    let parsed = vec![dot_flox("a", "/env/a"), dot_flox("b", "/env/b")];
    let active = ActivatedEnvironments::new(vec![local("a", "/env/a")]);

    let rest = get_inactive_environments(&registry, &parsed, &active);
    assert_eq!(names(active.iter()), vec!["a"]);
    assert_eq!(names(&rest), vec!["b"]);

    let request = Envs { active: false, json: true };
    match request.handle(&active, Ok(registry.try_iter(&parsed))).unwrap() {
        Report::AllJson { active, inactive } => {
            assert_eq!(names(&active), vec!["a"]);
            assert_eq!(names(&inactive), vec!["b"]);
        },
        other => panic!("unexpected report {:?}", other),
    }

    assert!(registry.unregister(key_b));
    let rest = get_inactive_environments(&registry, &parsed, &active);
    assert!(rest.is_empty());
    assert!(!registry.unregister(RegistryKey::from_name(b"2f656e762f62".to_vec())));
}

#[test]
fn listing_the_active_ones_never_needs_the_registry() {
    let active = ActivatedEnvironments::new(vec![remote("r"), local("a", "/env/a")]);
    let text = Envs { active: true, json: false };
    match text.handle(&active, Err(RegistryError::Io)).unwrap() {
        Report::ActiveText(envs) => assert_eq!(names(&envs), vec!["r", "a"]),
        other => panic!("unexpected report {:?}", other),
    }
    let json = Envs { active: true, json: true };
    match json.handle(&active, Err(RegistryError::Io)).unwrap() {
        Report::ActiveJson(envs) => assert_eq!(names(&envs), vec!["r", "a"]),
        other => panic!("unexpected report {:?}", other),
    }
    let none = ActivatedEnvironments::new(Vec::new());
    assert!(matches!(text.handle(&none, Ok(Vec::new())).unwrap(), Report::NoActive));
    match json.handle(&none, Ok(vec![remote("x")])).unwrap() {
        Report::ActiveJson(envs) => assert!(envs.is_empty()),
        other => panic!("unexpected report {:?}", other),
    }
}

#[test]
fn empty_listing_differs_from_an_unreadable_registry() {
    let none = ActivatedEnvironments::new(Vec::new());
    let text = Envs { active: false, json: false };
    let json = Envs { active: false, json: true };
    assert!(matches!(text.handle(&none, Ok(Vec::new())).unwrap(), Report::NoneKnown));
    match json.handle(&none, Ok(Vec::new())).unwrap() {
        Report::AllJson { active, inactive } => {
            assert!(active.is_empty());
            assert!(inactive.is_empty());
        },
        other => panic!("unexpected report {:?}", other),
    }
    assert_eq!(text.handle(&none, Err(RegistryError::Io)).unwrap_err(), RegistryError::Io);
    assert_eq!(json.handle(&none, Err(RegistryError::Io)).unwrap_err(), RegistryError::Io);
}

#[test]
fn full_listing_splits_active_and_inactive() {
    let active = ActivatedEnvironments::new(vec![local("B", "/env/B")]);
    let registered = vec![local("A", "/env/A"), local("B", "/env/B"), local("C", "/env/C")];
    let text = Envs { active: false, json: false };
    match text.handle(&active, Ok(registered)).unwrap() {
        Report::AllText { active, inactive } => {
            assert_eq!(names(&active), vec!["B"]);
            assert_eq!(names(&inactive), vec!["A", "C"]);
        },
        other => panic!("unexpected report {:?}", other),
    }
    let only_active = text.handle(&active, Ok(Vec::new())).unwrap();
    match only_active {
        Report::AllText { active, inactive } => {
            assert_eq!(names(&active), vec!["B"]);
            assert!(inactive.is_empty());
        },
        other => panic!("unexpected report {:?}", other),
    }
}

#[test]
fn feature_implementation_falls_back_in_order() {
    let mut config = Config::default();
    assert_eq!(Feature::All.implementation(&config), Impl::Bash);
    assert_eq!(Feature::Env.implementation(&config), Impl::Bash);
    assert_eq!(Feature::Nix.implementation(&config), Impl::Rust);
    config.features = Features { all: Some(Impl::Rust), env: None, nix: None };
    assert_eq!(Feature::All.implementation(&config), Impl::Rust);
    assert_eq!(Feature::Env.implementation(&config), Impl::Rust);
    assert_eq!(Feature::Nix.implementation(&config), Impl::Rust);
    config.features = Features { all: Some(Impl::Bash), env: Some(Impl::Rust), nix: None };
    assert_eq!(Feature::All.implementation(&config), Impl::Bash);
    assert_eq!(Feature::Env.implementation(&config), Impl::Rust);
    assert_eq!(Feature::Nix.implementation(&config), Impl::Bash);
    config.features = Features { all: None, env: None, nix: Some(Impl::Bash) };
    assert_eq!(Feature::Nix.implementation(&config), Impl::Bash);
    assert_eq!(config.features.get(Feature::Nix), Some(Impl::Bash));
    assert_eq!(config.features.get(Feature::Env), None);
}

#[test]
fn registry_directory_lies_below_the_cache() {
    let flox = Flox {
        config_dir: b"/home/u/.config/flox".to_vec(),
        cache_dir: b"/home/u/.cache/flox".to_vec(),
        data_dir: b"/home/u/.local/share/flox".to_vec(),
        temp_dir: b"/tmp".to_vec(),
        collect_metrics: false,
        system: b"x86_64-linux".to_vec(),
    };
    assert_eq!(flox.registry_dir(), b"/home/u/.cache/flox/registered_environments".to_vec());
    assert_eq!(join_path(&b"/cache/".to_vec(), &b"x".to_vec()), b"/cache/x".to_vec());
    assert_eq!(join_path(&Vec::new(), &b"x".to_vec()), b"x".to_vec());
    assert_eq!(join_path(&b"/".to_vec(), &b"x".to_vec()), b"/x".to_vec());
}

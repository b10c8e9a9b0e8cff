use vector::schema::{merge_components, default_enabled, default_validation, LogNamespace, Options};

#[test]
fn test_append() {
    for (test, mut a, b, expected) in [
        (
            "enable log namespacing",
            Options { enabled: false, validation: false, log_namespace: None },
            Options { enabled: false, validation: false, log_namespace: Some(true) },
            Some(Options { enabled: false, validation: false, log_namespace: Some(true) }),
        ),
        (
            "log namespace conflict",
            Options { enabled: false, validation: false, log_namespace: Some(false) },
            Options { enabled: false, validation: false, log_namespace: Some(true) },
            None,
        ),
        (
            "enable schemas",
            Options { enabled: false, validation: false, log_namespace: None },
            Options { enabled: true, validation: false, log_namespace: None },
            Some(Options { enabled: true, validation: false, log_namespace: None }),
        ),
        (
            "enable sink requirements",
            Options { enabled: false, validation: false, log_namespace: None },
            Options { enabled: false, validation: true, log_namespace: None },
            Some(Options { enabled: false, validation: true, log_namespace: None }),
        ),
    ] {
        let mut errors = vec![];
        a.append(b, &mut errors);
        if errors.is_empty() {
            assert_eq!(Some(a), expected, "result mismatch: {}", test);
        } else {
            assert_eq!(errors.is_empty(), expected.is_some(), "error mismatch: {}", test);
        }
    }
}

#[test]
fn conflict_keeps_left_namespace_and_names_both() {
    let mut a = Options { enabled: false, validation: true, log_namespace: Some(false) };
    let b = Options { enabled: true, validation: false, log_namespace: Some(true) };
    let mut errors = vec![String::from("earlier")];
    a.append(b, &mut errors);
    assert_eq!(errors.len(), 2);
    assert_eq!(errors[0], "earlier");
    assert_eq!(
        errors[1],
        "conflicting values for 'log_namespace' found. Both Legacy and Vector used in the same component"
    );
    assert_eq!(a, Options { enabled: true, validation: true, log_namespace: Some(false) });
}

#[test]
fn equal_namespaces_do_not_conflict() {
    let mut a = Options { enabled: false, validation: false, log_namespace: Some(true) };
    let mut errors = vec![];
    a.append(a, &mut errors);
    assert!(errors.is_empty());
    assert_eq!(a.log_namespace, Some(true));
}

#[test]
fn left_namespace_is_kept_when_right_is_unset() {
    let mut a = Options { enabled: false, validation: false, log_namespace: Some(false) };
    let mut errors = vec![];
    a.append(Options::default(), &mut errors);
    assert!(errors.is_empty());
    assert_eq!(a.log_namespace, Some(false));
}

#[test]
fn flags_merge_in_any_order() {
    let all = [
        Options { enabled: true, validation: false, log_namespace: None },
        Options { enabled: false, validation: true, log_namespace: None },
        Options { enabled: false, validation: false, log_namespace: None },
    ];
    for order in [[0, 1, 2], [2, 1, 0], [1, 2, 0], [2, 0, 1]] {
        let mut acc = Options::default();
        let mut errors = vec![];
        for i in order {
            acc.append(all[i], &mut errors);
        }
        assert!(acc.enabled);
        assert!(acc.validation);
        assert!(errors.is_empty());
    }
}

#[test]
fn namespace_resolution() {
    assert_eq!(Options::default().log_namespace(), LogNamespace::Legacy);
    let vector = Options { enabled: false, validation: false, log_namespace: Some(true) };
    assert_eq!(vector.log_namespace(), LogNamespace::Vector);
    let legacy = Options { enabled: false, validation: false, log_namespace: Some(false) };
    assert_eq!(legacy.log_namespace(), LogNamespace::Legacy);
    assert!(!default_enabled());
    assert!(!default_validation());
}

#[test]
fn merging_components_collects_every_conflict() {
    let a = Options { enabled: false, validation: false, log_namespace: Some(true) };
    let b = Options { enabled: true, validation: false, log_namespace: Some(false) };
    let c = Options { enabled: false, validation: true, log_namespace: Some(false) };
    let errors = merge_components(&vec![a, b, c]).unwrap_err();
    assert_eq!(errors.len(), 2);
    assert!(errors.iter().all(|e| e.contains("Vector") && e.contains("Legacy")));
    let ok = merge_components(&vec![Options::default(), c, b]).unwrap();
    assert_eq!(ok, Options { enabled: true, validation: true, log_namespace: Some(false) });
    assert_eq!(merge_components(&vec![]), Ok(Options::default()));
}

use sysdep::aggregate::{aggregate, AggregatedDependencies, Aggregator, ScanAction, ScanEvent};
use sysdep::manifest::{ArchitectureSpecific, Depend, Dependencies, MetaDepend};

fn strings(items: &[&str]) -> Vec<String> {
    items.iter().map(|s| s.to_string()).collect()
}

fn list(items: &[&str]) -> Option<Vec<String>> {
    Some(strings(items))
}

fn base_only(apt: &[&str], pip: &[&str]) -> MetaDepend {
    MetaDepend {
        name: None,
        dependencies: Some(Depend { apt: list(apt), pip: list(pip) }),
        large_dependencies: None,
        target: None,
    }
}

fn assert_merged(merged: &AggregatedDependencies, apt: &[&str], pip: &[&str]) {
    assert_eq!(merged.apt, strings(apt));
    assert_eq!(merged.pip, strings(pip));
}

#[test]
fn one_manifest_base_tier() {
    let manifest = MetaDepend {
        name: None,
        dependencies: Some(Depend { apt: list(&["curl", "git"]), pip: list(&["requests"]) }),
        large_dependencies: None,
        target: None,
    };
    let merged = aggregate(vec![manifest], false);
    assert_merged(&merged, &["curl", "git"], &["requests"]);
}

fn large_only() -> MetaDepend {
    MetaDepend {
        name: None,
        dependencies: None,
        large_dependencies: Some(Depend { apt: list(&["cmake"]), pip: None }),
        target: None,
    }
}

#[test]
fn large_only_manifest_in_either_tier() {
    let merged = aggregate(vec![large_only()], false);
    assert_merged(&merged, &[], &[]);
    let merged = aggregate(vec![large_only()], true);
    assert_merged(&merged, &["cmake"], &[]);
}

#[test]
fn name_of_two_manifests_stands_once() {
    let merged = aggregate(vec![base_only(&["git"], &[]), base_only(&["git"], &[])], false);
    assert_merged(&merged, &["git"], &[]);
}

#[test]
fn no_manifests_merge_to_nothing() {
    for large in [false, true] {
        let merged = aggregate(Vec::new(), large);
        assert_merged(&merged, &[], &[]);
    }
}

#[test]
fn disjoint_manifests_merge_to_the_sorted_union() {
    let manifests = vec![
        base_only(&["wget", "curl"], &["requests"]),
        base_only(&["git"], &["numpy", "attrs"]),
        base_only(&["apt-utils", "make"], &[]),
    ];
    let merged = aggregate(manifests, false);
    assert_merged(
        &merged,
        &["apt-utils", "curl", "git", "make", "wget"],
        &["attrs", "numpy", "requests"],
    );
}

#[test]
fn repeated_names_stand_once() {
    let manifests = vec![
        base_only(&["git", "curl", "git"], &["requests", "requests"]),
        base_only(&["curl"], &["numpy"]),
        base_only(&["git", "apt"], &["numpy", "requests"]),
    ];
    let merged = aggregate(manifests, false);
    assert_merged(&merged, &["apt", "curl", "git"], &["numpy", "requests"]);
}

#[test]
fn system_and_language_lists_stay_apart() {
    let merged = aggregate(vec![base_only(&["python3"], &["python3"])], false);
    assert_merged(&merged, &["python3"], &["python3"]);
}

fn two_tiers() -> MetaDepend {
    MetaDepend {
        name: Some("two".to_string()),
        dependencies: Some(Depend { apt: list(&["git"]), pip: list(&["requests"]) }),
        large_dependencies: Some(Depend { apt: list(&["cuda"]), pip: list(&["torch"]) }),
        target: None,
    }
}

#[test]
fn base_run_leaves_out_the_large_tier() {
    let merged = aggregate(vec![two_tiers()], false);
    assert_merged(&merged, &["git"], &["requests"]);
}

#[test]
fn large_run_leaves_out_the_base_tier() {
    let merged = aggregate(vec![two_tiers()], true);
    assert_merged(&merged, &["cuda"], &["torch"]);
}

#[test]
fn base_only_manifest_adds_nothing_to_a_large_run() {
    let merged = aggregate(vec![base_only(&["git"], &["requests"]), large_only()], true);
    assert_merged(&merged, &["cmake"], &[]);
}

fn with_architecture(large: bool) -> MetaDepend {
    let arch = Depend { apt: list(&["libc6-dev", "git"]), pip: list(&["cffi"]) };
    MetaDepend {
        name: None,
        dependencies: Some(Depend { apt: list(&["git"]), pip: list(&["requests"]) }),
        large_dependencies: None,
        target: Some(ArchitectureSpecific {
            arch: Some(if large {
                Dependencies { dependencies: None, large_dependencies: Some(arch) }
            } else {
                Dependencies { dependencies: Some(arch), large_dependencies: None }
            }),
        }),
    }
}

#[test]
fn architecture_names_come_on_top_of_the_top_level() {
    let merged = aggregate(vec![with_architecture(false)], false);
    assert_merged(&merged, &["git", "libc6-dev"], &["cffi", "requests"]);
}

#[test]
fn architecture_names_follow_the_tier_too() {
    let merged = aggregate(vec![with_architecture(true)], false);
    assert_merged(&merged, &["git"], &["requests"]);
    let merged = aggregate(vec![with_architecture(true)], true);
    assert_merged(&merged, &["git", "libc6-dev"], &["cffi"]);
}

#[test]
fn merging_twice_gives_the_same_lists() {
    let manifests = || {
        vec![
            base_only(&["wget", "git", "curl"], &["requests"]),
            with_architecture(false),
            two_tiers(),
        ]
    };
    let first = aggregate(manifests(), false);
    let second = aggregate(manifests(), false);
    assert_eq!(first.apt, second.apt);
    assert_eq!(first.pip, second.pip);
    assert_merged(&first, &["curl", "git", "libc6-dev", "wget"], &["cffi", "requests"]);
}

#[test]
fn merging_a_merge_changes_nothing() {
    let first = aggregate(vec![base_only(&["wget", "git", "git"], &["b", "a"])], false);
    let again = aggregate(
        vec![MetaDepend {
            name: None,
            dependencies: Some(Depend {
                apt: Some(first.apt.clone()),
                pip: Some(first.pip.clone()),
            }),
            large_dependencies: None,
            target: None,
        }],
        false,
    );
    assert_eq!(again.apt, first.apt);
    assert_eq!(again.pip, first.pip);
}

#[test]
fn order_of_manifests_does_not_matter() {
    let forward = aggregate(vec![base_only(&["b"], &["y"]), base_only(&["a"], &["x"])], false);
    let backward = aggregate(vec![base_only(&["a"], &["x"]), base_only(&["b"], &["y"])], false);
    assert_eq!(forward.apt, backward.apt);
    assert_eq!(forward.pip, backward.pip);
}

#[test]
fn fresh_aggregator_holds_nothing() {
    let gathered = Aggregator::new();
    assert!(gathered.apt_depends.is_empty());
    assert!(gathered.pip_depends.is_empty());
}

#[test]
fn aggregator_gathers_in_arrival_order() {
    let mut gathered = Aggregator::new();
    gathered.add(base_only(&["git", "curl"], &["requests"]), false);
    gathered.add(with_architecture(false), false);
    assert_eq!(gathered.apt_depends, strings(&["git", "curl", "git", "libc6-dev", "git"]));
    assert_eq!(gathered.pip_depends, strings(&["requests", "requests", "cffi"]));
    let merged = gathered.finish();
    assert_merged(&merged, &["curl", "git", "libc6-dev"], &["cffi", "requests"]);
}

#[test]
fn unresolved_entry_is_passed_over() {
    let mut gathered = Aggregator::new();
    gathered.add(base_only(&["git"], &[]), false);
    let action = gathered.step(ScanEvent::Unresolved, false);
    assert!(matches!(action, ScanAction::Skip));
    assert_eq!(gathered.apt_depends, strings(&["git"]));
    assert!(gathered.pip_depends.is_empty());
}

#[test]
fn unreadable_manifest_ends_the_run() {
    let mut gathered = Aggregator::new();
    gathered.add(base_only(&["git"], &[]), false);
    let action = gathered.step(ScanEvent::Unreadable, false);
    assert!(matches!(action, ScanAction::Abort));
    assert_eq!(gathered.apt_depends, strings(&["git"]));
}

#[test]
fn malformed_manifest_ends_the_run() {
    let mut gathered = Aggregator::new();
    let action = gathered.step(ScanEvent::Malformed, true);
    assert!(matches!(action, ScanAction::Abort));
    assert!(gathered.apt_depends.is_empty());
    assert!(gathered.pip_depends.is_empty());
}

#[test]
fn loaded_manifest_is_gathered_and_reported() {
    let mut gathered = Aggregator::new();
    let action = gathered.step(
        ScanEvent::Loaded { manifest: two_tiers(), directory: "pkg_two".to_string() },
        true,
    );
    match action {
        ScanAction::Report { name } => assert_eq!(name, "two"),
        other => panic!("{:?}", other),
    }
    let action = gathered.step(
        ScanEvent::Loaded { manifest: base_only(&["git"], &[]), directory: "tools".to_string() },
        true,
    );
    match action {
        ScanAction::Report { name } => assert_eq!(name, "tools"),
        other => panic!("{:?}", other),
    }
    assert_eq!(gathered.apt_depends, strings(&["cuda"]));
    assert_eq!(gathered.pip_depends, strings(&["torch"]));
}

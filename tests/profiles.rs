use quick_cli::profile::{choose_profile, remmina_profile_for_vm, OverrideMap, ProfileEntry};

fn entry(path: &str, stem: &str) -> ProfileEntry {
    ProfileEntry { path: path.to_string(), stem: stem.to_string() }
}

#[test]
fn override_beats_matching_profiles() {
    let mut overrides = OverrideMap::new();
    overrides.insert("win11".to_string(), "/profiles/win11.remmina".to_string());
    let profiles = vec![
        entry("/profiles/windows-11-test.remmina", "windows-11-test"),
        entry("/profiles/win11-lab.remmina", "win11-lab"),
    ];
    assert_eq!(
        remmina_profile_for_vm("win11", &overrides, &profiles),
        Some("/profiles/win11.remmina".to_string())
    );
}

#[test]
fn override_is_found_by_lower_cased_name() {
    let mut overrides = OverrideMap::new();
    overrides.insert("win11".to_string(), "/p/a.remmina".to_string());
    assert_eq!(remmina_profile_for_vm("Win11", &overrides, &Vec::new()), Some("/p/a.remmina".to_string()));
}

#[test]
fn no_candidate_gives_none() {
    let overrides = OverrideMap::new();
    let profiles = vec![entry("/p/ubuntu.remmina", "ubuntu")];
    assert_eq!(remmina_profile_for_vm("win11", &overrides, &profiles), None);
    assert_eq!(remmina_profile_for_vm("win11", &overrides, &Vec::new()), None);
}

#[test]
fn single_substring_match_is_chosen() {
    let overrides = OverrideMap::new();
    let profiles = vec![entry("/p/ubuntu.remmina", "ubuntu"), entry("/p/my-win11-box.remmina", "My-WIN11-Box")];
    assert_eq!(
        remmina_profile_for_vm("win11", &overrides, &profiles),
        Some("/p/my-win11-box.remmina".to_string())
    );
}

#[test]
fn exact_name_preferred_among_several() {
    let overrides = OverrideMap::new();
    let profiles = vec![
        entry("/p/win11-old.remmina", "win11-old"),
        entry("/p/WIN11.remmina", "WIN11"),
        entry("/p/win11-new.remmina", "win11-new"),
    ];
    assert_eq!(remmina_profile_for_vm("Win11", &overrides, &profiles), Some("/p/WIN11.remmina".to_string()));
}

#[test]
fn ambiguous_matches_take_the_first_listed() {
    let overrides = OverrideMap::new();
    let profiles = vec![entry("/p/a-win11.remmina", "a-win11"), entry("/p/b-win11.remmina", "b-win11")];
    assert_eq!(remmina_profile_for_vm("win11", &overrides, &profiles), Some("/p/a-win11.remmina".to_string()));
}

#[test]
fn choose_profile_works_on_folded_names() {
    let overrides = OverrideMap::new();
    let profiles = vec![entry("/p/X.remmina", "WIN11")];
    assert_eq!(choose_profile(&"win11".to_string(), &overrides, &profiles), None);
    let folded = vec![entry("/p/X.remmina", "win11")];
    assert_eq!(choose_profile(&"win11".to_string(), &overrides, &folded), Some("/p/X.remmina".to_string()));
}

#[test]
fn later_override_replaces_earlier() {
    let mut overrides = OverrideMap::new();
    overrides.insert("vm".to_string(), "/a".to_string());
    overrides.insert("other".to_string(), "/b".to_string());
    overrides.insert("vm".to_string(), "/c".to_string());
    assert_eq!(overrides.get(&"vm".to_string()), Some("/c".to_string()));
    assert_eq!(overrides.get(&"other".to_string()), Some("/b".to_string()));
    assert_eq!(overrides.get(&"none".to_string()), None);
}

use apiari::config::CURRENT_CONFIG_VERSION;
use apiari::doctor::{
    context_template, parts_to_create, run, soul_template, DoctorFacts, ScaffoldItem, ScaffoldPart,
};

fn missing() -> ScaffoldItem {
    ScaffoldItem { exists: false, created: false }
}

fn present() -> ScaffoldItem {
    ScaffoldItem { exists: true, created: false }
}

fn made() -> ScaffoldItem {
    ScaffoldItem { exists: false, created: true }
}

fn facts(config_version: Option<u32>, item: ScaffoldItem) -> DoctorFacts {
    DoctorFacts {
        config_version,
        soul: item,
        context: item,
        skills: item,
        playbooks: 0,
        version: "0.1.0".to_string(),
        latest: None,
    }
}

#[test]
fn test_config_version_none_warns() {
    let text = run("test", &facts(None, missing()), false);
    assert!(text.contains("config_version missing"), "{text}");
    assert!(text.contains("issue"), "{text}");
}

#[test]
fn test_config_version_current_ok() {
    let text = run("test", &facts(Some(CURRENT_CONFIG_VERSION), present()), false);
    assert!(
        text.contains(&format!("config_version: {CURRENT_CONFIG_VERSION} (current)")),
        "{text}"
    );
    assert!(!text.contains("config_version missing"), "{text}");
}

#[test]
fn test_config_version_older_warns() {
    let text = run("test", &facts(Some(0), missing()), false);
    assert!(text.contains("config_version: 0"), "{text}");
    assert!(text.contains("current is"), "{text}");
}

#[test]
fn test_config_version_newer_warns_incompatible() {
    let future_version = CURRENT_CONFIG_VERSION + 1;
    let text = run("test", &facts(Some(future_version), missing()), false);
    assert!(
        text.contains("this binary only knows up to"),
        "should warn about newer version: {text}"
    );
}

#[test]
fn test_fix_creates_missing_files() {
    let text = run("test", &facts(Some(CURRENT_CONFIG_VERSION), made()), true);
    assert!(text.contains("Scaffolded"), "{text}");
    assert!(text.contains("Scaffolded 3 missing files."), "{text}");
}

#[test]
fn test_fix_does_not_overwrite_existing() {
    let text = run("test", &facts(Some(CURRENT_CONFIG_VERSION), present()), true);
    assert!(!text.contains("Scaffolded"), "{text}");
    assert!(text.contains(".apiari/soul.md exists"), "{text}");
    assert!(text.contains(".apiari/context.md exists"), "{text}");
}

#[test]
fn test_fix_summary_distinguishes_fixable_from_unfixable() {
    let text = run("test", &facts(None, made()), true);
    assert!(text.contains("Scaffolded"), "{text}");
    assert!(text.contains("manual attention"), "{text}");
    assert!(text.ends_with("\n1 issue remaining that needs manual attention."), "{text}");
}

#[test]
fn healthy_workspace_is_reported_in_full() {
    let mut f = facts(Some(CURRENT_CONFIG_VERSION), present());
    f.playbooks = 1;
    f.latest = Some("v0.1.0".to_string());
    let text = run("hive", &f, false);
    assert_eq!(
        text,
        format!(
            "apiari doctor \u{2014} workspace: hive\n\n\
             \u{2705} config_version: {CURRENT_CONFIG_VERSION} (current)\n\
             \u{2705} .apiari/soul.md exists\n\
             \u{2705} .apiari/context.md exists\n\
             \u{2705} .apiari/skills/ exists (1 playbook)\n\
             \u{2705} apiari v0.1.0 (latest)"
        )
    );
}

#[test]
fn outdated_release_is_an_issue() {
    let mut f = facts(Some(CURRENT_CONFIG_VERSION), present());
    f.latest = Some("v0.2.0".to_string());
    let text = run("hive", &f, false);
    assert!(text.contains("apiari v0.1.0 \u{2014} latest is v0.2.0. Run /update to upgrade."), "{text}");
    assert!(text.contains("1 issue remaining that needs manual attention."), "{text}");
}

#[test]
fn templates_are_not_empty() {
    assert!(soul_template().contains('#'));
    assert!(context_template().contains('#'));
}

#[test]
fn mending_creates_what_is_missing() {
    assert!(parts_to_create(false, false, false, false).is_empty());
    assert_eq!(
        parts_to_create(false, true, false, true),
        vec![ScaffoldPart::Soul, ScaffoldPart::Skills]
    );
    assert_eq!(parts_to_create(true, false, true, true), vec![ScaffoldPart::Context]);
    assert!(parts_to_create(true, true, true, true).is_empty());
    let first = run("test", &facts(Some(CURRENT_CONFIG_VERSION), made()), true);
    assert!(first.contains("Scaffolded 3 missing files."), "{first}");
    let second = run("test", &facts(Some(CURRENT_CONFIG_VERSION), present()), true);
    assert!(!second.contains("Scaffolded"), "{second}");
}

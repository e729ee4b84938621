use apiari::bees::{
    bot_description_for_ui, bot_items_for_workspace, conversation_scopes_for_bot,
    display_bee_name, get_bees, resolve_bee_name_for_api, save_bees, BeeConfigView,
    SignalHookView,
};
use apiari::config::{
    authority_label, execution_policy_label, BeeConfig, BeeExecutionPolicy, SignalHookConfig,
    WorkspaceAuthority, WorkspaceConfig,
};

fn bee(name: &str, provider: &str, model: &str) -> BeeConfig {
    BeeConfig {
        name: name.to_string(),
        role: None,
        color: None,
        execution_policy: BeeExecutionPolicy::Autonomous,
        provider: provider.to_string(),
        model: model.to_string(),
        max_turns: 20,
        prompt: None,
        max_session_turns: 50,
        heartbeat: None,
        signal_hooks: vec![],
        topic_id: None,
    }
}

fn workspace(bees: Vec<BeeConfig>) -> WorkspaceConfig {
    WorkspaceConfig {
        root: "/tmp/apiari".to_string(),
        repos: vec![],
        authority: WorkspaceAuthority::Autonomous,
        bees,
    }
}

#[test]
fn display_bee_name_maps_default_bee_to_main() {
    let bees = vec![bee("Bee", "gemini", "sonnet")];
    assert_eq!(display_bee_name(&bees, &bees[0]), "Main");
}

#[test]
fn other_bees_keep_their_names() {
    let bees = vec![bee("Codex", "codex", "gpt-5.3-codex")];
    assert_eq!(display_bee_name(&bees, &bees[0]), "Codex");
}

#[test]
fn resolve_bee_name_for_api_prefers_default_bee_for_main() {
    let config = workspace(vec![
        bee("Bee", "gemini", "sonnet"),
        bee("Codex", "codex", "gpt-5.3-codex"),
    ]);

    assert_eq!(resolve_bee_name_for_api(&config, "Main").as_deref(), Some("Bee"));
    assert_eq!(resolve_bee_name_for_api(&config, "Codex").as_deref(), Some("Codex"));
}

#[test]
fn resolve_bee_name_for_api_falls_back_to_first_bee_when_default_missing() {
    let config = workspace(vec![bee("Gemini", "gemini", "sonnet")]);

    assert_eq!(resolve_bee_name_for_api(&config, "Main").as_deref(), Some("Gemini"));
}

#[test]
fn unknown_names_resolve_to_nothing() {
    let config = workspace(vec![bee("Bee", "gemini", "sonnet")]);
    assert_eq!(resolve_bee_name_for_api(&config, "Codex"), None);
    assert_eq!(resolve_bee_name_for_api(&workspace(vec![]), "Main"), None);
}

#[test]
fn bot_items_for_workspace_exposes_main_name_for_default_bee() {
    let mut first = bee("Bee", "gemini", "sonnet");
    first.role = Some("Coordinator".to_string());
    first.color = Some("#f5c542".to_string());
    first.prompt = Some("Default coordinator".to_string());
    let mut second = bee("Codex", "codex", "gpt-5.3-codex");
    second.role = Some("Code specialist".to_string());
    second.color = Some("#5b9bd5".to_string());
    second.prompt = Some("Code specialist".to_string());
    let config = workspace(vec![first, second]);

    let items = bot_items_for_workspace(&config);
    assert_eq!(items.len(), 2);
    assert_eq!(items[0].name, "Main");
    assert_eq!(items[0].role.as_deref(), Some("Coordinator"));
    assert_eq!(items[0].color.as_deref(), Some("#f5c542"));
    assert_eq!(items[0].description.as_deref(), Some("Coordinator"));
    assert_eq!(items[0].provider.as_deref(), Some("gemini"));
    assert_eq!(items[1].name, "Codex");
    assert_eq!(items[1].role.as_deref(), Some("Code specialist"));
    assert_eq!(items[1].description.as_deref(), Some("Code specialist"));
    assert_eq!(items[1].provider.as_deref(), Some("codex"));
}

#[test]
fn bot_description_for_ui_strips_role_and_color_metadata_from_prompt() {
    let mut b = bee("Workspace", "gemini", "sonnet");
    b.color = Some("#d97706".to_string());
    b.prompt = Some(
        "Role: Workspace assistant\n\nColor: #d97706\n\nProactively notify the user about important events."
            .to_string(),
    );

    assert_eq!(
        bot_description_for_ui(&b).as_deref(),
        Some("Proactively notify the user about important events.")
    );
}

#[test]
fn long_descriptions_are_cut() {
    let mut b = bee("Workspace", "gemini", "sonnet");
    b.prompt = Some("x".repeat(200));
    assert_eq!(bot_description_for_ui(&b), Some(format!("{}…", "x".repeat(160))));
}

#[test]
fn bots_without_role_and_prompt_have_no_description() {
    assert_eq!(bot_description_for_ui(&bee("Bee", "gemini", "sonnet")), None);
}

#[test]
fn main_has_its_former_scopes() {
    let config = workspace(vec![bee("Bee", "gemini", "sonnet"), bee("Codex", "codex", "m")]);
    assert_eq!(
        conversation_scopes_for_bot("ws", &config, "Main"),
        vec!["ws/Bee", "ws/Main", "ws/Bee", "ws"]
    );
    assert_eq!(conversation_scopes_for_bot("ws", &config, "Codex"), vec!["ws/Codex"]);
}

#[test]
fn shown_name_stands_for_its_bee() {
    let config = workspace(vec![bee("Bee", "gemini", "sonnet"), bee("Codex", "codex", "m")]);
    for b in &config.bees {
        let shown = display_bee_name(&config.bees, b);
        assert_eq!(resolve_bee_name_for_api(&config, &shown), Some(b.name.clone()));
    }
}

#[test]
fn bees_are_shown_with_their_hooks() {
    let mut b = bee("Bee", "gemini", "sonnet");
    b.topic_id = Some(5);
    b.signal_hooks = vec![SignalHookConfig {
        source: "github".to_string(),
        prompt: "{events}".to_string(),
        action: None,
        ttl_secs: 60,
    }];
    let shown = get_bees("ws", &Some(workspace(vec![b])));
    assert_eq!(shown.workspace, "ws");
    assert_eq!(shown.bees.len(), 1);
    assert_eq!(shown.bees[0].name, "Bee");
    assert_eq!(shown.bees[0].signal_hooks.len(), 1);
    assert_eq!(shown.bees[0].signal_hooks[0].source, "github");
    assert_eq!(get_bees("ws", &None).bees.len(), 0);
}

fn bee_view(name: &str) -> BeeConfigView {
    let mut b = bee(name, "codex", "gpt-5.3-codex");
    b.prompt = Some("Say \"hi\"".to_string());
    b.signal_hooks = vec![SignalHookConfig {
        source: "sentry".to_string(),
        prompt: "look".to_string(),
        action: Some("triage".to_string()),
        ttl_secs: 90,
    }];
    let mut shown = get_bees("ws", &Some(workspace(vec![b])));
    shown.bees.remove(0)
}

#[test]
fn saved_bees_replace_those_of_the_document() {
    let old = "# mine\nroot = \"/ws\"\n\n[[bees]]\nname = \"Old\"\n";
    let saved = match save_bees(old, &vec![bee_view("Codex")]) {
        Ok(s) => s,
        Err(e) => panic!("{e}"),
    };
    assert!(saved.starts_with("# mine\nroot = \"/ws\"\n"), "{saved}");
    assert!(!saved.contains("Old"), "{saved}");
    assert!(saved.contains("[[bees]]"), "{saved}");
    assert!(saved.contains("name = \"Codex\""), "{saved}");
    assert!(saved.contains("[[bees.signal_hooks]]"), "{saved}");
    assert!(saved.contains("source = \"sentry\""), "{saved}");
    assert!(saved.contains("ttl_secs = 90"), "{saved}");
    let doc = saved.parse::<toml_edit::DocumentMut>().unwrap();
    assert_eq!(doc["bees"][0]["model"].as_str(), Some("gpt-5.3-codex"));
    assert_eq!(doc["bees"][0]["signal_hooks"][0]["action"].as_str(), Some("triage"));
}

#[test]
fn documents_that_cannot_be_read_are_not_saved() {
    match save_bees("root = ", &vec![]) {
        Ok(s) => panic!("{s}"),
        Err(e) => assert!(e.starts_with("failed to parse TOML: "), "{e}"),
    }
}

#[test]
fn labels_are_words() {
    assert_eq!(execution_policy_label(BeeExecutionPolicy::Observe), "observe");
    assert_eq!(execution_policy_label(BeeExecutionPolicy::DispatchOnly), "dispatch_only");
    assert_eq!(execution_policy_label(BeeExecutionPolicy::Autonomous), "autonomous");
    assert_eq!(authority_label(WorkspaceAuthority::Observe), "observe");
    assert_eq!(authority_label(WorkspaceAuthority::Autonomous), "autonomous");
}

#[test]
fn hook_views_are_plain_values() {
    let view = bee_view("Codex");
    let hooks: &Vec<SignalHookView> = &view.signal_hooks;
    assert_eq!(hooks[0].ttl_secs, 90);
}

#[test]
fn saving_bees_leaves_the_other_keys() {
    let old = "# mine\nroot = \"/ws\"\nrepos = [\"a\", \"b\"] # two\n\n[[bees]]\nname = \"Old\"\n\n\
               [telegram]\nchat_id = 5\n\n[telegram.more]\nx.y = 1.5\n";
    let saved = match save_bees(old, &vec![bee_view("Codex")]) {
        Ok(s) => s,
        Err(e) => panic!("{e}"),
    };
    let before = old.parse::<toml_edit::DocumentMut>().unwrap();
    let after = saved.parse::<toml_edit::DocumentMut>().unwrap();
    for key in ["root", "repos", "telegram"] {
        assert_eq!(before[key].to_string(), after[key].to_string());
    }
    assert!(saved.contains("repos = [\"a\", \"b\"] # two\n"), "{saved}");
    assert_eq!(after["bees"][0]["name"].as_str(), Some("Codex"));
    let none = match save_bees("root = \"/ws\"\n", &vec![]) {
        Ok(s) => s,
        Err(e) => panic!("{e}"),
    };
    assert_eq!(none, "root = \"/ws\"\n");
}

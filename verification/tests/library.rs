use coopy::cli::{Action, Args, Commands, ConfigFields, ProcessError};
use coopy::config::{confirmation_declined, Config, State, UpdateError, UserSettings};
use coopy::obsidian::{check_file, frontmatter_block, Frontmatter};
use coopy::sync::{build_rel_path, sync_plan, sync_succeeded, CopyOutcome, EntryStep};

fn strings(v: &[&str]) -> Vec<String> {
    v.iter().map(|s| s.to_string()).collect()
}

fn state(source: &str, target: &str, folders: &[&str], forbidden: &[&str]) -> State {
    State {
        config: Config {
            user_settings: UserSettings {
                source: source.to_string(),
                target: target.to_string(),
                folders: strings(folders),
                forbidden: strings(forbidden),
            },
        },
    }
}

const SETTINGS: &str = "[user-settings]\nsource = \"/vault\"\ntarget = \"/blog\"\nfolders = [\"posts\"]\nforbidden = [\"private\"]\n";

fn reparse(text: &str) -> toml::Table {
    text.parse::<toml::Table>().unwrap()
}

fn list_entry(doc: &toml::Table, key: &str) -> Vec<String> {
    doc["user-settings"][key]
        .as_array()
        .unwrap()
        .iter()
        .map(|v| v.as_str().unwrap().to_string())
        .collect()
}

#[test]
fn rel_path_at_top_is_bare_name() {
    assert_eq!(build_rel_path("note.md", ""), "note.md");
}

#[test]
fn rel_path_below_folder_is_joined() {
    assert_eq!(build_rel_path("note.md", "posts/2024"), "posts/2024/note.md");
}

#[test]
fn published_note_is_checked() {
    assert!(check_file(Some(Frontmatter { publish: Some(true) })));
    assert!(!check_file(Some(Frontmatter { publish: Some(false) })));
    assert!(!check_file(Some(Frontmatter { publish: None })));
    assert!(!check_file(None));
}

#[test]
fn frontmatter_between_fences() {
    let md = "---\npublish: true\ntags: [a]\n---\n# Title\nbody\n";
    assert_eq!(frontmatter_block(md), Some("publish: true\ntags: [a]\n".to_string()));
}

#[test]
fn frontmatter_fences_may_carry_whitespace_and_crlf() {
    let md = "  ---\t\r\npublish: true\r\n --- \r\nbody";
    assert_eq!(frontmatter_block(md), Some("publish: true\n".to_string()));
}

#[test]
fn frontmatter_missing_first_fence() {
    assert_eq!(frontmatter_block("# Title\n---\npublish: true\n---\n"), None);
}

#[test]
fn frontmatter_unclosed_is_none() {
    assert_eq!(frontmatter_block("---\na: 1\nb: 2"), None);
    assert_eq!(frontmatter_block("---\npublish: true\n"), None);
}

#[test]
fn frontmatter_of_empty_note_is_none() {
    assert_eq!(frontmatter_block(""), None);
}

#[test]
fn frontmatter_empty_block() {
    assert_eq!(frontmatter_block("---\n---\nbody\n"), Some(String::new()));
}

#[test]
fn text_after_closing_fence_is_ignored() {
    let head = "---\npublish: true\n---\n";
    let expected = frontmatter_block(head);
    assert_eq!(expected, Some("publish: true\n".to_string()));
    for tail in ["", "# Title\n---\nmore: 1\n---\n", "---", "body without newline"] {
        assert_eq!(frontmatter_block(&format!("{}{}", head, tail)), expected);
    }
}

#[test]
fn frontmatter_with_unicode_whitespace_fence() {
    let md = "\u{3000}---\u{a0}\nx: y\n---\n";
    assert_eq!(frontmatter_block(md), Some("x: y\n".to_string()));
}

#[test]
fn add_appends_only_missing_values() {
    let mut st = state("/vault", "/blog", &["posts"], &["private"]);
    let values = strings(&["drafts", "posts", "drafts", "notes"]);
    let text = st
        .update_config("add", Some(ConfigFields::Folders), Some(&values[..]), None, SETTINGS)
        .unwrap();
    assert_eq!(st.config.user_settings.folders, strings(&["posts", "drafts", "notes"]));
    let doc = reparse(&text);
    assert_eq!(list_entry(&doc, "folders"), strings(&["posts", "drafts", "notes"]));
    assert_eq!(list_entry(&doc, "forbidden"), strings(&["private"]));
}

#[test]
fn add_twice_is_add_once() {
    let mut st = state("/vault", "/blog", &["posts"], &["private"]);
    let values = strings(&["a", "b"]);
    st.update_config("add", Some(ConfigFields::Forbidden), Some(&values[..]), None, SETTINGS)
        .unwrap();
    let once = st.config.user_settings.forbidden.clone();
    st.update_config("add", Some(ConfigFields::Forbidden), Some(&values[..]), None, SETTINGS)
        .unwrap();
    assert_eq!(st.config.user_settings.forbidden, once);
    assert_eq!(once, strings(&["private", "a", "b"]));
}

#[test]
fn remove_drops_every_occurrence_in_order() {
    let mut st = state("/vault", "/blog", &["a", "b", "a", "c"], &[]);
    let values = strings(&["a", "x"]);
    let text = st
        .update_config("rmv", Some(ConfigFields::Folders), Some(&values[..]), None, SETTINGS)
        .unwrap();
    assert_eq!(st.config.user_settings.folders, strings(&["b", "c"]));
    assert_eq!(list_entry(&reparse(&text), "folders"), strings(&["b", "c"]));
}

#[test]
fn remove_after_add_is_plain_remove() {
    let mut st = state("/vault", "/blog", &["a", "b"], &[]);
    let values = strings(&["b", "z"]);
    st.update_config("add", Some(ConfigFields::Folders), Some(&values[..]), None, SETTINGS)
        .unwrap();
    st.update_config("rmv", Some(ConfigFields::Folders), Some(&values[..]), None, SETTINGS)
        .unwrap();
    assert_eq!(st.config.user_settings.folders, strings(&["a"]));
}

#[test]
fn set_source_writes_the_file() {
    let mut st = state("/vault", "/blog", &[], &[]);
    let text = st
        .update_config("set", Some(ConfigFields::Source), None, Some("/notes"), SETTINGS)
        .unwrap();
    assert_eq!(st.config.user_settings.source, "/notes");
    let doc = reparse(&text);
    assert_eq!(doc["user-settings"]["source"].as_str(), Some("/notes"));
    assert_eq!(doc["user-settings"]["target"].as_str(), Some("/blog"));
}

#[test]
fn set_without_path_rewrites_current_value() {
    let mut st = state("/here", "/blog", &[], &[]);
    let text = st
        .update_config("set", Some(ConfigFields::Source), None, None, SETTINGS)
        .unwrap();
    assert_eq!(st.config.user_settings.source, "/here");
    assert_eq!(reparse(&text)["user-settings"]["source"].as_str(), Some("/here"));
}

#[test]
fn invalid_field_is_refused_without_change() {
    let mut st = state("/vault", "/blog", &["posts"], &[]);
    let values = strings(&["x"]);
    match st.update_config("add", Some(ConfigFields::Source), Some(&values[..]), None, SETTINGS) {
        Err(UpdateError::InvalidField(m)) => assert_eq!(m, "Invalid config field 'add' operation"),
        other => panic!("unexpected {:?}", other),
    }
    match st.update_config("set", Some(ConfigFields::Folders), None, Some("p"), SETTINGS) {
        Err(UpdateError::InvalidField(m)) => assert_eq!(m, "Invalid config field 'set' operation"),
        other => panic!("unexpected {:?}", other),
    }
    assert_eq!(st.config.user_settings.folders, strings(&["posts"]));
    assert_eq!(st.config.user_settings.source, "/vault");
}

#[test]
fn unknown_operation_changes_nothing() {
    let mut st = state("/vault", "/blog", &["posts"], &[]);
    let text = st
        .update_config("noop", Some(ConfigFields::Source), None, Some("/x"), SETTINGS)
        .unwrap();
    assert_eq!(st.config.user_settings.source, "/vault");
    assert_eq!(reparse(&text), reparse(SETTINGS));
}

#[test]
fn unparsable_settings_file_is_reported() {
    let mut st = state("/vault", "/blog", &[], &[]);
    let values = strings(&["x"]);
    match st.update_config("add", Some(ConfigFields::Folders), Some(&values[..]), None, "user = [") {
        Err(UpdateError::Parse(_)) => {}
        other => panic!("unexpected {:?}", other),
    }
    assert!(st.config.user_settings.folders.is_empty());
}

#[test]
fn missing_entry_is_reported_without_change() {
    let mut st = state("/vault", "/blog", &[], &[]);
    let values = strings(&["x"]);
    let text = "[user-settings]\nsource = \"/vault\"\n";
    match st.update_config("add", Some(ConfigFields::Folders), Some(&values[..]), None, text) {
        Err(UpdateError::MissingEntry(k)) => assert_eq!(k, "folders"),
        other => panic!("unexpected {:?}", other),
    }
    assert!(st.config.user_settings.folders.is_empty());
}

#[test]
fn positional_paths_mean_sync() {
    let mut st = state("/vault", "/blog", &[], &[]);
    let args = Args {
        source: Some("/a".to_string()),
        target: None,
        subcommand: Some(Commands::Config),
    };
    let p = args.process(&mut st, SETTINGS).unwrap();
    assert_eq!(p.action, Action::Sync);
    assert_eq!(p.source, Some("/a".to_string()));
    assert_eq!(p.target, None);
    assert!(p.settings_file.is_none());
}

#[test]
fn sync_subcommand_and_bare_invocation() {
    let mut st = state("/vault", "/blog", &[], &[]);
    let args = Args {
        source: None,
        target: None,
        subcommand: Some(Commands::Sync {
            source: None,
            target: Some("/t".to_string()),
            dry_run: true,
            verbose: false,
        }),
    };
    let p = args.process(&mut st, SETTINGS).unwrap();
    assert_eq!(p.action, Action::Sync);
    assert_eq!(p.target, Some("/t".to_string()));
    assert!(p.dry_run);
    assert!(!p.verbose);
    let bare = Args { source: None, target: None, subcommand: None };
    let p = bare.process(&mut st, SETTINGS).unwrap();
    assert_eq!(p.action, Action::Sync);
    assert_eq!(p.source, None);
}

#[test]
fn config_subcommand_shows_config() {
    let mut st = state("/vault", "/blog", &[], &[]);
    let args = Args { source: None, target: None, subcommand: Some(Commands::Config) };
    assert_eq!(args.process(&mut st, SETTINGS).unwrap().action, Action::ShowConfig);
}

#[test]
fn add_subcommand_updates_settings_and_file() {
    let mut st = state("/vault", "/blog", &["posts"], &[]);
    let args = Args {
        source: None,
        target: None,
        subcommand: Some(Commands::Add { kind: ConfigFields::Folders, values: strings(&["new"]) }),
    };
    let p = args.process(&mut st, SETTINGS).unwrap();
    assert_eq!(p.action, Action::ConfigUpdate);
    assert_eq!(st.config.user_settings.folders, strings(&["posts", "new"]));
    let text = p.settings_file.unwrap();
    assert_eq!(list_entry(&reparse(&text), "folders"), strings(&["posts", "new"]));
}

#[test]
fn remove_subcommand_with_wrong_field_is_refused() {
    let mut st = state("/vault", "/blog", &["posts"], &[]);
    let args = Args {
        source: None,
        target: None,
        subcommand: Some(Commands::Remove { kind: ConfigFields::Target, values: strings(&["x"]) }),
    };
    match args.process(&mut st, SETTINGS) {
        Err(ProcessError::Command(m)) => {
            assert_eq!(m, "Error processing command: Invalid config field 'rmv' operation")
        }
        other => panic!("unexpected {:?}", other),
    }
}

#[test]
fn set_subcommand_sets_target() {
    let mut st = state("/vault", "/blog", &[], &[]);
    let args = Args {
        source: None,
        target: None,
        subcommand: Some(Commands::SetPath { kind: ConfigFields::Target, path: "/site".to_string() }),
    };
    let p = args.process(&mut st, SETTINGS).unwrap();
    assert_eq!(p.action, Action::ConfigUpdate);
    assert_eq!(st.config.user_settings.target, "/site");
}

#[test]
fn settings_errors_pass_through_process() {
    let mut st = state("/vault", "/blog", &[], &[]);
    let args = Args {
        source: None,
        target: None,
        subcommand: Some(Commands::Add { kind: ConfigFields::Folders, values: strings(&["x"]) }),
    };
    match args.process(&mut st, "not toml = = =") {
        Err(ProcessError::Settings(UpdateError::Parse(_))) => {}
        other => panic!("unexpected {:?}", other),
    }
}

#[test]
fn given_paths_win_over_stored_ones() {
    let mut st = state("/vault", "/blog", &[], &[]);
    let p = st.resolve_paths(Some("/a".to_string()), Some("/b".to_string()));
    assert_eq!(st.config.user_settings.source, "/a");
    assert_eq!(st.config.user_settings.target, "/b");
    assert!(!p.ask_source && !p.ask_target && !p.confirm_target);
}

#[test]
fn stored_target_is_confirmed_after_given_source() {
    let mut st = state("/vault", "/blog", &[], &[]);
    let p = st.resolve_paths(Some("/a".to_string()), None);
    assert!(p.confirm_target);
    assert!(!p.ask_target);
    assert_eq!(st.config.user_settings.target, "/blog");
}

#[test]
fn stored_paths_are_used_without_asking() {
    let mut st = state("/vault", "/blog", &[], &[]);
    let p = st.resolve_paths(None, None);
    assert!(!p.ask_source && !p.ask_target && !p.confirm_target);
}

#[test]
fn missing_paths_are_asked_for() {
    let mut st = state("", "", &[], &[]);
    let p = st.resolve_paths(None, None);
    assert!(p.ask_source && p.ask_target && !p.confirm_target);
    st.set_source_input("  /from \n");
    st.set_target_input("\t/to\r\n");
    assert_eq!(st.config.user_settings.source, "/from");
    assert_eq!(st.config.user_settings.target, "/to");
}

#[test]
fn declining_answers() {
    assert!(confirmation_declined("n\n"));
    assert!(confirmation_declined("  No "));
    assert!(confirmation_declined("NO"));
    assert!(!confirmation_declined("y"));
    assert!(!confirmation_declined(""));
    assert!(!confirmation_declined("nope"));
}

#[test]
fn sync_paths_are_trimmed() {
    let st = state(" /vault\n", "\t/blog ", &[], &[]);
    let (s, t) = st.sync_paths();
    assert_eq!(s, "/vault");
    assert_eq!(t, "/blog");
}

#[test]
fn folders_listed_are_entered_even_if_forbidden() {
    let st = state("/v", "/b", &["posts"], &["posts", "private"]);
    assert!(st.folder_allowed("posts"));
    assert!(!st.folder_allowed("private"));
    assert!(st.folder_allowed("other"));
}

#[test]
fn entry_steps() {
    let st = state("/v", "/b", &[], &["private"]);
    assert_eq!(st.entry_step("posts", true, false, ""), EntryStep::Descend("posts".to_string()));
    assert_eq!(st.entry_step("private", true, false, "a"), EntryStep::Skip);
    assert_eq!(
        st.entry_step("n.md", false, true, "posts"),
        EntryStep::CheckNote("posts/n.md".to_string())
    );
    assert_eq!(st.entry_step("link", false, false, ""), EntryStep::Skip);
}

#[test]
fn copy_plan_joins_paths() {
    let plan = sync_plan(&strings(&["a.md", "x/b.md"]), "/vault", "/blog");
    assert_eq!(
        plan,
        vec![
            ("/vault/a.md".to_string(), "/blog/a.md".to_string()),
            ("/vault/x/b.md".to_string(), "/blog/x/b.md".to_string()),
        ]
    );
}

#[test]
fn only_folder_failures_fail_a_sync() {
    assert!(sync_succeeded(&vec![CopyOutcome::Copied, CopyOutcome::CopyFailed]));
    assert!(!sync_succeeded(&vec![CopyOutcome::Copied, CopyOutcome::FolderFailed]));
    assert!(sync_succeeded(&vec![]));
}

#[test]
fn sync_flags_are_handed_on() {
    let mut st = state("/vault", "/blog", &[], &[]);
    let args = Args {
        source: None,
        target: None,
        subcommand: Some(Commands::Sync {
            source: Some("/s".to_string()),
            target: None,
            dry_run: false,
            verbose: true,
        }),
    };
    let p = args.process(&mut st, SETTINGS).unwrap();
    assert_eq!(p.action, Action::Sync);
    assert_eq!(p.source, Some("/s".to_string()));
    assert!(!p.dry_run);
    assert!(p.verbose);
    let positional = Args { source: Some("/a".to_string()), target: None, subcommand: None };
    let p = positional.process(&mut st, SETTINGS).unwrap();
    assert!(!p.dry_run && !p.verbose);
}

#[test]
fn add_then_remove_of_new_values_restores_list() {
    let mut st = state("/vault", "/blog", &["posts", "notes"], &[]);
    let values = strings(&["drafts", "misc"]);
    st.update_config("add", Some(ConfigFields::Folders), Some(&values[..]), None, SETTINGS)
        .unwrap();
    assert_eq!(st.config.user_settings.folders, strings(&["posts", "notes", "drafts", "misc"]));
    let text = st
        .update_config("rmv", Some(ConfigFields::Folders), Some(&values[..]), None, SETTINGS)
        .unwrap();
    assert_eq!(st.config.user_settings.folders, strings(&["posts", "notes"]));
    assert_eq!(list_entry(&reparse(&text), "folders"), strings(&["posts", "notes"]));
}

#[test]
fn removing_absent_values_changes_nothing() {
    let mut st = state("/vault", "/blog", &[], &["a", "b"]);
    let values = strings(&["x", "y"]);
    st.update_config("rmv", Some(ConfigFields::Forbidden), Some(&values[..]), None, SETTINGS)
        .unwrap();
    assert_eq!(st.config.user_settings.forbidden, strings(&["a", "b"]));
}

#[test]
fn update_keeps_other_entries_of_the_file() {
    let text = "title = \"blog\"\n[user-settings]\nsource = \"/vault\"\ntarget = \"/blog\"\nfolders = [\"posts\"]\nforbidden = [\"private\"]\nextra = 3\n[other]\nk = true\n";
    let mut st = state("/vault", "/blog", &["posts"], &["private"]);
    let values = strings(&["drafts"]);
    let out = st
        .update_config("add", Some(ConfigFields::Folders), Some(&values[..]), None, text)
        .unwrap();
    let before = reparse(text);
    let after = reparse(&out);
    assert_eq!(after["title"], before["title"]);
    assert_eq!(after["other"], before["other"]);
    assert_eq!(after["user-settings"]["extra"], before["user-settings"]["extra"]);
    assert_eq!(after["user-settings"]["source"], before["user-settings"]["source"]);
    assert_eq!(after["user-settings"]["forbidden"], before["user-settings"]["forbidden"]);
    assert_eq!(list_entry(&after, "folders"), strings(&["posts", "drafts"]));
    assert_eq!(after.len(), before.len());
    assert_eq!(
        after["user-settings"].as_table().unwrap().len(),
        before["user-settings"].as_table().unwrap().len()
    );
}

#[test]
fn more_listed_folders_never_forbid_a_folder() {
    let narrow = state("/v", "/b", &[], &["posts", "private"]);
    let wide = state("/v", "/b", &["posts"], &["private"]);
    for name in ["posts", "other"] {
        if narrow.folder_allowed(name) {
            assert!(wide.folder_allowed(name));
        }
    }
    assert!(!narrow.folder_allowed("posts"));
    assert!(wide.folder_allowed("posts"));
}

#[test]
fn settings_entry_that_is_no_table_is_missing() {
    let mut st = state("/vault", "/blog", &[], &[]);
    let text = "user-settings = 3\n";
    match st.update_config("set", Some(ConfigFields::Target), None, Some("/t"), text) {
        Err(UpdateError::MissingEntry(k)) => assert_eq!(k, "target"),
        other => panic!("unexpected {:?}", other),
    }
    assert_eq!(st.config.user_settings.target, "/blog");
}

#[test]
fn entries_of_other_tables_are_not_settings() {
    let mut st = state("/vault", "/blog", &[], &[]);
    let values = strings(&["x"]);
    let text = "[other]\nfolders = [\"a\"]\n";
    match st.update_config("add", Some(ConfigFields::Folders), Some(&values[..]), None, text) {
        Err(UpdateError::MissingEntry(k)) => assert_eq!(k, "folders"),
        other => panic!("unexpected {:?}", other),
    }
    assert!(st.config.user_settings.folders.is_empty());
}

use coopy::args::{Action, Args, Commands, ConfigFields};
use coopy::cli::ProcessError;
use coopy::config::UpdateError;
use coopy::sync::EntryStep;
use coopy::util::{build_rel_path, check_file, Frontmatter};
use coopy::vault_fn::{Config, State, UserSettings};

fn strings(v: &[&str]) -> Vec<String> {
    v.iter().map(|s| s.to_string()).collect()
}

fn state(source: &str, target: &str, folders: &[&str], forbidden: &[&str]) -> State {
    State {
        config: Config {
            user_settings: UserSettings {
                source: source.to_string(),
                target: target.to_string(),
                folders: strings(folders),
                forbidden: strings(forbidden),
            },
        },
    }
}

const SETTINGS: &str = "[user-settings]\nsource = \"/vault\"\ntarget = \"/blog\"\nfolders = [\"posts\"]\nforbidden = []\n";

#[test]
fn earlier_add_appends_every_value() {
    let mut st = state("/v", "/b", &["a"], &[]);
    let values = strings(&["a", "b"]);
    let text = st
        .update_config("add", Some(&ConfigFields::Folders), Some(&values[..]), None, SETTINGS)
        .unwrap();
    assert_eq!(st.config.user_settings.folders, strings(&["a", "a", "b"]));
    let doc = text.parse::<toml::Table>().unwrap();
    assert_eq!(doc["user-settings"]["folders"].as_array().unwrap().len(), 3);
}

#[test]
fn earlier_remove_swaps_in_last_item() {
    let mut st = state("/v", "/b", &["a", "b", "c", "a"], &[]);
    let values = strings(&["a", "zz"]);
    st.update_config("rmv", Some(&ConfigFields::Folders), Some(&values[..]), None, SETTINGS)
        .unwrap();
    assert_eq!(st.config.user_settings.folders, strings(&["a", "b", "c"]));
}

#[test]
fn earlier_remove_of_absent_values_changes_nothing() {
    let mut st = state("/v", "/b", &[], &["x", "y"]);
    let values = strings(&["q"]);
    st.update_config("rmv", Some(&ConfigFields::Forbidden), Some(&values[..]), None, SETTINGS)
        .unwrap();
    assert_eq!(st.config.user_settings.forbidden, strings(&["x", "y"]));
}

#[test]
fn earlier_invalid_field() {
    let mut st = state("/v", "/b", &[], &[]);
    match st.update_config("set", Some(&ConfigFields::Forbidden), None, Some("p"), SETTINGS) {
        Err(UpdateError::InvalidField(m)) => assert_eq!(m, "Invalid config field 'set' operation"),
        other => panic!("unexpected {:?}", other),
    }
}

#[test]
fn earlier_process_branches() {
    let mut st = state("/v", "/b", &[], &[]);
    let sync = Args { source: None, target: Some("/t".to_string()), subcommand: None };
    assert_eq!(sync.process(&mut st, SETTINGS).unwrap(), (Action::Sync, None));
    let config = Args { source: None, target: None, subcommand: Some(Commands::Config) };
    assert_eq!(config.process(&mut st, SETTINGS).unwrap(), (Action::ConfigUpdate, None));
    let none = Args { source: None, target: None, subcommand: None };
    match none.process(&mut st, SETTINGS) {
        Err(ProcessError::Command(m)) => assert_eq!(m, "Unknown command!"),
        other => panic!("unexpected {:?}", other),
    }
    let set = Args {
        source: None,
        target: None,
        subcommand: Some(Commands::SetPath { kind: ConfigFields::Source, path: "/s".to_string() }),
    };
    let (action, text) = set.process(&mut st, SETTINGS).unwrap();
    assert_eq!(action, Action::ConfigUpdate);
    assert!(text.unwrap().contains("/s"));
    assert_eq!(st.config.user_settings.source, "/s");
    let bad = Args {
        source: None,
        target: None,
        subcommand: Some(Commands::Rmv { kind: ConfigFields::Source, values: vec![] }),
    };
    match bad.process(&mut st, SETTINGS) {
        Err(ProcessError::Command(m)) => {
            assert_eq!(m, "Error processing command: Invalid config field 'rmv' operation")
        }
        other => panic!("unexpected {:?}", other),
    }
}

#[test]
fn earlier_resolve_paths() {
    let mut st = state("", "", &[], &[]);
    assert!(!st.resolve_paths(Some("/a".to_string()), None));
    assert_eq!(st.config.user_settings.source, "/a");
    let mut st = state("", "", &[], &[]);
    assert!(st.resolve_paths(None, None));
    st.set_prompted_paths(" /x ", "/y\n");
    assert_eq!(st.config.user_settings.source, "/x");
    assert_eq!(st.config.user_settings.target, "/y");
    let mut st = state("", "", &[], &[]);
    assert!(!st.resolve_paths(None, Some("/t".to_string())));
    assert_eq!(st.config.user_settings.target, "/t");
}

#[test]
fn earlier_entry_steps() {
    let st = state("/v", "/b", &["keep"], &["keep", "skip"]);
    assert_eq!(st.entry_step("keep", true, false, "r"), EntryStep::Descend("r/keep".to_string()));
    assert_eq!(st.entry_step("skip", true, false, "r"), EntryStep::Skip);
}

#[test]
fn earlier_helpers() {
    assert_eq!(build_rel_path("a.md", ""), "a.md");
    assert_eq!(build_rel_path("a.md", "d"), "d/a.md");
    assert!(check_file(Some(Frontmatter { publish: Some(true) })));
    assert!(!check_file(Some(Frontmatter { publish: None })));
}

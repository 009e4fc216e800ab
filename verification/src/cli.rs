//! The command line: what a user can ask for, and how a request is turned
//! into an action on the settings.
use vstd::prelude::*;
use crate::config::{
    lemma_add_update, lemma_remove_update, lemma_set_path_update, list_key, list_setting,
    path_key, path_setting, State, UpdateError, SettingsView, update_done, strs,
};
use crate::settings_file::{string_list, toml_parse, toml_render, with_setting, TomlItem};
use crate::text::concat;

verus! {

/// The actions an invocation leads to.
#[derive(Debug, Clone, Copy, PartialEq, Eq, Structural)]
pub enum Action {
    Sync,
    ConfigUpdate,
    ShowConfig,
}

/// The settings an invocation can name.
#[derive(Debug, Clone, Copy, PartialEq, Eq, Structural)]
pub enum ConfigFields {
    Source,
    Target,
    Folders,
    Forbidden,
}

/// The subcommands.
#[derive(Debug)]
pub enum Commands {
    /// Sync contents from the vault to the target folder.
    Sync { source: Option<String>, target: Option<String>, dry_run: bool, verbose: bool },
    /// Add items to a settings list.
    Add { kind: ConfigFields, values: Vec<String> },
    /// Remove items from a settings list.
    Remove { kind: ConfigFields, values: Vec<String> },
    /// Set the source or target path.
    SetPath { kind: ConfigFields, path: String },
    /// Display the current settings.
    Config,
}

/// An invocation: optional positional source and target paths, and an
/// optional subcommand.
#[derive(Debug)]
pub struct Args {
    pub source: Option<String>,
    pub target: Option<String>,
    pub subcommand: Option<Commands>,
}

/// The outcome of processing an invocation: the action, the sync paths it
/// gave, whether a sync only shows what it would copy (`dry_run`) and
/// reports each copy (`verbose`), and, after a settings update, the new
/// text of the settings file.
#[derive(Debug)]
pub struct Processed {
    pub action: Action,
    pub source: Option<String>,
    pub target: Option<String>,
    pub dry_run: bool,
    pub verbose: bool,
    pub settings_file: Option<String>,
}

/// Why an invocation could not be processed.
#[derive(Debug)]
pub enum ProcessError {
    /// The command was refused; the message says why.
    Command(String),
    /// The settings file could not be read as TOML, lacks an entry, or could
    /// not be rendered again.
    Settings(UpdateError),
}

/// The prefix of the message for a refused command.
pub open spec fn command_error_prefix() -> Seq<char> {
    "Error processing command: "@
}

/// How the outcome of a settings update shows in the outcome of processing.
pub open spec fn update_outcome(u: Result<String, UpdateError>, r: Result<Processed, ProcessError>) -> bool {
    match u {
        Ok(text) => r matches Ok(p) && p.action == Action::ConfigUpdate && p.source is None
            && p.target is None && !p.dry_run && !p.verbose && p.settings_file == Some(text),
        Err(UpdateError::InvalidField(m)) => r matches Err(ProcessError::Command(c)) && c@
            == command_error_prefix() + m@,
        Err(e) => r matches Err(ProcessError::Settings(e2)) && e2 == e,
    }
}

/// A sync with the given paths and flags, no settings file to write.
pub open spec fn sync_with(
    r: Result<Processed, ProcessError>,
    source: Option<String>,
    target: Option<String>,
    dry_run: bool,
    verbose: bool,
) -> bool {
    r matches Ok(p) && p.action == Action::Sync && p.source == source && p.target == target
        && p.dry_run == dry_run && p.verbose == verbose && p.settings_file is None
}

/// What processing `args` does to the settings `old` (giving `new`) and
/// returns, with the settings file `text`.
pub open spec fn processed(
    args: Args,
    old: SettingsView,
    new: SettingsView,
    text: Seq<char>,
    r: Result<Processed, ProcessError>,
) -> bool {
    if args.source is Some || args.target is Some {
        sync_with(r, args.source, args.target, false, false) && new == old
    } else {
        match args.subcommand {
            None => sync_with(r, None, None, false, false) && new == old,
            Some(Commands::Sync { source, target, dry_run, verbose }) => sync_with(
                r,
                source,
                target,
                dry_run,
                verbose,
            ) && new == old,
            Some(Commands::Config) => r matches Ok(p) && p.action == Action::ShowConfig
                && p.source is None && p.target is None && !p.dry_run && !p.verbose
                && p.settings_file is None && new == old,
            Some(Commands::Add { kind, values }) => exists|u: Result<String, UpdateError>|
                update_done(old, new, u, "add"@, Some(kind), Some(strs(values@)), None, text)
                    && #[trigger] update_outcome(u, r),
            Some(Commands::Remove { kind, values }) => exists|u: Result<String, UpdateError>|
                update_done(old, new, u, "rmv"@, Some(kind), Some(strs(values@)), None, text)
                    && #[trigger] update_outcome(u, r),
            Some(Commands::SetPath { kind, path }) => exists|u: Result<String, UpdateError>|
                update_done(old, new, u, "set"@, Some(kind), None, Some(path@), text)
                    && #[trigger] update_outcome(u, r),
        }
    }
}

/// An `add` subcommand on a list setting that succeeds leaves every value
/// given in that list, after its earlier items, which keep their order; the
/// paths are as they were, and the settings file comes back with that list
/// written under its key of `user-settings`.
pub proof fn lemma_process_add(
    args: Args,
    old: SettingsView,
    new: SettingsView,
    text: Seq<char>,
    r: Result<Processed, ProcessError>,
    kind: ConfigFields,
    values: Vec<String>,
)
    requires
        processed(args, old, new, text, r),
        args.source is None,
        args.target is None,
        args.subcommand == Some(Commands::Add { kind, values }),
        kind == ConfigFields::Folders || kind == ConfigFields::Forbidden,
        r is Ok,
    ensures
        forall|i: int|
            0 <= i < values.len() ==> list_setting(new, kind).contains(#[trigger] values@[i]@),
        list_setting(new, kind).take(list_setting(old, kind).len() as int) == list_setting(
            old,
            kind,
        ),
        new.source == old.source,
        new.target == old.target,
        r matches Ok(p) ==> p.action == Action::ConfigUpdate,
        r matches Ok(p) ==> (p.settings_file matches Some(t) && toml_render(
            with_setting(
                toml_parse(text).unwrap(),
                list_key(kind),
                string_list(list_setting(new, kind)),
            ),
        ) == Some(t@)),
{
    let w = choose|w: Result<String, UpdateError>|
        update_done(old, new, w, "add"@, Some(kind), Some(strs(values@)), None, text)
            && #[trigger] update_outcome(w, r);
    lemma_add_update(old, new, w, kind, strs(values@), text);
    assert forall|i: int| 0 <= i < values.len() implies list_setting(new, kind).contains(
        #[trigger] values@[i]@,
    ) by {
        assert(strs(values@)[i] == values@[i]@);
    }
}

/// A `remove` subcommand on a list setting that succeeds leaves none of the
/// values given in that list; the paths are as they were, and the settings
/// file comes back with that list written under its key of `user-settings`.
pub proof fn lemma_process_remove(
    args: Args,
    old: SettingsView,
    new: SettingsView,
    text: Seq<char>,
    r: Result<Processed, ProcessError>,
    kind: ConfigFields,
    values: Vec<String>,
)
    requires
        processed(args, old, new, text, r),
        args.source is None,
        args.target is None,
        args.subcommand == Some(Commands::Remove { kind, values }),
        kind == ConfigFields::Folders || kind == ConfigFields::Forbidden,
        r is Ok,
    ensures
        forall|i: int|
            0 <= i < values.len() ==> !list_setting(new, kind).contains(#[trigger] values@[i]@),
        new.source == old.source,
        new.target == old.target,
        r matches Ok(p) ==> p.action == Action::ConfigUpdate,
        r matches Ok(p) ==> (p.settings_file matches Some(t) && toml_render(
            with_setting(
                toml_parse(text).unwrap(),
                list_key(kind),
                string_list(list_setting(new, kind)),
            ),
        ) == Some(t@)),
{
    let w = choose|w: Result<String, UpdateError>|
        update_done(old, new, w, "rmv"@, Some(kind), Some(strs(values@)), None, text)
            && #[trigger] update_outcome(w, r);
    lemma_remove_update(old, new, w, kind, strs(values@), text);
    assert forall|i: int| 0 <= i < values.len() implies !list_setting(new, kind).contains(
        #[trigger] values@[i]@,
    ) by {
        assert(strs(values@)[i] == values@[i]@);
    }
}

/// A `set` subcommand on a path setting that succeeds makes that setting
/// the path given, leaves the other settings as they were, and the settings
/// file comes back with that entry of `user-settings` set to the path.
pub proof fn lemma_process_set(
    args: Args,
    old: SettingsView,
    new: SettingsView,
    text: Seq<char>,
    r: Result<Processed, ProcessError>,
    kind: ConfigFields,
    path: String,
)
    requires
        processed(args, old, new, text, r),
        args.source is None,
        args.target is None,
        args.subcommand == Some(Commands::SetPath { kind, path }),
        kind == ConfigFields::Source || kind == ConfigFields::Target,
        r is Ok,
    ensures
        path_setting(new, kind) == path@,
        kind == ConfigFields::Source ==> new.target == old.target,
        kind == ConfigFields::Target ==> new.source == old.source,
        new.folders == old.folders,
        new.forbidden == old.forbidden,
        r matches Ok(p) ==> p.action == Action::ConfigUpdate,
        r matches Ok(p) ==> (p.settings_file matches Some(t) && toml_render(
            with_setting(toml_parse(text).unwrap(), path_key(kind), TomlItem::Text(path@)),
        ) == Some(t@)),
{
    let w = choose|w: Result<String, UpdateError>|
        update_done(old, new, w, "set"@, Some(kind), None, Some(path@), text)
            && #[trigger] update_outcome(w, r);
    lemma_set_path_update(old, new, w, kind, Some(path@), text);
}

fn lift_update(u: Result<String, UpdateError>) -> (r: Result<Processed, ProcessError>)
    ensures
        update_outcome(u, r),
{
    match u {
        Ok(text) => Ok(
            Processed {
                action: Action::ConfigUpdate,
                source: None,
                target: None,
                dry_run: false,
                verbose: false,
                settings_file: Some(text),
            },
        ),
        Err(UpdateError::InvalidField(m)) => Err(
            ProcessError::Command(concat("Error processing command: ", m.as_str())),
        ),
        Err(e) => Err(ProcessError::Settings(e)),
    }
}

impl Args {
    /// Processes an invocation: positional paths, or else the subcommand
    /// (none at all meaning a sync with the stored paths). A `sync`
    /// subcommand hands on its `--dry-run` and `--verbose` flags. `add`, `remove`
    /// and `set` update the settings and the settings file `config_text`;
    /// the file's new text comes back in the outcome.
    pub fn process(&self, state: &mut State, config_text: &str) -> (r: Result<Processed, ProcessError>)
        ensures
            processed(*self, old(state)@, final(state)@, config_text@, r),
    {
        if self.source.is_some() || self.target.is_some() {
            return Ok(
                Processed {
                    action: Action::Sync,
                    source: self.source.clone(),
                    target: self.target.clone(),
                    dry_run: false,
                    verbose: false,
                    settings_file: None,
                },
            );
        }
        match &self.subcommand {
            Some(Commands::Sync { source, target, dry_run, verbose }) => Ok(
                Processed {
                    action: Action::Sync,
                    source: source.clone(),
                    target: target.clone(),
                    dry_run: *dry_run,
                    verbose: *verbose,
                    settings_file: None,
                },
            ),
            Some(Commands::Add { kind, values }) => {
                let u = state.update_config("add", Some(*kind), Some(values.as_slice()), None, config_text);
                let ghost gu = u;
                let r = lift_update(u);
                assert(update_outcome(gu, r));
                r
            },
            Some(Commands::Remove { kind, values }) => {
                let u = state.update_config("rmv", Some(*kind), Some(values.as_slice()), None, config_text);
                let ghost gu = u;
                let r = lift_update(u);
                assert(update_outcome(gu, r));
                r
            },
            Some(Commands::SetPath { kind, path }) => {
                let u = state.update_config("set", Some(*kind), None, Some(path.as_str()), config_text);
                let ghost gu = u;
                let r = lift_update(u);
                assert(update_outcome(gu, r));
                r
            },
            Some(Commands::Config) => Ok(
                Processed {
                    action: Action::ShowConfig,
                    source: None,
                    target: None,
                    dry_run: false,
                    verbose: false,
                    settings_file: None,
                },
            ),
            None => Ok(
                Processed {
                    action: Action::Sync,
                    source: None,
                    target: None,
                    dry_run: false,
                    verbose: false,
                    settings_file: None,
                },
            ),
        }
    }
}

} // verus!

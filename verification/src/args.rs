//! The command line of the earlier generation of the tool: positional
//! paths, or one of the subcommands `add`, `rmv`, `set` and `config`.
use vstd::prelude::*;
use crate::cli::ProcessError;
use crate::config::{strs, UpdateError};
use crate::text::concat;
use crate::config::{list_key, list_setting, path_key, path_setting};
use crate::settings_file::{string_list, toml_parse, toml_render, with_setting, TomlItem};
use crate::vault_fn::{
    field_of, lemma_append_update, lemma_set_path_written, lemma_swap_remove_update, State,
};

verus! {

/// The actions an invocation leads to.
#[derive(Debug, Clone, Copy, PartialEq, Eq, Structural)]
pub enum Action {
    Sync,
    ConfigUpdate,
}

/// The settings an invocation can name.
#[derive(Debug, Clone, Copy, PartialEq, Eq, Structural)]
pub enum ConfigFields {
    Source,
    Target,
    Folders,
    Forbidden,
}

/// The subcommands.
#[derive(Debug)]
pub enum Commands {
    /// Add items to a settings list.
    Add { kind: ConfigFields, values: Vec<String> },
    /// Remove items from a settings list.
    Rmv { kind: ConfigFields, values: Vec<String> },
    /// Set the source or target path.
    SetPath { kind: ConfigFields, path: String },
    /// Show the settings.
    Config,
}

/// An invocation: optional positional source and target paths, and an
/// optional subcommand.
#[derive(Debug)]
pub struct Args {
    pub source: Option<String>,
    pub target: Option<String>,
    pub subcommand: Option<Commands>,
}

/// How the outcome of a settings update shows in the outcome of processing:
/// on success, a settings update with the settings file's new text.
pub open spec fn update_outcome(
    u: Result<String, UpdateError>,
    r: Result<(Action, Option<String>), ProcessError>,
) -> bool {
    match u {
        Ok(text) => r matches Ok(p) && p.0 == Action::ConfigUpdate && p.1 == Some(text),
        Err(UpdateError::InvalidField(m)) => r matches Err(ProcessError::Command(c)) && c@
            == crate::cli::command_error_prefix() + m@,
        Err(e) => r matches Err(ProcessError::Settings(e2)) && e2 == e,
    }
}

/// What processing `args` does to the settings `old` (giving `new`) and
/// returns, with the settings file `text`.
pub open spec fn processed(
    args: Args,
    old: crate::config::SettingsView,
    new: crate::config::SettingsView,
    text: Seq<char>,
    r: Result<(Action, Option<String>), ProcessError>,
) -> bool {
    if args.source is Some || args.target is Some {
        r matches Ok(p) && p.0 == Action::Sync && p.1 is None && new == old
    } else {
        match args.subcommand {
            None => r matches Err(ProcessError::Command(c)) && c@ == "Unknown command!"@ && new
                == old,
            Some(Commands::Config) => r matches Ok(p) && p.0 == Action::ConfigUpdate && p.1 is None
                && new == old,
            Some(Commands::Add { kind, values }) => exists|u: Result<String, UpdateError>|
                crate::vault_fn::update_done(
                    old,
                    new,
                    u,
                    "add"@,
                    Some(field_of(kind)),
                    Some(strs(values@)),
                    None,
                    text,
                ) && #[trigger] update_outcome(u, r),
            Some(Commands::Rmv { kind, values }) => exists|u: Result<String, UpdateError>|
                crate::vault_fn::update_done(
                    old,
                    new,
                    u,
                    "rmv"@,
                    Some(field_of(kind)),
                    Some(strs(values@)),
                    None,
                    text,
                ) && #[trigger] update_outcome(u, r),
            Some(Commands::SetPath { kind, path }) => exists|u: Result<String, UpdateError>|
                crate::vault_fn::update_done(
                    old,
                    new,
                    u,
                    "set"@,
                    Some(field_of(kind)),
                    None,
                    Some(path@),
                    text,
                ) && #[trigger] update_outcome(u, r),
        }
    }
}

/// An `add` subcommand on a list setting that succeeds appends every value
/// given to that list, in order; the paths are as they were, and the
/// settings file comes back with that list under its key of
/// `user-settings`.
pub proof fn lemma_process_add(
    args: Args,
    old: crate::config::SettingsView,
    new: crate::config::SettingsView,
    text: Seq<char>,
    r: Result<(Action, Option<String>), ProcessError>,
    kind: ConfigFields,
    values: Vec<String>,
)
    requires
        processed(args, old, new, text, r),
        args.source is None,
        args.target is None,
        args.subcommand == Some(Commands::Add { kind, values }),
        kind == ConfigFields::Folders || kind == ConfigFields::Forbidden,
        r is Ok,
    ensures
        list_setting(new, field_of(kind)) == list_setting(old, field_of(kind)) + strs(values@),
        new.source == old.source,
        new.target == old.target,
        r matches Ok(p) ==> p.0 == Action::ConfigUpdate,
        r matches Ok(p) ==> (p.1 matches Some(t) && toml_render(
            with_setting(
                toml_parse(text).unwrap(),
                list_key(field_of(kind)),
                string_list(list_setting(new, field_of(kind))),
            ),
        ) == Some(t@)),
{
    let w = choose|w: Result<String, UpdateError>|
        crate::vault_fn::update_done(
            old,
            new,
            w,
            "add"@,
            Some(field_of(kind)),
            Some(strs(values@)),
            None,
            text,
        ) && #[trigger] update_outcome(w, r);
    lemma_append_update(old, new, w, field_of(kind), strs(values@), text);
}

/// An `rmv` subcommand on a list setting that succeeds takes one
/// occurrence of each value given out of that list while one is left (so a
/// list without repeated items holds none of them afterwards); the paths
/// are as they were, and the settings file comes back with that list under
/// its key of `user-settings`.
pub proof fn lemma_process_rmv(
    args: Args,
    old: crate::config::SettingsView,
    new: crate::config::SettingsView,
    text: Seq<char>,
    r: Result<(Action, Option<String>), ProcessError>,
    kind: ConfigFields,
    values: Vec<String>,
)
    requires
        processed(args, old, new, text, r),
        args.source is None,
        args.target is None,
        args.subcommand == Some(Commands::Rmv { kind, values }),
        kind == ConfigFields::Folders || kind == ConfigFields::Forbidden,
        r is Ok,
    ensures
        list_setting(new, field_of(kind)).to_multiset() == list_setting(
            old,
            field_of(kind),
        ).to_multiset().sub(strs(values@).to_multiset()),
        list_setting(old, field_of(kind)).no_duplicates() ==> forall|i: int|
            0 <= i < values.len() ==> !list_setting(new, field_of(kind)).contains(
                #[trigger] values@[i]@,
            ),
        new.source == old.source,
        new.target == old.target,
        r matches Ok(p) ==> p.0 == Action::ConfigUpdate,
        r matches Ok(p) ==> (p.1 matches Some(t) && toml_render(
            with_setting(
                toml_parse(text).unwrap(),
                list_key(field_of(kind)),
                string_list(list_setting(new, field_of(kind))),
            ),
        ) == Some(t@)),
{
    let w = choose|w: Result<String, UpdateError>|
        crate::vault_fn::update_done(
            old,
            new,
            w,
            "rmv"@,
            Some(field_of(kind)),
            Some(strs(values@)),
            None,
            text,
        ) && #[trigger] update_outcome(w, r);
    lemma_swap_remove_update(old, new, w, field_of(kind), strs(values@), text);
    assert forall|i: int| 0 <= i < values.len() && list_setting(old, field_of(kind)).no_duplicates()
        implies !list_setting(new, field_of(kind)).contains(#[trigger] values@[i]@) by {
        assert(strs(values@)[i] == values@[i]@);
        assert(strs(values@).contains(values@[i]@));
    }
}

/// A `set` subcommand on a path setting that succeeds makes that setting
/// the path given; the other settings are as they were, and the settings
/// file comes back with that entry of `user-settings` set to the path.
pub proof fn lemma_process_set(
    args: Args,
    old: crate::config::SettingsView,
    new: crate::config::SettingsView,
    text: Seq<char>,
    r: Result<(Action, Option<String>), ProcessError>,
    kind: ConfigFields,
    path: String,
)
    requires
        processed(args, old, new, text, r),
        args.source is None,
        args.target is None,
        args.subcommand == Some(Commands::SetPath { kind, path }),
        kind == ConfigFields::Source || kind == ConfigFields::Target,
        r is Ok,
    ensures
        path_setting(new, field_of(kind)) == path@,
        kind == ConfigFields::Source ==> new.target == old.target,
        kind == ConfigFields::Target ==> new.source == old.source,
        new.folders == old.folders,
        new.forbidden == old.forbidden,
        r matches Ok(p) ==> p.0 == Action::ConfigUpdate,
        r matches Ok(p) ==> (p.1 matches Some(t) && toml_render(
            with_setting(
                toml_parse(text).unwrap(),
                path_key(field_of(kind)),
                TomlItem::Text(path@),
            ),
        ) == Some(t@)),
{
    let w = choose|w: Result<String, UpdateError>|
        crate::vault_fn::update_done(
            old,
            new,
            w,
            "set"@,
            Some(field_of(kind)),
            None,
            Some(path@),
            text,
        ) && #[trigger] update_outcome(w, r);
    lemma_set_path_written(old, new, w, field_of(kind), Some(path@), text);
}

fn lift_update(u: Result<String, UpdateError>) -> (r: Result<(Action, Option<String>), ProcessError>)
    ensures
        update_outcome(u, r),
{
    match u {
        Ok(text) => Ok((Action::ConfigUpdate, Some(text))),
        Err(UpdateError::InvalidField(m)) => Err(
            ProcessError::Command(concat("Error processing command: ", m.as_str())),
        ),
        Err(e) => Err(ProcessError::Settings(e)),
    }
}

impl Args {
    /// Processes an invocation: positional paths mean a sync; `add`, `rmv`
    /// and `set` update the settings and the settings file `config_text`,
    /// whose new text comes back; `config` is a settings action with
    /// nothing to write (its caller prints a placeholder line); no
    /// subcommand at all is refused.
    pub fn process(&self, state: &mut State, config_text: &str) -> (r: Result<
        (Action, Option<String>),
        ProcessError,
    >)
        ensures
            processed(*self, old(state)@, final(state)@, config_text@, r),
    {
        if self.source.is_some() || self.target.is_some() {
            return Ok((Action::Sync, None));
        }
        match &self.subcommand {
            Some(Commands::Add { kind, values }) => {
                let u = state.update_config("add", Some(kind), Some(values.as_slice()), None, config_text);
                let ghost gu = u;
                let r = lift_update(u);
                assert(update_outcome(gu, r));
                r
            },
            Some(Commands::Rmv { kind, values }) => {
                let u = state.update_config("rmv", Some(kind), Some(values.as_slice()), None, config_text);
                let ghost gu = u;
                let r = lift_update(u);
                assert(update_outcome(gu, r));
                r
            },
            Some(Commands::SetPath { kind, path }) => {
                let u = state.update_config("set", Some(kind), None, Some(path.as_str()), config_text);
                let ghost gu = u;
                let r = lift_update(u);
                assert(update_outcome(gu, r));
                r
            },
            Some(Commands::Config) => Ok((Action::ConfigUpdate, None)),
            None => Err(ProcessError::Command("Unknown command!".to_owned())),
        }
    }
}

} // verus!

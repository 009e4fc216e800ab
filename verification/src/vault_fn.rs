//! The settings of the earlier generation of the tool, and the operations on
//! them: lists that take every added value, removal of one occurrence per
//! value, and path resolution that asks for both paths at once.
use vstd::prelude::*;
use crate::args::ConfigFields;
use crate::config::{
    list_key, list_setting, path_key, path_setting,
    copy_strings, field_edit, field_edit_of, invalid_field_message,
    lemma_strs_push, opt_chars, opt_strs, strs, update_verdict, written, FieldEdit, SettingsView,
    UpdateError, UpdateVerdict,
};
use crate::settings_file::{
    parse_document, render_document, set_list_entry, set_text_entry, string_list, toml_parse,
    toml_render, with_setting, TomlItem,
};
use crate::sync::{step_for, EntryStep, folder_allowed, rel_path};
use crate::text::{concat, trimmed, trimmed_string};

verus! {

/// The settings the user keeps in the settings file.
#[derive(Debug)]
pub struct UserSettings {
    pub source: String,
    pub target: String,
    pub folders: Vec<String>,
    pub forbidden: Vec<String>,
}

/// The settings file's contents.
#[derive(Debug)]
pub struct Config {
    pub user_settings: UserSettings,
}

/// The state of the program: the settings in force.
#[derive(Debug)]
pub struct State {
    pub config: Config,
}

impl View for UserSettings {
    type V = SettingsView;

    open spec fn view(&self) -> SettingsView {
        SettingsView {
            source: self.source@,
            target: self.target@,
            folders: strs(self.folders@),
            forbidden: strs(self.forbidden@),
        }
    }
}

impl View for State {
    type V = SettingsView;

    open spec fn view(&self) -> SettingsView {
        self.config.user_settings@
    }
}

/// The setting of the command line that `kind` names.
pub open spec fn field_of(kind: ConfigFields) -> crate::cli::ConfigFields {
    match kind {
        ConfigFields::Source => crate::cli::ConfigFields::Source,
        ConfigFields::Target => crate::cli::ConfigFields::Target,
        ConfigFields::Folders => crate::cli::ConfigFields::Folders,
        ConfigFields::Forbidden => crate::cli::ConfigFields::Forbidden,
    }
}

fn field_of_exec(kind: &ConfigFields) -> (f: crate::cli::ConfigFields)
    ensures
        f == field_of(*kind),
{
    match kind {
        ConfigFields::Source => crate::cli::ConfigFields::Source,
        ConfigFields::Target => crate::cli::ConfigFields::Target,
        ConfigFields::Folders => crate::cli::ConfigFields::Folders,
        ConfigFields::Forbidden => crate::cli::ConfigFields::Forbidden,
    }
}

/// `list` with the given values appended, in order, if any were given.
pub open spec fn appended(list: Seq<Seq<char>>, values: Option<Seq<Seq<char>>>) -> Seq<Seq<char>> {
    match values {
        Some(v) => list + v,
        None => list,
    }
}

/// `list` after dropping, for each value in turn, its first occurrence: the
/// last item takes its place.
pub open spec fn swap_removed_all(list: Seq<Seq<char>>, vals: Seq<Seq<char>>) -> Seq<Seq<char>>
    decreases vals.len(),
{
    if vals.len() == 0 {
        list
    } else {
        let next = match list.index_of_first(vals[0]) {
            Some(i) => list.update(i, list.last()).drop_last(),
            None => list,
        };
        swap_removed_all(next, vals.drop_first())
    }
}

/// `list` after the removal of the given values, if any.
pub open spec fn swap_removed(list: Seq<Seq<char>>, values: Option<Seq<Seq<char>>>) -> Seq<
    Seq<char>,
> {
    match values {
        Some(v) => swap_removed_all(list, v),
        None => list,
    }
}

/// Appending keeps the list in front and gives every value, in order, after it.
pub proof fn lemma_appended_contains(list: Seq<Seq<char>>, vals: Seq<Seq<char>>)
    ensures
        forall|i: int|
            0 <= i < vals.len() ==> appended(list, Some(vals))[list.len() + i] == #[trigger] vals[i],
        appended(list, Some(vals)).take(list.len() as int) == list,
{
    assert((list + vals).take(list.len() as int) =~= list);
}

/// Removing never lengthens a list, and each value found shortens it by one.
pub proof fn lemma_swap_removed_len(list: Seq<Seq<char>>, vals: Seq<Seq<char>>)
    ensures
        swap_removed_all(list, vals).len() <= list.len(),
        vals.len() > 0 && list.contains(vals[0]) ==> swap_removed_all(list, vals).len() < list.len(),
    decreases vals.len(),
{
    if vals.len() > 0 {
        list.index_of_first_ensures(vals[0]);
        let next = match list.index_of_first(vals[0]) {
            Some(i) => list.update(i, list.last()).drop_last(),
            None => list,
        };
        lemma_swap_removed_len(next, vals.drop_first());
    }
}

/// Removing values that the list does not hold changes nothing.
pub proof fn lemma_swap_removed_absent(list: Seq<Seq<char>>, vals: Seq<Seq<char>>)
    requires
        forall|i: int| 0 <= i < vals.len() ==> !list.contains(#[trigger] vals[i]),
    ensures
        swap_removed_all(list, vals) == list,
    decreases vals.len(),
{
    if vals.len() > 0 {
        list.index_of_first_ensures(vals[0]);
        assert(!list.contains(vals[0]));
        assert forall|i: int| 0 <= i < vals.drop_first().len() implies !list.contains(
            #[trigger] vals.drop_first()[i],
        ) by {
            assert(vals.drop_first()[i] == vals[i + 1]);
        }
        lemma_swap_removed_absent(list, vals.drop_first());
    }
}

proof fn lemma_swap_remove_one(list: Seq<Seq<char>>, i: int)
    requires
        0 <= i < list.len(),
    ensures
        forall|x: Seq<char>|
            #[trigger] list.update(i, list.last()).drop_last().to_multiset().count(x) == if x
                == list[i] {
                (list.to_multiset().count(x) - 1) as nat
            } else {
                list.to_multiset().count(x)
            },
{
    broadcast use vstd::seq_lib::group_to_multiset_ensures, vstd::multiset::group_multiset_axioms;

    let u = list.update(i, list.last());
    assert(u.last() == list.last());
    assert(u.drop_last().push(u.last()) =~= u);
    assert(list.contains(list[i]));
    assert forall|x: Seq<char>|
        #[trigger] u.drop_last().to_multiset().count(x) == if x == list[i] {
            (list.to_multiset().count(x) - 1) as nat
        } else {
            list.to_multiset().count(x)
        } by {
        assert(u.to_multiset().count(x) == u.drop_last().to_multiset().insert(u.last()).count(x));
        assert(u.to_multiset().count(x) == list.to_multiset().insert(list.last()).remove(
            list[i],
        ).count(x));
    }
}

/// Removing values takes, for each value given, one occurrence of it out of
/// the list while one is left: afterwards an item occurs as often as it did
/// before less the number of times it was given, and never less than zero
/// times.
pub proof fn lemma_swap_removed_counts(list: Seq<Seq<char>>, vals: Seq<Seq<char>>)
    ensures
        swap_removed_all(list, vals).to_multiset() == list.to_multiset().sub(vals.to_multiset()),
    decreases vals.len(),
{
    broadcast use vstd::seq_lib::group_to_multiset_ensures, vstd::multiset::group_multiset_axioms;

    if vals.len() == 0 {
        assert forall|x: Seq<char>| #[trigger] vals.to_multiset().count(x) == 0 by {
            assert(!vals.contains(x));
        }
        assert(swap_removed_all(list, vals).to_multiset() =~= list.to_multiset().sub(
            vals.to_multiset(),
        ));
    } else {
        let v0 = vals[0];
        let rest = vals.drop_first();
        assert(vals.remove(0) =~= rest);
        assert(vals.contains(v0));
        list.index_of_first_ensures(v0);
        let next = match list.index_of_first(v0) {
            Some(i) => list.update(i, list.last()).drop_last(),
            None => list,
        };
        lemma_swap_removed_counts(next, rest);
        match list.index_of_first(v0) {
            Some(i) => {
                lemma_swap_remove_one(list, i);
                assert(list.contains(v0));
            },
            None => {
                assert(!list.contains(v0));
            },
        }
        assert forall|x: Seq<char>|
            #[trigger] swap_removed_all(list, vals).to_multiset().count(x) == list.to_multiset().sub(
                vals.to_multiset(),
            ).count(x) by {
            assert(rest.to_multiset().count(x) == vals.to_multiset().remove(v0).count(x));
            assert(next.to_multiset().count(x) == if x == v0 && list.contains(v0) {
                (list.to_multiset().count(x) - 1) as nat
            } else {
                list.to_multiset().count(x)
            });
        }
        assert(swap_removed_all(list, vals).to_multiset() =~= list.to_multiset().sub(
            vals.to_multiset(),
        ));
    }
}

/// Removing values from a list that holds no item twice leaves none of the
/// values in it, and every other item.
pub proof fn lemma_swap_removed_distinct(list: Seq<Seq<char>>, vals: Seq<Seq<char>>)
    requires
        list.no_duplicates(),
    ensures
        forall|x: Seq<char>|
            #[trigger] swap_removed_all(list, vals).contains(x) <==> list.contains(x)
                && !vals.contains(x),
{
    broadcast use vstd::seq_lib::group_to_multiset_ensures, vstd::multiset::group_multiset_axioms;

    lemma_swap_removed_counts(list, vals);
    list.lemma_multiset_has_no_duplicates();
    assert forall|x: Seq<char>|
        #[trigger] swap_removed_all(list, vals).contains(x) <==> list.contains(x)
            && !vals.contains(x) by {
        assert(swap_removed_all(list, vals).to_multiset().count(x) == list.to_multiset().sub(
            vals.to_multiset(),
        ).count(x));
    }
}

/// The settings after an edit with the given values or path.
pub open spec fn apply_edit(
    s: SettingsView,
    e: FieldEdit,
    values: Option<Seq<Seq<char>>>,
    path: Option<Seq<char>>,
) -> SettingsView {
    match e {
        FieldEdit::AddFolders => SettingsView { folders: appended(s.folders, values), ..s },
        FieldEdit::AddForbidden => SettingsView { forbidden: appended(s.forbidden, values), ..s },
        FieldEdit::RemoveFolders => SettingsView { folders: swap_removed(s.folders, values), ..s },
        FieldEdit::RemoveForbidden => SettingsView {
            forbidden: swap_removed(s.forbidden, values),
            ..s
        },
        FieldEdit::SetSource => match path {
            Some(p) => SettingsView { source: p, ..s },
            None => s,
        },
        FieldEdit::SetTarget => match path {
            Some(p) => SettingsView { target: p, ..s },
            None => s,
        },
        _ => s,
    }
}

/// What an update by `operation` on `kind`, with the settings file `text`,
/// does to the settings `old` (giving `new`) and what it returns.
pub open spec fn update_done(
    old: SettingsView,
    new: SettingsView,
    r: Result<String, UpdateError>,
    operation: Seq<char>,
    kind: Option<crate::cli::ConfigFields>,
    values: Option<Seq<Seq<char>>>,
    path: Option<Seq<char>>,
    text: Seq<char>,
) -> bool {
    let e = field_edit(operation, kind);
    match update_verdict(text, e) {
        UpdateVerdict::NotToml => r matches Err(UpdateError::Parse(_)) && new == old,
        UpdateVerdict::Refused => r matches Err(UpdateError::InvalidField(m)) && m@
            == invalid_field_message(operation) && new == old,
        UpdateVerdict::MissingEntry(k) => r matches Err(UpdateError::MissingEntry(key)) && key@
            == k && new == old,
        UpdateVerdict::Proceeds => written(
            old,
            new,
            r,
            apply_edit(old, e, values, path),
            toml_parse(text).unwrap(),
            e,
        ),
    }
}

/// After a successful `add` to a list, the list is the old one with every
/// value given appended, in order, whether present already or not; the
/// paths and the other list are as they were, and the settings file is
/// written with the new list under its key of `user-settings`.
pub proof fn lemma_append_update(
    old: SettingsView,
    new: SettingsView,
    r: Result<String, UpdateError>,
    kind: crate::cli::ConfigFields,
    vals: Seq<Seq<char>>,
    text: Seq<char>,
)
    requires
        update_done(old, new, r, "add"@, Some(kind), Some(vals), None, text),
        r is Ok,
        kind == crate::cli::ConfigFields::Folders || kind == crate::cli::ConfigFields::Forbidden,
    ensures
        list_setting(new, kind) == list_setting(old, kind) + vals,
        kind == crate::cli::ConfigFields::Folders ==> new.forbidden == old.forbidden,
        kind == crate::cli::ConfigFields::Forbidden ==> new.folders == old.folders,
        new.source == old.source,
        new.target == old.target,
        r matches Ok(t) ==> toml_render(
            with_setting(
                toml_parse(text).unwrap(),
                list_key(kind),
                string_list(list_setting(new, kind)),
            ),
        ) == Some(t@),
{
}

/// After a successful `rmv` from a list, each item of the list occurs as
/// often as it did before less the number of times it was given (never
/// less than zero times), so a list without repeated items holds none of
/// the values given and keeps every other item; the paths and the other
/// list are as they were, and the settings file is written with the new
/// list under its key of `user-settings`.
pub proof fn lemma_swap_remove_update(
    old: SettingsView,
    new: SettingsView,
    r: Result<String, UpdateError>,
    kind: crate::cli::ConfigFields,
    vals: Seq<Seq<char>>,
    text: Seq<char>,
)
    requires
        update_done(old, new, r, "rmv"@, Some(kind), Some(vals), None, text),
        r is Ok,
        kind == crate::cli::ConfigFields::Folders || kind == crate::cli::ConfigFields::Forbidden,
    ensures
        list_setting(new, kind).to_multiset() == list_setting(old, kind).to_multiset().sub(
            vals.to_multiset(),
        ),
        list_setting(old, kind).no_duplicates() ==> forall|x: Seq<char>|
            #[trigger] list_setting(new, kind).contains(x) <==> list_setting(old, kind).contains(x)
                && !vals.contains(x),
        kind == crate::cli::ConfigFields::Folders ==> new.forbidden == old.forbidden,
        kind == crate::cli::ConfigFields::Forbidden ==> new.folders == old.folders,
        new.source == old.source,
        new.target == old.target,
        r matches Ok(t) ==> toml_render(
            with_setting(
                toml_parse(text).unwrap(),
                list_key(kind),
                string_list(list_setting(new, kind)),
            ),
        ) == Some(t@),
{
    reveal_strlit("add");
    reveal_strlit("rmv");
    assert("rmv"@ != "add"@) by {
        assert("rmv"@[0] != "add"@[0]);
    }
    lemma_swap_removed_counts(list_setting(old, kind), vals);
    if list_setting(old, kind).no_duplicates() {
        lemma_swap_removed_distinct(list_setting(old, kind), vals);
    }
}

/// After a successful `set` of the source or the target path, that setting
/// holds the path given (the stored one when none is given), the other
/// settings are as they were, and the settings file is written with that
/// entry of `user-settings` set to the path as text.
pub proof fn lemma_set_path_written(
    old: SettingsView,
    new: SettingsView,
    r: Result<String, UpdateError>,
    kind: crate::cli::ConfigFields,
    path: Option<Seq<char>>,
    text: Seq<char>,
)
    requires
        update_done(old, new, r, "set"@, Some(kind), None, path, text),
        r is Ok,
        kind == crate::cli::ConfigFields::Source || kind == crate::cli::ConfigFields::Target,
    ensures
        ({
            let p = match path {
                Some(p) => p,
                None => path_setting(old, kind),
            };
            &&& path_setting(new, kind) == p
            &&& kind == crate::cli::ConfigFields::Source ==> new.target == old.target
            &&& kind == crate::cli::ConfigFields::Target ==> new.source == old.source
            &&& new.folders == old.folders
            &&& new.forbidden == old.forbidden
            &&& r matches Ok(t) && toml_render(
                with_setting(toml_parse(text).unwrap(), path_key(kind), TomlItem::Text(p)),
            ) == Some(t@)
        }),
{
}

/// Appends every value, present already or not.
fn add_values(list: &mut Vec<String>, values: Option<&[String]>)
    ensures
        strs(final(list)@) == appended(strs(old(list)@), opt_strs(values)),
{
    if let Some(vals) = values {
        let ghost start = strs(list@);
        let mut i: usize = 0;
        while i < vals.len()
            invariant
                0 <= i <= vals@.len(),
                strs(list@) == start + strs(vals@).take(i as int),
            decreases vals@.len() - i,
        {
            let ghost before = list@;
            let v = vals[i].clone();
            list.push(v);
            proof {
                lemma_strs_push(before, v);
                assert(strs(vals@).take(i + 1) =~= strs(vals@).take(i as int).push(vals@[i as int]@));
            }
            i = i + 1;
        }
        assert(strs(vals@).take(vals@.len() as int) =~= strs(vals@));
    }
}

/// The index of the first item equal to `x`, if any.
fn position(list: &Vec<String>, x: &String) -> (r: Option<usize>)
    ensures
        r matches Some(i) ==> i < list@.len() && strs(list@).index_of_first(x@) == Some(i as int),
        r is None ==> strs(list@).index_of_first(x@) is None,
{
    let mut i: usize = 0;
    while i < list.len()
        invariant
            0 <= i <= list@.len(),
            forall|k: int| 0 <= k < i ==> strs(list@)[k] != x@,
        decreases list@.len() - i,
    {
        if list[i] == *x {
            proof {
                strs(list@).index_of_first_ensures(x@);
                assert(strs(list@)[i as int] == x@);
                assert(strs(list@).contains(x@));
            }
            return Some(i);
        }
        assert(strs(list@)[i as int] == list@[i as int]@);
        i = i + 1;
    }
    proof {
        strs(list@).index_of_first_ensures(x@);
    }
    None
}

/// Removes, for each value in turn, its first occurrence by putting the
/// last item in its place.
fn remove_values(list: &mut Vec<String>, values: Option<&[String]>)
    ensures
        strs(final(list)@) == swap_removed(strs(old(list)@), opt_strs(values)),
{
    if let Some(vals) = values {
        let ghost goal = swap_removed_all(strs(list@), strs(vals@));
        let mut i: usize = 0;
        assert(strs(vals@).skip(0) =~= strs(vals@));
        while i < vals.len()
            invariant
                0 <= i <= vals@.len(),
                swap_removed_all(strs(list@), strs(vals@).skip(i as int)) == goal,
            decreases vals@.len() - i,
        {
            let ghost rest = strs(vals@).skip(i as int);
            let ghost before = strs(list@);
            assert(rest[0] == vals@[i as int]@);
            assert(rest.drop_first() =~= strs(vals@).skip(i + 1));
            match position(list, &vals[i]) {
                Some(idx) => {
                    let ghost raw = list@;
                    list.swap_remove(idx);
                    assert(strs(list@) =~= before.update(idx as int, before.last()).drop_last()) by {
                        assert(raw.update(idx as int, raw.last()).drop_last() == list@);
                        assert forall|k: int| 0 <= k < strs(list@).len() implies strs(list@)[k]
                            == before.update(idx as int, before.last()).drop_last()[k] by {
                            assert(strs(list@)[k] == list@[k]@);
                            assert(before[k] == raw[k]@);
                            assert(before.last() == raw.last()@);
                        }
                    }
                },
                None => {},
            }
            i = i + 1;
        }
        assert(strs(vals@).skip(vals@.len() as int) =~= Seq::<Seq<char>>::empty());
    }
}

impl State {
    /// The step for an entry named `entry_name` of a folder whose relative
    /// path is `relative_path`, as the traversal of the vault takes it:
    /// allowed folders are traversed, files are candidates for copying,
    /// anything else is left alone.
    pub fn entry_step(&self, entry_name: &str, is_dir: bool, is_file: bool, relative_path: &str) -> (r: EntryStep)
        ensures
            is_dir && folder_allowed(self@, entry_name@) ==> (r matches EntryStep::Descend(p) && p@
                == rel_path(entry_name@, relative_path@)),
            is_dir && !folder_allowed(self@, entry_name@) ==> r == EntryStep::Skip,
            !is_dir && is_file ==> (r matches EntryStep::CheckNote(p) && p@ == rel_path(
                entry_name@,
                relative_path@,
            )),
            !is_dir && !is_file ==> r == EntryStep::Skip,
    {
        step_for(
            &self.config.user_settings.folders,
            &self.config.user_settings.forbidden,
            entry_name,
            is_dir,
            is_file,
            relative_path,
        )
    }

    /// Applies `operation` (`add`, `rmv` or `set`) to the setting `kind`
    /// with the given values or path, and writes the result into the
    /// settings file `config_text`; returns the file's new text.
    ///
    /// `add` appends every value, `rmv` drops the first occurrence of each
    /// value (the last item takes its place), `set` replaces the path when
    /// one is given. Any other operation changes nothing and gives the file
    /// back as the TOML crate renders it. The settings change only when the
    /// update succeeds.
    pub fn update_config(
        &mut self,
        operation: &str,
        kind: Option<&ConfigFields>,
        values: Option<&[String]>,
        path: Option<&str>,
        config_text: &str,
    ) -> (r: Result<String, UpdateError>)
        ensures
            update_done(
                old(self)@,
                final(self)@,
                r,
                operation@,
                match kind {
                    Some(k) => Some(field_of(*k)),
                    None => None,
                },
                opt_strs(values),
                opt_chars(path),
                config_text@,
            ),
    {
        let mut doc = match parse_document(config_text) {
            Ok(d) => d,
            Err(e) => return Err(UpdateError::Parse(e)),
        };
        let field = match kind {
            Some(k) => Some(field_of_exec(k)),
            None => None,
        };
        let edit = field_edit_of(operation, field);
        let current = &self.config.user_settings;
        match edit {
            FieldEdit::Refused => {
                let m1 = concat("Invalid config field '", operation);
                let m = concat(m1.as_str(), "' operation");
                return Err(UpdateError::InvalidField(m));
            },
            FieldEdit::AddFolders | FieldEdit::AddForbidden | FieldEdit::RemoveFolders
            | FieldEdit::RemoveForbidden => {
                let to_folders = edit == FieldEdit::AddFolders || edit == FieldEdit::RemoveFolders;
                let mut list = if to_folders {
                    copy_strings(&current.folders)
                } else {
                    copy_strings(&current.forbidden)
                };
                if edit == FieldEdit::AddFolders || edit == FieldEdit::AddForbidden {
                    add_values(&mut list, values);
                } else {
                    remove_values(&mut list, values);
                }
                let key = if to_folders {
                    "folders"
                } else {
                    "forbidden"
                };
                if !set_list_entry(&mut doc, "user-settings", key, &list) {
                    return Err(UpdateError::MissingEntry(key.to_owned()));
                }
                let text = match render_document(&doc) {
                    Ok(t) => t,
                    Err(e) => return Err(UpdateError::Render(e)),
                };
                if to_folders {
                    self.config.user_settings.folders = list;
                } else {
                    self.config.user_settings.forbidden = list;
                }
                Ok(text)
            },
            FieldEdit::SetSource | FieldEdit::SetTarget => {
                let to_source = edit == FieldEdit::SetSource;
                let value = match path {
                    Some(p) => p.to_owned(),
                    None => if to_source {
                        current.source.clone()
                    } else {
                        current.target.clone()
                    },
                };
                let key = if to_source {
                    "source"
                } else {
                    "target"
                };
                if !set_text_entry(&mut doc, "user-settings", key, &value) {
                    return Err(UpdateError::MissingEntry(key.to_owned()));
                }
                let text = match render_document(&doc) {
                    Ok(t) => t,
                    Err(e) => return Err(UpdateError::Render(e)),
                };
                if to_source {
                    self.config.user_settings.source = value;
                } else {
                    self.config.user_settings.target = value;
                }
                Ok(text)
            },
            FieldEdit::Nothing => match render_document(&doc) {
                Ok(t) => Ok(t),
                Err(e) => Err(UpdateError::Render(e)),
            },
        }
    }

    /// Takes the given paths; when no target is given and, after that, no
    /// path at all is stored, returns `true`: both paths are to be asked
    /// from the user.
    pub fn resolve_paths(&mut self, input_src: Option<String>, input_tar: Option<String>) -> (prompt: bool)
        ensures
            final(self)@.source == (match input_src {
                Some(s) => s@,
                None => old(self)@.source,
            }),
            final(self)@.target == (match input_tar {
                Some(t) => t@,
                None => old(self)@.target,
            }),
            final(self)@.folders == old(self)@.folders,
            final(self)@.forbidden == old(self)@.forbidden,
            prompt == (input_tar is None && final(self)@.source.len() == 0 && old(self)@.target.len()
                == 0),
    {
        if let Some(s) = input_src {
            self.config.user_settings.source = s;
        }
        if let Some(t) = input_tar {
            self.config.user_settings.target = t;
            false
        } else {
            self.config.user_settings.source.as_str().is_empty()
                && self.config.user_settings.target.as_str().is_empty()
        }
    }

    /// Takes the user's answers for both paths, trimmed.
    pub fn set_prompted_paths(&mut self, src_input: &str, target_input: &str)
        ensures
            final(self)@ == (SettingsView {
                source: trimmed(src_input@),
                target: trimmed(target_input@),
                ..old(self)@
            }),
    {
        self.config.user_settings.source = trimmed_string(src_input);
        self.config.user_settings.target = trimmed_string(target_input);
    }
}

} // verus!

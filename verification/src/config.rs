//! The user's settings and the operations on them: editing the lists of
//! folders, setting the paths, keeping the settings file in step, and
//! deciding which paths a sync uses.
use vstd::prelude::*;
use crate::cli::ConfigFields;
use crate::settings_file::{
    has_setting, lemma_with_setting_keeps_others, parse_document, render_document,
    set_list_entry, set_text_entry, string_list, toml_parse, toml_render, user_settings,
    with_setting, TomlItem,
};
use crate::text::{
    ascii_lowered, concat, is_ascii_text, lowercase, str_eq, to_lowercase, trimmed, trimmed_string,
};

verus! {

/// The settings the user keeps in the settings file.
#[derive(Debug)]
pub struct UserSettings {
    pub source: String,
    pub target: String,
    pub folders: Vec<String>,
    pub forbidden: Vec<String>,
}

/// The settings file's contents.
#[derive(Debug)]
pub struct Config {
    pub user_settings: UserSettings,
}

/// The state of the program: the settings in force.
#[derive(Debug)]
pub struct State {
    pub config: Config,
}

/// The settings as mathematical values.
pub struct SettingsView {
    pub source: Seq<char>,
    pub target: Seq<char>,
    pub folders: Seq<Seq<char>>,
    pub forbidden: Seq<Seq<char>>,
}

/// The characters of each string.
pub open spec fn strs(v: Seq<String>) -> Seq<Seq<char>> {
    v.map_values(|s: String| s@)
}

/// The characters of each given string, if any were given.
pub open spec fn opt_strs(values: Option<&[String]>) -> Option<Seq<Seq<char>>> {
    match values {
        Some(v) => Some(strs(v@)),
        None => None,
    }
}

/// The characters of the given string, if one was given.
pub open spec fn opt_chars(s: Option<&str>) -> Option<Seq<char>> {
    match s {
        Some(t) => Some(t@),
        None => None,
    }
}

impl View for UserSettings {
    type V = SettingsView;

    open spec fn view(&self) -> SettingsView {
        SettingsView {
            source: self.source@,
            target: self.target@,
            folders: strs(self.folders@),
            forbidden: strs(self.forbidden@),
        }
    }
}

impl View for State {
    type V = SettingsView;

    open spec fn view(&self) -> SettingsView {
        self.config.user_settings@
    }
}

/// `list` with each of `vals` appended, in order, unless the list already
/// holds it (an earlier value included).
pub open spec fn with_added(list: Seq<Seq<char>>, vals: Seq<Seq<char>>) -> Seq<Seq<char>>
    decreases vals.len(),
{
    if vals.len() == 0 {
        list
    } else {
        let next = if list.contains(vals[0]) {
            list
        } else {
            list.push(vals[0])
        };
        with_added(next, vals.drop_first())
    }
}

/// `list` after adding the given values, if any.
pub open spec fn added(list: Seq<Seq<char>>, values: Option<Seq<Seq<char>>>) -> Seq<Seq<char>> {
    match values {
        Some(v) => with_added(list, v),
        None => list,
    }
}

/// `list` without any of the given values, if any, order kept.
pub open spec fn removed(list: Seq<Seq<char>>, values: Option<Seq<Seq<char>>>) -> Seq<
    Seq<char>,
> {
    match values {
        Some(v) => list.filter(|x: Seq<char>| !v.contains(x)),
        None => list,
    }
}

/// Whether `s` holds a string with the characters of `x`.
pub(crate) fn holds(s: &[String], x: &String) -> (r: bool)
    ensures
        r == strs(s@).contains(x@),
{
    let mut i: usize = 0;
    while i < s.len()
        invariant
            0 <= i <= s@.len(),
            forall|k: int| 0 <= k < i ==> s@[k]@ != x@,
        decreases s@.len() - i,
    {
        if s[i] == *x {
            assert(strs(s@)[i as int] == x@);
            return true;
        }
        i = i + 1;
    }
    assert forall|k: int| 0 <= k < strs(s@).len() implies strs(s@)[k] != x@ by {
        assert(strs(s@)[k] == s@[k]@);
    }
    false
}

pub(crate) proof fn lemma_strs_push(v: Seq<String>, s: String)
    ensures
        strs(v.push(s)) == strs(v).push(s@),
{
    assert(strs(v.push(s)) =~= strs(v).push(s@));
}

/// Appends each value that the list does not hold yet.
pub fn add_values(list: &mut Vec<String>, values: Option<&[String]>)
    ensures
        strs(final(list)@) == added(strs(old(list)@), opt_strs(values)),
{
    if let Some(vals) = values {
        let ghost target = with_added(strs(list@), strs(vals@));
        let mut i: usize = 0;
        assert(strs(vals@).skip(0) =~= strs(vals@));
        while i < vals.len()
            invariant
                0 <= i <= vals@.len(),
                with_added(strs(list@), strs(vals@).skip(i as int)) == target,
            decreases vals@.len() - i,
        {
            let ghost rest = strs(vals@).skip(i as int);
            assert(rest[0] == vals@[i as int]@);
            assert(rest.drop_first() =~= strs(vals@).skip(i + 1));
            if !holds(list.as_slice(), &vals[i]) {
                let ghost before = list@;
                let v = vals[i].clone();
                list.push(v);
                proof {
                    lemma_strs_push(before, v);
                }
            }
            i = i + 1;
        }
        assert(strs(vals@).skip(vals@.len() as int) =~= Seq::<Seq<char>>::empty());
    }
}

/// Keeps only the items that are none of the values, in their order.
pub fn remove_values(list: &mut Vec<String>, values: Option<&[String]>)
    ensures
        strs(final(list)@) == removed(strs(old(list)@), opt_strs(values)),
{
    if let Some(vals) = values {
        let ghost pred = |x: Seq<char>| !strs(vals@).contains(x);
        let ghost orig = strs(list@);
        let mut kept: Vec<String> = Vec::new();
        let mut i: usize = 0;
        assert(orig.take(0) =~= Seq::<Seq<char>>::empty());
        assert(orig.take(0).filter(pred) =~= Seq::<Seq<char>>::empty()) by {
            reveal_with_fuel(Seq::<_>::filter, 1);
        }
        while i < list.len()
            invariant
                0 <= i <= list@.len(),
                orig == strs(list@),
                pred == (|x: Seq<char>| !strs(vals@).contains(x)),
                strs(kept@) == orig.take(i as int).filter(pred),
            decreases list@.len() - i,
        {
            assert(orig.take(i + 1).drop_last() =~= orig.take(i as int));
            assert(orig.take(i + 1).last() == list@[i as int]@);
            let ghost before = kept@;
            if !holds(vals, &list[i]) {
                let v = list[i].clone();
                kept.push(v);
                proof {
                    lemma_strs_push(before, v);
                    reveal_with_fuel(Seq::<_>::filter, 1);
                }
            } else {
                proof {
                    reveal_with_fuel(Seq::<_>::filter, 1);
                }
            }
            i = i + 1;
        }
        assert(orig.take(list@.len() as int) =~= orig);
        *list = kept;
    }
}

/// Adding keeps the list as it was at its front, and appends only values
/// that were given.
pub proof fn lemma_added_extends(list: Seq<Seq<char>>, vals: Seq<Seq<char>>)
    ensures
        with_added(list, vals).len() >= list.len(),
        with_added(list, vals).take(list.len() as int) == list,
        forall|i: int|
            list.len() <= i < with_added(list, vals).len() ==> vals.contains(
                #[trigger] with_added(list, vals)[i],
            ),
    decreases vals.len(),
{
    if vals.len() > 0 {
        let next = if list.contains(vals[0]) {
            list
        } else {
            list.push(vals[0])
        };
        lemma_added_extends(next, vals.drop_first());
        let out = with_added(list, vals);
        assert(out.take(next.len() as int) == next);
        assert(out.take(list.len() as int) =~= next.take(list.len() as int));
        assert forall|i: int| list.len() <= i < out.len() implies vals.contains(#[trigger] out[i]) by {
            if i < next.len() {
                assert(out[i] == out.take(next.len() as int)[i]);
                assert(vals[0] == out[i]);
            } else {
                let x = out[i];
                assert(vals.drop_first().contains(x));
                let k = choose|k: int| 0 <= k < vals.drop_first().len() && vals.drop_first()[k] == x;
                assert(vals[k + 1] == x);
            }
        }
    } else {
        assert(list.take(list.len() as int) =~= list);
    }
}

/// After adding, the list holds every value given and every item it held.
pub proof fn lemma_added_contains(list: Seq<Seq<char>>, vals: Seq<Seq<char>>)
    ensures
        forall|i: int| 0 <= i < vals.len() ==> with_added(list, vals).contains(#[trigger] vals[i]),
        forall|x: Seq<char>| list.contains(x) ==> #[trigger] with_added(list, vals).contains(x),
    decreases vals.len(),
{
    if vals.len() > 0 {
        let next = if list.contains(vals[0]) {
            list
        } else {
            list.push(vals[0])
        };
        lemma_added_contains(next, vals.drop_first());
        let out = with_added(list, vals);
        assert(out == with_added(next, vals.drop_first()));
        assert(next.contains(vals[0])) by {
            if !list.contains(vals[0]) {
                assert(next[list.len() as int] == vals[0]);
            }
        }
        assert(out.contains(vals[0]));
        assert forall|x: Seq<char>| list.contains(x) implies #[trigger] out.contains(x) by {
            if !list.contains(vals[0]) {
                let k = choose|k: int| 0 <= k < list.len() && list[k] == x;
                assert(next[k] == x);
            }
            assert(next.contains(x));
        }
        assert forall|i: int| 0 <= i < vals.len() implies out.contains(#[trigger] vals[i]) by {
            if i > 0 {
                assert(vals.drop_first()[i - 1] == vals[i]);
            }
        }
    }
}

/// Adding never brings a duplicate into a list that had none.
pub proof fn lemma_added_no_duplicates(list: Seq<Seq<char>>, vals: Seq<Seq<char>>)
    requires
        list.no_duplicates(),
    ensures
        with_added(list, vals).no_duplicates(),
    decreases vals.len(),
{
    if vals.len() > 0 {
        let next = if list.contains(vals[0]) {
            list
        } else {
            list.push(vals[0])
        };
        assert(next.no_duplicates()) by {
            if !list.contains(vals[0]) {
                assert forall|i: int, j: int|
                    0 <= i < next.len() && 0 <= j < next.len() && i != j implies next[i]
                    != next[j] by {
                    if i == list.len() {
                        assert(list[j] == next[j]);
                    } else if j == list.len() {
                        assert(list[i] == next[i]);
                    }
                }
            }
        }
        lemma_added_no_duplicates(next, vals.drop_first());
    }
}

/// Adding values that the list holds already changes nothing.
pub proof fn lemma_added_present(list: Seq<Seq<char>>, vals: Seq<Seq<char>>)
    requires
        forall|i: int| 0 <= i < vals.len() ==> list.contains(#[trigger] vals[i]),
    ensures
        with_added(list, vals) == list,
    decreases vals.len(),
{
    if vals.len() > 0 {
        assert(list.contains(vals[0]));
        assert forall|i: int| 0 <= i < vals.drop_first().len() implies list.contains(
            #[trigger] vals.drop_first()[i],
        ) by {
            assert(vals.drop_first()[i] == vals[i + 1]);
        }
        lemma_added_present(list, vals.drop_first());
    }
}

/// Adding the same values twice is adding them once.
pub proof fn lemma_add_idempotent(list: Seq<Seq<char>>, values: Option<Seq<Seq<char>>>)
    ensures
        added(added(list, values), values) == added(list, values),
{
    if let Some(v) = values {
        lemma_added_contains(list, v);
        lemma_added_present(with_added(list, v), v);
    }
}

/// After removing values, the list holds none of them.
pub proof fn lemma_removed_absent(list: Seq<Seq<char>>, vals: Seq<Seq<char>>)
    ensures
        forall|i: int|
            0 <= i < vals.len() ==> !removed(list, Some(vals)).contains(#[trigger] vals[i]),
{
    let pred = |x: Seq<char>| !vals.contains(x);
    broadcast use vstd::seq_lib::group_filter_ensures;

    assert forall|i: int| 0 <= i < vals.len() implies !removed(list, Some(vals)).contains(
        #[trigger] vals[i],
    ) by {
        if removed(list, Some(vals)).contains(vals[i]) {
            let k = choose|k: int|
                0 <= k < list.filter(pred).len() && list.filter(pred)[k] == vals[i];
            assert(pred(list.filter(pred)[k]));
        }
    }
}

/// Removing values that were just added leaves the list as removing them
/// from the list before the addition would.
pub proof fn lemma_remove_after_add(list: Seq<Seq<char>>, values: Option<Seq<Seq<char>>>)
    ensures
        removed(added(list, values), values) == removed(list, values),
{
    if let Some(v) = values {
        let pred = |x: Seq<char>| !v.contains(x);
        let out = with_added(list, v);
        lemma_added_extends(list, v);
        let extra = out.skip(list.len() as int);
        assert(out =~= list + extra);
        Seq::filter_distributes_over_add(list, extra, pred);
        assert(extra.all(|x: Seq<char>| !pred(x))) by {
            assert forall|i: int| 0 <= i < extra.len() implies !pred(#[trigger] extra[i]) by {
                assert(extra[i] == out[i + list.len()]);
            }
        }
        extra.lemma_all_neg_filter_empty(pred);
        assert(extra.filter(pred) =~= Seq::<Seq<char>>::empty());
        assert(list.filter(pred) + extra.filter(pred) =~= list.filter(pred));
    }
}

/// Why a settings update did not go through.
#[derive(Debug)]
pub enum UpdateError {
    /// The settings file is not a TOML document.
    Parse(toml::de::Error),
    /// The operation does not apply to the named setting; the message says so.
    InvalidField(String),
    /// The settings file's `user-settings` table lacks the entry to write.
    MissingEntry(String),
    /// The updated document could not be rendered as TOML.
    Render(toml::ser::Error),
}

/// Which setting an operation changes, if it applies.
#[derive(Debug, Clone, Copy, PartialEq, Eq, Structural)]
pub enum FieldEdit {
    AddFolders,
    AddForbidden,
    RemoveFolders,
    RemoveForbidden,
    SetSource,
    SetTarget,
    /// The operation is known but does not apply to the named setting.
    Refused,
    /// The operation is none of `add`, `rmv`, `set`: nothing changes.
    Nothing,
}

/// The edit that `operation` on `kind` stands for.
pub open spec fn field_edit(operation: Seq<char>, kind: Option<ConfigFields>) -> FieldEdit {
    if operation == "add"@ {
        match kind {
            Some(ConfigFields::Folders) => FieldEdit::AddFolders,
            Some(ConfigFields::Forbidden) => FieldEdit::AddForbidden,
            _ => FieldEdit::Refused,
        }
    } else if operation == "rmv"@ {
        match kind {
            Some(ConfigFields::Folders) => FieldEdit::RemoveFolders,
            Some(ConfigFields::Forbidden) => FieldEdit::RemoveForbidden,
            _ => FieldEdit::Refused,
        }
    } else if operation == "set"@ {
        match kind {
            Some(ConfigFields::Source) => FieldEdit::SetSource,
            Some(ConfigFields::Target) => FieldEdit::SetTarget,
            _ => FieldEdit::Refused,
        }
    } else {
        FieldEdit::Nothing
    }
}

/// The key of the settings file's `user-settings` table that an edit writes.
pub open spec fn entry_key(e: FieldEdit) -> Option<Seq<char>> {
    match e {
        FieldEdit::AddFolders | FieldEdit::RemoveFolders => Some("folders"@),
        FieldEdit::AddForbidden | FieldEdit::RemoveForbidden => Some("forbidden"@),
        FieldEdit::SetSource => Some("source"@),
        FieldEdit::SetTarget => Some("target"@),
        _ => None,
    }
}

/// The settings after an edit with the given values or path.
pub open spec fn apply_edit(
    s: SettingsView,
    e: FieldEdit,
    values: Option<Seq<Seq<char>>>,
    path: Option<Seq<char>>,
) -> SettingsView {
    match e {
        FieldEdit::AddFolders => SettingsView { folders: added(s.folders, values), ..s },
        FieldEdit::AddForbidden => SettingsView { forbidden: added(s.forbidden, values), ..s },
        FieldEdit::RemoveFolders => SettingsView { folders: removed(s.folders, values), ..s },
        FieldEdit::RemoveForbidden => SettingsView {
            forbidden: removed(s.forbidden, values),
            ..s
        },
        FieldEdit::SetSource => match path {
            Some(p) => SettingsView { source: p, ..s },
            None => s,
        },
        FieldEdit::SetTarget => match path {
            Some(p) => SettingsView { target: p, ..s },
            None => s,
        },
        _ => s,
    }
}

/// The message for an operation that does not apply to the named setting.
pub open spec fn invalid_field_message(operation: Seq<char>) -> Seq<char> {
    "Invalid config field '"@ + operation + "' operation"@
}

/// How an update of the settings file `text` by edit `e` turns out, before
/// the document is rendered.
pub enum UpdateVerdict {
    NotToml,
    Refused,
    MissingEntry(Seq<char>),
    Proceeds,
}

pub open spec fn update_verdict(text: Seq<char>, e: FieldEdit) -> UpdateVerdict {
    match toml_parse(text) {
        None => UpdateVerdict::NotToml,
        Some(doc) => if e == FieldEdit::Refused {
            UpdateVerdict::Refused
        } else {
            match entry_key(e) {
                Some(k) => if has_setting(doc, k) {
                    UpdateVerdict::Proceeds
                } else {
                    UpdateVerdict::MissingEntry(k)
                },
                None => UpdateVerdict::Proceeds,
            }
        },
    }
}

/// The value that an edit writes into the settings file, from the settings
/// `s` after the edit.
pub open spec fn entry_item(e: FieldEdit, s: SettingsView) -> TomlItem {
    match e {
        FieldEdit::AddFolders | FieldEdit::RemoveFolders => string_list(s.folders),
        FieldEdit::AddForbidden | FieldEdit::RemoveForbidden => string_list(s.forbidden),
        FieldEdit::SetSource => TomlItem::Text(s.source),
        FieldEdit::SetTarget => TomlItem::Text(s.target),
        _ => TomlItem::Text(seq![]),
    }
}

/// The settings document `doc` after an edit that left the settings `s`:
/// the edited entry replaced by its new value, everything else kept.
pub open spec fn written_document(
    doc: Map<Seq<char>, TomlItem>,
    e: FieldEdit,
    s: SettingsView,
) -> Map<Seq<char>, TomlItem> {
    match entry_key(e) {
        Some(k) => with_setting(doc, k, entry_item(e, s)),
        None => doc,
    }
}

/// The outcome of an update that passed its checks: the text toml renders
/// for the written document, with the settings `edited`; or, when toml
/// cannot render it, a render error with the settings kept.
pub open spec fn written(
    old: SettingsView,
    new: SettingsView,
    r: Result<String, UpdateError>,
    edited: SettingsView,
    doc: Map<Seq<char>, TomlItem>,
    e: FieldEdit,
) -> bool {
    match toml_render(written_document(doc, e, edited)) {
        Some(t) => r matches Ok(out) && out@ == t && new == edited,
        None => r matches Err(UpdateError::Render(_)) && new == old,
    }
}

/// What an update by `operation` on `kind`, with the settings file `text`,
/// does to the settings `old` (giving `new`) and what it returns.
pub open spec fn update_done(
    old: SettingsView,
    new: SettingsView,
    r: Result<String, UpdateError>,
    operation: Seq<char>,
    kind: Option<ConfigFields>,
    values: Option<Seq<Seq<char>>>,
    path: Option<Seq<char>>,
    text: Seq<char>,
) -> bool {
    let e = field_edit(operation, kind);
    match update_verdict(text, e) {
        UpdateVerdict::NotToml => r matches Err(UpdateError::Parse(_)) && new == old,
        UpdateVerdict::Refused => r matches Err(UpdateError::InvalidField(m)) && m@
            == invalid_field_message(operation) && new == old,
        UpdateVerdict::MissingEntry(k) => r matches Err(UpdateError::MissingEntry(key)) && key@
            == k && new == old,
        UpdateVerdict::Proceeds => written(
            old,
            new,
            r,
            apply_edit(old, e, values, path),
            toml_parse(text).unwrap(),
            e,
        ),
    }
}

/// A successful update writes the settings file as the document read from
/// it with only the edited entry of `user-settings` replaced: the text is
/// what toml renders for that document, which keeps every other entry of the
/// document and of that table, and holds the new value of the edited one.
pub proof fn lemma_update_keeps_other_entries(
    old: SettingsView,
    new: SettingsView,
    r: Result<String, UpdateError>,
    operation: Seq<char>,
    kind: Option<ConfigFields>,
    values: Option<Seq<Seq<char>>>,
    path: Option<Seq<char>>,
    text: Seq<char>,
    key: Seq<char>,
)
    requires
        update_done(old, new, r, operation, kind, values, path, text),
        r is Ok,
        entry_key(field_edit(operation, kind)) == Some(key),
    ensures
        ({
            let doc = toml_parse(text).unwrap();
            let out = with_setting(doc, key, entry_item(field_edit(operation, kind), new));
            &&& toml_parse(text) is Some
            &&& has_setting(doc, key)
            &&& r matches Ok(t) && toml_render(out) == Some(t@)
            &&& out.dom() == doc.dom()
            &&& forall|k: Seq<char>|
                k != "user-settings"@ && doc.dom().contains(k) ==> #[trigger] out[k] == doc[k]
            &&& user_settings(out).dom() == user_settings(doc).dom()
            &&& forall|g: Seq<char>|
                g != key && user_settings(doc).dom().contains(g) ==> #[trigger] user_settings(
                    out,
                )[g] == user_settings(doc)[g]
            &&& user_settings(out)[key] == entry_item(field_edit(operation, kind), new)
        }),
{
    let doc = toml_parse(text).unwrap();
    lemma_with_setting_keeps_others(doc, key, entry_item(field_edit(operation, kind), new));
}

/// An update by an operation other than `add`, `rmv` and `set` changes no
/// setting and, when it succeeds, gives back the document read from the
/// settings file as toml renders it.
pub proof fn lemma_unknown_operation_renders_back(
    old: SettingsView,
    new: SettingsView,
    r: Result<String, UpdateError>,
    operation: Seq<char>,
    kind: Option<ConfigFields>,
    values: Option<Seq<Seq<char>>>,
    path: Option<Seq<char>>,
    text: Seq<char>,
)
    requires
        update_done(old, new, r, operation, kind, values, path, text),
        field_edit(operation, kind) == FieldEdit::Nothing,
        toml_parse(text) is Some,
    ensures
        new == old,
        r is Ok <==> toml_render(toml_parse(text).unwrap()) is Some,
        r matches Ok(t) ==> toml_render(toml_parse(text).unwrap()) == Some(t@),
{
}

/// A settings update that fails leaves the settings as they were.
pub proof fn lemma_failed_update_keeps_settings(
    old: SettingsView,
    new: SettingsView,
    r: Result<String, UpdateError>,
    operation: Seq<char>,
    kind: Option<ConfigFields>,
    values: Option<Seq<Seq<char>>>,
    path: Option<Seq<char>>,
    text: Seq<char>,
)
    requires
        update_done(old, new, r, operation, kind, values, path, text),
        r is Err,
    ensures
        new == old,
{
}

/// Removing values that the list does not hold changes nothing.
pub proof fn lemma_removed_absent_values(list: Seq<Seq<char>>, vals: Seq<Seq<char>>)
    requires
        forall|i: int| 0 <= i < vals.len() ==> !list.contains(#[trigger] vals[i]),
    ensures
        removed(list, Some(vals)) == list,
    decreases list.len(),
{
    let pred = |x: Seq<char>| !vals.contains(x);
    reveal_with_fuel(Seq::<_>::filter, 1);
    if list.len() > 0 {
        assert forall|i: int| 0 <= i < vals.len() implies !list.drop_last().contains(
            #[trigger] vals[i],
        ) by {
            if list.drop_last().contains(vals[i]) {
                let k = choose|k: int| 0 <= k < list.drop_last().len() && list.drop_last()[k]
                    == vals[i];
                assert(list[k] == vals[i]);
            }
        }
        lemma_removed_absent_values(list.drop_last(), vals);
        assert(pred(list.last())) by {
            if vals.contains(list.last()) {
                let k = choose|k: int| 0 <= k < vals.len() && vals[k] == list.last();
                assert(list[list.len() - 1] == vals[k]);
            }
        }
        assert(list.drop_last().push(list.last()) =~= list);
    }
}

/// Adding values that the list lacks and then removing them gives the list
/// back.
pub proof fn lemma_add_remove_round_trip(list: Seq<Seq<char>>, vals: Seq<Seq<char>>)
    requires
        forall|i: int| 0 <= i < vals.len() ==> !list.contains(#[trigger] vals[i]),
    ensures
        removed(added(list, Some(vals)), Some(vals)) == list,
{
    lemma_remove_after_add(list, Some(vals));
    lemma_removed_absent_values(list, vals);
}

/// The list setting that `kind` names, if it names one.
pub open spec fn list_setting(s: SettingsView, kind: ConfigFields) -> Seq<Seq<char>> {
    if kind == ConfigFields::Folders {
        s.folders
    } else {
        s.forbidden
    }
}

/// The key of the list setting that `kind` names in the settings file.
pub open spec fn list_key(kind: ConfigFields) -> Seq<char> {
    if kind == ConfigFields::Folders {
        "folders"@
    } else {
        "forbidden"@
    }
}

/// The path setting that `kind` names: the source path, or else the target.
pub open spec fn path_setting(s: SettingsView, kind: ConfigFields) -> Seq<char> {
    if kind == ConfigFields::Source {
        s.source
    } else {
        s.target
    }
}

/// The key of the path setting that `kind` names in the settings file.
pub open spec fn path_key(kind: ConfigFields) -> Seq<char> {
    if kind == ConfigFields::Source {
        "source"@
    } else {
        "target"@
    }
}

/// After a successful `add` to a list, the list holds every value given and
/// keeps its earlier items first and in order; the paths are as they were.
pub proof fn lemma_add_update(
    old: SettingsView,
    new: SettingsView,
    r: Result<String, UpdateError>,
    kind: ConfigFields,
    vals: Seq<Seq<char>>,
    text: Seq<char>,
)
    requires
        update_done(old, new, r, "add"@, Some(kind), Some(vals), None, text),
        r is Ok,
        kind == ConfigFields::Folders || kind == ConfigFields::Forbidden,
    ensures
        forall|i: int|
            0 <= i < vals.len() ==> list_setting(new, kind).contains(#[trigger] vals[i]),
        list_setting(new, kind).take(list_setting(old, kind).len() as int) == list_setting(
            old,
            kind,
        ),
        new.source == old.source,
        new.target == old.target,
        r matches Ok(t) ==> toml_render(
            with_setting(
                toml_parse(text).unwrap(),
                list_key(kind),
                string_list(list_setting(new, kind)),
            ),
        ) == Some(t@),
{
    lemma_added_contains(list_setting(old, kind), vals);
    lemma_added_extends(list_setting(old, kind), vals);
}

/// After a successful `rmv` from a list, the list holds none of the values
/// given; the paths are as they were.
pub proof fn lemma_remove_update(
    old: SettingsView,
    new: SettingsView,
    r: Result<String, UpdateError>,
    kind: ConfigFields,
    vals: Seq<Seq<char>>,
    text: Seq<char>,
)
    requires
        update_done(old, new, r, "rmv"@, Some(kind), Some(vals), None, text),
        r is Ok,
        kind == ConfigFields::Folders || kind == ConfigFields::Forbidden,
    ensures
        forall|i: int|
            0 <= i < vals.len() ==> !list_setting(new, kind).contains(#[trigger] vals[i]),
        new.source == old.source,
        new.target == old.target,
        r matches Ok(t) ==> toml_render(
            with_setting(
                toml_parse(text).unwrap(),
                list_key(kind),
                string_list(list_setting(new, kind)),
            ),
        ) == Some(t@),
{
    reveal_strlit("add");
    reveal_strlit("rmv");
    assert("rmv"@ != "add"@) by {
        assert("rmv"@[0] != "add"@[0]);
    }
    lemma_removed_absent(list_setting(old, kind), vals);
}

/// After a successful `set` of the source path, the settings hold it.
pub proof fn lemma_set_source_update(
    old: SettingsView,
    new: SettingsView,
    r: Result<String, UpdateError>,
    path: Seq<char>,
    text: Seq<char>,
)
    requires
        update_done(old, new, r, "set"@, Some(ConfigFields::Source), None, Some(path), text),
        r is Ok,
    ensures
        new.source == path,
        new.target == old.target,
        new.folders == old.folders,
        new.forbidden == old.forbidden,
        r matches Ok(t) ==> toml_render(
            with_setting(toml_parse(text).unwrap(), "source"@, TomlItem::Text(path)),
        ) == Some(t@),
{
}

/// After a successful `set` of the source or the target path, that setting
/// holds the path given (the stored one when none is given), the other
/// settings are as they were, and the settings file is written with that
/// entry of `user-settings` set to the path as text.
pub proof fn lemma_set_path_update(
    old: SettingsView,
    new: SettingsView,
    r: Result<String, UpdateError>,
    kind: ConfigFields,
    path: Option<Seq<char>>,
    text: Seq<char>,
)
    requires
        update_done(old, new, r, "set"@, Some(kind), None, path, text),
        r is Ok,
        kind == ConfigFields::Source || kind == ConfigFields::Target,
    ensures
        ({
            let p = match path {
                Some(p) => p,
                None => path_setting(old, kind),
            };
            &&& path_setting(new, kind) == p
            &&& kind == ConfigFields::Source ==> new.target == old.target
            &&& kind == ConfigFields::Target ==> new.source == old.source
            &&& new.folders == old.folders
            &&& new.forbidden == old.forbidden
            &&& r matches Ok(t) && toml_render(
                with_setting(toml_parse(text).unwrap(), path_key(kind), TomlItem::Text(p)),
            ) == Some(t@)
        }),
{
}

pub(crate) fn field_edit_of(operation: &str, kind: Option<ConfigFields>) -> (e: FieldEdit)
    ensures
        e == field_edit(operation@, kind),
{
    if str_eq(operation, "add") {
        match kind {
            Some(ConfigFields::Folders) => FieldEdit::AddFolders,
            Some(ConfigFields::Forbidden) => FieldEdit::AddForbidden,
            _ => FieldEdit::Refused,
        }
    } else if str_eq(operation, "rmv") {
        match kind {
            Some(ConfigFields::Folders) => FieldEdit::RemoveFolders,
            Some(ConfigFields::Forbidden) => FieldEdit::RemoveForbidden,
            _ => FieldEdit::Refused,
        }
    } else if str_eq(operation, "set") {
        match kind {
            Some(ConfigFields::Source) => FieldEdit::SetSource,
            Some(ConfigFields::Target) => FieldEdit::SetTarget,
            _ => FieldEdit::Refused,
        }
    } else {
        FieldEdit::Nothing
    }
}

pub(crate) fn copy_strings(v: &Vec<String>) -> (r: Vec<String>)
    ensures
        strs(r@) == strs(v@),
{
    let mut r: Vec<String> = Vec::new();
    let mut i: usize = 0;
    while i < v.len()
        invariant
            0 <= i <= v@.len(),
            strs(r@) == strs(v@).take(i as int),
        decreases v@.len() - i,
    {
        let ghost before = r@;
        let s = v[i].clone();
        r.push(s);
        proof {
            lemma_strs_push(before, s);
            assert(strs(v@).take(i + 1) =~= strs(v@).take(i as int).push(v@[i as int]@));
        }
        i = i + 1;
    }
    assert(strs(v@).take(v@.len() as int) =~= strs(v@));
    r
}

impl State {
    /// Applies `operation` (`add`, `rmv` or `set`) to the setting `kind`
    /// with the given values or path, and writes the result into the
    /// settings file `config_text`; returns the file's new text.
    ///
    /// `add` appends the values that the list lacks, `rmv` drops every item
    /// equal to one of the values, `set` replaces the path when one is
    /// given. Any other operation changes nothing and gives the file back
    /// as the TOML crate renders it. The settings change only when the
    /// update succeeds.
    pub fn update_config(
        &mut self,
        operation: &str,
        kind: Option<ConfigFields>,
        values: Option<&[String]>,
        path: Option<&str>,
        config_text: &str,
    ) -> (r: Result<String, UpdateError>)
        ensures
            update_done(
                old(self)@,
                final(self)@,
                r,
                operation@,
                kind,
                opt_strs(values),
                opt_chars(path),
                config_text@,
            ),
    {
        let mut doc = match parse_document(config_text) {
            Ok(d) => d,
            Err(e) => return Err(UpdateError::Parse(e)),
        };
        let edit = field_edit_of(operation, kind);
        let current = &self.config.user_settings;
        match edit {
            FieldEdit::Refused => {
                let m1 = concat("Invalid config field '", operation);
                let m = concat(m1.as_str(), "' operation");
                return Err(UpdateError::InvalidField(m));
            },
            FieldEdit::AddFolders | FieldEdit::AddForbidden | FieldEdit::RemoveFolders
            | FieldEdit::RemoveForbidden => {
                let to_folders = edit == FieldEdit::AddFolders || edit == FieldEdit::RemoveFolders;
                let mut list = if to_folders {
                    copy_strings(&current.folders)
                } else {
                    copy_strings(&current.forbidden)
                };
                if edit == FieldEdit::AddFolders || edit == FieldEdit::AddForbidden {
                    add_values(&mut list, values);
                } else {
                    remove_values(&mut list, values);
                }
                let key = if to_folders {
                    "folders"
                } else {
                    "forbidden"
                };
                if !set_list_entry(&mut doc, "user-settings", key, &list) {
                    return Err(UpdateError::MissingEntry(key.to_owned()));
                }
                let text = match render_document(&doc) {
                    Ok(t) => t,
                    Err(e) => return Err(UpdateError::Render(e)),
                };
                if to_folders {
                    self.config.user_settings.folders = list;
                } else {
                    self.config.user_settings.forbidden = list;
                }
                Ok(text)
            },
            FieldEdit::SetSource | FieldEdit::SetTarget => {
                let to_source = edit == FieldEdit::SetSource;
                let value = match path {
                    Some(p) => p.to_owned(),
                    None => if to_source {
                        current.source.clone()
                    } else {
                        current.target.clone()
                    },
                };
                let key = if to_source {
                    "source"
                } else {
                    "target"
                };
                if !set_text_entry(&mut doc, "user-settings", key, &value) {
                    return Err(UpdateError::MissingEntry(key.to_owned()));
                }
                let text = match render_document(&doc) {
                    Ok(t) => t,
                    Err(e) => return Err(UpdateError::Render(e)),
                };
                if to_source {
                    self.config.user_settings.source = value;
                } else {
                    self.config.user_settings.target = value;
                }
                Ok(text)
            },
            FieldEdit::Nothing => match render_document(&doc) {
                Ok(t) => Ok(t),
                Err(e) => Err(UpdateError::Render(e)),
            },
        }
    }
}

/// What is left to ask the user once the given and the stored paths are
/// taken into account.
#[derive(Debug, Clone, Copy, PartialEq, Eq, Structural)]
pub struct PathPrompts {
    /// No source path was given or stored: ask for one.
    pub ask_source: bool,
    /// A source path was given and the target comes from the settings:
    /// ask whether to go on with that target.
    pub confirm_target: bool,
    /// No target path was given or stored: ask for one.
    pub ask_target: bool,
}

/// Whether an answer to the confirmation declines it: `n` or `no`, in any
/// case, with surrounding whitespace ignored.
pub open spec fn declines(answer: Seq<char>) -> bool {
    lowercase(trimmed(answer)) == "n"@ || lowercase(trimmed(answer)) == "no"@
}

/// Declining goes by the trimmed answer in lower case alone: two answers
/// whose trimmed forms have the same lowercase form are both declines or
/// both not (so `N`, ` n `, `No` and `NO` answer alike with `n` or `no`).
pub proof fn lemma_declining_ignores_case(a: Seq<char>, b: Seq<char>)
    requires
        lowercase(trimmed(a)) == lowercase(trimmed(b)),
    ensures
        declines(a) == declines(b),
{
}

impl State {
    /// Resolves the source and target paths of a sync by precedence: a path
    /// given on the command line, else the stored one, else the user's
    /// answer. Returns what remains to ask; when a source path is given and
    /// the stored target is used, the user is asked to confirm it.
    pub fn resolve_paths(&mut self, input_src: Option<String>, input_tar: Option<String>) -> (p: PathPrompts)
        ensures
            final(self)@.source == (match input_src {
                Some(s) => s@,
                None => old(self)@.source,
            }),
            final(self)@.target == (match input_tar {
                Some(t) => t@,
                None => old(self)@.target,
            }),
            final(self)@.folders == old(self)@.folders,
            final(self)@.forbidden == old(self)@.forbidden,
            p.ask_source == (input_src is None && old(self)@.source.len() == 0),
            p.confirm_target == (input_tar is None && input_src is Some && old(self)@.target.len()
                != 0),
            p.ask_target == (input_tar is None && old(self)@.target.len() == 0),
    {
        let src_given = input_src.is_some();
        let tar_given = input_tar.is_some();
        let ask_source = !src_given && self.config.user_settings.source.as_str().is_empty();
        let target_stored = !self.config.user_settings.target.as_str().is_empty();
        if let Some(s) = input_src {
            self.config.user_settings.source = s;
        }
        if let Some(t) = input_tar {
            self.config.user_settings.target = t;
        }
        PathPrompts {
            ask_source,
            confirm_target: !tar_given && src_given && target_stored,
            ask_target: !tar_given && !target_stored,
        }
    }

    /// Takes the user's answer for the source path, trimmed.
    pub fn set_source_input(&mut self, line: &str)
        ensures
            final(self)@ == (SettingsView { source: trimmed(line@), ..old(self)@ }),
    {
        self.config.user_settings.source = trimmed_string(line);
    }

    /// Takes the user's answer for the target path, trimmed.
    pub fn set_target_input(&mut self, line: &str)
        ensures
            final(self)@ == (SettingsView { target: trimmed(line@), ..old(self)@ }),
    {
        self.config.user_settings.target = trimmed_string(line);
    }

    /// The source and target paths of a sync, trimmed.
    pub fn sync_paths(&self) -> (r: (String, String))
        ensures
            r.0@ == trimmed(self@.source),
            r.1@ == trimmed(self@.target),
    {
        (
            trimmed_string(self.config.user_settings.source.as_str()),
            trimmed_string(self.config.user_settings.target.as_str()),
        )
    }
}

/// Whether the user's answer declines going on with the stored target.
pub fn confirmation_declined(answer: &str) -> (b: bool)
    ensures
        b == declines(answer@),
        is_ascii_text(trimmed(answer@)) ==> (b <==> (ascii_lowered(trimmed(answer@)) == "n"@
            || ascii_lowered(trimmed(answer@)) == "no"@)),
{
    let t = trimmed_string(answer);
    let l = to_lowercase(t.as_str());
    str_eq(l.as_str(), "n") || str_eq(l.as_str(), "no")
}

} // verus!

//! The owner of the routine document and the edits a user can make to it.
use vstd::prelude::*;

use crate::action::{opt_string_view, Action};
use crate::engine::Sensitivity;
use crate::routine::{
    active_index_of, clone_actions, first_with_id, has_id, position_of_id, routines_view,
    ConfigView, Language, Routine, RoutineConfig, RoutineView, Theme,
};
use crate::text::str_eq;

verus! {

/// Why an edit of the routine document was refused.
#[derive(Debug, PartialEq)]
pub enum StoreError {
    NotFound(String),
}

/// How the persisted document was obtained at startup.
#[derive(Clone, Copy, Debug, PartialEq, Eq, Structural)]
pub enum LoadReport {
    Loaded,
    CreatedDefault,
    RecoveredFromCorruption,
}

/// What reading the routine file gave.
pub enum FileRead {
    /// The file held a routine document.
    Parsed(RoutineConfig),
    /// The file exists but is not a routine document.
    Unparsable,
    /// There is no file yet (first launch).
    Missing,
    /// The file could not be read.
    Unreadable,
}

/// How the store starts from what reading its file gave: the document it
/// holds, how it was obtained, whether the corrupt file is to be kept
/// aside as a backup, and whether the document is to be written back.
pub struct StartUp {
    pub config: RoutineConfig,
    pub report: LoadReport,
    pub back_up_corrupt_file: bool,
    pub write_back: bool,
}

/// `c` is the first-launch document: the sample routine, active, with no
/// language chosen, the system theme and medium sensitivity.
pub open spec fn is_default_config(c: RoutineConfig) -> bool {
    &&& c.routines@.len() == 1
    &&& RoutineConfig::is_sample_routine(c.routines@[0])
    &&& opt_string_view(c.active_routine_id) == Some("sample"@)
    &&& c.language is None
    &&& c.theme == Theme::System
    &&& c.sensitivity == Sensitivity::Medium
}

/// Start the store from what reading its file gave: a parsed document is
/// used as it is; a missing file means first launch and the default
/// document; an unparsable file is kept aside and replaced by the default
/// document; an unreadable one is replaced by the default document too.
/// Anything but a loaded document is written back at once.
pub fn start_up(read: FileRead) -> (r: StartUp)
    ensures
        match read {
            FileRead::Parsed(c) => r.config == c && r.report == LoadReport::Loaded,
            FileRead::Missing => is_default_config(r.config) && r.report == LoadReport::CreatedDefault,
            _ => is_default_config(r.config) && r.report == LoadReport::RecoveredFromCorruption,
        },
        r.back_up_corrupt_file == (read is Unparsable),
        r.write_back == (r.report != LoadReport::Loaded),
{
    match read {
        FileRead::Parsed(c) => StartUp {
            config: c,
            report: LoadReport::Loaded,
            back_up_corrupt_file: false,
            write_back: false,
        },
        FileRead::Missing => StartUp {
            config: RoutineConfig::default_config(),
            report: LoadReport::CreatedDefault,
            back_up_corrupt_file: false,
            write_back: true,
        },
        FileRead::Unparsable => StartUp {
            config: RoutineConfig::default_config(),
            report: LoadReport::RecoveredFromCorruption,
            back_up_corrupt_file: true,
            write_back: true,
        },
        FileRead::Unreadable => StartUp {
            config: RoutineConfig::default_config(),
            report: LoadReport::RecoveredFromCorruption,
            back_up_corrupt_file: false,
            write_back: true,
        },
    }
}

/// A lower-case hexadecimal digit.
pub open spec fn is_lower_hex(c: char) -> bool {
    ('0' <= c && c <= '9') || ('a' <= c && c <= 'f')
}

/// The text of a random (version 4, RFC 4122 variant) UUID in hyphenated
/// lower-case form: 36 characters, hyphens at 8, 13, 18 and 23, lower-case
/// hex digits elsewhere, the version digit `4` at 14 and one of `8`, `9`,
/// `a`, `b` at 19.
pub open spec fn is_uuid_v4_text(s: Seq<char>) -> bool {
    &&& s.len() == 36
    &&& forall|i: int|
        0 <= i < 36 ==> if i == 8 || i == 13 || i == 18 || i == 23 {
            #[trigger] s[i] == '-'
        } else {
            is_lower_hex(s[i])
        }
    &&& s[14] == '4'
    &&& (s[19] == '8' || s[19] == '9' || s[19] == 'a' || s[19] == 'b')
}

/// A fresh routine id: `uuid::Uuid::new_v4().to_string()`. `new_v4` fixes
/// the version and variant bits of a random 128-bit value, and `Display`
/// writes the hyphenated lower-case form. The value is random, so nothing
/// more is claimed of it; `new_v4` panics only when the operating system
/// cannot supply random bytes.
#[verifier::external_body]
fn new_routine_id() -> (id: String)
    ensures
        is_uuid_v4_text(id@),
{
    uuid::Uuid::new_v4().to_string()
}

/// No two routines share an id.
pub open spec fn ids_unique(routines: Seq<RoutineView>) -> bool {
    forall|i: int, j: int|
        0 <= i < routines.len() && 0 <= j < routines.len() && i != j ==> (#[trigger] routines[i]).id
            != (#[trigger] routines[j]).id
}

/// A well-formed document: ids are unique and the active id, if any, names
/// one of the routines.
pub open spec fn config_wf(config: ConfigView) -> bool {
    &&& ids_unique(config.routines)
    &&& match config.active_routine_id {
        None => true,
        Some(a) => has_id(config.routines, a),
    }
}

/// The routines after inserting or replacing `stored`: it replaces the
/// first routine with its id, or is appended when there is none.
pub open spec fn upsert_spec(routines: Seq<RoutineView>, stored: RoutineView) -> Seq<RoutineView> {
    if has_id(routines, stored.id) {
        routines.update(choose|i: int| first_with_id(routines, stored.id, i), stored)
    } else {
        routines.push(stored)
    }
}

/// The routines without those whose id is `id`, in order.
pub open spec fn without_id(routines: Seq<RoutineView>, id: Seq<char>) -> Seq<RoutineView>
    decreases routines.len(),
{
    if routines.len() == 0 {
        routines
    } else {
        let rest = without_id(routines.drop_last(), id);
        if routines.last().id != id {
            rest.push(routines.last())
        } else {
            rest
        }
    }
}

/// `stored` is `routine` as the store keeps it: same name and actions, the
/// given id when one was given, otherwise a fresh random UUID text.
pub open spec fn stored_as(routine: RoutineView, stored: RoutineView) -> bool {
    &&& stored.name == routine.name
    &&& stored.actions == routine.actions
    &&& routine.id.len() > 0 ==> stored.id == routine.id
    &&& routine.id.len() == 0 ==> is_uuid_v4_text(stored.id)
}

/// Thread-confined owner of the routine document. Every edit returns the
/// updated document.
pub struct RoutineStore {
    config: RoutineConfig,
}

impl View for RoutineStore {
    type V = ConfigView;

    closed spec fn view(&self) -> ConfigView {
        self.config@
    }
}

impl RoutineStore {
    /// A store holding `config`.
    pub fn new(config: RoutineConfig) -> (r: Self)
        ensures
            r@ == config@,
    {
        RoutineStore { config }
    }

    /// A copy of the current document.
    pub fn snapshot(&self) -> (r: RoutineConfig)
        ensures
            r@ == self@,
    {
        self.config.clone()
    }

    /// Actions of the active routine, copied out; empty when no routine is
    /// active.
    pub fn active_actions(&self) -> (r: Vec<Action>)
        ensures
            r@ == match active_index_of(self@) {
                Some(i) => self@.routines[i].actions,
                None => Seq::empty(),
            },
    {
        match self.config.active_routine() {
            Some(r) => {
                proof {
                    let i = active_index_of(self.config@)->0;
                    assert(routines_view(self.config.routines@)[i] == self.config.routines@[i]@);
                }
                clone_actions(&r.actions)
            },
            None => Vec::new(),
        }
    }

    /// Insert or replace a routine by id. An empty id means "new": the
    /// store assigns one. Returns the updated document.
    pub fn upsert_routine(&mut self, routine: Routine) -> (r: RoutineConfig)
        ensures
            r@ == final(self)@,
            exists|stored: RoutineView|
                stored_as(routine@, stored) && final(self)@.routines == upsert_spec(
                    old(self)@.routines,
                    stored,
                ),
            final(self)@.active_routine_id == old(self)@.active_routine_id,
            final(self)@.language == old(self)@.language,
            final(self)@.theme == old(self)@.theme,
            final(self)@.sensitivity == old(self)@.sensitivity,
    {
        let mut routine = routine;
        let ghost given = routine@;
        if routine.id.as_str().is_empty() {
            routine.id = new_routine_id();
        }
        let ghost stored = routine@;
        assert(stored_as(given, stored));
        let ghost rv = routines_view(self.config.routines@);
        match position_of_id(&self.config.routines, routine.id.as_str()) {
            Some(i) => {
                proof {
                    let c = choose|k: int| first_with_id(rv, stored.id, k);
                    assert(first_with_id(rv, stored.id, c));
                    if c < i {
                        assert(rv[c].id != stored.id);
                    } else if c > i {
                        assert(rv[i as int].id != stored.id);
                    }
                }
                self.config.routines.set(i, routine);
                assert(routines_view(self.config.routines@) =~= upsert_spec(rv, stored));
            },
            None => {
                self.config.routines.push(routine);
                assert(routines_view(self.config.routines@) =~= upsert_spec(rv, stored));
            },
        }
        self.config.clone()
    }

    /// Remove every routine with id `id`. If it was active, the document
    /// ends up with no active routine rather than a dangling id. Refused,
    /// with nothing changed, when no routine has that id.
    pub fn delete_routine(&mut self, id: &str) -> (r: Result<RoutineConfig, StoreError>)
        ensures
            !has_id(old(self)@.routines, id@) ==> (r matches Err(StoreError::NotFound(e)) && e@
                == id@ && final(self)@ == old(self)@),
            has_id(old(self)@.routines, id@) ==> (r matches Ok(c) && c@ == final(self)@),
            has_id(old(self)@.routines, id@) ==> final(self)@.routines == without_id(
                old(self)@.routines,
                id@,
            ),
            has_id(old(self)@.routines, id@) && old(self)@.active_routine_id == Some(id@)
                ==> final(self)@.active_routine_id is None,
            old(self)@.active_routine_id != Some(id@) ==> final(self)@.active_routine_id == old(
                self,
            )@.active_routine_id,
            final(self)@.language == old(self)@.language,
            final(self)@.theme == old(self)@.theme,
            final(self)@.sensitivity == old(self)@.sensitivity,
    {
        if position_of_id(&self.config.routines, id).is_none() {
            return Err(StoreError::NotFound(id.to_owned()));
        }
        let ghost before = self.config.routines@;
        let mut kept: Vec<Routine> = Vec::new();
        let mut old_routines: Vec<Routine> = Vec::new();
        std::mem::swap(&mut old_routines, &mut self.config.routines);
        let n = old_routines.len();
        let mut k: usize = 0;
        while k < n
            invariant
                n == old_routines@.len(),
                old_routines@ == before,
                k <= n,
                routines_view(kept@) == without_id(routines_view(before.take(k as int)), id@),
            decreases n - k,
        {
            proof {
                assert(routines_view(before.take(k + 1)).drop_last() =~= routines_view(
                    before.take(k as int),
                ));
                assert(routines_view(before.take(k + 1)).last() == before[k as int]@);
            }
            if !str_eq(old_routines[k].id.as_str(), id) {
                let c = old_routines[k].clone();
                kept.push(c);
                assert(routines_view(kept@) =~= without_id(
                    routines_view(before.take(k as int)),
                    id@,
                ).push(before[k as int]@));
            }
            k += 1;
        }
        assert(before.take(n as int) =~= before);
        self.config.routines = kept;
        let clear = match &self.config.active_routine_id {
            Some(a) => str_eq(a.as_str(), id),
            None => false,
        };
        if clear {
            self.config.active_routine_id = None;
        }
        Ok(self.config.clone())
    }

    /// Switch the active routine; `None` disables triggering entirely.
    /// Refused, with nothing changed, when no routine has the given id.
    pub fn set_active_routine(&mut self, id: Option<String>) -> (r: Result<RoutineConfig, StoreError>)
        ensures
            (match id {
                Some(i) => !has_id(old(self)@.routines, i@),
                None => false,
            }) ==> (r matches Err(StoreError::NotFound(e)) && Some(e@) == opt_string_view(id)
                && final(self)@ == old(self)@),
            (match id {
                Some(i) => has_id(old(self)@.routines, i@),
                None => true,
            }) ==> (r matches Ok(c) && c@ == final(self)@ && final(self)@ == (ConfigView {
                active_routine_id: opt_string_view(id),
                ..old(self)@
            })),
    {
        if let Some(i) = &id {
            if position_of_id(&self.config.routines, i.as_str()).is_none() {
                return Err(StoreError::NotFound(i.clone()));
            }
        }
        self.config.active_routine_id = id;
        Ok(self.config.clone())
    }

    /// Record the UI language.
    pub fn set_language(&mut self, language: Language) -> (r: RoutineConfig)
        ensures
            final(self)@ == (ConfigView { language: Some(language), ..old(self)@ }),
            r@ == final(self)@,
    {
        self.config.language = Some(language);
        self.config.clone()
    }

    /// Record the color theme.
    pub fn set_theme(&mut self, theme: Theme) -> (r: RoutineConfig)
        ensures
            final(self)@ == (ConfigView { theme, ..old(self)@ }),
            r@ == final(self)@,
    {
        self.config.theme = theme;
        self.config.clone()
    }

    /// Record the trigger sensitivity.
    pub fn set_sensitivity(&mut self, sensitivity: Sensitivity) -> (r: RoutineConfig)
        ensures
            final(self)@ == (ConfigView { sensitivity, ..old(self)@ }),
            r@ == final(self)@,
    {
        self.config.sensitivity = sensitivity;
        self.config.clone()
    }
}


proof fn lemma_without_id_members(rs: Seq<RoutineView>, id: Seq<char>)
    ensures
        forall|i: int|
            0 <= i < without_id(rs, id).len() ==> (#[trigger] without_id(rs, id)[i]).id != id
                && exists|k: int| 0 <= k < rs.len() && rs[k] == without_id(rs, id)[i],
        forall|k: int| 0 <= k < rs.len() && (#[trigger] rs[k]).id != id ==> has_id(without_id(rs, id), rs[k].id),
    decreases rs.len(),
{
    if rs.len() > 0 {
        let pre = rs.drop_last();
        lemma_without_id_members(pre, id);
        let out = without_id(rs, id);
        let rest = without_id(pre, id);
        assert forall|i: int| 0 <= i < out.len() implies (#[trigger] out[i]).id != id && exists|k: int|
            0 <= k < rs.len() && rs[k] == out[i] by {
            if i < rest.len() {
                assert(out[i] == rest[i]);
                let k = choose|k: int| 0 <= k < pre.len() && pre[k] == rest[i];
                assert(rs[k] == pre[k]);
            } else {
                assert(out[i] == rs[rs.len() - 1]);
            }
        }
        assert forall|k: int| 0 <= k < rs.len() && (#[trigger] rs[k]).id != id implies has_id(out, rs[k].id) by {
            if k < rs.len() - 1 {
                assert(rs[k] == pre[k]);
                assert(has_id(rest, pre[k].id));
                let w = choose|w: int| 0 <= w < rest.len() && (#[trigger] rest[w]).id == pre[k].id;
                assert(out[w] == rest[w]);
            } else {
                assert(out[out.len() - 1] == rs[k]);
            }
        }
    }
}

proof fn lemma_without_id_unique(rs: Seq<RoutineView>, id: Seq<char>)
    requires
        ids_unique(rs),
    ensures
        ids_unique(without_id(rs, id)),
    decreases rs.len(),
{
    if rs.len() > 0 {
        let pre = rs.drop_last();
        assert(ids_unique(pre)) by {
            assert forall|i: int, j: int|
                0 <= i < pre.len() && 0 <= j < pre.len() && i != j implies (#[trigger] pre[i]).id
                != (#[trigger] pre[j]).id by {
                assert(pre[i] == rs[i] && pre[j] == rs[j]);
            }
        }
        lemma_without_id_unique(pre, id);
        lemma_without_id_members(pre, id);
        let rest = without_id(pre, id);
        let out = without_id(rs, id);
        if rs.last().id != id {
            assert forall|i: int, j: int|
                0 <= i < out.len() && 0 <= j < out.len() && i != j implies (#[trigger] out[i]).id
                != (#[trigger] out[j]).id by {
                if i < rest.len() && j < rest.len() {
                    assert(out[i] == rest[i] && out[j] == rest[j]);
                } else if i < rest.len() {
                    let k = choose|k: int| 0 <= k < pre.len() && pre[k] == rest[i];
                    assert(rs[k] == pre[k]);
                    assert(out[i] == rest[i]);
                    assert(rs[rs.len() - 1].id != rs[k].id);
                } else {
                    let k = choose|k: int| 0 <= k < pre.len() && pre[k] == rest[j];
                    assert(rs[k] == pre[k]);
                    assert(out[j] == rest[j]);
                    assert(rs[rs.len() - 1].id != rs[k].id);
                }
            }
        }
    }
}

/// Deleting a routine removes every routine with that id, and keeps a
/// well-formed document well-formed.
pub proof fn delete_removes_the_id(before: ConfigView, id: Seq<char>)
    ensures
        !has_id(without_id(before.routines, id), id),
        config_wf(before) ==> config_wf(
            ConfigView {
                routines: without_id(before.routines, id),
                active_routine_id: if before.active_routine_id == Some(id) {
                    None
                } else {
                    before.active_routine_id
                },
                ..before
            },
        ),
{
    lemma_without_id_members(before.routines, id);
    if config_wf(before) {
        lemma_without_id_unique(before.routines, id);
        if let Some(a) = before.active_routine_id {
            if a != id {
                let w = choose|w: int| 0 <= w < before.routines.len() && (#[trigger] before.routines[w]).id == a;
                assert(before.routines[w].id != id);
            }
        }
    }
}

/// After switching to an existing routine, that routine is the one the
/// trigger runs.
pub proof fn activated_routine_runs(before: ConfigView, id: Seq<char>)
    requires
        has_id(before.routines, id),
    ensures
        ({
            let after = ConfigView { active_routine_id: Some(id), ..before };
            &&& active_index_of(after) is Some
            &&& before.routines[active_index_of(after)->0].id == id
            &&& config_wf(before) ==> config_wf(after)
        }),
{
    crate::routine::lemma_first_with_id_exists(before.routines, id);
}

/// After inserting or replacing a routine, the first routine with its id is
/// that routine; in a document with unique ids it is the only one, and a
/// well-formed document stays well-formed.
pub proof fn upserted_routine_is_found(before: ConfigView, stored: RoutineView)
    ensures
        ({
            let rs = upsert_spec(before.routines, stored);
            &&& has_id(rs, stored.id)
            &&& rs[choose|i: int| first_with_id(rs, stored.id, i)] == stored
            &&& ids_unique(before.routines) ==> ids_unique(rs)
            &&& config_wf(before) ==> config_wf(ConfigView { routines: rs, ..before })
        }),
{
    let old_rs = before.routines;
    let rs = upsert_spec(old_rs, stored);
    if has_id(old_rs, stored.id) {
        crate::routine::lemma_first_with_id_exists(old_rs, stored.id);
        let c = choose|i: int| first_with_id(old_rs, stored.id, i);
        assert(rs[c] == stored);
        assert(first_with_id(rs, stored.id, c));
        crate::routine::lemma_first_with_id_exists(rs, stored.id);
        let d = choose|i: int| first_with_id(rs, stored.id, i);
        if d < c {
            assert(rs[d] == old_rs[d]);
        } else if d > c {
            assert(rs[c].id == stored.id);
        }
        if ids_unique(old_rs) {
            assert forall|i: int, j: int|
                0 <= i < rs.len() && 0 <= j < rs.len() && i != j implies (#[trigger] rs[i]).id
                != (#[trigger] rs[j]).id by {
                if i != c && j != c {
                    assert(rs[i] == old_rs[i] && rs[j] == old_rs[j]);
                } else if i == c {
                    assert(rs[j] == old_rs[j]);
                    assert(old_rs[c].id == stored.id);
                } else {
                    assert(rs[i] == old_rs[i]);
                    assert(old_rs[c].id == stored.id);
                }
            }
        }
        if config_wf(before) {
            if let Some(a) = before.active_routine_id {
                let w = choose|w: int| 0 <= w < old_rs.len() && (#[trigger] old_rs[w]).id == a;
                if w == c {
                    assert(rs[c].id == a);
                } else {
                    assert(rs[w] == old_rs[w]);
                }
            }
        }
    } else {
        assert(rs[old_rs.len() as int] == stored);
        assert(has_id(rs, stored.id));
        crate::routine::lemma_first_with_id_exists(rs, stored.id);
        let d = choose|i: int| first_with_id(rs, stored.id, i);
        if d < old_rs.len() {
            assert(rs[d] == old_rs[d]);
        }
        if ids_unique(old_rs) {
            assert forall|i: int, j: int|
                0 <= i < rs.len() && 0 <= j < rs.len() && i != j implies (#[trigger] rs[i]).id
                != (#[trigger] rs[j]).id by {
                if i < old_rs.len() && j < old_rs.len() {
                    assert(rs[i] == old_rs[i] && rs[j] == old_rs[j]);
                } else if i < old_rs.len() {
                    assert(rs[i] == old_rs[i]);
                } else {
                    assert(rs[j] == old_rs[j]);
                }
            }
        }
        if config_wf(before) {
            if let Some(a) = before.active_routine_id {
                let w = choose|w: int| 0 <= w < old_rs.len() && (#[trigger] old_rs[w]).id == a;
                assert(rs[w] == old_rs[w]);
            }
        }
    }
}

} // verus!

//! Routines: named, ordered lists of actions, and the document that holds
//! every routine plus which one reacts to the trigger.
use vstd::prelude::*;

use crate::action::{clone_opt_string, opt_string_view, Action};
use crate::engine::Sensitivity;
use crate::text::str_eq;

pub mod exec_log;
pub mod store;

verus! {

/// UI language for both the webview and the tray menu.
#[derive(Clone, Copy, Debug, PartialEq, Eq, Structural)]
pub enum Language {
    En,
    Ko,
}

impl Default for Language {
    fn default() -> (r: Self)
        ensures
            r == Language::En,
    {
        Language::En
    }
}

/// Webview color theme. `System` follows the macOS appearance.
#[derive(Clone, Copy, Debug, PartialEq, Eq, Structural)]
pub enum Theme {
    System,
    Light,
    Dark,
}

impl Default for Theme {
    fn default() -> (r: Self)
        ensures
            r == Theme::System,
    {
        Theme::System
    }
}

/// A named, ordered list of actions the user triggers with a double clap.
#[derive(Debug, PartialEq)]
pub struct Routine {
    pub id: String,
    pub name: String,
    pub actions: Vec<Action>,
}

/// A copy of a list of actions.
pub fn clone_actions(actions: &Vec<Action>) -> (r: Vec<Action>)
    ensures
        r@ == actions@,
{
    let r = actions.clone();
    assert(r@ =~= actions@);
    r
}

/// A routine as a value: its id, name and actions.
pub struct RoutineView {
    pub id: Seq<char>,
    pub name: Seq<char>,
    pub actions: Seq<Action>,
}

impl View for Routine {
    type V = RoutineView;

    open spec fn view(&self) -> RoutineView {
        RoutineView { id: self.id@, name: self.name@, actions: self.actions@ }
    }
}

/// The values of a list of routines.
pub open spec fn routines_view(rs: Seq<Routine>) -> Seq<RoutineView> {
    rs.map_values(|r: Routine| r@)
}

impl Clone for Routine {
    fn clone(&self) -> (r: Self)
        ensures
            r@ == self@,
    {
        Routine { id: self.id.clone(), name: self.name.clone(), actions: clone_actions(&self.actions) }
    }
}

/// The persisted routine document: every routine the user owns plus which
/// one currently reacts to the trigger. Exactly zero or one routine is
/// active at a time.
#[derive(Debug, PartialEq)]
pub struct RoutineConfig {
    pub active_routine_id: Option<String>,
    pub routines: Vec<Routine>,
    /// `None` until the user picks a language in first-launch onboarding.
    pub language: Option<Language>,
    pub theme: Theme,
    pub sensitivity: Sensitivity,
}

/// A copy of a list of routines.
pub fn clone_routines(routines: &Vec<Routine>) -> (r: Vec<Routine>)
    ensures
        routines_view(r@) == routines_view(routines@),
{
    let n = routines.len();
    let mut out: Vec<Routine> = Vec::new();
    let mut k: usize = 0;
    while k < n
        invariant
            n == routines@.len(),
            k <= n,
            out@.len() == k,
            forall|i: int| 0 <= i < k ==> (#[trigger] out@[i])@ == routines@[i]@,
        decreases n - k,
    {
        let c = routines[k].clone();
        out.push(c);
        k += 1;
    }
    assert(routines_view(out@) =~= routines_view(routines@));
    out
}

/// The routine document as a value.
pub struct ConfigView {
    pub active_routine_id: Option<Seq<char>>,
    pub routines: Seq<RoutineView>,
    pub language: Option<Language>,
    pub theme: Theme,
    pub sensitivity: Sensitivity,
}

impl View for RoutineConfig {
    type V = ConfigView;

    open spec fn view(&self) -> ConfigView {
        ConfigView {
            active_routine_id: opt_string_view(self.active_routine_id),
            routines: routines_view(self.routines@),
            language: self.language,
            theme: self.theme,
            sensitivity: self.sensitivity,
        }
    }
}

impl Clone for RoutineConfig {
    fn clone(&self) -> (r: Self)
        ensures
            r@ == self@,
    {
        RoutineConfig {
            active_routine_id: clone_opt_string(&self.active_routine_id),
            routines: clone_routines(&self.routines),
            language: self.language,
            theme: self.theme,
            sensitivity: self.sensitivity,
        }
    }
}

/// `i` is the first routine of `routines` whose id is `id`.
pub open spec fn first_with_id(routines: Seq<RoutineView>, id: Seq<char>, i: int) -> bool {
    &&& 0 <= i < routines.len()
    &&& routines[i].id == id
    &&& forall|j: int| 0 <= j < i ==> (#[trigger] routines[j]).id != id
}

/// Some routine of `routines` has the id `id`.
pub open spec fn has_id(routines: Seq<RoutineView>, id: Seq<char>) -> bool {
    exists|i: int| 0 <= i < routines.len() && (#[trigger] routines[i]).id == id
}

/// A routine list that has `id` has a first routine with it.
pub proof fn lemma_first_with_id_exists(routines: Seq<RoutineView>, id: Seq<char>)
    requires
        has_id(routines, id),
    ensures
        exists|i: int| first_with_id(routines, id, i),
        first_with_id(routines, id, choose|i: int| first_with_id(routines, id, i)),
    decreases routines.len(),
{
    if routines[0].id == id {
        assert(first_with_id(routines, id, 0));
    } else {
        let rest = routines.drop_first();
        let w = choose|i: int| 0 <= i < routines.len() && (#[trigger] routines[i]).id == id;
        assert(rest[w - 1] == routines[w]);
        assert(has_id(rest, id));
        lemma_first_with_id_exists(rest, id);
        let j = choose|i: int| first_with_id(rest, id, i);
        assert forall|k: int| 0 <= k < j + 1 implies (#[trigger] routines[k]).id != id by {
            if k > 0 {
                assert(routines[k] == rest[k - 1]);
            }
        }
        assert(routines[j + 1] == rest[j]);
        assert(first_with_id(routines, id, j + 1));
    }
}

/// Index of the first routine with id `id`, if any.
pub fn position_of_id(routines: &Vec<Routine>, id: &str) -> (r: Option<usize>)
    ensures
        match r {
            Some(i) => first_with_id(routines_view(routines@), id@, i as int),
            None => !has_id(routines_view(routines@), id@),
        },
{
    let ghost rv = routines_view(routines@);
    let n = routines.len();
    let mut i: usize = 0;
    while i < n
        invariant
            n == routines@.len(),
            rv == routines_view(routines@),
            i <= n,
            forall|j: int| 0 <= j < i ==> (#[trigger] rv[j]).id != id@,
        decreases n - i,
    {
        if str_eq(routines[i].id.as_str(), id) {
            assert(rv[i as int].id == id@);
            return Some(i);
        }
        assert(rv[i as int].id != id@);
        i += 1;
    }
    None
}

impl RoutineConfig {
    /// The routine the trigger runs: the first routine whose id is the
    /// active id, when there is an active id and such a routine.
    pub open spec fn active_index(self) -> Option<int> {
        active_index_of(self@)
    }

    /// The shipped sample routine: `open -a Calculator`.
    pub open spec fn is_sample_routine(r: Routine) -> bool {
        &&& r.id@ == "sample"@
        &&& r.name@ == "Sample — Calculator"@
        &&& r.actions@.len() == 1
        &&& r.actions@[0] matches Action::OpenApp { name, path: None, region: None, display: None }
            && name@ == "Calculator"@
    }

    /// Initial document for first launch and corruption recovery: one
    /// sample routine, active, so a double clap does something visible
    /// before the user edits anything.
    pub fn default_config() -> (r: Self)
        ensures
            r.routines@.len() == 1,
            RoutineConfig::is_sample_routine(r.routines@[0]),
            opt_string_view(r.active_routine_id) == Some("sample"@),
            r.language is None,
            r.theme == Theme::System,
            r.sensitivity == Sensitivity::Medium,
    {
        let sample = Routine {
            id: "sample".to_owned(),
            name: "Sample — Calculator".to_owned(),
            actions: vec![Action::open_app("Calculator")],
        };
        let active = sample.id.clone();
        RoutineConfig {
            active_routine_id: Some(active),
            routines: vec![sample],
            language: None,
            theme: Theme::default(),
            sensitivity: Sensitivity::default_level(),
        }
    }

    pub fn active_routine(&self) -> (r: Option<&Routine>)
        ensures
            match self.active_index() {
                Some(i) => 0 <= i < self.routines@.len() && r == Some(&self.routines@[i]),
                None => r is None,
            },
    {
        let ghost rv = routines_view(self.routines@);
        let active_id = match &self.active_routine_id {
            Some(a) => a,
            None => return None,
        };
        match position_of_id(&self.routines, active_id.as_str()) {
            Some(i) => {
                proof {
                    let c = choose|k: int| first_with_id(rv, active_id@, k);
                    assert(first_with_id(rv, active_id@, c));
                    if c < i {
                        assert(rv[c].id != active_id@);
                    } else if c > i {
                        assert(rv[i as int].id != active_id@);
                    }
                }
                Some(&self.routines[i])
            },
            None => None,
        }
    }
}

/// Which routine of a document the trigger runs: the first routine whose
/// id is the active id, when there is an active id and such a routine.
pub open spec fn active_index_of(c: ConfigView) -> Option<int> {
    match c.active_routine_id {
        None => None,
        Some(a) => if has_id(c.routines, a) {
            Some(choose|i: int| first_with_id(c.routines, a, i))
        } else {
            None
        },
    }
}

/// The first-launch document has its sample routine active.
pub proof fn default_config_has_active_sample(r: RoutineConfig)
    requires
        r.routines@.len() == 1,
        RoutineConfig::is_sample_routine(r.routines@[0]),
        opt_string_view(r.active_routine_id) == Some("sample"@),
    ensures
        r.active_index() == Some(0int),
{
    let rv = routines_view(r.routines@);
    assert(rv[0].id == "sample"@);
    assert(first_with_id(rv, "sample"@, 0));
    assert(has_id(rv, "sample"@));
    let c = choose|k: int| first_with_id(rv, "sample"@, k);
    assert(first_with_id(rv, "sample"@, c));
}

} // verus!

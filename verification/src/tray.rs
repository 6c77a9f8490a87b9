//! The menu-bar app's decisions: status and menu texts in both languages,
//! the tray menu's contents, how a routine click switches the active
//! routine, and when a double clap runs the active routine.
use vstd::prelude::*;

use crate::action::opt_string_view;
use crate::routine::exec_log::{ActionOutcome, ExecutionRecord};
use crate::routine::{Language, RoutineConfig};
use crate::text::{chars_of, opt_str_eq, str_eq, string_of};

verus! {

/// What the tray reports about detection.
#[derive(Clone, Copy, Debug, PartialEq, Eq, Structural)]
pub enum AppStatus {
    Waiting,
    DetectionPaused,
    MicPermissionMissing,
}

impl AppStatus {
    /// The status line in the given language.
    pub open spec fn label_spec(self, language: Language) -> Seq<char> {
        match (self, language) {
            (AppStatus::Waiting, Language::En) => "Status: Waiting"@,
            (AppStatus::Waiting, Language::Ko) => "상태: 대기 중"@,
            (AppStatus::DetectionPaused, Language::En) => "Status: Detection paused"@,
            (AppStatus::DetectionPaused, Language::Ko) => "상태: 감지 일시정지"@,
            (AppStatus::MicPermissionMissing, Language::En) => "Status: Mic permission missing"@,
            (AppStatus::MicPermissionMissing, Language::Ko) => "상태: 마이크 권한 없음"@,
        }
    }

    pub fn label(self, language: Language) -> (r: &'static str)
        ensures
            r@ == self.label_spec(language),
    {
        match (self, language) {
            (AppStatus::Waiting, Language::En) => "Status: Waiting",
            (AppStatus::Waiting, Language::Ko) => "상태: 대기 중",
            (AppStatus::DetectionPaused, Language::En) => "Status: Detection paused",
            (AppStatus::DetectionPaused, Language::Ko) => "상태: 감지 일시정지",
            (AppStatus::MicPermissionMissing, Language::En) => "Status: Mic permission missing",
            (AppStatus::MicPermissionMissing, Language::Ko) => "상태: 마이크 권한 없음",
        }
    }
}

/// Fixed tray menu strings.
pub struct TrayText {
    pub active_routine: &'static str,
    pub no_routines: &'static str,
    pub show_settings: &'static str,
    pub detection: &'static str,
    pub autostart: &'static str,
    pub quit: &'static str,
}

/// The tray menu strings as values.
pub open spec fn tray_text_spec(language: Language) -> Seq<Seq<char>> {
    match language {
        Language::En => seq![
            "Active routine"@,
            "No routines yet"@,
            "Show settings"@,
            "Detection enabled"@,
            "Auto-start on login"@,
            "Quit"@,
        ],
        Language::Ko => seq![
            "활성 루틴"@,
            "루틴 없음"@,
            "설정 열기"@,
            "감지 활성화"@,
            "로그인 시 자동 실행"@,
            "종료"@,
        ],
    }
}

/// The strings of a `TrayText`, in field order.
pub open spec fn tray_text_view(t: TrayText) -> Seq<Seq<char>> {
    seq![t.active_routine@, t.no_routines@, t.show_settings@, t.detection@, t.autostart@, t.quit@]
}

/// Fixed tray menu strings in both supported languages.
pub fn tray_text(language: Language) -> (r: TrayText)
    ensures
        tray_text_view(r) == tray_text_spec(language),
{
    match language {
        Language::En => TrayText {
            active_routine: "Active routine",
            no_routines: "No routines yet",
            show_settings: "Show settings",
            detection: "Detection enabled",
            autostart: "Auto-start on login",
            quit: "Quit",
        },
        Language::Ko => TrayText {
            active_routine: "활성 루틴",
            no_routines: "루틴 없음",
            show_settings: "설정 열기",
            detection: "감지 활성화",
            autostart: "로그인 시 자동 실행",
            quit: "종료",
        },
    }
}

/// Triggers closer together than this are swallowed while a routine is
/// still assembling.
pub const TRIGGER_COOLDOWN_MS: u64 = 5000;

/// A trigger at `now_ms` falls inside the cooldown that the run started at
/// `last_run_ms` opened (a clock that went backwards counts as no time).
pub fn in_cooldown(now_ms: u64, last_run_ms: u64) -> (r: bool)
    ensures
        r == ((if now_ms >= last_run_ms {
            now_ms - last_run_ms
        } else {
            0
        }) < TRIGGER_COOLDOWN_MS),
{
    let since = if now_ms >= last_run_ms {
        now_ms - last_run_ms
    } else {
        0
    };
    since < TRIGGER_COOLDOWN_MS
}

/// What a double clap leads to.
#[derive(Clone, Copy, Debug, PartialEq, Eq, Structural)]
pub enum TriggerVerdict {
    /// A run started within the cooldown: ignored.
    Cooldown,
    /// No routine is active: ignored.
    NoActiveRoutine,
    /// Every app of the active routine already has a window: ignored.
    AlreadyAssembled,
    /// Run the active routine.
    Run,
}

/// The decision on a double clap at `now_ms`, in this order: a clap inside
/// the cooldown of the run started at `last_run_ms` is ignored; then one
/// with no active routine; then one whose routine is already assembled;
/// otherwise the active routine runs. (`assembled` is only consulted when
/// the earlier guards let the clap through.)
pub fn trigger_verdict(now_ms: u64, last_run_ms: u64, has_active: bool, assembled: bool) -> (r: TriggerVerdict)
    ensures
        r == (if (if now_ms >= last_run_ms { now_ms - last_run_ms } else { 0 }) < TRIGGER_COOLDOWN_MS {
            TriggerVerdict::Cooldown
        } else if !has_active {
            TriggerVerdict::NoActiveRoutine
        } else if assembled {
            TriggerVerdict::AlreadyAssembled
        } else {
            TriggerVerdict::Run
        }),
{
    if in_cooldown(now_ms, last_run_ms) {
        TriggerVerdict::Cooldown
    } else if !has_active {
        TriggerVerdict::NoActiveRoutine
    } else if assembled {
        TriggerVerdict::AlreadyAssembled
    } else {
        TriggerVerdict::Run
    }
}

/// The record of a routine run: successful when every action was.
pub fn record_of_run(at_epoch_ms: u64, routine_name: String, outcomes: Vec<ActionOutcome>) -> (r: ExecutionRecord)
    ensures
        r.at_epoch_ms == at_epoch_ms,
        r.routine_name == routine_name,
        r.outcomes@ == outcomes@,
        r.success == forall|i: int| 0 <= i < outcomes@.len() ==> (#[trigger] outcomes@[i]).success,
{
    let n = outcomes.len();
    let mut all = true;
    let mut k: usize = 0;
    while k < n
        invariant
            n == outcomes@.len(),
            k <= n,
            all == forall|i: int| 0 <= i < k ==> (#[trigger] outcomes@[i]).success,
        decreases n - k,
    {
        all = all && outcomes[k].success;
        k += 1;
    }
    ExecutionRecord { at_epoch_ms, routine_name, success: all, outcomes }
}

/// The prefix of tray menu ids that name a routine.
pub open spec fn routine_menu_prefix() -> Seq<char> {
    "routine:"@
}

/// The tray menu id of the routine `id`.
pub fn routine_menu_id(id: &str) -> (r: String)
    ensures
        r@ == routine_menu_prefix() + id@,
{
    let mut s = String::new();
    s.append("routine:");
    s.append(id);
    s
}

/// The routine id a tray menu id names, if it names one.
pub fn routine_of_menu_id(menu_id: &str) -> (r: Option<String>)
    ensures
        match r {
            Some(id) => menu_id@ == routine_menu_prefix() + id@,
            None => !routine_menu_prefix().is_prefix_of(menu_id@),
        },
{
    let chars = chars_of(menu_id);
    let prefix = chars_of("routine:");
    let p = prefix.len();
    if chars.len() < p {
        assert(!prefix@.is_prefix_of(chars@));
        return None;
    }
    let mut k: usize = 0;
    while k < p
        invariant
            chars@ == menu_id@,
            prefix@ == routine_menu_prefix(),
            p == prefix@.len(),
            p <= chars@.len(),
            k <= p,
            forall|j: int| 0 <= j < k ==> chars@[j] == prefix@[j],
        decreases p - k,
    {
        if chars[k] != prefix[k] {
            assert(!prefix@.is_prefix_of(chars@)) by {
                assert(chars@[k as int] != prefix@[k as int]);
            }
            return None;
        }
        k += 1;
    }
    let rest = crate::text::copy_range(&chars, p, chars.len());
    assert(chars@ =~= prefix@ + rest@);
    Some(string_of(&rest))
}

/// A routine's menu id names that routine again: it starts with the
/// prefix, and the only id whose menu id it is, is the routine's own.
pub proof fn menu_id_names_its_routine(id: Seq<char>, other: Seq<char>)
    ensures
        routine_menu_prefix().is_prefix_of(routine_menu_prefix() + id),
        routine_menu_prefix() + other == routine_menu_prefix() + id ==> other == id,
{
    let p = routine_menu_prefix();
    assert((p + id).subrange(0, p.len() as int) =~= p);
    if p + other == p + id {
        assert(other =~= (p + other).subrange(p.len() as int, (p + other).len() as int));
        assert(id =~= (p + id).subrange(p.len() as int, (p + id).len() as int));
    }
}

/// The active routine after its tray entry was clicked: clicking the
/// active routine deactivates it; clicking any other activates it.
pub fn active_after_click(current: Option<&str>, clicked: &str) -> (r: Option<String>)
    ensures
        crate::text::opt_view(current) == Some(clicked@) ==> r is None,
        crate::text::opt_view(current) != Some(clicked@) ==> opt_string_view(r) == Some(clicked@),
{
    if opt_str_eq(current, Some(clicked)) {
        None
    } else {
        Some(clicked.to_owned())
    }
}

/// One entry of the tray menu.
#[derive(Debug, PartialEq)]
pub enum MenuEntry {
    Item { id: String, text: String, enabled: bool },
    Check { id: String, text: String, enabled: bool, checked: bool },
    Separator,
}

/// A menu entry as values.
pub enum MenuEntryView {
    Item { id: Seq<char>, text: Seq<char>, enabled: bool },
    Check { id: Seq<char>, text: Seq<char>, enabled: bool, checked: bool },
    Separator,
}

impl View for MenuEntry {
    type V = MenuEntryView;

    open spec fn view(&self) -> MenuEntryView {
        match self {
            MenuEntry::Item { id, text, enabled } => MenuEntryView::Item {
                id: id@,
                text: text@,
                enabled: *enabled,
            },
            MenuEntry::Check { id, text, enabled, checked } => MenuEntryView::Check {
                id: id@,
                text: text@,
                enabled: *enabled,
                checked: *checked,
            },
            MenuEntry::Separator => MenuEntryView::Separator,
        }
    }
}

/// The entry of routine `i` of `config`: a check item, checked when it is
/// the active routine.
pub open spec fn routine_entry(config: RoutineConfig, i: int) -> MenuEntryView {
    MenuEntryView::Check {
        id: routine_menu_prefix() + config.routines@[i].id@,
        text: config.routines@[i].name@,
        enabled: true,
        checked: opt_string_view(config.active_routine_id) == Some(config.routines@[i].id@),
    }
}

/// The tray menu: the status line (disabled), a separator, the routines
/// header (disabled), one check item per routine (or a disabled "no
/// routines" line), a separator, "show settings", the detection and
/// auto-start toggles, a separator and "quit". Texts follow the document's
/// language (English until one is picked).
pub open spec fn tray_menu_spec(
    status: AppStatus,
    detection_enabled: bool,
    autostart_enabled: bool,
    config: RoutineConfig,
) -> Seq<MenuEntryView> {
    let language = match config.language {
        Some(l) => l,
        None => Language::En,
    };
    let text = tray_text_spec(language);
    let head = seq![
        MenuEntryView::Item { id: "status"@, text: status.label_spec(language), enabled: false },
        MenuEntryView::Separator,
        MenuEntryView::Item { id: "routines_header"@, text: text[0], enabled: false },
    ];
    let routines = Seq::new(config.routines@.len(), |i: int| routine_entry(config, i));
    let empty_note = if config.routines@.len() == 0 {
        seq![MenuEntryView::Item { id: "routines_empty"@, text: text[1], enabled: false }]
    } else {
        Seq::empty()
    };
    let tail = seq![
        MenuEntryView::Separator,
        MenuEntryView::Item { id: "show"@, text: text[2], enabled: true },
        MenuEntryView::Check { id: "detection"@, text: text[3], enabled: true, checked: detection_enabled },
        MenuEntryView::Check { id: "autostart"@, text: text[4], enabled: true, checked: autostart_enabled },
        MenuEntryView::Separator,
        MenuEntryView::Item { id: "quit"@, text: text[5], enabled: true },
    ];
    head + routines + empty_note + tail
}

/// In the tray menu, routine `i` sits at position `3 + i` as an enabled
/// check item with its name and the menu id `routine:` followed by its id,
/// and it is checked exactly when the document's active routine id equals
/// its id: no routine is checked when none is active, and two routines
/// with different ids are never both checked.
pub proof fn tray_checks_only_the_active_routine(
    status: AppStatus,
    detection_enabled: bool,
    autostart_enabled: bool,
    config: RoutineConfig,
    i: int,
    j: int,
)
    requires
        0 <= i < config.routines@.len(),
        0 <= j < config.routines@.len(),
    ensures
        ({
            let m = tray_menu_spec(status, detection_enabled, autostart_enabled, config);
            let r = config.routines@[i];
            &&& m[3 + i] matches MenuEntryView::Check { id, text, enabled, checked } && id == "routine:"@
                + r.id@ && text == r.name@ && enabled && (checked <==> (config.active_routine_id matches Some(
                a,
            ) && a@ == r.id@))
            &&& config.active_routine_id is None ==> !(m[3 + i]->checked)
            &&& r.id@ != config.routines@[j].id@ ==> !(m[3 + i]->checked && m[3 + j]->checked)
        }),
{
    let m = tray_menu_spec(status, detection_enabled, autostart_enabled, config);
    assert(m[3 + i] == routine_entry(config, i));
    assert(m[3 + j] == routine_entry(config, j));
}

fn item(id: &str, text: &str, enabled: bool) -> (r: MenuEntry)
    ensures
        r@ == (MenuEntryView::Item { id: id@, text: text@, enabled }),
{
    MenuEntry::Item { id: id.to_owned(), text: text.to_owned(), enabled }
}

fn check(id: &str, text: &str, checked: bool) -> (r: MenuEntry)
    ensures
        r@ == (MenuEntryView::Check { id: id@, text: text@, enabled: true, checked }),
{
    MenuEntry::Check { id: id.to_owned(), text: text.to_owned(), enabled: true, checked }
}

/// Build the tray menu from the current app state.
pub fn tray_menu(
    status: AppStatus,
    detection_enabled: bool,
    autostart_enabled: bool,
    config: &RoutineConfig,
) -> (r: Vec<MenuEntry>)
    ensures
        r@.map_values(|e: MenuEntry| e@) == tray_menu_spec(
            status,
            detection_enabled,
            autostart_enabled,
            *config,
        ),
{
    let language = match config.language {
        Some(l) => l,
        None => Language::En,
    };
    let text = tray_text(language);
    let ghost tv = tray_text_spec(language);
    assert(tray_text_view(text) == tv);
    let mut head: Vec<MenuEntry> = Vec::new();
    head.push(item("status", status.label(language), false));
    head.push(MenuEntry::Separator);
    head.push(item("routines_header", text.active_routine, false));
    let n = config.routines.len();
    let mut body: Vec<MenuEntry> = Vec::new();
    let mut k: usize = 0;
    while k < n
        invariant
            n == config.routines@.len(),
            k <= n,
            body@.len() == k,
            forall|i: int| 0 <= i < k ==> (#[trigger] body@[i])@ == routine_entry(*config, i),
        decreases n - k,
    {
        let routine = &config.routines[k];
        let checked = match &config.active_routine_id {
            Some(a) => str_eq(a.as_str(), routine.id.as_str()),
            None => false,
        };
        let id = routine_menu_id(routine.id.as_str());
        body.push(MenuEntry::Check { id, text: routine.name.clone(), enabled: true, checked });
        k += 1;
    }
    let mut note: Vec<MenuEntry> = Vec::new();
    if n == 0 {
        note.push(item("routines_empty", text.no_routines, false));
    }
    let mut tail: Vec<MenuEntry> = Vec::new();
    tail.push(MenuEntry::Separator);
    tail.push(item("show", text.show_settings, true));
    tail.push(check("detection", text.detection, detection_enabled));
    tail.push(check("autostart", text.autostart, autostart_enabled));
    tail.push(MenuEntry::Separator);
    tail.push(item("quit", text.quit, true));
    let ghost hv = head@.map_values(|e: MenuEntry| e@);
    let ghost bv = body@.map_values(|e: MenuEntry| e@);
    let ghost nv = note@.map_values(|e: MenuEntry| e@);
    let ghost tlv = tail@.map_values(|e: MenuEntry| e@);
    proof {
        assert(text.active_routine@ == tv[0]);
        assert(text.no_routines@ == tv[1]);
        assert(text.show_settings@ == tv[2]);
        assert(text.detection@ == tv[3]);
        assert(text.autostart@ == tv[4]);
        assert(text.quit@ == tv[5]);
        assert(hv =~= seq![
            MenuEntryView::Item { id: "status"@, text: status.label_spec(language), enabled: false },
            MenuEntryView::Separator,
            MenuEntryView::Item { id: "routines_header"@, text: tv[0], enabled: false },
        ]);
        assert(bv =~= Seq::new(config.routines@.len(), |i: int| routine_entry(*config, i)));
        if n == 0 {
            assert(nv =~= seq![MenuEntryView::Item { id: "routines_empty"@, text: tv[1], enabled: false }]);
        } else {
            assert(nv =~= Seq::<MenuEntryView>::empty());
        }
        assert(tlv =~= seq![
            MenuEntryView::Separator,
            MenuEntryView::Item { id: "show"@, text: tv[2], enabled: true },
            MenuEntryView::Check { id: "detection"@, text: tv[3], enabled: true, checked: detection_enabled },
            MenuEntryView::Check { id: "autostart"@, text: tv[4], enabled: true, checked: autostart_enabled },
            MenuEntryView::Separator,
            MenuEntryView::Item { id: "quit"@, text: tv[5], enabled: true },
        ]);
    }
    let mut menu = head;
    let ghost m0 = menu@;
    menu.append(&mut body);
    let ghost m1 = menu@;
    menu.append(&mut note);
    let ghost m2 = menu@;
    menu.append(&mut tail);
    proof {
        let f = |e: MenuEntry| e@;
        assert(m1.map_values(f) =~= m0.map_values(f) + bv);
        assert(m2.map_values(f) =~= m1.map_values(f) + nv);
        assert(menu@.map_values(f) =~= m2.map_values(f) + tlv);
        assert(menu@.map_values(f) =~= tray_menu_spec(status, detection_enabled, autostart_enabled, *config));
    }
    menu
}

} // verus!

//! What the web user interface tells the host: preferences and sessions.

use vstd::prelude::*;

use crate::locale::NativeLocale;
use crate::sessions;
use crate::sessions::{validate_snapshot, SessionMenuSnapshot};
use crate::text::same_text;
use crate::ui::{MenuRendering, NativeUi, TrayMenu};
use crate::update::AppUpdateState;

verus! {

/// How the windows look.
#[derive(Clone, Copy, Debug, PartialEq, Eq, Structural)]
pub enum ThemePreference {
    Light,
    Dark,
    /// As the system does.
    System,
}

impl ThemePreference {
    /// The theme that a preference names.
    pub open spec fn named(value: Seq<char>) -> Option<ThemePreference> {
        if value == "light"@ {
            Some(ThemePreference::Light)
        } else if value == "dark"@ {
            Some(ThemePreference::Dark)
        } else if value == "system"@ {
            Some(ThemePreference::System)
        } else {
            None
        }
    }

    /// Reads a theme preference.
    pub fn parse(value: &str) -> (theme: Option<ThemePreference>)
        ensures
            theme == ThemePreference::named(value@),
    {
        if same_text(value, "light") {
            Some(ThemePreference::Light)
        } else if same_text(value, "dark") {
            Some(ThemePreference::Dark)
        } else if same_text(value, "system") {
            Some(ThemePreference::System)
        } else {
            None
        }
    }
}

/// What the host does on new preferences.
pub struct PreferencesApplied {
    pub theme: ThemePreference,
    pub rendering: MenuRendering,
    /// The automatic update check is due.
    pub check_for_updates: bool,
}

/// Why preferences are refused, where they are: the theme is looked at first, then
/// the language, then whether the menus are there yet.
pub open spec fn preferences_complaint(theme: Seq<char>, locale: Seq<char>, ready: bool) -> Option<
    Seq<char>,
> {
    if ThemePreference::named(theme) is None {
        Some("unsupported DSH theme preference"@)
    } else if NativeLocale::named(locale) is None {
        Some("unsupported DSH locale preference"@)
    } else if !ready {
        Some("native UI state is not ready"@)
    } else {
        None
    }
}

/// Applies preferences. The first ones that are applied bring the automatic update
/// check with them.
pub fn sync_dsh_preferences(state: &mut Option<AppUpdateState>, theme: &str, locale: &str) -> (applied:
    Result<PreferencesApplied, String>)
    ensures
        match preferences_complaint(theme@, locale@, *old(state) is Some) {
            Some(complaint) => {
                &&& *final(state) == *old(state)
                &&& applied matches Err(message)
                &&& message@ == complaint
            },
            None => {
                let before = old(state)->0;
                &&& *final(state) == Some(
                    AppUpdateState {
                        automatic_check_started: true,
                        ui: NativeUi { locale: NativeLocale::named(locale@)->0, ..before.ui },
                        ..before
                    },
                )
                &&& applied matches Ok(done)
                &&& done.theme == ThemePreference::named(theme@)->0
                &&& final(state)->0.ui.shown_by(done.rendering, !before.busy)
                &&& done.check_for_updates == !before.automatic_check_started
                &&& before.well_formed() ==> final(state)->0.well_formed()
            },
        },
{
    let theme = match ThemePreference::parse(theme) {
        Some(theme) => theme,
        None => {
            return Err("unsupported DSH theme preference".to_string());
        },
    };
    let locale = match NativeLocale::parse(locale) {
        Some(locale) => locale,
        None => {
            return Err("unsupported DSH locale preference".to_string());
        },
    };
    match state {
        None => Err("native UI state is not ready".to_string()),
        Some(state) => {
            let enabled = !state.busy;
            let rendering = state.ui.set_locale(locale, enabled);
            let check_for_updates = !state.automatic_check_started;
            state.automatic_check_started = true;
            Ok(PreferencesApplied { theme, rendering, check_for_updates })
        },
    }
}

/// Why sessions are refused, where they are.
pub open spec fn snapshot_complaint(
    window: Seq<char>,
    snapshot: SessionMenuSnapshot,
    ready: bool,
) -> Option<Seq<char>> {
    if window != "main"@ {
        Some("session snapshots are accepted only from the main window"@)
    } else if snapshot.revision == 0 {
        Some("invalid DSH session snapshot revision"@)
    } else if sessions::sessions_complaint(snapshot.sessions@) is Some {
        sessions::sessions_complaint(snapshot.sessions@)
    } else if !ready {
        Some("native UI state is not ready"@)
    } else {
        None
    }
}

/// Shows the sessions that the main window reports, and gives the new tray menu.
pub fn sync_dsh_sessions(
    state: &mut Option<AppUpdateState>,
    window: &str,
    snapshot: SessionMenuSnapshot,
) -> (shown: Result<TrayMenu, String>)
    ensures
        match snapshot_complaint(window@, snapshot, *old(state) is Some) {
            Some(complaint) => {
                &&& *final(state) == *old(state)
                &&& shown matches Err(message)
                &&& message@ == complaint
            },
            None => {
                let before = old(state)->0;
                &&& *final(state) == Some(
                    AppUpdateState { ui: NativeUi { snapshot, ..before.ui }, ..before },
                )
                &&& shown matches Ok(menu)
                &&& menu@ == final(state)->0.ui.tray(!before.busy)
                &&& before.well_formed() ==> final(state)->0.well_formed()
            },
        },
{
    if !same_text(window, "main") {
        return Err("session snapshots are accepted only from the main window".to_string());
    }
    if snapshot.revision == 0 {
        return Err("invalid DSH session snapshot revision".to_string());
    }
    match validate_snapshot(&snapshot) {
        Ok(_) => {},
        Err(complaint) => {
            return Err(complaint);
        },
    }
    match state {
        None => Err("native UI state is not ready".to_string()),
        Some(state) => {
            let enabled = !state.busy;
            Ok(state.ui.set_session_snapshot(snapshot, enabled))
        },
    }
}

/// The sessions of a backend that ended are no longer shown.
pub fn reset_sessions(state: &mut AppUpdateState) -> (menu: TrayMenu)
    ensures
        final(state).busy == old(state).busy,
        final(state).automatic_check_started == old(state).automatic_check_started,
        final(state).ui.locale == old(state).ui.locale,
        final(state).ui.update_status == old(state).ui.update_status,
        final(state).ui.snapshot.revision == 0,
        !final(state).ui.snapshot.ready,
        final(state).ui.snapshot.sessions@.len() == 0,
        menu@ == final(state).ui.tray(!old(state).busy),
        old(state).well_formed() ==> final(state).well_formed(),
{
    let enabled = !state.busy;
    state.ui.set_session_snapshot(SessionMenuSnapshot::default(), enabled)
}

/// A theme is light, dark or that of the system, and nothing else.
pub proof fn law_themes(value: Seq<char>)
    ensures
        ThemePreference::named("light"@) == Some(ThemePreference::Light),
        ThemePreference::named("dark"@) == Some(ThemePreference::Dark),
        ThemePreference::named("system"@) == Some(ThemePreference::System),
        ThemePreference::named(value) is Some ==> value == "light"@ || value == "dark"@ || value
            == "system"@,
{
    reveal_strlit("light");
    reveal_strlit("dark");
    reveal_strlit("system");
    assert("light"@[0] == 'l' && "dark"@[0] == 'd' && "system"@[0] == 's');
}

/// An unknown theme is refused whatever else is wrong, an unknown language where
/// the theme is known, and only what is sound waits for the menus.
pub proof fn law_order_of_preference_complaints(theme: Seq<char>, locale: Seq<char>, ready: bool)
    ensures
        ({
            let known_theme = theme == "light"@ || theme == "dark"@ || theme == "system"@;
            let known_locale = locale == "zh"@ || locale == "en"@;
            &&& !known_theme ==> preferences_complaint(theme, locale, ready) == Some(
                "unsupported DSH theme preference"@,
            )
            &&& known_theme && !known_locale ==> preferences_complaint(theme, locale, ready)
                == Some("unsupported DSH locale preference"@)
            &&& known_theme && known_locale && !ready ==> preferences_complaint(
                theme,
                locale,
                ready,
            ) == Some("native UI state is not ready"@)
            &&& known_theme && known_locale && ready ==> preferences_complaint(
                theme,
                locale,
                ready,
            ) is None
        }),
{
}

/// Sessions are taken from the main window alone, with a revision, and sound; only
/// then do they wait for the menus.
pub proof fn law_order_of_snapshot_complaints(
    window: Seq<char>,
    snapshot: SessionMenuSnapshot,
    ready: bool,
)
    ensures
        window != "main"@ ==> snapshot_complaint(window, snapshot, ready) == Some(
            "session snapshots are accepted only from the main window"@,
        ),
        window == "main"@ && snapshot.revision == 0 ==> snapshot_complaint(window, snapshot, ready)
            == Some("invalid DSH session snapshot revision"@),
        window == "main"@ && snapshot.revision > 0 ==> (sessions::sessions_complaint(
            snapshot.sessions@,
        ) matches Some(complaint) ==> snapshot_complaint(window, snapshot, ready) == Some(complaint)),
        window == "main"@ && snapshot.revision > 0 && sessions::sessions_complaint(
            snapshot.sessions@,
        ) is None ==> snapshot_complaint(window, snapshot, ready) == (if ready {
            None
        } else {
            Some("native UI state is not ready"@)
        }),
{
}

/// Preferences are applied where both are known and the menus are there: the menus
/// change their language and keep everything else, the theme is the one that was
/// named, and the first ones bring the automatic check with them. Otherwise nothing
/// changes.
pub proof fn law_applied_preferences(
    theme: &str,
    locale: &str,
    applied: Result<PreferencesApplied, String>,
)
    ensures
        forall|state: &mut Option<AppUpdateState>| #[trigger]
            call_ensures(sync_dsh_preferences, (state, theme, locale), applied) ==> {
                let known_theme = theme@ == "light"@ || theme@ == "dark"@ || theme@ == "system"@;
                let known_locale = locale@ == "zh"@ || locale@ == "en"@;
                &&& (applied is Ok) == (known_theme && known_locale && *state is Some)
                &&& applied is Err ==> *final(state) == *state
                &&& applied matches Ok(done) ==> {
                    let before = (*state)->0;
                    let after = (*final(state))->0;
                    &&& *final(state) is Some
                    &&& done.theme == ThemePreference::Light ==> theme@ == "light"@
                    &&& done.theme == ThemePreference::Dark ==> theme@ == "dark"@
                    &&& done.theme == ThemePreference::System ==> theme@ == "system"@
                    &&& (after.ui.locale == NativeLocale::Zh) == (locale@ == "zh"@)
                    &&& after.ui.snapshot == before.ui.snapshot
                    &&& after.ui.update_status == before.ui.update_status
                    &&& after.busy == before.busy
                    &&& after.automatic_check_started
                    &&& done.check_for_updates == !before.automatic_check_started
                    &&& after.ui.shown_by(done.rendering, !before.busy)
                }
            },
{
    law_themes(theme@);
    law_order_of_preference_complaints(theme@, locale@, true);
    law_order_of_preference_complaints(theme@, locale@, false);
    crate::locale::law_languages(0int, 0int, locale@);
    reveal_strlit("zh");
    reveal_strlit("en");
    assert("zh"@[0] == 'z' && "en"@[0] == 'e');
}

/// Sessions are shown where the main window reports them with a revision, they are
/// sound and the menus are there: then they replace those before them, and nothing
/// else changes. Otherwise nothing changes at all.
pub proof fn law_shown_sessions(
    window: &str,
    snapshot: SessionMenuSnapshot,
    shown: Result<TrayMenu, String>,
)
    ensures
        forall|state: &mut Option<AppUpdateState>| #[trigger]
            call_ensures(sync_dsh_sessions, (state, window, snapshot), shown) ==> {
                &&& (shown is Ok) == (window@ == "main"@ && snapshot.revision > 0
                    && sessions::sessions_complaint(snapshot.sessions@) is None && *state is Some)
                &&& shown is Err ==> *final(state) == *state
                &&& shown matches Ok(menu) ==> {
                    let before = (*state)->0;
                    let after = (*final(state))->0;
                    &&& *final(state) is Some
                    &&& after.ui.snapshot == snapshot
                    &&& after.ui.locale == before.ui.locale
                    &&& after.ui.update_status == before.ui.update_status
                    &&& after.busy == before.busy
                    &&& after.automatic_check_started == before.automatic_check_started
                    &&& menu@ == after.ui.tray(!before.busy)
                }
            },
{
}

/// The sessions of a backend that ended leave the menus, which wait for others then;
/// nothing else changes.
pub proof fn law_reset_sessions(menu: TrayMenu)
    ensures
        forall|state: &mut AppUpdateState| #[trigger]
            call_ensures(reset_sessions, (state,), menu) ==> {
                &&& !final(state).ui.snapshot.ready
                &&& final(state).ui.snapshot.sessions@.len() == 0
                &&& final(state).ui.snapshot.revision == 0
                &&& final(state).ui.locale == state.ui.locale
                &&& final(state).ui.update_status == state.ui.update_status
                &&& final(state).busy == state.busy
                &&& final(state).automatic_check_started == state.automatic_check_started
                &&& menu@.sessions.len() == 1
                &&& menu@.sessions[0] matches crate::ui::LineView::Item { enabled, .. } && !enabled
            },
{
}

} // verus!

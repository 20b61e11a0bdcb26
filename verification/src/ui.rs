//! The native menus: what they hold, what their items do, and how they follow the
//! state of the host.

use vstd::prelude::*;

use crate::json;
use crate::locale::NativeLocale;
use crate::sessions;
use crate::sessions::{select_sessions, session_menu_label, SessionMenuEntry, SessionMenuSnapshot};
use crate::text;
use crate::text::{decimal_text, same_text, text_after};

verus! {

// ---------------------------------------------------------------------------
// The update item
// ---------------------------------------------------------------------------

/// What the update item of the menus stands for.
#[derive(Clone, Copy, Debug, PartialEq, Eq, Structural)]
pub enum UpdateMenuStatus {
    Idle,
    Checking,
    /// With the percentage that is done, where it is known.
    Downloading(Option<u8>),
    Installing,
    Restarting,
}

/// The label of the update item.
pub open spec fn update_label(locale: NativeLocale, status: UpdateMenuStatus) -> Seq<char> {
    match status {
        UpdateMenuStatus::Idle => locale.pick("检查更新..."@, "Check for Updates..."@),
        UpdateMenuStatus::Checking => locale.pick("正在检查更新..."@, "Checking for Updates..."@),
        UpdateMenuStatus::Downloading(Some(percent)) => locale.pick(
            "正在下载更新... "@,
            "Downloading Update... "@,
        ) + text::decimal(percent as nat) + "%"@,
        UpdateMenuStatus::Downloading(None) => locale.pick(
            "正在下载更新..."@,
            "Downloading Update..."@,
        ),
        UpdateMenuStatus::Installing => locale.pick("正在安装更新..."@, "Installing Update..."@),
        UpdateMenuStatus::Restarting => locale.pick("正在重启..."@, "Restarting..."@),
    }
}

/// The label of the update item.
pub fn update_menu_label(locale: NativeLocale, status: UpdateMenuStatus) -> (label: String)
    ensures
        label@ == update_label(locale, status),
{
    match status {
        UpdateMenuStatus::Idle => locale.text("检查更新...", "Check for Updates...").to_string(),
        UpdateMenuStatus::Checking => locale.text(
            "正在检查更新...",
            "Checking for Updates...",
        ).to_string(),
        UpdateMenuStatus::Downloading(Some(percent)) => {
            let mut label = locale.text(
                "正在下载更新... ",
                "Downloading Update... ",
            ).to_string();
            label.append(decimal_text(percent as u64).as_str());
            label.append("%");
            label
        },
        UpdateMenuStatus::Downloading(None) => locale.text(
            "正在下载更新...",
            "Downloading Update...",
        ).to_string(),
        UpdateMenuStatus::Installing => locale.text(
            "正在安装更新...",
            "Installing Update...",
        ).to_string(),
        UpdateMenuStatus::Restarting => locale.text("正在重启...", "Restarting...").to_string(),
    }
}

// ---------------------------------------------------------------------------
// The tray menu
// ---------------------------------------------------------------------------

/// One line of a menu.
pub enum MenuLine {
    Item { id: String, label: String, enabled: bool },
    Separator,
}

/// The contents of a [`MenuLine`].
pub enum LineView {
    Item { id: Seq<char>, label: Seq<char>, enabled: bool },
    Separator,
}

impl View for MenuLine {
    type V = LineView;

    open spec fn view(&self) -> LineView {
        match self {
            MenuLine::Item { id, label, enabled } => LineView::Item {
                id: id@,
                label: label@,
                enabled: *enabled,
            },
            MenuLine::Separator => LineView::Separator,
        }
    }
}

/// The contents of some lines.
pub open spec fn line_views(lines: Seq<MenuLine>) -> Seq<LineView> {
    lines.map_values(|line: MenuLine| line@)
}

/// The tray menu: the lines on sessions, a submenu with more of them, and the
/// lines after it.
pub struct TrayMenu {
    pub sessions: Vec<MenuLine>,
    pub more_label: &'static str,
    pub more: Vec<MenuLine>,
    pub footer: Vec<MenuLine>,
}

/// The contents of a [`TrayMenu`].
pub struct TrayView {
    pub sessions: Seq<LineView>,
    pub more_label: Seq<char>,
    pub more: Seq<LineView>,
    pub footer: Seq<LineView>,
}

impl View for TrayMenu {
    type V = TrayView;

    open spec fn view(&self) -> TrayView {
        TrayView {
            sessions: line_views(self.sessions@),
            more_label: self.more_label@,
            more: line_views(self.more@),
            footer: line_views(self.footer@),
        }
    }
}

/// The id of the item for a session.
pub open spec fn session_item_id(id: Seq<char>) -> Seq<char> {
    "session:"@ + id
}

/// The item for a session.
pub open spec fn session_line(locale: NativeLocale, session: SessionMenuEntry) -> LineView {
    LineView::Item {
        id: session_item_id(session.id@),
        label: sessions::session_label(locale, session),
        enabled: true,
    }
}

/// The items for some sessions.
pub open spec fn session_lines(locale: NativeLocale, entries: Seq<SessionMenuEntry>) -> Seq<
    LineView,
> {
    entries.map_values(|entry: SessionMenuEntry| session_line(locale, entry))
}

/// The lines on sessions: the most urgent ones, or why there are none.
pub open spec fn top_lines(locale: NativeLocale, snapshot: SessionMenuSnapshot) -> Seq<LineView> {
    let top = sessions::top_sessions(snapshot.sessions@);
    if !snapshot.ready {
        seq![
            LineView::Item {
                id: "sessions-loading"@,
                label: locale.pick("正在连接 Harness..."@, "Connecting to Harness..."@),
                enabled: false,
            },
        ]
    } else if top.len() == 0 {
        seq![
            LineView::Item {
                id: "sessions-empty"@,
                label: locale.pick("暂无会话"@, "No Sessions"@),
                enabled: false,
            },
        ]
    } else {
        session_lines(locale, top)
    }
}

/// The submenu: the recent sessions among the others, and a way to all of them.
pub open spec fn more_lines(locale: NativeLocale, snapshot: SessionMenuSnapshot) -> Seq<LineView> {
    let history = sessions::history_sessions(snapshot.sessions@);
    let listed = if history.len() == 0 {
        seq![
            LineView::Item {
                id: "history-empty"@,
                label: locale.pick("暂无更多会话"@, "No More Sessions"@),
                enabled: false,
            },
        ]
    } else {
        session_lines(locale, history)
    };
    listed + seq![
        LineView::Separator,
        LineView::Item {
            id: "show-all"@,
            label: locale.pick("在 Harness 中查看全部..."@, "View All in Harness..."@),
            enabled: true,
        },
    ]
}

/// The lines after the submenu.
pub open spec fn footer_lines(
    locale: NativeLocale,
    ready: bool,
    status: UpdateMenuStatus,
    update_enabled: bool,
) -> Seq<LineView> {
    seq![
        LineView::Separator,
        LineView::Item {
            id: "show"@,
            label: locale.pick("打开 Harness"@, "Open Harness"@),
            enabled: true,
        },
        LineView::Item {
            id: "new-session"@,
            label: locale.pick("新建会话"@, "New Session"@),
            enabled: ready,
        },
        LineView::Separator,
        LineView::Item {
            id: "update"@,
            label: update_label(locale, status),
            enabled: update_enabled,
        },
        LineView::Item {
            id: "quit"@,
            label: locale.pick("退出 OpenHarness"@, "Quit OpenHarness"@),
            enabled: true,
        },
    ]
}

/// The whole tray menu.
pub open spec fn tray_menu(
    locale: NativeLocale,
    snapshot: SessionMenuSnapshot,
    status: UpdateMenuStatus,
    update_enabled: bool,
) -> TrayView {
    TrayView {
        sessions: top_lines(locale, snapshot),
        more_label: locale.pick("更多会话"@, "More Sessions"@),
        more: more_lines(locale, snapshot),
        footer: footer_lines(locale, snapshot.ready, status, update_enabled),
    }
}

fn item(id: &str, label: &str, enabled: bool) -> (line: MenuLine)
    ensures
        line@ == (LineView::Item { id: id@, label: label@, enabled }),
{
    MenuLine::Item { id: id.to_owned(), label: label.to_owned(), enabled }
}

fn session_items(locale: NativeLocale, entries: &Vec<&SessionMenuEntry>) -> (lines: Vec<MenuLine>)
    ensures
        line_views(lines@) == session_lines(locale, sessions::referred(entries@)),
{
    let mut lines: Vec<MenuLine> = Vec::new();
    let ghost all = session_lines(locale, sessions::referred(entries@));
    let mut i: usize = 0;
    while i < entries.len()
        invariant
            i <= entries@.len(),
            all == session_lines(locale, sessions::referred(entries@)),
            line_views(lines@) == all.take(i as int),
        decreases entries@.len() - i,
    {
        let ghost before = lines@;
        let mut id = "session:".to_string();
        id.append(entries[i].id.as_str());
        let line = MenuLine::Item { id, label: session_menu_label(locale, entries[i]), enabled: true };
        lines.push(line);
        proof {
            assert(line@ == all[i as int]);
            assert(line_views(lines@) == line_views(before).push(line@));
        }
        i = i + 1;
    }
    assert(all.take(i as int) == all);
    lines
}

/// Builds the tray menu: sessions first, then a submenu with more of them, then
/// what concerns the host.
pub fn build_tray_menu(
    locale: NativeLocale,
    snapshot: &SessionMenuSnapshot,
    update_status: UpdateMenuStatus,
    update_enabled: bool,
) -> (menu: TrayMenu)
    ensures
        menu@ == tray_menu(locale, *snapshot, update_status, update_enabled),
{
    let (top, history) = select_sessions(snapshot.sessions.as_slice());
    proof {
        assert(sessions::referred(top@).len() == top@.len());
        assert(sessions::referred(history@).len() == history@.len());
    }
    let mut session_part: Vec<MenuLine> = Vec::new();
    if !snapshot.ready {
        session_part.push(
            item(
                "sessions-loading",
                locale.text("正在连接 Harness...", "Connecting to Harness..."),
                false,
            ),
        );
    } else if top.is_empty() {
        session_part.push(item("sessions-empty", locale.text("暂无会话", "No Sessions"), false));
    } else {
        session_part = session_items(locale, &top);
    }
    assert(line_views(session_part@) =~= top_lines(locale, *snapshot));

    let mut more: Vec<MenuLine> = Vec::new();
    if history.is_empty() {
        more.push(
            item("history-empty", locale.text("暂无更多会话", "No More Sessions"), false),
        );
    } else {
        more = session_items(locale, &history);
    }
    let ghost listed = line_views(more@);
    more.push(MenuLine::Separator);
    more.push(
        item("show-all", locale.text("在 Harness 中查看全部...", "View All in Harness..."), true),
    );
    proof {
        let history_views = sessions::history_sessions(snapshot.sessions@);
        if history_views.len() == 0 {
            assert(listed =~= seq![
                LineView::Item {
                    id: "history-empty"@,
                    label: locale.pick("暂无更多会话"@, "No More Sessions"@),
                    enabled: false,
                },
            ]);
        }
        assert(line_views(more@) =~= listed + seq![
            LineView::Separator,
            LineView::Item {
                id: "show-all"@,
                label: locale.pick("在 Harness 中查看全部..."@, "View All in Harness..."@),
                enabled: true,
            },
        ]);
        assert(line_views(more@) =~= more_lines(locale, *snapshot));
    }

    let mut footer: Vec<MenuLine> = Vec::new();
    footer.push(MenuLine::Separator);
    footer.push(item("show", locale.text("打开 Harness", "Open Harness"), true));
    footer.push(item("new-session", locale.text("新建会话", "New Session"), snapshot.ready));
    footer.push(MenuLine::Separator);
    footer.push(
        item("update", update_menu_label(locale, update_status).as_str(), update_enabled),
    );
    footer.push(item("quit", locale.text("退出 OpenHarness", "Quit OpenHarness"), true));
    assert(line_views(footer@) =~= footer_lines(
        locale,
        snapshot.ready,
        update_status,
        update_enabled,
    ));
    TrayMenu {
        sessions: session_part,
        more_label: locale.text("更多会话", "More Sessions"),
        more,
        footer,
    }
}

/// What an item of the tray menu does.
pub enum TrayAction {
    OpenSession(String),
    ShowWindow,
    NewSession,
    CheckForUpdates,
    Quit,
    Nothing,
}

/// What the item with an id does.
pub open spec fn does(action: TrayAction, id: Seq<char>) -> bool {
    if text::starts_with(id, "session:"@) {
        action matches TrayAction::OpenSession(session) && session@ == id.skip(
            "session:"@.len() as int,
        )
    } else if id == "show"@ || id == "show-all"@ {
        action is ShowWindow
    } else if id == "new-session"@ {
        action is NewSession
    } else if id == "update"@ {
        action is CheckForUpdates
    } else if id == "quit"@ {
        action is Quit
    } else {
        action is Nothing
    }
}

/// What the item of the tray menu with an id does.
pub fn tray_action(id: &str) -> (action: TrayAction)
    ensures
        does(action, id@),
{
    match text_after(id, "session:") {
        Some(session) => {
            return TrayAction::OpenSession(session);
        },
        None => {},
    }
    if same_text(id, "show") || same_text(id, "show-all") {
        TrayAction::ShowWindow
    } else if same_text(id, "new-session") {
        TrayAction::NewSession
    } else if same_text(id, "update") {
        TrayAction::CheckForUpdates
    } else if same_text(id, "quit") {
        TrayAction::Quit
    } else {
        TrayAction::Nothing
    }
}

/// Selecting the item for a session opens that session, whatever its id is.
pub proof fn law_session_items_open_their_session(id: Seq<char>, action: TrayAction)
    requires
        does(action, session_item_id(id)),
    ensures
        action matches TrayAction::OpenSession(session) && session@ == id,
{
    let item = session_item_id(id);
    assert(item.take("session:"@.len() as int) == "session:"@);
    assert(item.skip("session:"@.len() as int) == id);
}

/// Selecting the line does something.
pub open spec fn acts(line: LineView) -> bool {
    line matches LineView::Item { id, .. } && forall|action: TrayAction|
        #![trigger does(action, id)]
        does(action, id) ==> !(action is Nothing)
}

proof fn lemma_session_lines_act(locale: NativeLocale, entries: Seq<SessionMenuEntry>)
    ensures
        forall|i: int|
            0 <= i < session_lines(locale, entries).len() ==> acts(
                #[trigger] session_lines(locale, entries)[i],
            ),
{
    assert forall|i: int| 0 <= i < entries.len() implies acts(
        #[trigger] session_lines(locale, entries)[i],
    ) by {
        let item = session_item_id(entries[i].id@);
        assert(item.take("session:"@.len() as int) == "session:"@);
    }
}

/// Every item of the tray menu that can be selected does something.
pub proof fn law_enabled_items_act(
    locale: NativeLocale,
    snapshot: SessionMenuSnapshot,
    status: UpdateMenuStatus,
    update_enabled: bool,
)
    ensures
        ({
            let menu = tray_menu(locale, snapshot, status, update_enabled);
            let lines = menu.sessions + menu.more + menu.footer;
            forall|i: int|
                0 <= i < lines.len() ==> match #[trigger] lines[i] {
                    LineView::Item { enabled, .. } => enabled ==> acts(lines[i]),
                    LineView::Separator => true,
                }
        }),
{
    lemma_session_lines_act(locale, sessions::top_sessions(snapshot.sessions@));
    lemma_session_lines_act(locale, sessions::history_sessions(snapshot.sessions@));
    let menu = tray_menu(locale, snapshot, status, update_enabled);
    let lines = menu.sessions + menu.more + menu.footer;
    assert forall|i: int| 0 <= i < lines.len() implies match #[trigger] lines[i] {
        LineView::Item { enabled, .. } => enabled ==> acts(lines[i]),
        LineView::Separator => true,
    } by {
        let first = menu.sessions.len();
        let second = first + menu.more.len();
        if i < first {
            assert(lines[i] == menu.sessions[i]);
        } else if i < second {
            assert(lines[i] == menu.more[i - first]);
        } else {
            assert(lines[i] == menu.footer[i - second]);
        }
    }
}

// ---------------------------------------------------------------------------
// The application menu
// ---------------------------------------------------------------------------

/// An item of the application menu.
#[derive(Clone, Copy, Debug, PartialEq, Eq, Structural)]
pub enum AppMenuEntry {
    About,
    Update,
    Services,
    Hide,
    HideOthers,
    Quit,
    Separator,
}

/// The items of the application menu from top to bottom.
pub fn app_menu_layout() -> (layout: Vec<AppMenuEntry>)
    ensures
        layout@ == seq![
            AppMenuEntry::About,
            AppMenuEntry::Separator,
            AppMenuEntry::Update,
            AppMenuEntry::Separator,
            AppMenuEntry::Services,
            AppMenuEntry::Separator,
            AppMenuEntry::Hide,
            AppMenuEntry::HideOthers,
            AppMenuEntry::Separator,
            AppMenuEntry::Quit,
        ],
{
    let mut layout: Vec<AppMenuEntry> = Vec::new();
    layout.push(AppMenuEntry::About);
    layout.push(AppMenuEntry::Separator);
    layout.push(AppMenuEntry::Update);
    layout.push(AppMenuEntry::Separator);
    layout.push(AppMenuEntry::Services);
    layout.push(AppMenuEntry::Separator);
    layout.push(AppMenuEntry::Hide);
    layout.push(AppMenuEntry::HideOthers);
    layout.push(AppMenuEntry::Separator);
    layout.push(AppMenuEntry::Quit);
    layout
}

/// The label of an item of the application menu; separators have none.
pub open spec fn app_label(
    locale: NativeLocale,
    status: UpdateMenuStatus,
    entry: AppMenuEntry,
) -> Seq<char> {
    match entry {
        AppMenuEntry::About => locale.pick("关于 OpenHarness"@, "About OpenHarness"@),
        AppMenuEntry::Update => update_label(locale, status),
        AppMenuEntry::Services => locale.pick("服务"@, "Services"@),
        AppMenuEntry::Hide => locale.pick("隐藏 OpenHarness"@, "Hide OpenHarness"@),
        AppMenuEntry::HideOthers => locale.pick("隐藏其他"@, "Hide Others"@),
        AppMenuEntry::Quit => locale.pick("退出 OpenHarness"@, "Quit OpenHarness"@),
        AppMenuEntry::Separator => ""@,
    }
}

/// The label of an item of the application menu; separators have none.
pub fn app_menu_label(locale: NativeLocale, status: UpdateMenuStatus, entry: AppMenuEntry) -> (label:
    String)
    ensures
        label@ == app_label(locale, status, entry),
{
    match entry {
        AppMenuEntry::About => locale.text("关于 OpenHarness", "About OpenHarness").to_string(),
        AppMenuEntry::Update => update_menu_label(locale, status),
        AppMenuEntry::Services => locale.text("服务", "Services").to_string(),
        AppMenuEntry::Hide => locale.text("隐藏 OpenHarness", "Hide OpenHarness").to_string(),
        AppMenuEntry::HideOthers => locale.text("隐藏其他", "Hide Others").to_string(),
        AppMenuEntry::Quit => locale.text("退出 OpenHarness", "Quit OpenHarness").to_string(),
        AppMenuEntry::Separator => "".to_string(),
    }
}

/// The id of the update item of the application menu.
pub fn app_update_menu_id() -> (id: &'static str)
    ensures
        id@ == "app-update"@,
{
    "app-update"
}

/// Whether an item of the application menu asks for an update check.
pub fn is_app_update(id: &str) -> (update: bool)
    ensures
        update == (id@ == "app-update"@),
{
    same_text(id, app_update_menu_id())
}

// ---------------------------------------------------------------------------
// Actions that the web user interface performs
// ---------------------------------------------------------------------------

/// What the web user interface is told of an action.
pub open spec fn action_detail(action: Seq<char>, session: Option<Seq<char>>) -> json::JsonTree {
    json::JsonTree::Table(
        json::text_table(
            match session {
                Some(session) => seq![("type"@, action), ("sessionId"@, session)],
                None => seq![("type"@, action)],
            },
        ),
    )
}

/// The script that hands an action to the web user interface.
pub fn harness_action_script(action: &str, session_id: Option<&str>) -> (script: String)
    ensures
        script@ == "window.dispatchEvent(new CustomEvent(\"openharness:native-action\", { detail: "@
            + json::json_text(action_detail(action@, text::opt_str(session_id))) + " }));"@,
        json::json_reading(json::json_text(action_detail(action@, text::opt_str(session_id))))
            == json::read_as(action_detail(action@, text::opt_str(session_id))),
{
    let mut entries: Vec<(String, String)> = Vec::new();
    entries.push(("type".to_string(), action.to_owned()));
    match session_id {
        Some(session) => {
            entries.push(("sessionId".to_string(), session.to_owned()));
        },
        None => {},
    }
    let ghost listed = entries@.map_values(|entry: (String, String)| (entry.0@, entry.1@));
    proof {
        match text::opt_str(session_id) {
            Some(session) => {
                assert(listed =~= seq![("type"@, action@), ("sessionId"@, session)]);
            },
            None => {
                assert(listed =~= seq![("type"@, action@)]);
            },
        }
        reveal_strlit("type");
        reveal_strlit("sessionId");
        lemma_text_table(listed);
        assert("type"@.len() != "sessionId"@.len());
        assert forall|i: int, j: int| 0 <= i < j < entries@.len() implies (
        #[trigger] entries@[i]).0@ != (#[trigger] entries@[j]).0@ by {
            assert(listed[i].0 == entries@[i].0@ && listed[j].0 == entries@[j].0@);
        }
    }
    let detail = json::table_of_texts(entries);
    let mut script =
        "window.dispatchEvent(new CustomEvent(\"openharness:native-action\", { detail: ".to_string();
    script.append(json::write_value(&detail).as_str());
    script.append(" }));");
    script
}

proof fn lemma_text_table(entries: Seq<(Seq<char>, Seq<char>)>)
    requires
        forall|i: int|
            0 <= i < entries.len() ==> (#[trigger] entries[i]).0.len() > 0 && entries[i].0[0] != '$',
    ensures
        json::is_text_table(json::JsonTree::Table(json::text_table(entries))),
    decreases entries.len(),
{
    if entries.len() > 0 {
        let init = entries.drop_last();
        assert forall|i: int| 0 <= i < init.len() implies (#[trigger] init[i]).0.len() > 0
            && init[i].0[0] != '$' by {
            assert(init[i] == entries[i]);
        }
        lemma_text_table(init);
        let key = entries[entries.len() - 1].0;
        reveal_strlit("$serde_json::private::");
        assert(key[0] != '$');
        assert(text::starts_with(key, "$serde_json::private::"@) ==> key.take(22)[0] == '$');
    }
}

/// The web user interface can tell the action and the session from each other:
/// what it is told holds both, and nothing else.
pub proof fn law_actions_are_told_exactly(action: Seq<char>, session: Option<Seq<char>>)
    ensures
        json::table_entry(action_detail(action, session), "type"@) == Some(
            json::JsonTree::Text(action),
        ),
        json::table_entry(action_detail(action, session), "sessionId"@) == (match session {
            Some(session) => Some(json::JsonTree::Text(session)),
            None => None,
        }),
        action_detail(action, session) matches json::JsonTree::Table(members)
            && forall|key: Seq<char>| #[trigger]
            members.contains_key(key) ==> key == "type"@ || key == "sessionId"@,
{
    reveal_strlit("type");
    reveal_strlit("sessionId");
    assert("type"@.len() != "sessionId"@.len());
    reveal_with_fuel(json::text_table, 3);
    match session {
        Some(session) => {
            let entries = seq![("type"@, action), ("sessionId"@, session)];
            assert(entries.drop_last() =~= seq![("type"@, action)]);
            assert(entries.drop_last().drop_last() =~= Seq::<(Seq<char>, Seq<char>)>::empty());
        },
        None => {
            let entries = seq![("type"@, action)];
            assert(entries.drop_last() =~= Seq::<(Seq<char>, Seq<char>)>::empty());
        },
    }
}

// ---------------------------------------------------------------------------
// The user interface as a whole
// ---------------------------------------------------------------------------

/// What the menus show.
pub struct NativeUi {
    pub locale: NativeLocale,
    pub update_status: UpdateMenuStatus,
    pub snapshot: SessionMenuSnapshot,
}

/// How the update item of the application menu and the tray menu look.
pub struct MenuRendering {
    pub update_label: String,
    pub update_enabled: bool,
    pub tray: TrayMenu,
}

impl NativeUi {
    /// The menus before anything happened.
    pub fn new(locale: NativeLocale) -> (ui: NativeUi)
        ensures
            ui.locale == locale,
            ui.update_status == UpdateMenuStatus::Idle,
            ui.snapshot.revision == 0,
            !ui.snapshot.ready,
            ui.snapshot.sessions@.len() == 0,
    {
        NativeUi {
            locale,
            update_status: UpdateMenuStatus::Idle,
            snapshot: SessionMenuSnapshot::default(),
        }
    }

    /// The tray menu as it should look.
    pub open spec fn tray(self, update_enabled: bool) -> TrayView {
        tray_menu(self.locale, self.snapshot, self.update_status, update_enabled)
    }

    /// A rendering shows what the menus hold.
    pub open spec fn shown_by(self, rendering: MenuRendering, update_enabled: bool) -> bool {
        &&& rendering.update_label@ == update_label(self.locale, self.update_status)
        &&& rendering.update_enabled == update_enabled
        &&& rendering.tray@ == self.tray(update_enabled)
    }

    /// Builds the tray menu.
    pub fn rebuild(&self, update_enabled: bool) -> (menu: TrayMenu)
        ensures
            menu@ == self.tray(update_enabled),
    {
        build_tray_menu(self.locale, &self.snapshot, self.update_status, update_enabled)
    }

    /// Renders the update item and the tray menu.
    pub fn render_update_status(&self, enabled: bool) -> (rendering: MenuRendering)
        ensures
            self.shown_by(rendering, enabled),
    {
        MenuRendering {
            update_label: update_menu_label(self.locale, self.update_status),
            update_enabled: enabled,
            tray: self.rebuild(enabled),
        }
    }

    /// The update item stands for something else.
    pub fn set_update_status(&mut self, status: UpdateMenuStatus, enabled: bool) -> (rendering:
        MenuRendering)
        ensures
            *final(self) == (NativeUi { update_status: status, ..*old(self) }),
            final(self).shown_by(rendering, enabled),
    {
        self.update_status = status;
        self.render_update_status(enabled)
    }

    /// The menus change their language.
    pub fn set_locale(&mut self, locale: NativeLocale, update_enabled: bool) -> (rendering:
        MenuRendering)
        ensures
            *final(self) == (NativeUi { locale, ..*old(self) }),
            final(self).shown_by(rendering, update_enabled),
    {
        self.locale = locale;
        self.render_update_status(update_enabled)
    }

    /// The sessions changed.
    pub fn set_session_snapshot(&mut self, snapshot: SessionMenuSnapshot, update_enabled: bool) -> (menu:
        TrayMenu)
        ensures
            *final(self) == (NativeUi { snapshot, ..*old(self) }),
            menu@ == final(self).tray(update_enabled),
    {
        self.snapshot = snapshot;
        self.rebuild(update_enabled)
    }
}

// ---------------------------------------------------------------------------
// What the menus promise
// ---------------------------------------------------------------------------

/// The update item says what is under way, in both languages; a download says how
/// far it has come where that is known.
pub proof fn law_update_labels(percent: u8)
    ensures
        update_label(NativeLocale::Zh, UpdateMenuStatus::Idle) == "检查更新..."@,
        update_label(NativeLocale::En, UpdateMenuStatus::Idle) == "Check for Updates..."@,
        update_label(NativeLocale::Zh, UpdateMenuStatus::Checking) == "正在检查更新..."@,
        update_label(NativeLocale::En, UpdateMenuStatus::Checking) == "Checking for Updates..."@,
        update_label(NativeLocale::Zh, UpdateMenuStatus::Downloading(None))
            == "正在下载更新..."@,
        update_label(NativeLocale::En, UpdateMenuStatus::Downloading(None))
            == "Downloading Update..."@,
        update_label(NativeLocale::Zh, UpdateMenuStatus::Installing) == "正在安装更新..."@,
        update_label(NativeLocale::En, UpdateMenuStatus::Installing) == "Installing Update..."@,
        update_label(NativeLocale::Zh, UpdateMenuStatus::Restarting) == "正在重启..."@,
        update_label(NativeLocale::En, UpdateMenuStatus::Restarting) == "Restarting..."@,
        update_label(NativeLocale::Zh, UpdateMenuStatus::Downloading(Some(percent)))
            == "正在下载更新... "@ + text::decimal(percent as nat) + seq!['%'],
        update_label(NativeLocale::En, UpdateMenuStatus::Downloading(Some(percent)))
            == "Downloading Update... "@ + text::decimal(percent as nat) + seq!['%'],
{
    reveal_strlit("%");
    assert("%"@ =~= seq!['%']);
}

/// Downloads that have come to different percentages are labelled differently.
pub proof fn law_percentages_are_told_apart(locale: NativeLocale, a: u8, b: u8)
    requires
        a != b,
    ensures
        update_label(locale, UpdateMenuStatus::Downloading(Some(a))) != update_label(
            locale,
            UpdateMenuStatus::Downloading(Some(b)),
        ),
{
    let start = locale.pick("正在下载更新... "@, "Downloading Update... "@);
    let left = update_label(locale, UpdateMenuStatus::Downloading(Some(a)));
    let right = update_label(locale, UpdateMenuStatus::Downloading(Some(b)));
    reveal_strlit("%");
    text::law_decimal_round_trip(a as nat);
    text::law_decimal_round_trip(b as nat);
    let n = start.len() as int;
    assert(left.subrange(n, left.len() - 1) =~= text::decimal(a as nat));
    assert(right.subrange(n, right.len() - 1) =~= text::decimal(b as nat));
}

/// The lines on sessions: while the sessions are not known, or there are none, one
/// line that cannot be selected says so; otherwise there is a line for each of the
/// most urgent ones, in their order, which can be selected, is labelled with the
/// session, and opens it.
pub proof fn law_session_part_of_the_tray(
    locale: NativeLocale,
    snapshot: SessionMenuSnapshot,
    status: UpdateMenuStatus,
    update_enabled: bool,
)
    ensures
        ({
            let lines = tray_menu(locale, snapshot, status, update_enabled).sessions;
            let top = sessions::top_sessions(snapshot.sessions@);
            &&& !snapshot.ready ==> lines.len() == 1 && lines[0] == (LineView::Item {
                id: "sessions-loading"@,
                label: if locale == NativeLocale::Zh {
                    "正在连接 Harness..."@
                } else {
                    "Connecting to Harness..."@
                },
                enabled: false,
            })
            &&& snapshot.ready && snapshot.sessions@.len() == 0 ==> lines.len() == 1 && lines[0]
                == (LineView::Item {
                id: "sessions-empty"@,
                label: if locale == NativeLocale::Zh {
                    "暂无会话"@
                } else {
                    "No Sessions"@
                },
                enabled: false,
            })
            &&& snapshot.ready && snapshot.sessions@.len() > 0 ==> lines.len() == top.len()
                && forall|i: int|
                0 <= i < top.len() ==> #[trigger] lines[i] == (LineView::Item {
                    id: "session:"@ + top[i].id@,
                    label: sessions::session_label(locale, top[i]),
                    enabled: true,
                })
        }),
{
    sessions::law_menu_sizes(snapshot.sessions@);
}

/// The submenu: a line for each of the recent sessions among the others, in their
/// order, or one that says that there are none; then, behind a separator, a way to
/// all of them.
pub proof fn law_submenu_of_the_tray(
    locale: NativeLocale,
    snapshot: SessionMenuSnapshot,
    status: UpdateMenuStatus,
    update_enabled: bool,
)
    ensures
        ({
            let menu = tray_menu(locale, snapshot, status, update_enabled);
            let lines = menu.more;
            let history = sessions::history_sessions(snapshot.sessions@);
            let listed = if history.len() > 0 {
                history.len() as int
            } else {
                1
            };
            &&& menu.more_label == (if locale == NativeLocale::Zh {
                "更多会话"@
            } else {
                "More Sessions"@
            })
            &&& lines.len() == listed + 2
            &&& history.len() == 0 ==> lines[0] == (LineView::Item {
                id: "history-empty"@,
                label: if locale == NativeLocale::Zh {
                    "暂无更多会话"@
                } else {
                    "No More Sessions"@
                },
                enabled: false,
            })
            &&& forall|i: int|
                0 <= i < history.len() ==> #[trigger] lines[i] == (LineView::Item {
                    id: "session:"@ + history[i].id@,
                    label: sessions::session_label(locale, history[i]),
                    enabled: true,
                })
            &&& lines[listed] is Separator
            &&& lines[listed + 1] == (LineView::Item {
                id: "show-all"@,
                label: if locale == NativeLocale::Zh {
                    "在 Harness 中查看全部..."@
                } else {
                    "View All in Harness..."@
                },
                enabled: true,
            })
        }),
{
}

/// Below the submenu the window can always be opened and the host always be left;
/// a session can be started once the sessions are known, and an update be asked for
/// where the caller allows it.
pub proof fn law_footer_of_the_tray(
    locale: NativeLocale,
    snapshot: SessionMenuSnapshot,
    status: UpdateMenuStatus,
    update_enabled: bool,
)
    ensures
        ({
            let lines = tray_menu(locale, snapshot, status, update_enabled).footer;
            let zh = locale == NativeLocale::Zh;
            &&& lines.len() == 6
            &&& lines[0] is Separator && lines[3] is Separator
            &&& lines[1] == (LineView::Item {
                id: "show"@,
                label: if zh {
                    "打开 Harness"@
                } else {
                    "Open Harness"@
                },
                enabled: true,
            })
            &&& lines[2] == (LineView::Item {
                id: "new-session"@,
                label: if zh {
                    "新建会话"@
                } else {
                    "New Session"@
                },
                enabled: snapshot.ready,
            })
            &&& lines[4] == (LineView::Item {
                id: "update"@,
                label: update_label(locale, status),
                enabled: update_enabled,
            })
            &&& lines[5] == (LineView::Item {
                id: "quit"@,
                label: if zh {
                    "退出 OpenHarness"@
                } else {
                    "Quit OpenHarness"@
                },
                enabled: true,
            })
        }),
{
}

/// What the items of the tray menu do: those for sessions open the session whose id
/// they hold, the others do what they are there for, and an unknown one nothing.
pub proof fn law_items_of_the_tray_act(action: TrayAction, id: Seq<char>, session: Seq<char>)
    requires
        does(action, id),
    ensures
        id == "session:"@ + session ==> (action matches TrayAction::OpenSession(opened) && opened@
            == session),
        id == "show"@ || id == "show-all"@ ==> action is ShowWindow,
        id == "new-session"@ ==> action is NewSession,
        id == "update"@ ==> action is CheckForUpdates,
        id == "quit"@ ==> action is Quit,
        action is OpenSession ==> text::starts_with(id, "session:"@),
        action is ShowWindow ==> id == "show"@ || id == "show-all"@,
        action is NewSession ==> id == "new-session"@,
        action is CheckForUpdates ==> id == "update"@,
        action is Quit ==> id == "quit"@,
{
    reveal_strlit("session:");
    reveal_strlit("show");
    reveal_strlit("show-all");
    reveal_strlit("new-session");
    reveal_strlit("update");
    reveal_strlit("quit");
    let prefix = "session:"@;
    assert(prefix.len() == 8 && prefix[0] == 's' && prefix[1] == 'e');
    if id == prefix + session {
        assert(id.take(8) =~= prefix);
        assert(id.skip(8) =~= session);
    }
    if text::starts_with(id, prefix) {
        assert(id.take(8)[0] == id[0] && id.take(8)[1] == id[1]);
    }
    assert("show"@.len() == 4 && "quit"@.len() == 4 && "show"@[0] == 's' && "quit"@[0] == 'q');
    assert("show-all"@.len() == 8 && "show-all"@[1] == 'h');
    assert("new-session"@.len() == 11 && "update"@.len() == 6);
    assert("new-session"@[0] == 'n' && "update"@[0] == 'u');
}

/// The labels of the application menu, in both languages.
pub proof fn law_labels_of_the_application_menu(status: UpdateMenuStatus, locale: NativeLocale)
    ensures
        app_label(NativeLocale::Zh, status, AppMenuEntry::About) == "关于 OpenHarness"@,
        app_label(NativeLocale::En, status, AppMenuEntry::About) == "About OpenHarness"@,
        app_label(NativeLocale::Zh, status, AppMenuEntry::Services) == "服务"@,
        app_label(NativeLocale::En, status, AppMenuEntry::Services) == "Services"@,
        app_label(NativeLocale::Zh, status, AppMenuEntry::Hide) == "隐藏 OpenHarness"@,
        app_label(NativeLocale::En, status, AppMenuEntry::Hide) == "Hide OpenHarness"@,
        app_label(NativeLocale::Zh, status, AppMenuEntry::HideOthers) == "隐藏其他"@,
        app_label(NativeLocale::En, status, AppMenuEntry::HideOthers) == "Hide Others"@,
        app_label(NativeLocale::Zh, status, AppMenuEntry::Quit) == "退出 OpenHarness"@,
        app_label(NativeLocale::En, status, AppMenuEntry::Quit) == "Quit OpenHarness"@,
        app_label(locale, status, AppMenuEntry::Update) == update_label(locale, status),
        app_label(locale, status, AppMenuEntry::Separator).len() == 0,
{
    reveal_strlit("");
}

/// A rendering of the menus is in their language, labels both update items alike,
/// allows both or neither to be selected, and shows the sessions that are known.
pub proof fn law_renderings_are_consistent(
    ui: NativeUi,
    rendering: MenuRendering,
    update_enabled: bool,
)
    requires
        ui.shown_by(rendering, update_enabled),
    ensures
        rendering.update_label@ == update_label(ui.locale, ui.update_status),
        rendering.update_enabled == update_enabled,
        rendering.tray@ == tray_menu(ui.locale, ui.snapshot, ui.update_status, update_enabled),
        rendering.tray@.footer[4] == (LineView::Item {
            id: "update"@,
            label: rendering.update_label@,
            enabled: rendering.update_enabled,
        }),
{
}

/// The contents of a menu are those of its lines, one for one.
pub proof fn law_contents_of_menus(menu: TrayMenu, id: String, label: String, enabled: bool, i: int)
    ensures
        (MenuLine::Item { id, label, enabled })@ == (LineView::Item {
            id: id@,
            label: label@,
            enabled,
        }),
        MenuLine::Separator@ == LineView::Separator,
        menu@.sessions.len() == menu.sessions@.len(),
        menu@.more.len() == menu.more@.len(),
        menu@.footer.len() == menu.footer@.len(),
        menu@.more_label == menu.more_label@,
        0 <= i < menu.sessions@.len() ==> menu@.sessions[i] == menu.sessions@[i]@,
        0 <= i < menu.more@.len() ==> menu@.more[i] == menu.more@[i]@,
        0 <= i < menu.footer@.len() ==> menu@.footer[i] == menu.footer@[i]@,
{
}

/// The tray menu that is built starts with a line for each of the most urgent
/// sessions; the menus that are rendered after a change show that change and keep the
/// rest.
pub proof fn law_changed_menus(
    status: UpdateMenuStatus,
    locale: NativeLocale,
    snapshot: SessionMenuSnapshot,
    enabled: bool,
    rendering: MenuRendering,
    menu: TrayMenu,
)
    ensures
        forall|ui: &mut NativeUi| #[trigger]
            call_ensures(NativeUi::set_update_status, (ui, status, enabled), rendering) ==> {
                &&& final(ui).update_status == status
                &&& final(ui).locale == ui.locale
                &&& final(ui).snapshot == ui.snapshot
                &&& rendering.update_label@ == update_label(ui.locale, status)
                &&& rendering.update_enabled == enabled
                &&& rendering.tray@ == tray_menu(ui.locale, ui.snapshot, status, enabled)
            },
        forall|ui: &mut NativeUi| #[trigger]
            call_ensures(NativeUi::set_locale, (ui, locale, enabled), rendering) ==> {
                &&& final(ui).locale == locale
                &&& final(ui).update_status == ui.update_status
                &&& final(ui).snapshot == ui.snapshot
                &&& rendering.update_label@ == update_label(locale, ui.update_status)
                &&& rendering.update_enabled == enabled
                &&& rendering.tray@ == tray_menu(locale, ui.snapshot, ui.update_status, enabled)
            },
        forall|ui: &mut NativeUi| #[trigger]
            call_ensures(NativeUi::set_session_snapshot, (ui, snapshot, enabled), menu) ==> {
                &&& final(ui).snapshot == snapshot
                &&& final(ui).locale == ui.locale
                &&& final(ui).update_status == ui.update_status
                &&& menu@ == tray_menu(ui.locale, snapshot, ui.update_status, enabled)
            },
{
}

/// Selecting an item does what its id stands for.
pub proof fn law_selected_items(id: &str, action: TrayAction, session: Seq<char>)
    requires
        call_ensures(tray_action, (id,), action),
    ensures
        id@ == "session:"@ + session ==> (action matches TrayAction::OpenSession(opened) && opened@
            == session),
        id@ == "show"@ || id@ == "show-all"@ ==> action is ShowWindow,
        id@ == "new-session"@ ==> action is NewSession,
        id@ == "update"@ ==> action is CheckForUpdates,
        id@ == "quit"@ ==> action is Quit,
        action is Quit ==> id@ == "quit"@,
        action is CheckForUpdates ==> id@ == "update"@,
{
    law_items_of_the_tray_act(action, id@, session);
}

/// Every item of the application menu stands in it once, the program's own first and
/// the way out last; only one item asks for an update check.
pub proof fn law_application_menu(layout: Vec<AppMenuEntry>, id: &str, update: bool)
    ensures
        call_ensures(app_menu_layout, (), layout) ==> {
            &&& layout@.len() == 10
            &&& layout@[0] == AppMenuEntry::About
            &&& layout@[2] == AppMenuEntry::Update
            &&& layout@[4] == AppMenuEntry::Services
            &&& layout@[6] == AppMenuEntry::Hide
            &&& layout@[7] == AppMenuEntry::HideOthers
            &&& layout@[9] == AppMenuEntry::Quit
            &&& layout@[1] == AppMenuEntry::Separator
            &&& layout@[3] == AppMenuEntry::Separator
            &&& layout@[5] == AppMenuEntry::Separator
            &&& layout@[8] == AppMenuEntry::Separator
        },
        call_ensures(is_app_update, (id,), update) ==> update == (id@ == "app-update"@),
{
}

/// The script that hands an action over holds what the web user interface is told of
/// it, which is read back as it was.
pub proof fn law_action_scripts(action: &str, session: Option<&str>, script: String)
    requires
        call_ensures(harness_action_script, (action, session), script),
    ensures
        ({
            let told = json::json_text(action_detail(action@, text::opt_str(session)));
            &&& script@
                == "window.dispatchEvent(new CustomEvent(\"openharness:native-action\", { detail: "@
                + told + " }));"@
            &&& json::json_reading(told) == Ok::<json::JsonTree, Seq<char>>(
                action_detail(action@, text::opt_str(session)),
            )
        }),
{
}

} // verus!

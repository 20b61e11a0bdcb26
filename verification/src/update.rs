//! Updating the application: when a check may start, what follows from its
//! outcome, what the user is asked and told, and how the download is shown.

use vstd::prelude::*;

use crate::locale::NativeLocale;
use crate::text;
use crate::text::{shortened, trimmed};
use crate::ui::{MenuRendering, NativeUi, UpdateMenuStatus};
use crate::version;
use crate::version::{
    is_remote_update_newer, manifest_build_number, up_to_date_message, version_label, CoreVersion,
};

verus! {

/// Characters of the release notes in the prompt.
pub const UPDATE_NOTES_LIMIT: usize = 1_200;

/// Who asked for an update check.
#[derive(Clone, Copy, Debug, PartialEq, Eq, Structural)]
pub enum UpdateCheckSource {
    Automatic,
    Manual,
}

/// How a message is presented.
#[derive(Clone, Copy, Debug, PartialEq, Eq, Structural)]
pub enum NoticeKind {
    Info,
    Error,
}

/// A message to the user.
pub struct Notice {
    pub message: String,
    pub kind: NoticeKind,
}

/// The contents of an optional [`Notice`].
pub open spec fn notice_view(notice: Option<Notice>) -> Option<(Seq<char>, NoticeKind)> {
    match notice {
        Some(notice) => Some((notice.message@, notice.kind)),
        None => None,
    }
}

/// A message that only users who asked for the check get.
pub open spec fn if_manual(source: UpdateCheckSource, message: Seq<char>, kind: NoticeKind) -> Option<
    (Seq<char>, NoticeKind),
> {
    match source {
        UpdateCheckSource::Manual => Some((message, kind)),
        UpdateCheckSource::Automatic => None,
    }
}

fn manual_notice(source: UpdateCheckSource, message: String, kind: NoticeKind) -> (notice: Option<
    Notice,
>)
    ensures
        notice_view(notice) == if_manual(source, message@, kind),
{
    match source {
        UpdateCheckSource::Manual => Some(Notice { message, kind }),
        UpdateCheckSource::Automatic => None,
    }
}

// ---------------------------------------------------------------------------
// The prompt
// ---------------------------------------------------------------------------

/// The release notes as the prompt shows them, where there are any.
pub open spec fn shown_notes(notes: Option<Seq<char>>) -> Option<Seq<char>> {
    match notes {
        Some(notes) if text::trim(notes).len() > 0 => Some(
            text::shorten(
                text::trim(notes),
                UPDATE_NOTES_LIMIT as nat,
                UPDATE_NOTES_LIMIT as nat,
                "\n..."@,
            ),
        ),
        _ => None,
    }
}

/// What the user is asked about a newer release.
pub open spec fn prompt_text(
    locale: NativeLocale,
    current_version: Seq<char>,
    new_version: Seq<char>,
    notes: Option<Seq<char>>,
) -> Seq<char> {
    let announcement = locale.pick(
        "发现 OpenHarness "@ + new_version + "（当前版本 "@ + current_version + "）。\n\n"@,
        "OpenHarness "@ + new_version + " is available (current version: "@ + current_version
            + ").\n\n"@,
    );
    let question = locale.pick(
        "立即下载并安装吗？安装完成后应用会自动重启。"@,
        "Download and install it now? The app will restart automatically after installation."@,
    );
    match shown_notes(notes) {
        Some(notes) => announcement + notes + "\n\n"@ + question,
        None => announcement + question,
    }
}

/// What the user is asked about a newer release: both versions, the release notes
/// where there are any, and whether to install it.
pub fn update_prompt(
    locale: NativeLocale,
    current_version: &str,
    new_version: &str,
    notes: Option<&str>,
) -> (prompt: String)
    ensures
        prompt@ == prompt_text(locale, current_version@, new_version@, text::opt_str(notes)),
{
    let mut prompt = locale.text("发现 OpenHarness ", "OpenHarness ").to_string();
    prompt.append(new_version);
    prompt.append(locale.text("（当前版本 ", " is available (current version: "));
    prompt.append(current_version);
    prompt.append(locale.text("）。\n\n", ").\n\n"));
    match notes {
        Some(notes) => {
            let clean = trimmed(notes);
            if !clean.as_str().is_empty() {
                prompt.append(
                    shortened(
                        clean.as_str(),
                        UPDATE_NOTES_LIMIT,
                        UPDATE_NOTES_LIMIT,
                        "\n...",
                    ).as_str(),
                );
                prompt.append("\n\n");
            }
        },
        None => {},
    }
    prompt.append(
        locale.text(
            "立即下载并安装吗？安装完成后应用会自动重启。",
            "Download and install it now? The app will restart automatically after installation.",
        ),
    );
    prompt
}

/// The prompt never shows more of the release notes than the limit.
pub proof fn law_shown_notes_are_bounded(notes: Option<Seq<char>>)
    ensures
        shown_notes(notes) matches Some(shown) ==> 0 < shown.len() <= UPDATE_NOTES_LIMIT + 4,
{
    reveal_strlit("\n...");
}

// ---------------------------------------------------------------------------
// The download
// ---------------------------------------------------------------------------

/// The percentage of a download that is done, rounded down, where the size of the
/// download is known and not zero. Numbers too large for the multiplication
/// count as the largest one that is not.
pub open spec fn percent_done(downloaded: u64, total: Option<u64>) -> Option<u8> {
    match total {
        Some(total) if total > 0 => {
            let scaled = if downloaded * 100 > u64::MAX {
                u64::MAX as int
            } else {
                downloaded * 100
            };
            Some(
                if scaled / (total as int) > 100 {
                    100u8
                } else {
                    (scaled / (total as int)) as u8
                },
            )
        },
        _ => None,
    }
}

/// The percentage of a download that is done, where its size is known.
pub fn download_percent(downloaded: u64, total: Option<u64>) -> (percent: Option<u8>)
    ensures
        percent == percent_done(downloaded, total),
        percent matches Some(percent) ==> percent <= 100,
{
    match total {
        Some(total) => {
            if total == 0 {
                return None;
            }
            let scaled: u64 = match downloaded.checked_mul(100) {
                Some(scaled) => scaled,
                None => u64::MAX,
            };
            let done = scaled / total;
            proof {
                assert(done == (scaled as int) / (total as int));
            }
            Some(
                if done > 100 {
                    100u8
                } else {
                    done as u8
                },
            )
        },
        None => None,
    }
}

/// The percentage never exceeds a hundred and never falls as the download goes
/// on.
pub proof fn law_percentage_grows(earlier: u64, later: u64, total: u64)
    requires
        earlier <= later,
        total > 0,
    ensures
        percent_done(earlier, Some(total)) is Some,
        percent_done(later, Some(total)) is Some,
        percent_done(earlier, Some(total))->0 <= percent_done(later, Some(total))->0 <= 100,
{
    let a: int = if earlier * 100 > u64::MAX {
        u64::MAX as int
    } else {
        earlier * 100
    };
    let b: int = if later * 100 > u64::MAX {
        u64::MAX as int
    } else {
        later * 100
    };
    assert(a <= b);
    vstd::arithmetic::div_mod::lemma_div_is_ordered(a, b, total as int);
}

/// How far a download has come, and which step of it was shown last.
#[derive(Clone, Copy, Debug, PartialEq, Eq, Structural)]
pub struct DownloadProgress {
    pub downloaded: u64,
    pub last_bucket: Option<u8>,
}

impl DownloadProgress {
    /// The bytes that are there once some more came.
    pub open spec fn grown(self, chunk_length: u64) -> u64 {
        if self.downloaded + chunk_length > u64::MAX {
            u64::MAX
        } else {
            (self.downloaded + chunk_length) as u64
        }
    }

    /// The percentage to show once some more came: only the first one of each
    /// step of five percent is shown.
    pub open spec fn shows(self, chunk_length: u64, total: Option<u64>) -> Option<u8> {
        match percent_done(self.grown(chunk_length), total) {
            Some(percent) if self.last_bucket != Some((percent / 5) as u8) => Some(percent),
            _ => None,
        }
    }

    /// A download that has not started.
    pub fn new() -> (progress: DownloadProgress)
        ensures
            progress == (DownloadProgress { downloaded: 0, last_bucket: None }),
    {
        DownloadProgress { downloaded: 0, last_bucket: None }
    }

    /// Takes note of some more bytes, and gives the percentage to show where it is
    /// time to show one.
    pub fn advance(&mut self, chunk_length: u64, total: Option<u64>) -> (percent: Option<u8>)
        ensures
            percent == old(self).shows(chunk_length, total),
            final(self).downloaded == old(self).grown(chunk_length),
            final(self).last_bucket == (match percent {
                Some(percent) => Some((percent / 5) as u8),
                None => old(self).last_bucket,
            }),
    {
        self.downloaded = self.downloaded.saturating_add(chunk_length);
        match download_percent(self.downloaded, total) {
            Some(percent) => {
                let bucket: u8 = percent / 5;
                let repeated = match self.last_bucket {
                    Some(last) => last == bucket,
                    None => false,
                };
                if repeated {
                    None
                } else {
                    self.last_bucket = Some(bucket);
                    Some(percent)
                }
            },
            None => None,
        }
    }
}

/// While the size of a download stays the same, each percentage that is shown is
/// higher than the one shown before it.
pub proof fn law_shown_percentages_rise(
    earlier: DownloadProgress,
    shown: u8,
    later: DownloadProgress,
    chunk_length: u64,
    total: u64,
)
    requires
        total > 0,
        percent_done(earlier.downloaded, Some(total)) == Some(shown),
        later.downloaded >= earlier.downloaded,
        later.last_bucket == Some((shown / 5) as u8),
    ensures
        later.shows(chunk_length, Some(total)) matches Some(percent) ==> percent > shown,
{
    law_percentage_grows(earlier.downloaded, later.grown(chunk_length), total);
}

// ---------------------------------------------------------------------------
// The check
// ---------------------------------------------------------------------------

/// Whether an update operation is under way, whether the automatic check was
/// made, and what the menus show.
pub struct AppUpdateState {
    pub busy: bool,
    pub automatic_check_started: bool,
    pub ui: NativeUi,
}

/// What follows from a request for an update check.
pub enum CheckStart {
    /// No check starts; the user may be told why.
    Refused(Option<Notice>),
    /// A check starts; the menus look like this.
    Started(MenuRendering),
}

/// The language of the menus, where there are any yet.
pub fn native_locale(state: Option<&AppUpdateState>) -> (locale: NativeLocale)
    ensures
        locale == (match state {
            Some(state) => state.ui.locale,
            None => NativeLocale::Zh,
        }),
{
    match state {
        Some(state) => state.ui.locale,
        None => NativeLocale::Zh,
    }
}

impl AppUpdateState {
    /// An operation is under way exactly where the update item shows one.
    pub open spec fn well_formed(self) -> bool {
        self.busy == (self.ui.update_status != UpdateMenuStatus::Idle)
    }

    /// The state before anything happened.
    pub fn new(ui: NativeUi) -> (state: AppUpdateState)
        ensures
            state == (AppUpdateState { busy: false, automatic_check_started: false, ui }),
            ui.update_status == UpdateMenuStatus::Idle ==> state.well_formed(),
    {
        AppUpdateState { busy: false, automatic_check_started: false, ui }
    }

    /// A check is asked for. Development builds never check, and one operation at
    /// a time is under way.
    pub fn request_update_check(&mut self, source: UpdateCheckSource, development: bool) -> (start:
        CheckStart)
        ensures
            if development || old(self).busy {
                &&& *final(self) == *old(self)
                &&& start matches CheckStart::Refused(notice)
                &&& notice_view(notice) == if_manual(
                    source,
                    if development {
                        old(self).ui.locale.pick(
                            "开发构建不会检查或安装正式更新。"@,
                            "Development builds do not check for or install release updates."@,
                        )
                    } else {
                        old(self).ui.locale.pick(
                            "更新检查或安装正在进行中。"@,
                            "An update check or installation is already in progress."@,
                        )
                    },
                    NoticeKind::Info,
                )
            } else {
                &&& *final(self) == (AppUpdateState {
                    busy: true,
                    ui: NativeUi { update_status: UpdateMenuStatus::Checking, ..old(self).ui },
                    ..*old(self)
                })
                &&& start matches CheckStart::Started(rendering)
                &&& final(self).ui.shown_by(rendering, false)
            },
            old(self).well_formed() ==> final(self).well_formed(),
    {
        let locale = self.ui.locale;
        if development {
            return CheckStart::Refused(
                manual_notice(
                    source,
                    locale.text(
                        "开发构建不会检查或安装正式更新。",
                        "Development builds do not check for or install release updates.",
                    ).to_string(),
                    NoticeKind::Info,
                ),
            );
        }
        if self.busy {
            return CheckStart::Refused(
                manual_notice(
                    source,
                    locale.text(
                        "更新检查或安装正在进行中。",
                        "An update check or installation is already in progress.",
                    ).to_string(),
                    NoticeKind::Info,
                ),
            );
        }
        self.busy = true;
        CheckStart::Started(self.ui.set_update_status(UpdateMenuStatus::Checking, false))
    }

    /// The state once the operation that is under way has come to another stage.
    pub open spec fn at_stage(self, status: UpdateMenuStatus) -> AppUpdateState {
        AppUpdateState { ui: NativeUi { update_status: status, ..self.ui }, ..self }
    }

    /// The state once the operation that was under way is over.
    pub open spec fn at_rest(self) -> AppUpdateState {
        AppUpdateState { busy: false, ..self.at_stage(UpdateMenuStatus::Idle) }
    }

    /// The operation that is under way comes to another stage.
    pub fn show_progress(&mut self, status: UpdateMenuStatus) -> (rendering: MenuRendering)
        ensures
            *final(self) == old(self).at_stage(status),
            final(self).ui.shown_by(rendering, false),
            old(self).busy && status != UpdateMenuStatus::Idle ==> final(self).well_formed(),
    {
        self.ui.set_update_status(status, false)
    }

    /// The operation that was under way is over.
    pub fn finish_update_operation(&mut self) -> (rendering: MenuRendering)
        ensures
            *final(self) == old(self).at_rest(),
            final(self).ui.shown_by(rendering, true),
            final(self).well_formed(),
    {
        self.busy = false;
        self.ui.set_update_status(UpdateMenuStatus::Idle, true)
    }
}

/// How an operation ends: with a line for the log and a message, where there are
/// any.
pub struct UpdateEnd {
    pub log: Option<String>,
    pub notice: Option<Notice>,
}

/// What the check of the installed build number says.
pub enum BuildStep {
    /// The check goes on with this build number.
    Check(String),
    /// The operation is over.
    End(UpdateEnd),
}

/// Decides what follows from reading the installed build number.
pub fn after_build_number(
    source: UpdateCheckSource,
    locale: NativeLocale,
    build_number: Result<String, String>,
) -> (step: BuildStep)
    ensures
        match build_number {
            Ok(number) => step == BuildStep::Check(number),
            Err(complaint) => {
                &&& step matches BuildStep::End(end)
                &&& text::opt_view(end.log) == Some("[updater] "@ + complaint@)
                &&& notice_view(end.notice) == if_manual(
                    source,
                    locale.pick(
                        "应用构建号配置无效，无法检查更新。"@,
                        "The application build number is invalid, so updates cannot be checked."@,
                    ),
                    NoticeKind::Error,
                )
            },
        },
{
    match build_number {
        Ok(number) => BuildStep::Check(number),
        Err(complaint) => BuildStep::End(
            UpdateEnd {
                log: Some(log_line(complaint.as_str())),
                notice: manual_notice(
                    source,
                    locale.text(
                        "应用构建号配置无效，无法检查更新。",
                        "The application build number is invalid, so updates cannot be checked.",
                    ).to_string(),
                    NoticeKind::Error,
                ),
            },
        ),
    }
}

fn log_line(complaint: &str) -> (line: String)
    ensures
        line@ == "[updater] "@ + complaint@,
{
    let mut line = "[updater] ".to_string();
    line.append(complaint);
    line
}

/// The installed application.
pub struct Installed {
    pub version: CoreVersion,
    /// The version as users read it.
    pub version_text: String,
    pub build_number: String,
}

/// A release that an updater found.
pub struct Release {
    pub version: String,
    pub manifest: serde_json::Value,
    pub notes: Option<String>,
}

/// What an updater found.
pub enum CheckOutcome {
    Found(Release),
    NothingFound,
    Failed { cause: String },
}

/// A question to the user, with the labels of its two answers.
pub struct UpdateQuestion {
    pub message: String,
    pub title: &'static str,
    pub accept: &'static str,
    pub decline: &'static str,
}

/// What follows from a check.
pub enum CheckStep {
    /// The user is asked whether to install the release.
    Ask(UpdateQuestion),
    /// The operation is over.
    End(UpdateEnd),
}

/// The operation ends with these words.
pub open spec fn ends(
    step: CheckStep,
    log: Option<Seq<char>>,
    notice: Option<(Seq<char>, NoticeKind)>,
) -> bool {
    step matches CheckStep::End(end) && text::opt_view(end.log) == log && notice_view(end.notice)
        == notice
}

/// The operation ends because nothing newer is there.
pub open spec fn ends_up_to_date(
    step: CheckStep,
    source: UpdateCheckSource,
    locale: NativeLocale,
    installed: Installed,
) -> bool {
    ends(
        step,
        None,
        if_manual(
            source,
            version::up_to_date(locale, installed.version_text@, installed.build_number@),
            NoticeKind::Info,
        ),
    )
}

/// The user is asked about a release with this version and build number.
pub open spec fn asks(
    step: CheckStep,
    locale: NativeLocale,
    installed: Installed,
    version: Seq<char>,
    build: Seq<char>,
    notes: Option<Seq<char>>,
) -> bool {
    &&& step matches CheckStep::Ask(question)
    &&& question.message@ == prompt_text(
        locale,
        version::labelled_version(locale, installed.version_text@, installed.build_number@),
        version::labelled_version(locale, version, build),
        notes,
    )
    &&& question.title@ == locale.pick("OpenHarness 更新"@, "OpenHarness Update"@)
    &&& question.accept@ == locale.pick("立即更新"@, "Update Now"@)
    &&& question.decline@ == locale.pick("稍后"@, "Later"@)
}

/// What follows once a release was compared with the installed application.
pub open spec fn follows_comparison(
    step: CheckStep,
    source: UpdateCheckSource,
    locale: NativeLocale,
    installed: Installed,
    version: Seq<char>,
    build: Seq<char>,
    notes: Option<Seq<char>>,
    newer: Result<bool, Seq<char>>,
) -> bool {
    match newer {
        Err(complaint) => ends(
            step,
            Some("[updater] "@ + complaint),
            if_manual(
                source,
                locale.pick(
                    "更新版本信息无效。"@,
                    "The update version information is invalid."@,
                ),
                NoticeKind::Error,
            ),
        ),
        Ok(false) => ends_up_to_date(step, source, locale, installed),
        Ok(true) => asks(step, locale, installed, version, build, notes),
    }
}

/// Decides what follows once a release was compared with the installed
/// application: only a newer one is offered.
pub fn after_comparison(
    source: UpdateCheckSource,
    locale: NativeLocale,
    installed: &Installed,
    version: &str,
    build_number: &str,
    notes: Option<&str>,
    newer: Result<bool, String>,
) -> (step: CheckStep)
    ensures
        follows_comparison(
            step,
            source,
            locale,
            *installed,
            version@,
            build_number@,
            text::opt_str(notes),
            match newer {
                Ok(newer) => Ok(newer),
                Err(complaint) => Err(complaint@),
            },
        ),
{
    match newer {
        Err(complaint) => CheckStep::End(
            UpdateEnd {
                log: Some(log_line(complaint.as_str())),
                notice: manual_notice(
                    source,
                    locale.text(
                        "更新版本信息无效。",
                        "The update version information is invalid.",
                    ).to_string(),
                    NoticeKind::Error,
                ),
            },
        ),
        Ok(false) => CheckStep::End(
            UpdateEnd { log: None, notice: nothing_newer(source, locale, installed) },
        ),
        Ok(true) => CheckStep::Ask(
            UpdateQuestion {
                message: update_prompt(
                    locale,
                    version_label(
                        locale,
                        installed.version_text.as_str(),
                        installed.build_number.as_str(),
                    ).as_str(),
                    version_label(locale, version, build_number).as_str(),
                    notes,
                ),
                title: locale.text("OpenHarness 更新", "OpenHarness Update"),
                accept: locale.text("立即更新", "Update Now"),
                decline: locale.text("稍后", "Later"),
            },
        ),
    }
}

fn nothing_newer(source: UpdateCheckSource, locale: NativeLocale, installed: &Installed) -> (notice:
    Option<Notice>)
    ensures
        notice_view(notice) == if_manual(
            source,
            version::up_to_date(locale, installed.version_text@, installed.build_number@),
            NoticeKind::Info,
        ),
{
    manual_notice(
        source,
        up_to_date_message(
            locale,
            installed.version_text.as_str(),
            installed.build_number.as_str(),
        ),
        NoticeKind::Info,
    )
}

/// What follows from what an updater found.
pub open spec fn follows_check(
    step: CheckStep,
    source: UpdateCheckSource,
    locale: NativeLocale,
    installed: Installed,
    outcome: CheckOutcome,
) -> bool {
    match outcome {
        CheckOutcome::NothingFound => ends_up_to_date(step, source, locale, installed),
        CheckOutcome::Failed { cause } => ends(
            step,
            Some("[updater] update check failed: "@ + cause@),
            if_manual(
                source,
                locale.pick("检查更新失败："@, "Failed to check for updates: "@) + cause@,
                NoticeKind::Error,
            ),
        ),
        CheckOutcome::Found(release) => match version::manifest_build(
            crate::json::json_tree(release.manifest),
        ) {
            None => ends(
                step,
                Some("[updater] update manifest is missing build_number"@),
                if_manual(
                    source,
                    locale.pick(
                        "更新清单缺少有效的构建号。"@,
                        "The update manifest does not contain a valid build number."@,
                    ),
                    NoticeKind::Error,
                ),
            ),
            Some(build) => follows_comparison(
                step,
                source,
                locale,
                installed,
                release.version@,
                build,
                text::opt_view(release.notes),
                version::release_compared(
                    installed.version,
                    installed.build_number@,
                    release.version@,
                    version::version_reading(release.version@),
                    build,
                ),
            ),
        },
    }
}

/// Decides what follows from what an updater found: a release with a build number
/// is compared with the installed application and offered where it is newer.
pub fn after_check(
    source: UpdateCheckSource,
    locale: NativeLocale,
    installed: &Installed,
    outcome: &CheckOutcome,
) -> (step: CheckStep)
    ensures
        follows_check(step, source, locale, *installed, *outcome),
{
    match outcome {
        CheckOutcome::NothingFound => CheckStep::End(
            UpdateEnd { log: None, notice: nothing_newer(source, locale, installed) },
        ),
        CheckOutcome::Failed { cause } => {
            let mut log = "[updater] update check failed: ".to_string();
            log.append(cause.as_str());
            let mut message = locale.text(
                "检查更新失败：",
                "Failed to check for updates: ",
            ).to_string();
            message.append(cause.as_str());
            CheckStep::End(
                UpdateEnd {
                    log: Some(log),
                    notice: manual_notice(source, message, NoticeKind::Error),
                },
            )
        },
        CheckOutcome::Found(release) => match manifest_build_number(&release.manifest) {
            Err(complaint) => {
                proof {
                    reveal_strlit("[updater] ");
                    reveal_strlit("update manifest is missing build_number");
                    reveal_strlit("[updater] update manifest is missing build_number");
                    assert("[updater] "@ + "update manifest is missing build_number"@
                        =~= "[updater] update manifest is missing build_number"@);
                }
                CheckStep::End(
                    UpdateEnd {
                        log: Some(log_line(complaint.as_str())),
                        notice: manual_notice(
                            source,
                            locale.text(
                                "更新清单缺少有效的构建号。",
                                "The update manifest does not contain a valid build number.",
                            ).to_string(),
                            NoticeKind::Error,
                        ),
                    },
                )
            },
            Ok(build) => {
                let newer = is_remote_update_newer(
                    &installed.version,
                    installed.build_number.as_str(),
                    release.version.as_str(),
                    build,
                );
                let notes = match &release.notes {
                    Some(notes) => Some(notes.as_str()),
                    None => None,
                };
                after_comparison(
                    source,
                    locale,
                    installed,
                    release.version.as_str(),
                    build,
                    notes,
                    newer,
                )
            },
        },
    }
}

/// What follows from the answer to the question.
pub enum AnswerStep {
    /// The release is downloaded; the update item shows this.
    Download(UpdateMenuStatus),
    /// The operation is over.
    End,
}

/// Decides what follows from the answer to the question; no answer declines.
pub fn after_answer(accepted: Option<bool>) -> (step: AnswerStep)
    ensures
        step == (if accepted == Some(true) {
            AnswerStep::Download(UpdateMenuStatus::Downloading(None))
        } else {
            AnswerStep::End
        }),
{
    match accepted {
        Some(true) => AnswerStep::Download(UpdateMenuStatus::Downloading(None)),
        _ => AnswerStep::End,
    }
}

/// What follows from an installation.
pub enum InstallStep {
    /// The application restarts; the update item shows this.
    Restart(UpdateMenuStatus),
    /// The operation is over.
    End(UpdateEnd),
}

/// Decides what follows from an installation. Users accepted it, so they are told
/// of a failure whoever asked for the check.
pub fn after_install(locale: NativeLocale, installed: Result<(), String>) -> (step: InstallStep)
    ensures
        match installed {
            Ok(_) => step == InstallStep::Restart(UpdateMenuStatus::Restarting),
            Err(cause) => {
                &&& step matches InstallStep::End(end)
                &&& text::opt_view(end.log) == Some(
                    "[updater] update installation failed: "@ + cause@,
                )
                &&& notice_view(end.notice) == Some(
                    (
                        locale.pick("更新安装失败："@, "Failed to install the update: "@) + cause@,
                        NoticeKind::Error,
                    ),
                )
            },
        },
{
    match installed {
        Ok(_) => InstallStep::Restart(UpdateMenuStatus::Restarting),
        Err(cause) => {
            let mut log = "[updater] update installation failed: ".to_string();
            log.append(cause.as_str());
            let mut message = locale.text(
                "更新安装失败：",
                "Failed to install the update: ",
            ).to_string();
            message.append(cause.as_str());
            InstallStep::End(
                UpdateEnd {
                    log: Some(log),
                    notice: Some(Notice { message, kind: NoticeKind::Error }),
                },
            )
        },
    }
}

// ---------------------------------------------------------------------------
// The operation as a whole
// ---------------------------------------------------------------------------

/// How far an update operation has come.
#[derive(Clone, Copy, Debug, PartialEq, Eq, Structural)]
pub enum UpdatePhase {
    /// The installed build number is being read.
    Starting,
    /// A release is being looked for.
    Checking,
    /// The user is being asked.
    Asking,
    /// A release is being downloaded.
    Downloading(DownloadProgress),
    /// A release is being installed.
    Installing,
    Over,
}

/// An update operation that was started.
pub struct UpdateFlow {
    pub source: UpdateCheckSource,
    pub locale: NativeLocale,
    pub installed: Installed,
    pub phase: UpdatePhase,
}

/// What happened to an update operation.
pub enum UpdateEvent {
    /// The installed build number was read.
    BuildNumber(Result<String, String>),
    /// An updater looked for a release.
    Checked(CheckOutcome),
    /// The user answered, or the question could not be asked.
    Answered(Option<bool>),
    /// Some more of the download came; its size may be known.
    Received { chunk_length: u64, total: Option<u64> },
    /// The download is complete.
    Downloaded,
    /// The installation succeeded or failed.
    Installed(Result<(), String>),
}

/// What an update operation needs next.
pub enum UpdateAction {
    /// Look for a release.
    Check,
    /// Ask the user.
    Ask(UpdateQuestion),
    /// Show the menus, then download and install the release.
    Download(MenuRendering),
    /// Show the menus.
    Show(MenuRendering),
    /// Show the menus, then restart the application.
    Restart(MenuRendering),
    /// Write the log, tell the user and show the menus; the operation is over.
    End { end: UpdateEnd, rendering: MenuRendering },
    Nothing,
}

impl UpdateFlow {
    /// An operation of the installed version that was started just now.
    pub fn new(
        source: UpdateCheckSource,
        locale: NativeLocale,
        version: CoreVersion,
        version_text: String,
    ) -> (flow: UpdateFlow)
        ensures
            flow.source == source,
            flow.locale == locale,
            flow.installed.version == version,
            flow.installed.version_text == version_text,
            flow.installed.build_number@.len() == 0,
            flow.phase == UpdatePhase::Starting,
    {
        UpdateFlow {
            source,
            locale,
            installed: Installed { version, version_text, build_number: String::new() },
            phase: UpdatePhase::Starting,
        }
    }

    /// The operation in another phase.
    pub open spec fn at(self, phase: UpdatePhase) -> UpdateFlow {
        UpdateFlow { phase, ..self }
    }

    /// What becomes of an operation, the state and the menus on an event. An event
    /// that does not belong to the phase changes nothing.
    pub open spec fn becomes(
        self,
        state: AppUpdateState,
        event: UpdateEvent,
        after: UpdateFlow,
        state_after: AppUpdateState,
        action: UpdateAction,
    ) -> bool {
        match (self.phase, event) {
            (UpdatePhase::Starting, UpdateEvent::BuildNumber(Ok(number))) => {
                &&& after == (UpdateFlow {
                    installed: Installed { build_number: number, ..self.installed },
                    phase: UpdatePhase::Checking,
                    ..self
                })
                &&& state_after == state
                &&& action is Check
            },
            (UpdatePhase::Starting, UpdateEvent::BuildNumber(Err(complaint))) => {
                &&& self.is_over(state, after, state_after, action)
                &&& text::opt_view(action->end.log) == Some("[updater] "@ + complaint@)
                &&& notice_view(action->end.notice) == if_manual(
                    self.source,
                    self.locale.pick(
                        "应用构建号配置无效，无法检查更新。"@,
                        "The application build number is invalid, so updates cannot be checked."@,
                    ),
                    NoticeKind::Error,
                )
            },
            (UpdatePhase::Checking, UpdateEvent::Checked(outcome)) => match action {
                UpdateAction::Ask(question) => {
                    &&& after == self.at(UpdatePhase::Asking)
                    &&& state_after == state
                    &&& follows_check(
                        CheckStep::Ask(question),
                        self.source,
                        self.locale,
                        self.installed,
                        outcome,
                    )
                },
                UpdateAction::End { end, .. } => {
                    &&& self.is_over(state, after, state_after, action)
                    &&& follows_check(
                        CheckStep::End(end),
                        self.source,
                        self.locale,
                        self.installed,
                        outcome,
                    )
                },
                _ => false,
            },
            (UpdatePhase::Asking, UpdateEvent::Answered(Some(true))) => {
                &&& after == self.at(
                    UpdatePhase::Downloading(
                        DownloadProgress { downloaded: 0, last_bucket: None },
                    ),
                )
                &&& state_after == state.at_stage(UpdateMenuStatus::Downloading(None))
                &&& action matches UpdateAction::Download(rendering)
                &&& state_after.ui.shown_by(rendering, false)
            },
            (UpdatePhase::Asking, UpdateEvent::Answered(_)) => {
                &&& self.is_over(state, after, state_after, action)
                &&& action->end.log is None
                &&& action->end.notice is None
            },
            (
                UpdatePhase::Downloading(progress),
                UpdateEvent::Received { chunk_length, total },
            ) => {
                let shown = progress.shows(chunk_length, total);
                &&& after == self.at(
                    UpdatePhase::Downloading(
                        DownloadProgress {
                            downloaded: progress.grown(chunk_length),
                            last_bucket: match shown {
                                Some(percent) => Some((percent / 5) as u8),
                                None => progress.last_bucket,
                            },
                        },
                    ),
                )
                &&& match shown {
                    Some(percent) => {
                        &&& state_after == state.at_stage(
                            UpdateMenuStatus::Downloading(Some(percent)),
                        )
                        &&& action matches UpdateAction::Show(rendering)
                        &&& state_after.ui.shown_by(rendering, false)
                    },
                    None => state_after == state && action is Nothing,
                }
            },
            (UpdatePhase::Downloading(_), UpdateEvent::Downloaded) => {
                &&& after == self.at(UpdatePhase::Installing)
                &&& state_after == state.at_stage(UpdateMenuStatus::Installing)
                &&& action matches UpdateAction::Show(rendering)
                &&& state_after.ui.shown_by(rendering, false)
            },
            (
                UpdatePhase::Downloading(_) | UpdatePhase::Installing,
                UpdateEvent::Installed(Ok(_)),
            ) => {
                &&& after == self.at(UpdatePhase::Over)
                &&& state_after == state.at_stage(UpdateMenuStatus::Restarting)
                &&& action matches UpdateAction::Restart(rendering)
                &&& state_after.ui.shown_by(rendering, false)
            },
            (
                UpdatePhase::Downloading(_) | UpdatePhase::Installing,
                UpdateEvent::Installed(Err(cause)),
            ) => {
                &&& self.is_over(state, after, state_after, action)
                &&& text::opt_view(action->end.log) == Some(
                    "[updater] update installation failed: "@ + cause@,
                )
                &&& notice_view(action->end.notice) == Some(
                    (
                        self.locale.pick("更新安装失败："@, "Failed to install the update: "@)
                            + cause@,
                        NoticeKind::Error,
                    ),
                )
            },
            _ => after == self && state_after == state && action is Nothing,
        }
    }

    /// The operation is over, and another one can start.
    pub open spec fn is_over(
        self,
        state: AppUpdateState,
        after: UpdateFlow,
        state_after: AppUpdateState,
        action: UpdateAction,
    ) -> bool {
        &&& after == self.at(UpdatePhase::Over)
        &&& state_after == state.at_rest()
        &&& action matches UpdateAction::End { rendering, .. }
        &&& state_after.ui.shown_by(rendering, true)
    }

    fn end(&mut self, state: &mut AppUpdateState, end: UpdateEnd) -> (action: UpdateAction)
        ensures
            old(self).is_over(*old(state), *final(self), *final(state), action),
            action->end == end,
    {
        self.phase = UpdatePhase::Over;
        UpdateAction::End { end, rendering: state.finish_update_operation() }
    }

    /// Decides what follows from an event.
    pub fn advance(&mut self, state: &mut AppUpdateState, event: UpdateEvent) -> (action: UpdateAction)
        ensures
            old(self).becomes(*old(state), event, *final(self), *final(state), action),
    {
        match event {
            UpdateEvent::BuildNumber(read) => match self.phase {
                UpdatePhase::Starting => match after_build_number(self.source, self.locale, read) {
                    BuildStep::Check(number) => {
                        self.installed.build_number = number;
                        self.phase = UpdatePhase::Checking;
                        UpdateAction::Check
                    },
                    BuildStep::End(end) => self.end(state, end),
                },
                _ => UpdateAction::Nothing,
            },
            UpdateEvent::Checked(outcome) => match self.phase {
                UpdatePhase::Checking => match after_check(
                    self.source,
                    self.locale,
                    &self.installed,
                    &outcome,
                ) {
                    CheckStep::Ask(question) => {
                        self.phase = UpdatePhase::Asking;
                        UpdateAction::Ask(question)
                    },
                    CheckStep::End(end) => self.end(state, end),
                },
                _ => UpdateAction::Nothing,
            },
            UpdateEvent::Answered(accepted) => match self.phase {
                UpdatePhase::Asking => match after_answer(accepted) {
                    AnswerStep::Download(status) => {
                        self.phase = UpdatePhase::Downloading(DownloadProgress::new());
                        UpdateAction::Download(state.show_progress(status))
                    },
                    AnswerStep::End => self.end(state, UpdateEnd { log: None, notice: None }),
                },
                _ => UpdateAction::Nothing,
            },
            UpdateEvent::Received { chunk_length, total } => match self.phase {
                UpdatePhase::Downloading(progress) => {
                    let mut grown = progress;
                    let percent = grown.advance(chunk_length, total);
                    self.phase = UpdatePhase::Downloading(grown);
                    match percent {
                        Some(percent) => UpdateAction::Show(
                            state.show_progress(UpdateMenuStatus::Downloading(Some(percent))),
                        ),
                        None => UpdateAction::Nothing,
                    }
                },
                _ => UpdateAction::Nothing,
            },
            UpdateEvent::Downloaded => match self.phase {
                UpdatePhase::Downloading(_) => {
                    self.phase = UpdatePhase::Installing;
                    UpdateAction::Show(state.show_progress(UpdateMenuStatus::Installing))
                },
                _ => UpdateAction::Nothing,
            },
            UpdateEvent::Installed(installed) => {
                let expected = match self.phase {
                    UpdatePhase::Downloading(_) => true,
                    UpdatePhase::Installing => true,
                    _ => false,
                };
                if !expected {
                    return UpdateAction::Nothing;
                }
                match after_install(self.locale, installed) {
                    InstallStep::Restart(status) => {
                        self.phase = UpdatePhase::Over;
                        UpdateAction::Restart(state.show_progress(status))
                    },
                    InstallStep::End(end) => self.end(state, end),
                }
            },
        }
    }
}

/// An operation that is over has let go of the state, unless the application
/// restarts.
pub proof fn law_finished_operations_let_go(
    flow: UpdateFlow,
    state: AppUpdateState,
    event: UpdateEvent,
    after: UpdateFlow,
    state_after: AppUpdateState,
    action: UpdateAction,
)
    requires
        flow.becomes(state, event, after, state_after, action),
        flow.phase != UpdatePhase::Over,
        after.phase == UpdatePhase::Over,
    ensures
        !state_after.busy && state_after.ui.update_status == UpdateMenuStatus::Idle || action
            is Restart,
{
}

/// While an operation goes on it keeps the state busy, and the state stays
/// consistent throughout.
pub proof fn law_running_operations_stay_busy(
    flow: UpdateFlow,
    state: AppUpdateState,
    event: UpdateEvent,
    after: UpdateFlow,
    state_after: AppUpdateState,
    action: UpdateAction,
)
    requires
        flow.becomes(state, event, after, state_after, action),
        state.busy,
        state.well_formed(),
    ensures
        state_after.well_formed(),
        after.phase != UpdatePhase::Over ==> state_after.busy,
{
}

/// Nothing is downloaded unless the user said yes to a question, and nothing is
/// asked unless a newer release was found.
pub proof fn law_downloads_are_accepted(
    flow: UpdateFlow,
    state: AppUpdateState,
    event: UpdateEvent,
    after: UpdateFlow,
    state_after: AppUpdateState,
    action: UpdateAction,
)
    requires
        flow.becomes(state, event, after, state_after, action),
    ensures
        action is Download <==> flow.phase == UpdatePhase::Asking && event == UpdateEvent::Answered(
            Some(true),
        ),
        action is Ask ==> flow.phase == UpdatePhase::Checking && after.phase == UpdatePhase::Asking,
        after.phase == UpdatePhase::Asking && flow.phase != UpdatePhase::Asking ==> action is Ask,
        (after.phase is Downloading) && !(flow.phase is Downloading) ==> action is Download,
        action is Restart ==> flow.phase is Downloading || flow.phase == UpdatePhase::Installing,
{
}

/// A release is offered only where it has a build number and is newer than the
/// installed application.
pub proof fn law_only_newer_releases_are_offered(
    step: CheckStep,
    source: UpdateCheckSource,
    locale: NativeLocale,
    installed: Installed,
    outcome: CheckOutcome,
)
    requires
        follows_check(step, source, locale, installed, outcome),
    ensures
        step is Ask <==> {
            &&& outcome matches CheckOutcome::Found(release)
            &&& version::manifest_build(crate::json::json_tree(release.manifest)) matches Some(build)
            &&& version::release_compared(
                installed.version,
                installed.build_number@,
                release.version@,
                version::version_reading(release.version@),
                build,
            ) == Ok::<bool, Seq<char>>(true)
        },
{
}

/// An automatic check that does not lead to a question is silent, whatever the
/// updater found.
pub proof fn law_automatic_checks_are_silent(
    step: CheckStep,
    locale: NativeLocale,
    installed: Installed,
    outcome: CheckOutcome,
)
    requires
        follows_check(step, UpdateCheckSource::Automatic, locale, installed, outcome),
    ensures
        step matches CheckStep::End(end) ==> end.notice is None,
{
}

/// A check that a user asked for never ends in silence: it leads to a question or
/// to a message.
pub proof fn law_manual_checks_are_answered(
    step: CheckStep,
    locale: NativeLocale,
    installed: Installed,
    outcome: CheckOutcome,
)
    requires
        follows_check(step, UpdateCheckSource::Manual, locale, installed, outcome),
    ensures
        step matches CheckStep::End(end) ==> end.notice is Some,
{
}

// ---------------------------------------------------------------------------
// What an update promises
// ---------------------------------------------------------------------------

/// Users who asked for a check are told; others are not.
pub proof fn law_only_manual_checks_are_told(message: Seq<char>, kind: NoticeKind, notice: Notice)
    ensures
        if_manual(UpdateCheckSource::Manual, message, kind) == Some((message, kind)),
        if_manual(UpdateCheckSource::Automatic, message, kind) is None,
        notice_view(Some(notice)) == Some((notice.message@, notice.kind)),
        notice_view(None) is None,
{
}

/// Release notes are shown without the white space around them, where anything is
/// left: whole up to twelve hundred characters, and that many and three dots on a
/// line of their own where they are longer.
pub proof fn law_shown_notes(notes: Seq<char>)
    ensures
        shown_notes(None) is None,
        text::trim(notes).len() == 0 ==> shown_notes(Some(notes)) is None,
        0 < text::trim(notes).len() <= 1200 ==> shown_notes(Some(notes)) == Some(text::trim(notes)),
        text::trim(notes).len() > 1200 ==> shown_notes(Some(notes)) == Some(
            text::trim(notes).take(1200) + seq!['\n', '.', '.', '.'],
        ),
{
    reveal_strlit("\n...");
    assert("\n..."@ =~= seq!['\n', '.', '.', '.']);
}

/// The question names the new version before the current one, shows the notes
/// behind both where there are any, and ends in the same words either way.
pub proof fn law_questions_name_both_versions(
    locale: NativeLocale,
    current: Seq<char>,
    new: Seq<char>,
    notes: Option<Seq<char>>,
)
    ensures
        ({
            let question = prompt_text(locale, current, new, notes);
            let zh = locale == NativeLocale::Zh;
            let announcement = if zh {
                "发现 OpenHarness "@ + new + "（当前版本 "@ + current + "）。\n\n"@
            } else {
                "OpenHarness "@ + new + " is available (current version: "@ + current + ").\n\n"@
            };
            let last = if zh {
                "立即下载并安装吗？安装完成后应用会自动重启。"@
            } else {
                "Download and install it now? The app will restart automatically after installation."@
            };
            &&& shown_notes(notes) is None ==> question == announcement + last
            &&& shown_notes(notes) matches Some(shown) ==> question == announcement + shown + seq![
                '\n',
                '\n',
            ] + last
        }),
{
    let question = prompt_text(locale, current, new, notes);
    let zh = locale == NativeLocale::Zh;
    let announcement = if zh {
        "发现 OpenHarness "@ + new + "（当前版本 "@ + current + "）。\n\n"@
    } else {
        "OpenHarness "@ + new + " is available (current version: "@ + current + ").\n\n"@
    };
    let last = if zh {
        "立即下载并安装吗？安装完成后应用会自动重启。"@
    } else {
        "Download and install it now? The app will restart automatically after installation."@
    };
    reveal_strlit("\n\n");
    assert("\n\n"@ =~= seq!['\n', '\n']);
    if let Some(shown) = shown_notes(notes) {
        assert(question =~= announcement + shown + seq!['\n', '\n'] + last);
    }
}

/// The percentage is the largest whole number of hundredths that are there, at most
/// a hundred. There is one exactly where the size is known and not zero.
pub proof fn law_percentages_are_rounded_down(downloaded: u64, total: u64)
    ensures
        percent_done(downloaded, None) is None,
        percent_done(downloaded, Some(0)) is None,
        total > 0 ==> percent_done(downloaded, Some(total)) is Some,
        total > 0 && downloaded >= total && downloaded * 100 <= u64::MAX ==> percent_done(
            downloaded,
            Some(total),
        ) == Some(100u8),
        total > 0 && downloaded < total && downloaded * 100 <= u64::MAX ==> {
            let percent = percent_done(downloaded, Some(total))->0;
            &&& percent < 100
            &&& percent * total <= downloaded * 100
            &&& downloaded * 100 < (percent + 1) * total
        },
        total > 0 && downloaded * 100 > u64::MAX && total * 100 <= u64::MAX ==> percent_done(
            downloaded,
            Some(total),
        ) == Some(100u8),
        total > 0 && downloaded * 100 > u64::MAX ==> {
            let percent = percent_done(downloaded, Some(total))->0;
            &&& percent * total <= u64::MAX
            &&& percent < 100 ==> u64::MAX < (percent + 1) * total
        },
{
    if total > 0 {
        let scaled: int = if downloaded * 100 > u64::MAX {
            u64::MAX as int
        } else {
            downloaded * 100
        };
        let size = total as int;
        let done = scaled / size;
        assert(done * size <= scaled < (done + 1) * size) by (nonlinear_arith)
            requires
                size > 0,
                done == scaled / size,
        ;
        assert(done >= 0) by (nonlinear_arith)
            requires
                scaled >= 0,
                size > 0,
                done == scaled / size,
        ;
        if done > 100 {
            assert(100 * size <= done * size) by (nonlinear_arith)
                requires
                    done > 100,
                    size > 0,
            ;
        }
        if downloaded >= total && downloaded * 100 <= u64::MAX {
            assert(done >= 100) by (nonlinear_arith)
                requires
                    scaled < (done + 1) * size,
                    scaled >= 100 * size,
                    size > 0,
            ;
        }
        if downloaded < total && downloaded * 100 <= u64::MAX {
            assert(done < 100) by (nonlinear_arith)
                requires
                    done * size <= scaled,
                    scaled < 100 * size,
                    size > 0,
            ;
        }
        if downloaded * 100 > u64::MAX && total * 100 <= u64::MAX {
            assert(done >= 100) by (nonlinear_arith)
                requires
                    scaled < (done + 1) * size,
                    scaled >= 100 * size,
                    size > 0,
            ;
        }
        let percent = percent_done(downloaded, Some(total))->0;
        assert(percent == (if done > 100 {
            100
        } else {
            done
        }));
    }
}

/// Bytes add up, and a percentage is shown exactly where it lies in another twentieth
/// of the way than the one shown last.
pub proof fn law_progress_is_shown_in_steps(
    progress: DownloadProgress,
    chunk_length: u64,
    total: Option<u64>,
)
    ensures
        progress.downloaded + chunk_length <= u64::MAX ==> progress.grown(chunk_length)
            == progress.downloaded + chunk_length,
        progress.downloaded + chunk_length > u64::MAX ==> progress.grown(chunk_length) == u64::MAX,
        percent_done(progress.grown(chunk_length), total) is None ==> progress.shows(
            chunk_length,
            total,
        ) is None,
        percent_done(progress.grown(chunk_length), total) matches Some(percent) ==> {
            let repeated = progress.last_bucket matches Some(step) && 5 * step <= percent && percent
                < 5 * step + 5;
            progress.shows(chunk_length, total) == (if repeated {
                None
            } else {
                Some(percent)
            })
        },
{
}

/// An operation goes on with the build number that was read; where none was, it is
/// over, the log says why, and the user is told where they asked.
pub proof fn law_operations_start_with_the_build_number(
    flow: UpdateFlow,
    state: AppUpdateState,
    number: String,
    complaint: String,
    after: UpdateFlow,
    state_after: AppUpdateState,
    action: UpdateAction,
)
    requires
        flow.phase == UpdatePhase::Starting,
    ensures
        flow.becomes(
            state,
            UpdateEvent::BuildNumber(Ok(number)),
            after,
            state_after,
            action,
        ) ==> {
            &&& action is Check
            &&& after.phase == UpdatePhase::Checking
            &&& after.installed.build_number == number
            &&& after.installed.version == flow.installed.version
            &&& after.installed.version_text == flow.installed.version_text
            &&& after.source == flow.source
            &&& after.locale == flow.locale
            &&& state_after == state
        },
        flow.becomes(
            state,
            UpdateEvent::BuildNumber(Err(complaint)),
            after,
            state_after,
            action,
        ) ==> {
            &&& after.phase == UpdatePhase::Over
            &&& !state_after.busy
            &&& state_after.ui.update_status == UpdateMenuStatus::Idle
            &&& action matches UpdateAction::End { end, .. }
            &&& end.log matches Some(log)
            &&& log@ == "[updater] "@ + complaint@
            &&& (end.notice is Some) == (flow.source == UpdateCheckSource::Manual)
            &&& end.notice matches Some(notice) ==> notice.kind == NoticeKind::Error
                && notice.message@ == (if flow.locale == NativeLocale::Zh {
                "应用构建号配置无效，无法检查更新。"@
            } else {
                "The application build number is invalid, so updates cannot be checked."@
            })
        },
{
}

/// What a check that leads to no question says: that nothing newer is there is
/// information and not logged; everything else is logged, is an error, and ends with
/// its cause where it has one. It is told to users who asked for the check.
pub proof fn law_checks_end_in_words(
    step: CheckStep,
    source: UpdateCheckSource,
    locale: NativeLocale,
    installed: Installed,
    outcome: CheckOutcome,
)
    requires
        follows_check(step, source, locale, installed, outcome),
    ensures
        step matches CheckStep::End(end) ==> (end.notice is Some) == (source
            == UpdateCheckSource::Manual),
        outcome is NothingFound ==> {
            &&& step matches CheckStep::End(end)
            &&& end.log is None
            &&& end.notice matches Some(notice) ==> notice.kind == NoticeKind::Info
                && notice.message@ == version::up_to_date(
                locale,
                installed.version_text@,
                installed.build_number@,
            )
        },
        outcome matches CheckOutcome::Failed { cause } ==> {
            &&& step matches CheckStep::End(end)
            &&& end.log matches Some(log)
            &&& log@ == "[updater] update check failed: "@ + cause@
            &&& end.notice matches Some(notice) ==> notice.kind == NoticeKind::Error
                && notice.message@ == (if locale == NativeLocale::Zh {
                "检查更新失败："@
            } else {
                "Failed to check for updates: "@
            }) + cause@
        },
        outcome matches CheckOutcome::Found(release) ==> (version::manifest_build(
            crate::json::json_tree(release.manifest),
        ) is None ==> {
            &&& step matches CheckStep::End(end)
            &&& end.log matches Some(log)
            &&& log@ == "[updater] update manifest is missing build_number"@
            &&& end.notice matches Some(notice) ==> notice.kind == NoticeKind::Error
                && notice.message@ == (if locale == NativeLocale::Zh {
                "更新清单缺少有效的构建号。"@
            } else {
                "The update manifest does not contain a valid build number."@
            })
        }),
        outcome matches CheckOutcome::Found(release) ==> (version::manifest_build(
            crate::json::json_tree(release.manifest),
        ) matches Some(build) ==> follows_comparison(
            step,
            source,
            locale,
            installed,
            release.version@,
            build,
            text::opt_view(release.notes),
            version::release_compared(
                installed.version,
                installed.build_number@,
                release.version@,
                version::version_reading(release.version@),
                build,
            ),
        )),
{
}

/// A release that was compared is offered where it is newer, with both versions and
/// both build numbers in the question; where it is not, that is information; where
/// it could not be compared, that is an error.
pub proof fn law_compared_releases(
    step: CheckStep,
    source: UpdateCheckSource,
    locale: NativeLocale,
    installed: Installed,
    version: Seq<char>,
    build: Seq<char>,
    notes: Option<Seq<char>>,
    newer: Result<bool, Seq<char>>,
)
    requires
        follows_comparison(
            step,
            source,
            locale,
            installed,
            version,
            build,
            notes,
            newer,
        ),
    ensures
        newer == Ok::<bool, Seq<char>>(true) ==> {
            &&& step matches CheckStep::Ask(question)
            &&& question.message@ == prompt_text(
                locale,
                version::labelled_version(
                    locale,
                    installed.version_text@,
                    installed.build_number@,
                ),
                version::labelled_version(locale, version, build),
                notes,
            )
            &&& question.title@ == (if locale == NativeLocale::Zh {
                "OpenHarness 更新"@
            } else {
                "OpenHarness Update"@
            })
            &&& question.accept@ == (if locale == NativeLocale::Zh {
                "立即更新"@
            } else {
                "Update Now"@
            })
            &&& question.decline@ == (if locale == NativeLocale::Zh {
                "稍后"@
            } else {
                "Later"@
            })
        },
        newer == Ok::<bool, Seq<char>>(false) ==> {
            &&& step matches CheckStep::End(end)
            &&& end.log is None
            &&& (end.notice is Some) == (source == UpdateCheckSource::Manual)
            &&& end.notice matches Some(notice) ==> notice.kind == NoticeKind::Info
                && notice.message@ == version::up_to_date(
                locale,
                installed.version_text@,
                installed.build_number@,
            )
        },
        newer matches Err(complaint) ==> {
            &&& step matches CheckStep::End(end)
            &&& end.log matches Some(log)
            &&& log@ == "[updater] "@ + complaint
            &&& (end.notice is Some) == (source == UpdateCheckSource::Manual)
            &&& end.notice matches Some(notice) ==> notice.kind == NoticeKind::Error
                && notice.message@ == (if locale == NativeLocale::Zh {
                "更新版本信息无效。"@
            } else {
                "The update version information is invalid."@
            })
        },
{
}

/// A yes starts the download from nothing; any other answer, and none, ends the
/// operation without a word.
pub proof fn law_answers(
    flow: UpdateFlow,
    state: AppUpdateState,
    accepted: Option<bool>,
    after: UpdateFlow,
    state_after: AppUpdateState,
    action: UpdateAction,
)
    requires
        flow.phase == UpdatePhase::Asking,
        flow.becomes(state, UpdateEvent::Answered(accepted), after, state_after, action),
    ensures
        accepted == Some(true) ==> {
            &&& action is Download
            &&& after.phase matches UpdatePhase::Downloading(progress)
            &&& progress.downloaded == 0
            &&& progress.last_bucket is None
            &&& state_after.ui.update_status == UpdateMenuStatus::Downloading(None)
            &&& state_after.busy == state.busy
        },
        accepted != Some(true) ==> {
            &&& after.phase == UpdatePhase::Over
            &&& action matches UpdateAction::End { end, .. }
            &&& end.log is None
            &&& end.notice is None
            &&& !state_after.busy
            &&& state_after.ui.update_status == UpdateMenuStatus::Idle
        },
{
}

/// Bytes that come are counted, and the update item shows the percentage where it is
/// time to; a complete download is installed.
pub proof fn law_downloads_go_on(
    flow: UpdateFlow,
    progress: DownloadProgress,
    state: AppUpdateState,
    chunk_length: u64,
    total: Option<u64>,
    after: UpdateFlow,
    state_after: AppUpdateState,
    action: UpdateAction,
)
    requires
        flow.phase == UpdatePhase::Downloading(progress),
    ensures
        flow.becomes(
            state,
            UpdateEvent::Received { chunk_length, total },
            after,
            state_after,
            action,
        ) ==> {
            &&& after.phase matches UpdatePhase::Downloading(grown)
            &&& progress.downloaded + chunk_length <= u64::MAX ==> grown.downloaded
                == progress.downloaded + chunk_length
            &&& progress.shows(chunk_length, total) matches Some(percent) ==> action is Show
                && state_after.ui.update_status == UpdateMenuStatus::Downloading(Some(percent))
                && grown.last_bucket == Some((percent / 5) as u8)
            &&& progress.shows(chunk_length, total) is None ==> action is Nothing && state_after
                == state && grown.last_bucket == progress.last_bucket
            &&& state_after.busy == state.busy
        },
        flow.becomes(state, UpdateEvent::Downloaded, after, state_after, action) ==> {
            &&& action is Show
            &&& after.phase == UpdatePhase::Installing
            &&& state_after.ui.update_status == UpdateMenuStatus::Installing
            &&& state_after.busy == state.busy
        },
{
}

/// An installation that succeeded restarts the application; one that failed ends the
/// operation, and the user is told the cause whoever asked for the check.
pub proof fn law_installations(
    flow: UpdateFlow,
    state: AppUpdateState,
    cause: String,
    after: UpdateFlow,
    state_after: AppUpdateState,
    action: UpdateAction,
)
    requires
        flow.phase == UpdatePhase::Installing || flow.phase is Downloading,
    ensures
        flow.becomes(state, UpdateEvent::Installed(Ok(())), after, state_after, action) ==> {
            &&& action is Restart
            &&& after.phase == UpdatePhase::Over
            &&& state_after.ui.update_status == UpdateMenuStatus::Restarting
        },
        flow.becomes(state, UpdateEvent::Installed(Err(cause)), after, state_after, action) ==> {
            &&& after.phase == UpdatePhase::Over
            &&& !state_after.busy
            &&& state_after.ui.update_status == UpdateMenuStatus::Idle
            &&& action matches UpdateAction::End { end, .. }
            &&& end.log matches Some(log)
            &&& log@ == "[updater] update installation failed: "@ + cause@
            &&& end.notice matches Some(notice)
            &&& notice.kind == NoticeKind::Error
            &&& notice.message@ == (if flow.locale == NativeLocale::Zh {
                "更新安装失败："@
            } else {
                "Failed to install the update: "@
            }) + cause@
        },
{
}

/// An event changes nothing where it does not belong to the phase; an operation that
/// is over takes none at all.
pub proof fn law_late_events_change_nothing(
    flow: UpdateFlow,
    state: AppUpdateState,
    event: UpdateEvent,
    after: UpdateFlow,
    state_after: AppUpdateState,
    action: UpdateAction,
)
    requires
        flow.becomes(state, event, after, state_after, action),
        match event {
            UpdateEvent::BuildNumber(_) => flow.phase != UpdatePhase::Starting,
            UpdateEvent::Checked(_) => flow.phase != UpdatePhase::Checking,
            UpdateEvent::Answered(_) => flow.phase != UpdatePhase::Asking,
            UpdateEvent::Received { .. } => !(flow.phase is Downloading),
            UpdateEvent::Downloaded => !(flow.phase is Downloading),
            UpdateEvent::Installed(_) => !(flow.phase is Downloading) && flow.phase
                != UpdatePhase::Installing,
        },
    ensures
        after == flow,
        state_after == state,
        action is Nothing,
{
}

/// Whatever happens to an operation, who asked for it, its language and the
/// installed version stay, and so do the language and the sessions of the menus and
/// whether the automatic check was made.
pub proof fn law_operations_touch_nothing_else(
    flow: UpdateFlow,
    state: AppUpdateState,
    event: UpdateEvent,
    after: UpdateFlow,
    state_after: AppUpdateState,
    action: UpdateAction,
)
    requires
        flow.becomes(state, event, after, state_after, action),
    ensures
        after.source == flow.source,
        after.locale == flow.locale,
        after.installed.version == flow.installed.version,
        after.installed.version_text == flow.installed.version_text,
        state_after.ui.locale == state.ui.locale,
        state_after.ui.snapshot == state.ui.snapshot,
        state_after.automatic_check_started == state.automatic_check_started,
{
}

/// The menus follow an operation: whatever is shown is what the state holds then,
/// and the update item can be selected again exactly where the operation is over
/// without a restart.
pub proof fn law_menus_follow_the_operation(
    flow: UpdateFlow,
    state: AppUpdateState,
    event: UpdateEvent,
    after: UpdateFlow,
    state_after: AppUpdateState,
    action: UpdateAction,
)
    requires
        flow.becomes(state, event, after, state_after, action),
    ensures
        action matches UpdateAction::Download(rendering) ==> state_after.ui.shown_by(
            rendering,
            false,
        ),
        action matches UpdateAction::Show(rendering) ==> state_after.ui.shown_by(rendering, false),
        action matches UpdateAction::Restart(rendering) ==> state_after.ui.shown_by(
            rendering,
            false,
        ),
        action matches UpdateAction::End { rendering, .. } ==> state_after.ui.shown_by(
            rendering,
            true,
        ),
{
}

/// A check starts unless the build is one for development or an operation is under
/// way; where it does not, nothing changes, and users who asked are told why.
pub proof fn law_requested_checks(source: UpdateCheckSource, development: bool, start: CheckStart)
    ensures
        forall|state: &mut AppUpdateState| #[trigger]
            call_ensures(
                AppUpdateState::request_update_check,
                (state, source, development),
                start,
            ) ==> {
                &&& (start is Started) == (!development && !state.busy)
                &&& start matches CheckStart::Refused(notice) ==> *final(state) == *state && (
                notice is Some) == (source == UpdateCheckSource::Manual)
                &&& start matches CheckStart::Refused(Some(notice)) ==> notice.kind
                    == NoticeKind::Info && notice.message@ == (if development {
                    state.ui.locale.pick(
                        "开发构建不会检查或安装正式更新。"@,
                        "Development builds do not check for or install release updates."@,
                    )
                } else {
                    state.ui.locale.pick(
                        "更新检查或安装正在进行中。"@,
                        "An update check or installation is already in progress."@,
                    )
                })
                &&& start is Started ==> {
                    &&& final(state).busy
                    &&& final(state).ui.update_status == UpdateMenuStatus::Checking
                    &&& final(state).ui.locale == state.ui.locale
                    &&& final(state).ui.snapshot == state.ui.snapshot
                    &&& final(state).automatic_check_started == state.automatic_check_started
                }
            },
{
}

/// The percentage that is computed, and the one that is shown while bytes come.
pub proof fn law_computed_percentages(
    downloaded: u64,
    total: u64,
    percent: Option<u8>,
    chunk_length: u64,
    size: Option<u64>,
    shown: Option<u8>,
)
    ensures
        call_ensures(download_percent, (downloaded, Some(total)), percent) && total > 0
            && downloaded * 100 <= u64::MAX ==> percent is Some && percent->0 <= 100 && percent->0
            * total <= downloaded * 100 && (percent->0 == 100 || downloaded * 100 < (percent->0 + 1)
            * total),
        call_ensures(download_percent, (downloaded, None), percent) ==> percent is None,
        forall|progress: &mut DownloadProgress| #[trigger]
            call_ensures(DownloadProgress::advance, (progress, chunk_length, size), shown) ==> {
                &&& progress.downloaded + chunk_length <= u64::MAX ==> final(progress).downloaded
                    == progress.downloaded + chunk_length
                &&& shown matches Some(percent) ==> percent_done(final(progress).downloaded, size)
                    == Some(percent) && progress.last_bucket != Some((percent / 5) as u8)
                    && final(progress).last_bucket == Some((percent / 5) as u8)
                &&& shown is None ==> final(progress).last_bucket == progress.last_bucket
            },
{
    law_percentages_are_rounded_down(downloaded, total);
    if total > 0 && downloaded >= total {
        assert(100 * total <= downloaded * 100);
    }
}

/// The decisions of an operation one by one: a build number that was read goes on to
/// the check, a yes to the download, an installation that succeeded to the restart.
pub proof fn law_decisions(
    source: UpdateCheckSource,
    locale: NativeLocale,
    number: Result<String, String>,
    build: BuildStep,
    accepted: Option<bool>,
    answer: AnswerStep,
    outcome: Result<(), String>,
    installed: InstallStep,
)
    ensures
        call_ensures(after_build_number, (source, locale, number), build) ==> {
            &&& number matches Ok(read) ==> build == BuildStep::Check(read)
            &&& number matches Err(complaint) ==> (build matches BuildStep::End(end) && (end.notice
                is Some) == (source == UpdateCheckSource::Manual) && end.log is Some
                && end.log->0@ == "[updater] "@ + complaint@)
        },
        call_ensures(after_answer, (accepted,), answer) ==> (answer is Download) == (accepted
            == Some(true)),
        call_ensures(after_install, (locale, outcome), installed) ==> {
            &&& (installed is Restart) == (outcome is Ok)
            &&& installed matches InstallStep::End(end) ==> end.notice is Some && end.notice->0.kind
                == NoticeKind::Error && end.log is Some
        },
{
}

/// Every step of an operation keeps who asked for it and in which language; a download
/// starts on a yes alone, a restart on an installation, a question on a check, and an
/// operation that ends lets go of the state.
pub proof fn law_steps_of_an_operation(event: UpdateEvent, action: UpdateAction)
    ensures
        forall|flow: &mut UpdateFlow, state: &mut AppUpdateState| #[trigger]
            call_ensures(UpdateFlow::advance, (flow, state, event), action) ==> {
                &&& flow.becomes(*state, event, *final(flow), *final(state), action)
                &&& final(flow).source == flow.source
                &&& final(flow).locale == flow.locale
                &&& final(state).ui.locale == state.ui.locale
                &&& final(state).ui.snapshot == state.ui.snapshot
                &&& action is Download <==> flow.phase == UpdatePhase::Asking && event
                    == UpdateEvent::Answered(Some(true))
                &&& action is Restart ==> event is Installed
                &&& action is Ask ==> event is Checked
                &&& action is End ==> !final(state).busy
            },
{
}

/// The question that is asked names both versions; the language that is used is that
/// of the menus, and Chinese before there are any.
pub proof fn law_asked_questions(
    locale: NativeLocale,
    current: &str,
    new: &str,
    notes: Option<&str>,
    prompt: String,
    state: Option<&AppUpdateState>,
    used: NativeLocale,
)
    ensures
        call_ensures(update_prompt, (locale, current, new, notes), prompt) ==> prompt@
            == prompt_text(locale, current@, new@, text::opt_str(notes)),
        call_ensures(native_locale, (state,), used) ==> (state is None ==> used
            == NativeLocale::Zh) && (state is Some ==> used == state->0.ui.locale),
{
}

} // verus!

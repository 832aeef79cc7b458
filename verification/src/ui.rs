//! What the window shows: values read from the forms, and how the status,
//! activity, links and log respond to each event.
use vstd::prelude::*;

use crate::command_options::{opt_view, CommandOptions};
use crate::command_output::{summary_of, log_of, DiskOutput, StorageStatus};
use crate::size::{share_parts, used_share, Share};
use crate::command_request::DiskRequest;
use crate::i18n::{text_chars, translate, Locale};
use crate::services::{find_url, first_url, DiskProgress};
use crate::setup::{SetupConfig, SetupSave, default_auth_file_of};
use crate::setup_storage::{default_sync_dir, default_sync_dir_of, HostPaths};
use crate::text::{
    chars_of, extend, extend_str, is_text, lower, lower_chars, string_of, trim, trimmed, CharClass,
};

verus! {

// ---------------------------------------------------------------------------
// Forms
// ---------------------------------------------------------------------------

/// Entry text as an optional value: trimmed, absent when blank.
pub open spec fn optional_of(t: Seq<char>) -> Option<Seq<char>> {
    if trim(t).len() > 0 {
        Some(trim(t))
    } else {
        None
    }
}

/// The value of an entry: trimmed, or nothing when it is blank.
pub fn optional_text(text: &str) -> (res: Option<String>)
    ensures
        opt_view(res) == optional_of(text@),
{
    let t = trimmed(&chars_of(text), CharClass::Space);
    if t.len() == 0 {
        None
    } else {
        Some(string_of(&t))
    }
}

/// The proxy setting chosen in the command options: default (none), `auto`,
/// `no`, or the manual entry.
pub open spec fn command_proxy_of(selected: u32, manual: Seq<char>) -> Option<Seq<char>> {
    if selected == 1 {
        Some("auto"@)
    } else if selected == 2 {
        Some("no"@)
    } else if selected == 3 {
        optional_of(manual)
    } else {
        None
    }
}

/// The proxy setting chosen in the setup form: `auto`, `no`, or the manual
/// entry.
pub open spec fn setup_proxy_of(selected: u32, manual: Seq<char>) -> Option<Seq<char>> {
    if selected == 0 {
        Some("auto"@)
    } else if selected == 1 {
        Some("no"@)
    } else if selected == 2 {
        optional_of(manual)
    } else {
        None
    }
}

pub fn command_proxy_value(selected: u32, manual: &str) -> (res: Option<String>)
    ensures
        opt_view(res) == command_proxy_of(selected, manual@),
{
    if selected == 1 {
        Some("auto".to_owned())
    } else if selected == 2 {
        Some("no".to_owned())
    } else if selected == 3 {
        optional_text(manual)
    } else {
        None
    }
}

pub fn setup_proxy_value(selected: u32, manual: &str) -> (res: Option<String>)
    ensures
        opt_view(res) == setup_proxy_of(selected, manual@),
{
    if selected == 0 {
        Some("auto".to_owned())
    } else if selected == 1 {
        Some("no".to_owned())
    } else if selected == 2 {
        optional_text(manual)
    } else {
        None
    }
}

/// The proxy mode first shown in the command options for a configured proxy
/// (ASCII case ignored): `auto`, `no`, or manual for anything else.
pub fn command_proxy_mode(proxy: Option<&String>) -> (res: Option<u32>)
    ensures
        res == (match proxy {
            Some(p) => Some(
                if lower(p@) == "auto"@ {
                    1u32
                } else if lower(p@) == "no"@ {
                    2u32
                } else {
                    3u32
                },
            ),
            None => None,
        }),
{
    match proxy {
        Some(p) => {
            let l = lower_chars(&chars_of(p.as_str()));
            if is_text(&l, "auto") {
                Some(1)
            } else if is_text(&l, "no") {
                Some(2)
            } else {
                Some(3)
            }
        },
        None => None,
    }
}

/// The proxy mode first shown in the setup form for a configured proxy
/// (ASCII case ignored): `no`, `auto`, or manual for anything else.
pub fn setup_proxy_mode(proxy: Option<&String>) -> (res: Option<u32>)
    ensures
        res == (match proxy {
            Some(p) => Some(
                if lower(p@) == "no"@ {
                    1u32
                } else if lower(p@) != "auto"@ {
                    2u32
                } else {
                    0u32
                },
            ),
            None => None,
        }),
{
    match proxy {
        Some(p) => {
            let l = lower_chars(&chars_of(p.as_str()));
            if is_text(&l, "no") {
                Some(1)
            } else if !is_text(&l, "auto") {
                Some(2)
            } else {
                Some(0)
            }
        },
        None => None,
    }
}

/// The entries of the command options form.
pub struct OptionForm {
    pub config_file: String,
    pub sync_dir: String,
    pub auth_file: String,
    pub exclude_dirs: String,
    pub proxy_mode: u32,
    pub proxy: String,
    pub read_only: bool,
    pub overwrite: bool,
}

/// The entries of the setup form.
pub struct SetupForm {
    pub sync_dir: String,
    pub auth_file: String,
    pub exclude_dirs: String,
    pub proxy_mode: u32,
    pub proxy: String,
    pub autostart: bool,
}

impl OptionForm {
    /// The command options the form stands for: blank entries are left out.
    pub fn read(&self) -> (res: CommandOptions)
        ensures
            opt_view(res.config_file) == optional_of(self.config_file@),
            opt_view(res.sync_dir) == optional_of(self.sync_dir@),
            opt_view(res.auth_file) == optional_of(self.auth_file@),
            opt_view(res.exclude_dirs) == optional_of(self.exclude_dirs@),
            opt_view(res.proxy) == command_proxy_of(self.proxy_mode, self.proxy@),
            res.read_only == self.read_only,
            res.overwrite == self.overwrite,
    {
        CommandOptions {
            config_file: optional_text(self.config_file.as_str()),
            sync_dir: optional_text(self.sync_dir.as_str()),
            auth_file: optional_text(self.auth_file.as_str()),
            exclude_dirs: optional_text(self.exclude_dirs.as_str()),
            proxy: command_proxy_value(self.proxy_mode, self.proxy.as_str()),
            read_only: self.read_only,
            overwrite: self.overwrite,
        }
    }
}

impl SetupForm {
    /// The configuration the form stands for: blank paths fall back to the
    /// defaults.
    pub fn read(&self, h: &HostPaths) -> (res: SetupConfig)
        ensures
            res.sync_dir@ == (match optional_of(self.sync_dir@) {
                Some(d) => d,
                None => default_sync_dir_of(*h),
            }),
            res.auth_file@ == (match optional_of(self.auth_file@) {
                Some(a) => a,
                None => default_auth_file_of(*h),
            }),
            opt_view(res.exclude_dirs) == optional_of(self.exclude_dirs@),
            opt_view(res.proxy) == setup_proxy_of(self.proxy_mode, self.proxy@),
            res.autostart == self.autostart,
    {
        let defaults = SetupConfig::defaults(h);
        SetupConfig {
            sync_dir: match optional_text(self.sync_dir.as_str()) {
                Some(d) => d,
                None => defaults.sync_dir,
            },
            auth_file: match optional_text(self.auth_file.as_str()) {
                Some(a) => a,
                None => defaults.auth_file,
            },
            exclude_dirs: optional_text(self.exclude_dirs.as_str()),
            proxy: setup_proxy_value(self.proxy_mode, self.proxy.as_str()),
            autostart: self.autostart,
        }
    }

    /// The sync folder entered, or the default one.
    pub fn sync_dir_or_default(&self, h: &HostPaths) -> (res: String)
        ensures
            res@ == (match optional_of(self.sync_dir@) {
                Some(d) => d,
                None => default_sync_dir_of(*h),
            }),
    {
        match optional_text(self.sync_dir.as_str()) {
            Some(d) => d,
            None => default_sync_dir(h),
        }
    }
}

#[derive(Clone, Copy, Debug, PartialEq, Eq, Structural)]
pub enum SharingAction {
    Publish,
    Unpublish,
}

/// The sharing request for the path entered, or, when it is blank, the
/// message asking for one.
pub fn sharing_request(action: SharingAction, options: CommandOptions, path: &str, locale: Locale) -> (res: Result<DiskRequest, String>)
    ensures
        match optional_of(path@) {
            Some(p) => match res {
                Ok(r) => match action {
                    SharingAction::Publish => r matches DiskRequest::Publish { options: o, path: q }
                        && o == options && q@ == p,
                    SharingAction::Unpublish => r matches DiskRequest::Unpublish {
                        options: o,
                        path: q,
                    } && o == options && q@ == p,
                },
                Err(_) => false,
            },
            None => match res {
                Ok(_) => false,
                Err(m) => m@ == translate(
                    locale,
                    if action == SharingAction::Publish {
                        "publish_requires_path"@
                    } else {
                        "unpublish_requires_path"@
                    },
                ),
            },
        },
{
    match optional_text(path) {
        Some(p) => match action {
            SharingAction::Publish => Ok(DiskRequest::Publish { options, path: p }),
            SharingAction::Unpublish => Ok(DiskRequest::Unpublish { options, path: p }),
        },
        None => {
            let token = match action {
                SharingAction::Publish => "publish_requires_path",
                SharingAction::Unpublish => "unpublish_requires_path",
            };
            Err(string_of(&text_chars(locale, token)))
        },
    }
}

// ---------------------------------------------------------------------------
// Status display
// ---------------------------------------------------------------------------

#[derive(Clone, Copy, Debug, PartialEq, Eq, Structural)]
pub enum StatusClass {
    Idle,
    Success,
    Warning,
    Error,
}

impl StatusClass {
    /// The style class of the header status dot.
    pub fn css_class(&self) -> (res: &'static str)
        ensures
            res@ == (match *self {
                StatusClass::Idle => "diskette-status-idle"@,
                StatusClass::Success => "diskette-status-success"@,
                StatusClass::Warning => "diskette-status-warning"@,
                StatusClass::Error => "diskette-status-error"@,
            }),
    {
        match self {
            StatusClass::Idle => "diskette-status-idle",
            StatusClass::Success => "diskette-status-success",
            StatusClass::Warning => "diskette-status-warning",
            StatusClass::Error => "diskette-status-error",
        }
    }
}

/// The status card and header shown after a command.
#[derive(Clone, Debug)]
pub struct StatusView {
    pub title: String,
    pub detail: String,
    pub header: String,
    pub class: StatusClass,
}

pub open spec fn is_daemon_command(l: Seq<char>) -> bool {
    l == "start"@ || l == "stop"@ || l == "sync"@ || l == "foreground daemon"@
}

/// The title, detail, header text (as tokens or text) and class shown
/// after an output, for the commands that change the status display.
pub open spec fn status_of(o: DiskOutput, locale: Locale) -> Option<(Seq<char>, Seq<char>, Seq<char>, StatusClass)> {
    let l = o.label@;
    let t = |token: Seq<char>| translate(locale, token);
    let summary = summary_of(o, locale);
    if l == "token"@ {
        if o.success {
            Some((t("yandex_disk_connected"@), t("start_or_status_after_token"@), t("connected"@), StatusClass::Success))
        } else {
            Some((t("authentication_failed"@), summary, t("error"@), StatusClass::Error))
        }
    } else if l == "status"@ {
        if o.success {
            Some((t("daemon_status"@), summary, t("daemon_status"@), StatusClass::Success))
        } else {
            Some((t("status_check_failed"@), summary, t("error"@), StatusClass::Error))
        }
    } else if is_daemon_command(l) {
        if o.success {
            Some((t("command_finished"@), summary, t("command_finished"@), StatusClass::Warning))
        } else {
            Some((t("command_failed"@), summary, t("error"@), StatusClass::Error))
        }
    } else {
        None
    }
}

pub open spec fn view_matches(v: StatusView, s: (Seq<char>, Seq<char>, Seq<char>, StatusClass)) -> bool {
    v.title@ == s.0 && v.detail@ == s.1 && v.header@ == s.2 && v.class == s.3
}

fn make_view(locale: Locale, title: &str, detail: Vec<char>, header: &str, class: StatusClass) -> (res: StatusView)
    ensures
        res.title@ == translate(locale, title@),
        res.detail@ == detail@,
        res.header@ == translate(locale, header@),
        res.class == class,
{
    StatusView {
        title: string_of(&text_chars(locale, title)),
        detail: string_of(&detail),
        header: string_of(&text_chars(locale, header)),
        class,
    }
}

/// What the status card and header show after an output, if it changes them.
pub fn status_view(output: &DiskOutput, locale: Locale) -> (res: Option<StatusView>)
    ensures
        match res {
            Some(v) => status_of(*output, locale) matches Some(s) && view_matches(v, s),
            None => status_of(*output, locale) is None,
        },
{
    let l = chars_of(output.label.as_str());
    let summary = chars_of(output.summary(locale).as_str());
    if is_text(&l, "token") {
        if output.success {
            Some(make_view(locale, "yandex_disk_connected", text_chars(locale, "start_or_status_after_token"), "connected", StatusClass::Success))
        } else {
            Some(make_view(locale, "authentication_failed", summary, "error", StatusClass::Error))
        }
    } else if is_text(&l, "status") {
        if output.success {
            Some(make_view(locale, "daemon_status", summary, "daemon_status", StatusClass::Success))
        } else {
            Some(make_view(locale, "status_check_failed", summary, "error", StatusClass::Error))
        }
    } else if is_text(&l, "start") || is_text(&l, "stop") || is_text(&l, "sync") || is_text(&l, "foreground daemon") {
        if output.success {
            Some(make_view(locale, "command_finished", summary, "command_finished", StatusClass::Warning))
        } else {
            Some(make_view(locale, "command_failed", summary, "error", StatusClass::Error))
        }
    } else {
        None
    }
}

/// The title of the activity card: the last action's label.
pub fn activity_title(output: &DiskOutput, locale: Locale) -> (res: String)
    ensures
        res@ == translate(locale, "last_action"@) + " "@ + output.label@,
{
    let mut t = text_chars(locale, "last_action");
    extend_str(&mut t, " ");
    extend_str(&mut t, output.label.as_str());
    string_of(&t)
}

/// The link a successful `publish` printed, looked for on stdout, then on
/// stderr.
pub open spec fn publish_link_of(o: DiskOutput) -> Option<Seq<char>> {
    if o.label@ != "publish"@ || !o.success {
        None
    } else {
        match find_url(o.stdout@, CharClass::LinkEdge) {
            Some(u) => Some(u),
            None => find_url(o.stderr@, CharClass::LinkEdge),
        }
    }
}

pub fn published_link(output: &DiskOutput) -> (res: Option<String>)
    ensures
        opt_view(res) == publish_link_of(*output),
{
    let l = chars_of(output.label.as_str());
    if !is_text(&l, "publish") || !output.success {
        return None;
    }
    match first_url(output.stdout.as_str()) {
        Some(u) => Some(u),
        None => first_url(output.stderr.as_str()),
    }
}

/// Text as it is added to the command log: ended by a line feed.
pub fn log_entry(text: &str) -> (res: String)
    ensures
        res@ == (if text@.len() > 0 && text@.last() == '\n' {
            text@
        } else {
            text@ + seq!['\n']
        }),
{
    let mut v = chars_of(text);
    if v.len() == 0 || v[v.len() - 1] != '\n' {
        v.push('\n');
    }
    string_of(&v)
}

// ---------------------------------------------------------------------------
// Events
// ---------------------------------------------------------------------------

/// Messages from the workers to the window.
pub enum UiEvent {
    CommandProgress(DiskProgress),
    CommandFinished(DiskOutput),
    SetupSaved(Result<SetupSave, String>),
    TokenSetupSaved { auth_file: String, result: Result<SetupSave, String> },
}

/// The log message for a saved configuration.
pub open spec fn save_message_of(s: SetupSave, locale: Locale) -> Seq<char> {
    let autostart = if s.autostart_enabled {
        translate(locale, "autostart_file"@) + " "@ + s.autostart_file@
    } else {
        translate(locale, "autostart_disabled"@)
    };
    translate(locale, "configuration_saved"@) + " "@ + s.config_file@ + "\n"@ + autostart + "\n"@
}

pub open spec fn save_error_message_of(e: Seq<char>, locale: Locale) -> Seq<char> {
    translate(locale, "configuration_save_failed"@) + " "@ + e + "\n"@
}

pub fn setup_save_message(save: &SetupSave, locale: Locale) -> (res: String)
    ensures
        res@ == save_message_of(*save, locale),
{
    let mut m = text_chars(locale, "configuration_saved");
    extend_str(&mut m, " ");
    extend_str(&mut m, save.config_file.as_str());
    extend_str(&mut m, "\n");
    if save.autostart_enabled {
        extend(&mut m, &text_chars(locale, "autostart_file"));
        extend_str(&mut m, " ");
        extend_str(&mut m, save.autostart_file.as_str());
    } else {
        extend(&mut m, &text_chars(locale, "autostart_disabled"));
    }
    extend_str(&mut m, "\n");
    string_of(&m)
}

fn save_error_message(error: &String, locale: Locale) -> (res: String)
    ensures
        res@ == save_error_message_of(error@, locale),
{
    let mut m = text_chars(locale, "configuration_save_failed");
    extend_str(&mut m, " ");
    extend_str(&mut m, error.as_str());
    extend_str(&mut m, "\n");
    string_of(&m)
}

/// The message logged when the authorization page is opened, or could not
/// be opened for the given reason.
pub fn auth_page_message(uri: &str, error: Option<&String>, locale: Locale) -> (res: String)
    ensures
        res@ == (match error {
            None => translate(locale, "opening_authentication_page"@) + " "@ + uri@ + "\n"@,
            Some(e) => translate(locale, "failed_to_open_authentication_page"@) + " "@ + uri@
                + ": "@ + e@ + "\n"@,
        }),
{
    let mut m = match error {
        None => text_chars(locale, "opening_authentication_page"),
        Some(_) => text_chars(locale, "failed_to_open_authentication_page"),
    };
    extend_str(&mut m, " ");
    extend_str(&mut m, uri);
    if let Some(e) = error {
        extend_str(&mut m, ": ");
        extend_str(&mut m, e.as_str());
    }
    extend_str(&mut m, "\n");
    string_of(&m)
}

/// What the window does for one event.
pub struct EventPlan {
    /// Text added to the command log.
    pub log: String,
    /// An authorization page to open.
    pub open_auth_url: Option<String>,
    /// New content of the status card and header.
    pub status: Option<StatusView>,
    /// New title and detail of the activity card.
    pub activity: Option<(String, String)>,
    /// A published link to show.
    pub publish_link: Option<String>,
    /// Whether to reveal the dashboard after a completed authorization.
    pub reveal_dashboard: bool,
    /// A request to submit next.
    pub follow_up: Option<DiskRequest>,
}

pub open spec fn status_matches(v: Option<StatusView>, o: DiskOutput, locale: Locale) -> bool {
    match v {
        Some(v) => status_of(o, locale) matches Some(s) && view_matches(v, s),
        None => status_of(o, locale) is None,
    }
}

/// Whether a plan is the right response to an event: progress is logged and
/// its authorization page opened; a finished command is logged and updates
/// the status, the activity and the published link, and a completed
/// authorization reveals the dashboard; a save is logged, and a save made
/// before authorizing is followed by the authorization with that file.
pub open spec fn plan_matches(p: EventPlan, e: UiEvent, locale: Locale) -> bool {
    match e {
        UiEvent::CommandProgress(pr) => {
            &&& p.log == pr.text
            &&& p.open_auth_url == pr.auth_url
            &&& p.status is None && p.activity is None && p.publish_link is None
            &&& !p.reveal_dashboard && p.follow_up is None
        },
        UiEvent::CommandFinished(o) => {
            &&& p.log@ == log_of(o, locale)
            &&& p.open_auth_url is None
            &&& status_matches(p.status, o, locale)
            &&& p.activity matches Some((t, d)) && t@ == translate(locale, "last_action"@) + " "@
                + o.label@ && d@ == summary_of(o, locale)
            &&& opt_view(p.publish_link) == publish_link_of(o)
            &&& p.reveal_dashboard == (o.label@ == "token"@ && o.success)
            &&& p.follow_up is None
        },
        UiEvent::SetupSaved(r) => {
            &&& p.log@ == match r {
                Ok(s) => save_message_of(s, locale),
                Err(m) => save_error_message_of(m@, locale),
            }
            &&& p.open_auth_url is None && p.status is None && p.activity is None
            &&& p.publish_link is None && !p.reveal_dashboard && p.follow_up is None
        },
        UiEvent::TokenSetupSaved { auth_file, result } => {
            &&& p.log@ == match result {
                Ok(s) => save_message_of(s, locale),
                Err(m) => save_error_message_of(m@, locale),
            }
            &&& p.open_auth_url is None && p.status is None && p.activity is None
            &&& p.publish_link is None && !p.reveal_dashboard
            &&& match result {
                Ok(_) => p.follow_up matches Some(DiskRequest::Token { auth_file: Some(f) })
                    && f == auth_file,
                Err(_) => p.follow_up is None,
            }
        },
    }
}

fn quiet_plan(log: String) -> (res: EventPlan)
    ensures
        res.log == log,
        res.open_auth_url is None && res.status is None && res.activity is None,
        res.publish_link is None && !res.reveal_dashboard && res.follow_up is None,
{
    EventPlan {
        log,
        open_auth_url: None,
        status: None,
        activity: None,
        publish_link: None,
        reveal_dashboard: false,
        follow_up: None,
    }
}

/// The window's response to an event.
pub fn plan_event(event: UiEvent, locale: Locale) -> (res: EventPlan)
    ensures
        plan_matches(res, event, locale),
{
    match event {
        UiEvent::CommandProgress(progress) => EventPlan {
            log: progress.text,
            open_auth_url: progress.auth_url,
            status: None,
            activity: None,
            publish_link: None,
            reveal_dashboard: false,
            follow_up: None,
        },
        UiEvent::CommandFinished(output) => {
            let l = chars_of(output.label.as_str());
            let completed_token = is_text(&l, "token") && output.success;
            EventPlan {
                log: output.format_for_log(locale),
                open_auth_url: None,
                status: status_view(&output, locale),
                activity: Some((activity_title(&output, locale), output.summary(locale))),
                publish_link: published_link(&output),
                reveal_dashboard: completed_token,
                follow_up: None,
            }
        },
        UiEvent::SetupSaved(result) => match result {
            Ok(save) => quiet_plan(setup_save_message(&save, locale)),
            Err(error) => quiet_plan(save_error_message(&error, locale)),
        },
        UiEvent::TokenSetupSaved { auth_file, result } => match result {
            Ok(save) => {
                let mut plan = quiet_plan(setup_save_message(&save, locale));
                plan.follow_up = Some(DiskRequest::Token { auth_file: Some(auth_file) });
                plan
            },
            Err(error) => quiet_plan(save_error_message(&error, locale)),
        },
    }
}

/// The window's responses to events, in the order the events were sent:
/// the response at each place is the one `plan_event` gives for the event at
/// that place.
pub fn plan_events(events: Vec<UiEvent>, locale: Locale) -> (res: Vec<EventPlan>)
    ensures
        res.len() == events.len(),
        forall|i: int| 0 <= i < events.len() ==> plan_matches(#[trigger] res@[i], events@[i], locale),
{
    let ghost sent = events@;
    let mut pending = events;
    let mut plans: Vec<EventPlan> = Vec::new();
    while pending.len() > 0
        invariant
            plans.len() + pending.len() == sent.len(),
            pending@ == sent.skip(plans.len() as int),
            forall|i: int| 0 <= i < plans.len() ==> plan_matches(#[trigger] plans@[i], sent[i], locale),
        decreases pending.len(),
    {
        let event = pending.remove(0);
        assert(event == sent[plans.len() as int]);
        let plan = plan_event(event, locale);
        plans.push(plan);
        assert(pending@ =~= sent.skip(plans.len() as int));
    }
    plans
}

/// What the window does at start-up.
pub struct StartupPlan {
    /// Whether the page switcher and the refresh button are shown.
    pub show_navigation: bool,
    /// The page shown first.
    pub page: &'static str,
    /// A request to submit.
    pub request: Option<DiskRequest>,
    /// Text added to the command log.
    pub log: Option<String>,
}

/// The window's start-up: when the authorization file exists, the dashboard
/// with its navigation and a status check; otherwise the welcome page and a
/// note to authorize first.
pub fn startup_plan(auth_ready: bool, options: CommandOptions, locale: Locale) -> (res: StartupPlan)
    ensures
        res.show_navigation == auth_ready,
        res.page@ == (if auth_ready {
            "overview"@
        } else {
            "welcome"@
        }),
        auth_ready ==> res.request == Some(DiskRequest::Status(options)) && res.log is None,
        !auth_ready ==> res.request is None && (res.log matches Some(l) && l@ == translate(
            locale,
            "run_get_token_first"@,
        ) + "\n"@),
{
    if auth_ready {
        StartupPlan {
            show_navigation: true,
            page: "overview",
            request: Some(DiskRequest::Status(options)),
            log: None,
        }
    } else {
        let mut m = text_chars(locale, "run_get_token_first");
        extend_str(&mut m, "\n");
        StartupPlan { show_navigation: false, page: "welcome", request: None, log: Some(string_of(&m)) }
    }
}

/// What the storage card shows.
pub struct StorageView {
    /// "used / total".
    pub title: String,
    /// The available space.
    pub detail: String,
    /// The text on the bar: the used space.
    pub bar_text: String,
    /// How full the bar is, when the share can be read.
    pub share: Option<Share>,
}

/// The storage card for the figures of a status check: the used and total
/// sizes as its title, the available space as its detail, the used size on
/// the bar, and the share in use.
pub fn storage_view(storage: &StorageStatus) -> (res: StorageView)
    ensures
        res.title@ == storage.used@ + " / "@ + storage.total@,
        res.detail@ == storage.available@,
        res.bar_text@ == storage.used@,
        match res.share {
            Some(s) => used_share(storage.used@, storage.total@) == Some(share_parts(s)),
            None => used_share(storage.used@, storage.total@) is None,
        },
{
    let mut title = chars_of(storage.used.as_str());
    extend_str(&mut title, " / ");
    extend_str(&mut title, storage.total.as_str());
    StorageView {
        title: string_of(&title),
        detail: string_of(&chars_of(storage.available.as_str())),
        bar_text: string_of(&chars_of(storage.used.as_str())),
        share: storage.used_fraction(),
    }
}

/// Law: a link is shown only after a successful publish; then it is the
/// first link printed on stdout, and one on stderr only when stdout holds
/// none.
pub proof fn lemma_published_link_source(o: DiskOutput)
    ensures
        o.label@ != "publish"@ || !o.success ==> publish_link_of(o) is None,
        o.label@ == "publish"@ && o.success && find_url(o.stdout@, CharClass::LinkEdge) is Some
            ==> publish_link_of(o) == find_url(o.stdout@, CharClass::LinkEdge),
        o.label@ == "publish"@ && o.success && find_url(o.stdout@, CharClass::LinkEdge) is None
            ==> publish_link_of(o) == find_url(o.stderr@, CharClass::LinkEdge),
{
}

/// Law: the status card after a finished command: a failed authorization,
/// status check, start, stop, sync or foreground launch always shows an
/// error (the error class and the "error" header) with the command's
/// summary as detail; a successful one never shows an error; other commands
/// leave the card as it is.
pub proof fn lemma_failures_show_errors(o: DiskOutput, locale: Locale)
    ensures
        (o.label@ == "token"@ || o.label@ == "status"@ || o.label@ == "start"@ || o.label@
            == "stop"@ || o.label@ == "sync"@ || o.label@ == "foreground daemon"@) == (status_of(
            o,
            locale,
        ) is Some),
        !o.success ==> match status_of(o, locale) {
            Some((_, detail, header, class)) => class == StatusClass::Error && header == translate(
                locale,
                "error"@,
            ) && detail == summary_of(o, locale),
            None => true,
        },
        o.success ==> match status_of(o, locale) {
            Some((_, _, _, class)) => class != StatusClass::Error,
            None => true,
        },
{
    reveal_strlit("token");
    reveal_strlit("status");
    reveal_strlit("start");
    reveal_strlit("stop");
    reveal_strlit("sync");
    reveal_strlit("foreground daemon");
    reveal_strlit("publish");
}

} // verus!

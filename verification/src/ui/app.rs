//! The state of the dashboard and how keys change it; the commands that
//! need work outside the dashboard; the names and text of exported reports.
use vstd::prelude::*;

use crate::api::types::GithubData;
use crate::score::ProfileScore;
use crate::ui::theme::{toggled, Theme};

verus! {

/// The five tabs of the dashboard.
#[derive(Debug, Clone, Copy, PartialEq, Eq, Structural)]
pub enum Tab {
    Overview,
    Repos,
    Heatmap,
    Stars,
    Recommendations,
}

/// The number of each tab, from 0.
pub open spec fn tab_number(t: Tab) -> int {
    match t {
        Tab::Overview => 0,
        Tab::Repos => 1,
        Tab::Heatmap => 2,
        Tab::Stars => 3,
        Tab::Recommendations => 4,
    }
}

impl Tab {
    /// The tab with number `i`; the overview for any other number.
    pub fn from_index(i: usize) -> (t: Tab)
        ensures
            i <= 4 ==> tab_number(t) == i,
            i > 4 ==> t == Tab::Overview,
    {
        match i {
            0 => Tab::Overview,
            1 => Tab::Repos,
            2 => Tab::Heatmap,
            3 => Tab::Stars,
            4 => Tab::Recommendations,
            _ => Tab::Overview,
        }
    }

    /// The number of this tab.
    pub fn index(self) -> (i: usize)
        ensures
            i == tab_number(self),
    {
        match self {
            Tab::Overview => 0,
            Tab::Repos => 1,
            Tab::Heatmap => 2,
            Tab::Stars => 3,
            Tab::Recommendations => 4,
        }
    }
}

/// A key press, as the dashboard reads it.
#[derive(Debug, Clone, Copy, PartialEq, Eq, Structural)]
pub enum Key {
    Char(char),
    Up,
    Down,
    PageUp,
    PageDown,
    Esc,
    Other,
}

/// What the dashboard shows: a loading message, fetched data with its
/// score, or an error.
pub enum AppState {
    Loading(String),
    Ready { data: GithubData, score: ProfileScore },
    Error(String),
}

/// The dashboard.
pub struct Dashboard {
    pub username: String,
    pub token: Option<String>,
    pub state: AppState,
    pub theme: Theme,
    pub tab: Tab,
    pub repo_selected: usize,
    pub detail_scroll: u16,
    pub show_help: bool,
}

/// The number of repository cards on show.
pub open spec fn cards_shown(state: AppState) -> int {
    match state {
        AppState::Ready { score, .. } => score.repo_scores@.len() as int,
        _ => 0,
    }
}

/// The last selectable card (0 without cards).
pub open spec fn last_card(state: AppState) -> int {
    if cards_shown(state) > 0 {
        cards_shown(state) - 1
    } else {
        0
    }
}

/// Keys that end the dashboard: `q`, Escape, and Ctrl-C.
pub open spec fn is_quit(key: Key, ctrl: bool) -> bool {
    key == Key::Char('q') || key == Key::Esc || (ctrl && key == Key::Char('c'))
}

/// The dashboard after a key that does not end it.
pub open spec fn after_key(d: Dashboard, key: Key) -> Dashboard {
    if key == Key::Char('?') {
        Dashboard { show_help: !d.show_help, ..d }
    } else if key == Key::Char('t') {
        Dashboard { theme: toggled(d.theme), ..d }
    } else if key == Key::Char('1') {
        Dashboard { tab: Tab::Overview, ..d }
    } else if key == Key::Char('2') {
        Dashboard { tab: Tab::Repos, ..d }
    } else if key == Key::Char('3') {
        Dashboard { tab: Tab::Heatmap, ..d }
    } else if key == Key::Char('4') {
        Dashboard { tab: Tab::Stars, ..d }
    } else if key == Key::Char('5') {
        Dashboard { tab: Tab::Recommendations, ..d }
    } else if key == Key::Up || key == Key::Char('k') {
        if d.repo_selected > 0 {
            Dashboard { repo_selected: (d.repo_selected - 1) as usize, detail_scroll: 0, ..d }
        } else {
            d
        }
    } else if key == Key::Down || key == Key::Char('j') {
        if d.repo_selected < last_card(d.state) {
            Dashboard { repo_selected: (d.repo_selected + 1) as usize, detail_scroll: 0, ..d }
        } else {
            d
        }
    } else if key == Key::PageDown {
        Dashboard {
            detail_scroll: if d.detail_scroll + 3 > u16::MAX {
                u16::MAX
            } else {
                (d.detail_scroll + 3) as u16
            },
            ..d
        }
    } else if key == Key::PageUp {
        Dashboard {
            detail_scroll: if d.detail_scroll >= 3 {
                (d.detail_scroll - 3) as u16
            } else {
                0
            },
            ..d
        }
    } else {
        d
    }
}

impl Dashboard {
    /// A dashboard for `username`, loading its data, in the dark theme on
    /// the overview tab.
    pub fn new(username: String, token: Option<String>) -> (d: Dashboard)
        ensures
            d.username == username,
            d.token == token,
            d.state matches AppState::Loading(m) && m@ == "Fetching GitHub data..."@,
            d.theme == Theme::Dark,
            d.tab == Tab::Overview,
            d.repo_selected == 0,
            d.detail_scroll == 0,
            !d.show_help,
    {
        Dashboard {
            username,
            token,
            state: AppState::Loading("Fetching GitHub data...".to_owned()),
            theme: Theme::Dark,
            tab: Tab::Overview,
            repo_selected: 0,
            detail_scroll: 0,
            show_help: false,
        }
    }

    /// The number of repository cards on show.
    pub fn repo_count(&self) -> (n: usize)
        ensures
            n == cards_shown(self.state),
    {
        match &self.state {
            AppState::Ready { score, .. } => score.repo_scores.len(),
            _ => 0,
        }
    }

    /// Handles a key press: gives `true` when the key ends the dashboard
    /// (which then stays as it was), and otherwise applies the key.
    pub fn handle_key(&mut self, key: Key, ctrl: bool) -> (quit: bool)
        ensures
            quit == is_quit(key, ctrl),
            quit ==> *final(self) == *old(self),
            !quit ==> *final(self) == after_key(*old(self), key),
    {
        if key == Key::Char('q') || key == Key::Esc {
            return true;
        }
        if ctrl && key == Key::Char('c') {
            return true;
        }
        match key {
            Key::Char('?') => {
                self.show_help = !self.show_help;
            },
            Key::Char('t') => {
                self.theme = self.theme.toggle();
            },
            Key::Char('1') => {
                self.tab = Tab::Overview;
            },
            Key::Char('2') => {
                self.tab = Tab::Repos;
            },
            Key::Char('3') => {
                self.tab = Tab::Heatmap;
            },
            Key::Char('4') => {
                self.tab = Tab::Stars;
            },
            Key::Char('5') => {
                self.tab = Tab::Recommendations;
            },
            Key::Up | Key::Char('k') => {
                if self.repo_selected > 0 {
                    self.repo_selected = self.repo_selected - 1;
                    self.detail_scroll = 0;
                }
            },
            Key::Down | Key::Char('j') => {
                let count = self.repo_count();
                let max = if count > 0 {
                    count - 1
                } else {
                    0
                };
                if self.repo_selected < max {
                    self.repo_selected = self.repo_selected + 1;
                    self.detail_scroll = 0;
                }
            },
            Key::PageDown => {
                self.detail_scroll = if self.detail_scroll > u16::MAX - 3 {
                    u16::MAX
                } else {
                    self.detail_scroll + 3
                };
            },
            Key::PageUp => {
                self.detail_scroll = if self.detail_scroll >= 3 {
                    self.detail_scroll - 3
                } else {
                    0
                };
            },
            _ => {},
        }
        false
    }
}

/// Work that a key asks for beyond the dashboard's own state.
#[derive(Debug, Clone, Copy, PartialEq, Eq, Structural)]
pub enum Command {
    /// Fetch the data again (`r`).
    Refresh,
    /// Write the JSON report (`e`).
    ExportJson,
    /// Write the Markdown report (`m`).
    ExportMarkdown,
    /// Nothing more.
    Nothing,
}

/// The work a key asks for.
pub fn command_for(key: Key) -> (c: Command)
    ensures
        c == (if key == Key::Char('r') {
            Command::Refresh
        } else if key == Key::Char('e') {
            Command::ExportJson
        } else if key == Key::Char('m') {
            Command::ExportMarkdown
        } else {
            Command::Nothing
        }),
{
    match key {
        Key::Char('r') => Command::Refresh,
        Key::Char('e') => Command::ExportJson,
        Key::Char('m') => Command::ExportMarkdown,
        _ => Command::Nothing,
    }
}

/// The formats a report can be exported in.
#[derive(Debug, Clone, Copy, PartialEq, Eq, Structural)]
pub enum ExportFormat {
    Json,
    Markdown,
}

/// The format named `json` or `md`; no other name is a format.
pub fn export_format(name: &str) -> (f: Option<ExportFormat>)
    ensures
        f == (if name@ == "json"@ {
            Some(ExportFormat::Json)
        } else if name@ == "md"@ {
            Some(ExportFormat::Markdown)
        } else {
            None
        }),
{
    let given = name.to_owned();
    if given == "json".to_owned() {
        Some(ExportFormat::Json)
    } else if given == "md".to_owned() {
        Some(ExportFormat::Markdown)
    } else {
        None
    }
}

/// The file name of a report: `gitpulse-<login>-<stamp>.<extension>`.
pub fn export_filename(login: &str, stamp: &str, extension: &str) -> (name: String)
    ensures
        name@ == "gitpulse-"@ + login@ + "-"@ + stamp@ + "."@ + extension@,
{
    let mut name = "gitpulse-".to_owned();
    name.append(login);
    name.append("-");
    name.append(stamp);
    name.append(".");
    name.append(extension);
    name
}

/// The Markdown report: a title with the login, the health score, and when
/// the data was fetched.
pub fn format_markdown_report(login: &str, overall: u8, generated: &str) -> (report: String)
    ensures
        report@ == "# GitPulse Report — @"@ + login@ + "\n\n**Health Score: "@
            + crate::text::decimal(overall as nat) + "/100**\n\nGenerated: "@ + generated@ + "\n"@,
{
    let mut report = "# GitPulse Report — @".to_owned();
    report.append(login);
    report.append("\n\n**Health Score: ");
    crate::text::push_decimal(&mut report, overall as u64);
    report.append("/100**\n\nGenerated: ");
    report.append(generated);
    report.append("\n");
    report
}

/// The shields.io badge URL of a health score.
pub fn badge_url(overall: u8) -> (url: String)
    ensures
        url@ == "https://img.shields.io/badge/GitPulse%20Score-"@ + crate::text::decimal(
            overall as nat,
        ) + "%2F100-green?style=flat-square&logo=github"@,
{
    let mut url = "https://img.shields.io/badge/GitPulse%20Score-".to_owned();
    crate::text::push_decimal(&mut url, overall as u64);
    url.append("%2F100-green?style=flat-square&logo=github");
    url
}

/// Keys keep the selected card among the cards on show: a selection within
/// range stays within range whatever key is pressed.
pub proof fn law_selection_stays_in_range(d: Dashboard, key: Key)
    requires
        d.repo_selected <= last_card(d.state),
    ensures
        after_key(d, key).repo_selected <= last_card(after_key(d, key).state),
        after_key(d, key).state == d.state,
{
}

/// The navigation keys: Down and `j` move the selection one card down but
/// never past the last card, Up and `k` one card up but never below the
/// first; a selection that moves scrolls the detail back to the top; PageDown
/// and PageUp scroll the detail by three lines, stopping at the ends of the
/// `u16` range.
pub proof fn law_navigation_keys(d: Dashboard, key: Key)
    requires
        d.repo_selected <= last_card(d.state),
        cards_shown(d.state) <= usize::MAX,
    ensures
        ({
            let n = after_key(d, key);
            &&& n.repo_selected <= last_card(d.state)
            &&& (key == Key::Down || key == Key::Char('j')) ==> n.repo_selected == (if d.repo_selected
                + 1 <= last_card(d.state) {
                d.repo_selected + 1
            } else {
                last_card(d.state)
            })
            &&& (key == Key::Up || key == Key::Char('k')) ==> n.repo_selected == (if d.repo_selected
                >= 1 {
                d.repo_selected - 1
            } else {
                0
            })
            &&& n.repo_selected != d.repo_selected ==> n.detail_scroll == 0
            &&& key == Key::PageDown ==> n.detail_scroll == (if d.detail_scroll + 3 <= u16::MAX {
                d.detail_scroll + 3
            } else {
                u16::MAX as int
            })
            &&& key == Key::PageUp ==> n.detail_scroll == (if d.detail_scroll >= 3 {
                d.detail_scroll - 3
            } else {
                0
            })
        }),
{
}

/// Pressing `?` twice, or `t` twice, gives the dashboard back; the tab keys
/// `1` to `5` choose the tab of that number.
pub proof fn law_keys_undo_and_tabs(d: Dashboard, n: int)
    requires
        1 <= n <= 5,
    ensures
        after_key(after_key(d, Key::Char('?')), Key::Char('?')) == d,
        after_key(after_key(d, Key::Char('t')), Key::Char('t')) == d,
        tab_number(
            after_key(
                d,
                Key::Char(
                    if n == 1 {
                        '1'
                    } else if n == 2 {
                        '2'
                    } else if n == 3 {
                        '3'
                    } else if n == 4 {
                        '4'
                    } else {
                        '5'
                    },
                ),
            ).tab,
        ) == n - 1,
{
    crate::ui::theme::law_toggle_twice(d.theme);
}

} // verus!

//! The TUI's application state: the CTF list with its collapsible archive
//! section, the challenge list, and the background CTFtime fetch.
//!
//! The CTF list shows the active CTFs, then (when there are archived CTFs) an
//! archive header row, then (when the archive is expanded) the archived CTFs.
//! `selected_index` counts rows of that list.
use vstd::prelude::*;
use vstd::string::*;

use std::sync::mpsc::Receiver;

use crate::models::{Challenge, Ctf};
use crate::onboarding::OnboardingState;
use crate::settings_state::SettingsState;

verus! {

#[verifier::external_type_specification]
#[verifier::external_body]
#[verifier::reject_recursive_types(T)]
pub struct ExReceiver<T>(Receiver<T>);

/// The screen being shown.
#[derive(Clone, Copy, Debug, PartialEq, Eq, Structural)]
pub enum ViewMode {
    /// The list of CTFs.
    CtfList,
    /// The challenges of one CTF.
    ChallengeList,
}

/// What a look at the fetch channel found.
#[derive(Debug)]
pub enum FetchPoll {
    /// The fetch ended with this outcome.
    Ready(Result<usize, String>),
    /// The fetch is still running.
    Pending,
    /// The fetching side went away without an outcome.
    Disconnected,
}

/// std's `Receiver::try_recv`, told apart by outcome. What it finds depends
/// on the other thread, so nothing is claimed of it.
#[verifier::external_body]
fn poll_receiver(receiver: &Receiver<Result<usize, String>>) -> (r: FetchPoll) {
    match receiver.try_recv() {
        Ok(v) => FetchPoll::Ready(v),
        Err(std::sync::mpsc::TryRecvError::Empty) => FetchPoll::Pending,
        Err(std::sync::mpsc::TryRecvError::Disconnected) => FetchPoll::Disconnected,
    }
}

/// The application state of the TUI.
pub struct App {
    /// Whether the application should quit.
    pub should_quit: bool,
    /// The screen being shown.
    pub current_view: ViewMode,
    /// Active and upcoming CTFs.
    pub ctfs: Vec<Ctf>,
    /// Archived (past) CTFs.
    pub archived_ctfs: Vec<Ctf>,
    /// Whether the archive section is expanded.
    pub archive_expanded: bool,
    /// Selected row of the CTF list.
    pub selected_index: usize,
    /// Challenges of the CTF being viewed.
    pub challenges: Vec<Challenge>,
    /// Selected challenge.
    pub challenge_selected_index: usize,
    /// Id of the CTF whose challenges are shown.
    pub current_ctf_id: Option<i64>,
    /// Whether the settings dialog is open.
    pub show_settings: bool,
    /// State of the settings dialog.
    pub settings_state: SettingsState,
    /// State of the onboarding dialog, during first-time setup.
    pub onboarding_state: Option<OnboardingState>,
    /// Directory to change to when the TUI exits.
    pub navigation_path: Option<String>,
    /// Whether a CTFtime fetch is running.
    pub is_fetching_api: bool,
    /// Error of the last CTFtime fetch.
    pub api_error_message: Option<String>,
    /// Receiving end of the running CTFtime fetch.
    pub api_fetch_receiver: Option<Receiver<Result<usize, String>>>,
}

/// The message given when the fetching side went away.
pub open spec fn disconnected_message() -> Seq<char> {
    "API fetch thread disconnected unexpectedly"@
}

/// A row of the CTF list.
pub enum Row {
    /// The active CTF at this position.
    Active(int),
    /// The archive header.
    Header,
    /// The archived CTF at this position.
    Archived(int),
}

/// The first position in `s` of a CTF with the given id.
pub open spec fn first_with_id(s: Seq<Ctf>, id: i64) -> Option<int>
    decreases s.len(),
{
    if s.len() == 0 {
        None
    } else {
        match first_with_id(s.drop_last(), id) {
            Some(k) => Some(k),
            None => if s.last().id == Some(id) {
                Some(s.len() - 1)
            } else {
                None
            },
        }
    }
}

impl App {
    /// The two CTF lists fit in memory together (their total length is a usize).
    pub open spec fn lists_fit(&self) -> bool {
        self.ctfs@.len() + self.archived_ctfs@.len() <= usize::MAX
    }

    /// Whether row `i` is the archive header.
    pub open spec fn header_at(&self, i: int) -> bool {
        self.archived_ctfs@.len() > 0 && i == self.ctfs@.len()
    }

    /// The number of rows of the CTF list.
    pub open spec fn row_count(&self) -> int {
        self.ctfs@.len() + if self.archived_ctfs@.len() > 0 {
            1 + if self.archive_expanded {
                self.archived_ctfs@.len() as int
            } else {
                0
            }
        } else {
            0
        }
    }

    /// What row `i` of the CTF list shows.
    pub open spec fn row(&self, i: int) -> Option<Row> {
        if 0 <= i < self.ctfs@.len() {
            Some(Row::Active(i))
        } else if self.header_at(i) {
            Some(Row::Header)
        } else if i < self.row_count() {
            Some(Row::Archived(i - self.ctfs@.len() - 1))
        } else {
            None
        }
    }

    /// The largest selectable row index of the CTF list. When the archive
    /// is collapsed the header is the last row, so navigation can reach it
    /// and expand it.
    pub open spec fn max_index(&self) -> int {
        let a = self.ctfs@.len() as int;
        let r = self.archived_ctfs@.len() as int;
        if r == 0 {
            if a == 0 {
                0
            } else {
                a - 1
            }
        } else if self.archive_expanded {
            a + r
        } else {
            a
        }
    }

    /// The selection lies within the CTF list.
    pub open spec fn selection_in_range(&self) -> bool {
        self.selected_index <= self.max_index()
    }

    /// The same state with another selected row.
    pub open spec fn with_selection(self, i: int) -> App {
        App { selected_index: i as usize, ..self }
    }

    /// The state after `select_previous`.
    pub open spec fn after_select_previous(self) -> App {
        match self.current_view {
            ViewMode::CtfList => if self.selected_index == 0 {
                self
            } else {
                let i = self.selected_index - 1;
                if self.header_at(i) && i > 0 {
                    self.with_selection(i - 1)
                } else {
                    self.with_selection(i)
                }
            },
            ViewMode::ChallengeList => if self.challenge_selected_index == 0 {
                self
            } else {
                App { challenge_selected_index: (self.challenge_selected_index - 1) as usize, ..self }
            },
        }
    }

    /// The state after `select_next`: reaching the archive header expands
    /// the archive and steps over the header when there is a row after it.
    pub open spec fn after_select_next(self) -> App {
        match self.current_view {
            ViewMode::CtfList => if self.selected_index < self.max_index() {
                let i = self.selected_index + 1;
                if self.header_at(i) {
                    let e = App { archive_expanded: true, ..self };
                    if i < e.max_index() {
                        e.with_selection(i + 1)
                    } else {
                        e.with_selection(i)
                    }
                } else {
                    self.with_selection(i)
                }
            } else {
                self
            },
            ViewMode::ChallengeList => {
                let n = self.challenges@.len();
                let last = if n == 0 {
                    0
                } else {
                    n - 1
                };
                if self.challenge_selected_index < last {
                    App { challenge_selected_index: (self.challenge_selected_index + 1) as usize, ..self }
                } else {
                    self
                }
            },
        }
    }

    /// The state after the selection is brought back into the list: clamped
    /// to the last selectable row, then moved off the archive header (up when
    /// possible, else down when possible).
    pub open spec fn after_validate(self) -> App {
        let m = self.max_index();
        let s = if self.selected_index > m {
            m
        } else {
            self.selected_index as int
        };
        if self.header_at(s) {
            if s > 0 {
                self.with_selection(s - 1)
            } else if s < m {
                self.with_selection(s + 1)
            } else {
                self.with_selection(s)
            }
        } else {
            self.with_selection(s)
        }
    }

    /// Where the selected CTF is: `(false, k)` for `ctfs[k]`, `(true, k)`
    /// for `archived_ctfs[k]`. Past the active CTFs the archived CTFs count
    /// only when the archive is expanded, starting one row after the archive
    /// header; the header row itself selects no CTF.
    pub open spec fn selected_ctf_at(&self) -> Option<(bool, int)> {
        let i = self.selected_index as int;
        let a = self.ctfs@.len() as int;
        if i < a {
            Some((false, i))
        } else if self.archive_expanded && i > a && i - (a + 1) < self.archived_ctfs@.len() {
            Some((true, i - (a + 1)))
        } else {
            None
        }
    }

    /// Where the CTF being viewed is: the first active CTF with the tracked
    /// id, else the first archived one.
    pub open spec fn current_ctf_at(&self) -> Option<(bool, int)> {
        match self.current_ctf_id {
            None => None,
            Some(id) => match first_with_id(self.ctfs@, id) {
                Some(k) => Some((false, k)),
                None => match first_with_id(self.archived_ctfs@, id) {
                    Some(k) => Some((true, k)),
                    None => None,
                },
            },
        }
    }

    /// The CTF at a location given by `selected_ctf_at` or `current_ctf_at`.
    pub open spec fn ctf_at(&self, loc: (bool, int)) -> Ctf {
        if loc.0 {
            self.archived_ctfs@[loc.1]
        } else {
            self.ctfs@[loc.1]
        }
    }

    /// A fresh state: the CTF list, nothing loaded, nothing selected.
    pub fn new() -> (r: Result<App, String>)
        ensures
            r matches Ok(app) && {
                &&& !app.should_quit
                &&& app.current_view == ViewMode::CtfList
                &&& app.ctfs@.len() == 0
                &&& app.archived_ctfs@.len() == 0
                &&& !app.archive_expanded
                &&& app.selected_index == 0
                &&& app.challenges@.len() == 0
                &&& app.challenge_selected_index == 0
                &&& app.current_ctf_id is None
                &&& !app.show_settings
                &&& app.settings_state.selected_field
                    == crate::settings_state::SettingField::DefaultCtfDirectory
                &&& !app.settings_state.editing
                &&& app.settings_state.input_buffer@.len() == 0
                &&& app.onboarding_state is None
                &&& app.navigation_path is None
                &&& !app.is_fetching_api
                &&& app.api_error_message is None
                &&& app.api_fetch_receiver is None
            },
    {
        Ok(
            App {
                should_quit: false,
                current_view: ViewMode::CtfList,
                ctfs: Vec::new(),
                archived_ctfs: Vec::new(),
                archive_expanded: false,
                selected_index: 0,
                challenges: Vec::new(),
                challenge_selected_index: 0,
                current_ctf_id: None,
                show_settings: false,
                settings_state: SettingsState::new(),
                onboarding_state: None,
                navigation_path: None,
                is_fetching_api: false,
                api_error_message: None,
                api_fetch_receiver: None,
            },
        )
    }

    /// Replaces the CTF lists with freshly loaded ones and brings the
    /// selection back into the list.
    pub fn load_ctfs(&mut self, active: Vec<Ctf>, archived: Vec<Ctf>)
        requires
            active@.len() + archived@.len() <= usize::MAX,
        ensures
            *final(self) == (App { ctfs: active, archived_ctfs: archived, ..*old(self) }).after_validate(),
    {
        self.ctfs = active;
        self.archived_ctfs = archived;
        self.validate_selection_index();
    }

    /// Replaces the challenge list with freshly loaded challenges and
    /// selects the first.
    pub fn load_challenges(&mut self, challenges: Vec<Challenge>)
        ensures
            *final(self) == (App { challenges: challenges, challenge_selected_index: 0, ..*old(self) }),
    {
        self.challenges = challenges;
        self.challenge_selected_index = 0;
    }

    /// Shows the given challenges of the CTF with the given id.
    pub fn enter_challenge_view(&mut self, ctf_id: i64, challenges: Vec<Challenge>)
        ensures
            *final(self) == (App {
                challenges: challenges,
                challenge_selected_index: 0,
                current_ctf_id: Some(ctf_id),
                current_view: ViewMode::ChallengeList,
                ..*old(self)
            }),
    {
        self.load_challenges(challenges);
        self.current_ctf_id = Some(ctf_id);
        self.current_view = ViewMode::ChallengeList;
    }

    /// Goes back to the CTF list, dropping the challenges being viewed.
    pub fn back_to_ctf_list(&mut self)
        ensures
            final(self).current_view == ViewMode::CtfList,
            final(self).challenges@.len() == 0,
            final(self).challenge_selected_index == 0,
            final(self).current_ctf_id is None,
            *final(self) == (App {
                current_view: ViewMode::CtfList,
                challenges: final(self).challenges,
                challenge_selected_index: 0,
                current_ctf_id: None,
                ..*old(self)
            }),
    {
        self.current_view = ViewMode::CtfList;
        self.challenges = Vec::new();
        self.challenge_selected_index = 0;
        self.current_ctf_id = None;
    }

    /// Moves the selection up in the current list, stepping over the
    /// archive header when there is a row above it.
    pub fn select_previous(&mut self)
        ensures
            *final(self) == old(self).after_select_previous(),
    {
        match self.current_view {
            ViewMode::CtfList => {
                if self.selected_index > 0 {
                    self.selected_index = self.selected_index - 1;
                    if self.is_archive_header_index(self.selected_index) && self.selected_index > 0 {
                        self.selected_index = self.selected_index - 1;
                    }
                }
            },
            ViewMode::ChallengeList => {
                if self.challenge_selected_index > 0 {
                    self.challenge_selected_index = self.challenge_selected_index - 1;
                }
            },
        }
    }

    /// Moves the selection down in the current list; reaching the archive
    /// header expands the archive and steps onto its first CTF.
    pub fn select_next(&mut self)
        requires
            old(self).lists_fit(),
        ensures
            *final(self) == old(self).after_select_next(),
    {
        match self.current_view {
            ViewMode::CtfList => {
                let max_index = self.get_max_ctf_index();
                if self.selected_index < max_index {
                    self.selected_index = self.selected_index + 1;
                    if self.is_archive_header_index(self.selected_index) {
                        if !self.archive_expanded {
                            self.archive_expanded = true;
                        }
                        let new_max_index = self.get_max_ctf_index();
                        if self.selected_index < new_max_index {
                            self.selected_index = self.selected_index + 1;
                        }
                    }
                }
            },
            ViewMode::ChallengeList => {
                let n = self.challenges.len();
                let last = if n == 0 {
                    0
                } else {
                    n - 1
                };
                if self.challenge_selected_index < last {
                    self.challenge_selected_index = self.challenge_selected_index + 1;
                }
            },
        }
    }

    /// The selected CTF, active or archived.
    pub fn get_selected_ctf(&self) -> (r: Option<&Ctf>)
        ensures
            match self.selected_ctf_at() {
                Some(loc) => r matches Some(c) && *c == self.ctf_at(loc),
                None => r is None,
            },
    {
        if self.selected_index < self.ctfs.len() {
            Some(&self.ctfs[self.selected_index])
        } else if self.archive_expanded && self.selected_index > self.ctfs.len() {
            let archived_index: usize = self.selected_index - self.ctfs.len() - 1;
            if archived_index < self.archived_ctfs.len() {
                Some(&self.archived_ctfs[archived_index])
            } else {
                None
            }
        } else {
            None
        }
    }

    /// The selected challenge.
    pub fn get_selected_challenge(&self) -> (r: Option<&Challenge>)
        ensures
            self.challenge_selected_index < self.challenges@.len() ==> (r matches Some(c) && *c
                == self.challenges@[self.challenge_selected_index as int]),
            self.challenge_selected_index >= self.challenges@.len() ==> r is None,
    {
        if self.challenge_selected_index < self.challenges.len() {
            Some(&self.challenges[self.challenge_selected_index])
        } else {
            None
        }
    }

    /// The CTF whose challenges are shown, found by the tracked id among
    /// the active CTFs first, then the archived ones.
    pub fn get_current_ctf(&self) -> (r: Option<&Ctf>)
        ensures
            self.current_ctf_at() matches Some(loc) ==> (r matches Some(c) && *c == self.ctf_at(
                loc,
            )),
            self.current_ctf_at() is None ==> r is None,
    {
        match self.current_ctf_id {
            None => None,
            Some(id) => {
                match find_by_id(&self.ctfs, id) {
                    Some(k) => Some(&self.ctfs[k]),
                    None => match find_by_id(&self.archived_ctfs, id) {
                        Some(k) => Some(&self.archived_ctfs[k]),
                        None => None,
                    },
                }
            },
        }
    }

    /// No CTF is loaded, active or archived: at start-up the TUI then
    /// fetches from CTFtime, and leaves when there are still none.
    pub fn has_no_ctfs(&self) -> (r: bool)
        ensures
            r == (self.ctfs@.len() == 0 && self.archived_ctfs@.len() == 0),
    {
        self.ctfs.len() == 0 && self.archived_ctfs.len() == 0
    }

    /// Marks a CTFtime fetch as running, with its receiving end.
    pub fn start_api_refresh(&mut self, receiver: Receiver<Result<usize, String>>)
        ensures
            *final(self) == (App {
                is_fetching_api: true,
                api_error_message: None,
                api_fetch_receiver: Some(receiver),
                ..*old(self)
            }),
    {
        self.is_fetching_api = true;
        self.api_error_message = None;
        self.api_fetch_receiver = Some(receiver);
    }

    /// Applies what a look at the fetch channel found: an outcome, or the
    /// fetching side going away, ends the fetch and is handed back; a fetch
    /// still running changes nothing.
    pub fn apply_fetch_poll(&mut self, poll: FetchPoll) -> (r: Option<Result<usize, String>>)
        ensures
            poll is Pending ==> r is None && *final(self) == *old(self),
            poll matches FetchPoll::Ready(v) ==> r == Some(v) && *final(self) == (App {
                api_fetch_receiver: None,
                is_fetching_api: false,
                ..*old(self)
            }),
            poll is Disconnected ==> (r matches Some(Err(e)) && e@ == disconnected_message())
                && *final(self) == (App {
                api_fetch_receiver: None,
                is_fetching_api: false,
                ..*old(self)
            }),
    {
        match poll {
            FetchPoll::Ready(result) => {
                self.api_fetch_receiver = None;
                self.is_fetching_api = false;
                Some(result)
            },
            FetchPoll::Pending => None,
            FetchPoll::Disconnected => {
                self.api_fetch_receiver = None;
                self.is_fetching_api = false;
                Some(Err(String::from_str("API fetch thread disconnected unexpectedly")))
            },
        }
    }

    /// Looks, without waiting, whether the running CTFtime fetch has ended:
    /// with no fetch running nothing changes; otherwise as `apply_fetch_poll`
    /// for what was found.
    pub fn check_api_fetch_complete(&mut self) -> (r: Option<Result<usize, String>>)
        ensures
            old(self).api_fetch_receiver is None ==> r is None && *final(self) == *old(self),
            r is None ==> *final(self) == *old(self),
            r is Some ==> *final(self) == (App {
                api_fetch_receiver: None,
                is_fetching_api: false,
                ..*old(self)
            }),
    {
        let poll = match &self.api_fetch_receiver {
            Some(receiver) => poll_receiver(receiver),
            None => {
                return None;
            },
        };
        self.apply_fetch_poll(poll)
    }

    /// Ends the CTFtime fetch successfully.
    pub fn complete_api_refresh_success(&mut self)
        ensures
            *final(self) == (App {
                is_fetching_api: false,
                api_error_message: None,
                api_fetch_receiver: None,
                ..*old(self)
            }),
    {
        self.is_fetching_api = false;
        self.api_error_message = None;
        self.api_fetch_receiver = None;
    }

    /// Ends the CTFtime fetch with an error to show.
    pub fn complete_api_refresh_error(&mut self, error: String)
        ensures
            *final(self) == (App {
                is_fetching_api: false,
                api_error_message: Some(error),
                api_fetch_receiver: None,
                ..*old(self)
            }),
    {
        self.is_fetching_api = false;
        self.api_error_message = Some(error);
        self.api_fetch_receiver = None;
    }

    /// Expands or collapses the archive section and brings the selection
    /// back into the list.
    pub fn toggle_archive(&mut self)
        requires
            old(self).lists_fit(),
        ensures
            *final(self) == (App { archive_expanded: !old(self).archive_expanded, ..*old(self) }).after_validate(),
    {
        self.archive_expanded = !self.archive_expanded;
        self.validate_selection_index();
    }

    /// Brings the selection back into the list and off the archive header.
    fn validate_selection_index(&mut self)
        requires
            old(self).lists_fit(),
        ensures
            *final(self) == old(self).after_validate(),
    {
        let max_index = self.get_max_ctf_index();
        if self.selected_index > max_index {
            self.selected_index = if max_index == 0 && self.ctfs.len() == 0 {
                0
            } else {
                max_index
            };
        }
        if self.is_archive_header_index(self.selected_index) {
            if self.selected_index > 0 {
                self.selected_index = self.selected_index - 1;
            } else if self.selected_index < max_index {
                self.selected_index = self.selected_index + 1;
            }
        }
    }

    /// Whether row `index` is the archive header.
    fn is_archive_header_index(&self, index: usize) -> (r: bool)
        ensures
            r == self.header_at(index as int),
    {
        self.archived_ctfs.len() > 0 && index == self.ctfs.len()
    }

    /// The largest selectable row index.
    fn get_max_ctf_index(&self) -> (r: usize)
        requires
            self.lists_fit(),
        ensures
            r == self.max_index(),
    {
        let active_count = self.ctfs.len();
        if self.archived_ctfs.len() == 0 {
            if active_count == 0 {
                0
            } else {
                active_count - 1
            }
        } else if self.archive_expanded {
            active_count + self.archived_ctfs.len()
        } else {
            active_count
        }
    }

    /// Whether the archive header is selected.
    pub fn is_on_archive_header(&self) -> (r: bool)
        ensures
            r == self.header_at(self.selected_index as int),
    {
        self.is_archive_header_index(self.selected_index)
    }
}

impl Default for App {
    fn default() -> (r: App)
        ensures
            r.current_view == ViewMode::CtfList,
            r.ctfs@.len() == 0,
            r.archived_ctfs@.len() == 0,
            r.selected_index == 0,
            r.onboarding_state is None,
            r.api_fetch_receiver is None,
    {
        match App::new() {
            Ok(app) => app,
            Err(_) => App {
                should_quit: false,
                current_view: ViewMode::CtfList,
                ctfs: Vec::new(),
                archived_ctfs: Vec::new(),
                archive_expanded: false,
                selected_index: 0,
                challenges: Vec::new(),
                challenge_selected_index: 0,
                current_ctf_id: None,
                show_settings: false,
                settings_state: SettingsState::new(),
                onboarding_state: None,
                navigation_path: None,
                is_fetching_api: false,
                api_error_message: None,
                api_fetch_receiver: None,
            },
        }
    }
}

/// The position of the first CTF with the given id.
fn find_by_id(ctfs: &Vec<Ctf>, id: i64) -> (r: Option<usize>)
    ensures
        r matches Some(k) ==> first_with_id(ctfs@, id) == Some(k as int) && k < ctfs@.len(),
        r is None ==> first_with_id(ctfs@, id) is None,
{
    proof {
        lemma_first_with_id_bounds(ctfs@, id);
    }
    let mut i: usize = 0;
    while i < ctfs.len()
        invariant
            i <= ctfs.len(),
            first_with_id(ctfs@.take(i as int), id) is None,
        decreases ctfs.len() - i,
    {
        assert(ctfs@.take(i + 1).drop_last() =~= ctfs@.take(i as int));
        if ctfs[i].id == Some(id) {
            proof {
                lemma_first_with_id_prefix(ctfs@, id, i as int + 1);
            }
            return Some(i);
        }
        i = i + 1;
    }
    assert(ctfs@.take(ctfs.len() as int) =~= ctfs@);
    None
}

proof fn lemma_first_with_id_bounds(s: Seq<Ctf>, id: i64)
    ensures
        first_with_id(s, id) matches Some(k) ==> 0 <= k < s.len() && s[k].id == Some(id),
    decreases s.len(),
{
    if s.len() > 0 {
        lemma_first_with_id_bounds(s.drop_last(), id);
    }
}

proof fn lemma_first_with_id_prefix(s: Seq<Ctf>, id: i64, n: int)
    requires
        0 < n <= s.len(),
        first_with_id(s.take(n), id) is Some,
    ensures
        first_with_id(s, id) == first_with_id(s.take(n), id),
    decreases s.len() - n,
{
    if n < s.len() {
        assert(s.take(n + 1).drop_last() =~= s.take(n));
        lemma_first_with_id_prefix(s, id, n + 1);
    } else {
        assert(s.take(n) =~= s);
    }
}

/// The last selectable row is the last row of the CTF list (row 0 when the
/// list is empty).
pub proof fn lemma_max_index_is_last_row(app: App)
    ensures
        app.max_index() == if app.row_count() == 0 {
            0
        } else {
            app.row_count() - 1
        },
{
}

/// Bringing the selection back into the list (after loading CTFs or
/// toggling the archive) leaves it within the list and off the archive
/// header, unless the header is the only selectable row.
pub proof fn lemma_validate_selects_a_row(app: App)
    ensures
        app.after_validate().selection_in_range(),
        app.after_validate().header_at(app.after_validate().selected_index as int) ==> app.after_validate().selected_index == 0
            && app.after_validate().max_index() == 0,
{
}

/// Moving the selection up or down keeps it within the CTF list.
pub proof fn lemma_navigation_stays_in_range(app: App)
    requires
        app.selection_in_range(),
    ensures
        app.after_select_next().selection_in_range(),
        app.after_select_previous().selection_in_range(),
{
}

/// Moving down never stops on the archive header: it either steps past it
/// or does not move.
pub proof fn lemma_select_next_steps_over_header(app: App)
    requires
        app.current_view == ViewMode::CtfList,
        app.selection_in_range(),
        app.lists_fit(),
    ensures
        app.after_select_next().header_at(app.after_select_next().selected_index as int)
            ==> app.after_select_next().selected_index == app.selected_index,
{
}

/// Moving up stops on the archive header only when it is the first row or
/// the selection did not move.
pub proof fn lemma_select_previous_steps_over_header(app: App)
    requires
        app.current_view == ViewMode::CtfList,
    ensures
        app.after_select_previous().header_at(app.after_select_previous().selected_index as int)
            ==> app.after_select_previous().selected_index == 0 || app.after_select_previous()
            == app,
{
}

/// Away from the archive header and the ends of the lists, moving up undoes
/// moving down.
pub proof fn lemma_previous_undoes_next(app: App)
    requires
        app.lists_fit(),
    ensures
        app.current_view == ViewMode::CtfList && app.selected_index < app.max_index()
            && !app.header_at(app.selected_index as int) && !app.header_at(app.selected_index + 1)
            ==> app.after_select_next().after_select_previous() == app,
        app.current_view == ViewMode::ChallengeList && app.challenge_selected_index + 1
            < app.challenges@.len() <= usize::MAX ==> app.after_select_next().after_select_previous()
            == app,
{
    if app.current_view == ViewMode::ChallengeList && app.challenge_selected_index + 1
        < app.challenges@.len() <= usize::MAX {
        let n = app.after_select_next();
        assert(n.challenge_selected_index == app.challenge_selected_index + 1);
        let p = n.after_select_previous();
        assert(p.challenge_selected_index == app.challenge_selected_index);
        assert(p == app);
    }
    if app.current_view == ViewMode::CtfList && app.selected_index < app.max_index()
        && !app.header_at(app.selected_index as int) && !app.header_at(app.selected_index + 1) {
        let n = app.after_select_next();
        assert(n.selected_index == app.selected_index + 1);
        let p = n.after_select_previous();
        assert(p.selected_index == app.selected_index);
        assert(p == app);
    }
}

/// The selected CTF is the one shown in the selected row, when that row
/// shows a CTF; on the archive header no CTF is selected.
pub proof fn lemma_selected_ctf_is_selected_row(app: App)
    ensures
        app.row(app.selected_index as int) matches Some(Row::Header) ==> app.selected_ctf_at() is None,
        app.row(app.selected_index as int) matches Some(Row::Active(k)) ==> app.selected_ctf_at()
            == Some((false, k)),
        app.row(app.selected_index as int) matches Some(Row::Archived(k)) ==> app.selected_ctf_at()
            == Some((true, k)),
{
}

} // verus!

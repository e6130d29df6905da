//! The interactive approval state machine: browsing the recommendation
//! table, confirming, collecting URL, token, username and branch, and
//! following the background apply run. Rendering and key reading happen
//! outside; this module holds the state, every transition, and the texts
//! the dialogs show.

use vstd::prelude::*;
use crate::quantity::{nat_min, parse_resource_value, quantity_value};
use crate::recommender::ResourceRecommendation;
use crate::strutil::{push_char, starts_with_seq, str_eq, u64_to_string};

verus! {

/// A progress message from the background apply worker.
#[derive(Clone, Debug)]
pub enum ProgressUpdate {
    Stage { progress: u16, message: String },
    Complete { pr_url: Option<String>, message: String },
    Error { message: String },
}

/// The interactive modes, exactly one active at a time.
#[derive(Clone, Debug)]
pub enum AppMode {
    BrowsingTable,
    ConfirmApply,
    InputUrl,
    InputToken,
    InputUsername,
    InputBranch,
    Applying { progress: u16, stage: String },
    ShowResult { message: String, pr_url: Option<String> },
}

/// One keystroke, as the state machine sees it.
#[derive(Clone, Copy, Debug)]
pub enum KeyInput {
    Character(char),
    Enter,
    Esc,
    Backspace,
    Up,
    Down,
    Other,
}

/// What the caller must do after a transition.
pub enum UiAction {
    Nothing,
    Quit,
    StartApply {
        url: String,
        branch: String,
        username: Option<String>,
        token: Option<String>,
    },
}

/// The full state of the approval loop.
pub struct AppState {
    pub total: usize,
    pub cursor: usize,
    pub selected: Vec<bool>,
    pub mode: AppMode,
    pub input_buffer: String,
    pub error_message: Option<String>,
    pub collected_url: Option<String>,
    pub collected_token: Option<String>,
    pub collected_username: Option<String>,
}

pub open spec fn all_selected(flags: Seq<bool>) -> bool {
    forall|i: int| 0 <= i < flags.len() ==> flags[i]
}

pub open spec fn any_selected(flags: Seq<bool>) -> bool {
    exists|i: int| 0 <= i < flags.len() && flags[i]
}

impl AppState {
    /// A state is sound when the cursor and the selection flags fit the
    /// table.
    pub open spec fn wf(self) -> bool {
        &&& self.selected@.len() == self.total
        &&& (self.total > 0 ==> self.cursor < self.total)
    }

    /// The initial state: browsing, first row under the cursor, every
    /// row selected.
    pub fn new(total_items: usize) -> (r: Self)
        ensures
            r.wf(),
            r.total == total_items,
            r.cursor == 0,
            all_selected(r.selected@),
            r.mode is BrowsingTable,
            r.input_buffer@.len() == 0,
            r.error_message is None,
            r.collected_url is None,
            r.collected_token is None,
            r.collected_username is None,
    {
        let mut selected: Vec<bool> = Vec::new();
        let mut i: usize = 0;
        while i < total_items
            invariant
                i <= total_items,
                selected@.len() == i,
                all_selected(selected@),
            decreases total_items - i,
        {
            selected.push(true);
            i += 1;
        }
        Self {
            total: total_items,
            cursor: 0,
            selected,
            mode: AppMode::BrowsingTable,
            input_buffer: String::new(),
            error_message: None,
            collected_url: None,
            collected_token: None,
            collected_username: None,
        }
    }

    /// A worker message: a stage keeps applying with new progress, a
    /// completion or an error shows the result.
    pub fn handle_progress(&mut self, update: ProgressUpdate)
        ensures
            final(self).total == old(self).total,
            final(self).cursor == old(self).cursor,
            final(self).selected == old(self).selected,
            match update {
                ProgressUpdate::Stage { progress, message } => final(self).mode matches
                    AppMode::Applying { progress: p2, stage } && p2 == progress && stage
                    == message,
                ProgressUpdate::Complete { pr_url, message } => final(self).mode matches
                    AppMode::ShowResult { message: m2, pr_url: u2 } && m2 == message && u2
                    == pr_url,
                ProgressUpdate::Error { message } => final(self).mode matches
                    AppMode::ShowResult { message: m2, pr_url: u2 } && m2 == message && u2
                    is None,
            },
    {
        match update {
            ProgressUpdate::Stage { progress, message } => {
                self.mode = AppMode::Applying { progress, stage: message };
            },
            ProgressUpdate::Complete { pr_url, message } => {
                self.mode = AppMode::ShowResult { message, pr_url };
            },
            ProgressUpdate::Error { message } => {
                self.mode = AppMode::ShowResult { message, pr_url: None };
            },
        }
    }

    /// Toggles the selection flag under the cursor.
    fn toggle_selected(&mut self)
        requires
            old(self).wf(),
        ensures
            final(self).wf(),
            final(self).total == old(self).total,
            final(self).cursor == old(self).cursor,
            final(self).mode == old(self).mode,
            old(self).total > 0 ==> final(self).selected@ == old(self).selected@.update(
                old(self).cursor as int,
                !old(self).selected@[old(self).cursor as int],
            ),
            old(self).total == 0 ==> final(self).selected@ == old(self).selected@,
    {
        if self.cursor < self.selected.len() {
            let cur = self.selected[self.cursor];
            self.selected.set(self.cursor, !cur);
        }
    }

    fn set_all(&mut self, value: bool)
        requires
            old(self).wf(),
        ensures
            final(self).wf(),
            final(self).total == old(self).total,
            final(self).cursor == old(self).cursor,
            final(self).mode == old(self).mode,
            final(self).selected@.len() == old(self).selected@.len(),
            forall|i: int| 0 <= i < final(self).selected@.len() ==> final(self).selected@[i]
                == value,
    {
        let n = self.selected.len();
        let mut i: usize = 0;
        while i < n
            invariant
                i <= n,
                self.selected@.len() == n,
                self.total == old(self).total,
                self.cursor == old(self).cursor,
                self.mode == old(self).mode,
                old(self).wf(),
                n == old(self).selected@.len(),
                forall|j: int| 0 <= j < i ==> self.selected@[j] == value,
            decreases n - i,
        {
            self.selected.set(i, value);
            i += 1;
        }
    }

    /// Whether any row is selected.
    fn has_selection(&self) -> (r: bool)
        ensures
            r == any_selected(self.selected@),
    {
        let mut i: usize = 0;
        let n = self.selected.len();
        while i < n
            invariant
                i <= n,
                n == self.selected@.len(),
                forall|j: int| 0 <= j < i ==> !self.selected@[j],
            decreases n - i,
        {
            if self.selected[i] {
                return true;
            }
            i += 1;
        }
        false
    }
}

/// Relies on url::Url::parse (and the parsed URL's serialization): the
/// normalized text of a well-formed URL, or the parse error's text.
/// Both are functions of the input text alone.
#[verifier::external_body]
fn parse_url(s: &str) -> (r: Result<String, String>)
    ensures
        (r is Ok) == (url_normalized_of(s@) is Some),
        r matches Ok(u) ==> Some(u@) == url_normalized_of(s@),
{
    url::Url::parse(s).map(|u| u.to_string()).map_err(|e| e.to_string())
}

/// What URL parsing makes of a text: its normalized form, or nothing
/// when the text is not a URL.
pub uninterp spec fn url_normalized_of(s: Seq<char>) -> Option<Seq<char>>;

impl AppState {
    /// One keystroke. Navigation wraps around the table; `ConfirmApply`
    /// proceeds to the input chain or falls back to browsing; each input
    /// edits the buffer, cancels, or submits; submitting the branch
    /// starts the apply run over the collected values.
    pub fn handle_key(
        &mut self,
        key: KeyInput,
        default_url: &Option<String>,
        default_token: &Option<String>,
        default_username: &Option<String>,
        default_branch: &str,
    ) -> (r: UiAction)
        requires
            old(self).wf(),
        ensures
            final(self).wf(),
            final(self).total == old(self).total,
            old(self).mode is BrowsingTable ==> match key {
                KeyInput::Character(c) => {
                    &&& (c == 'q' ==> r is Quit)
                    &&& (c == ' ' && old(self).total > 0 ==> final(self).selected@ == old(self).selected@.update(
                        old(self).cursor as int,
                        !old(self).selected@[old(self).cursor as int],
                    ))
                    &&& (c == 'a' ==> (final(self).mode is BrowsingTable && all_selected(
                        final(self).selected@,
                    )))
                    &&& (c == 'n' ==> (final(self).mode is BrowsingTable && !any_selected(
                        final(self).selected@,
                    )))
                    &&& (c == 'j' && old(self).total > 0 ==> final(self).cursor == (if old(self).cursor >= old(self).total - 1 { 0int } else { old(self).cursor + 1 }))
                    &&& (c == 'k' && old(self).total > 0 ==> final(self).cursor == (if old(self).cursor == 0 { old(self).total - 1 } else { old(self).cursor - 1 }))
                },
                KeyInput::Esc => r is Quit,
                KeyInput::Enter => {
                    &&& (any_selected(old(self).selected@) ==> final(self).mode
                        is ConfirmApply)
                    &&& (!any_selected(old(self).selected@) ==> final(self).mode
                        is BrowsingTable)
                },
                KeyInput::Down => old(self).total > 0 ==> final(self).cursor == (if old(self).cursor >= old(self).total - 1 { 0int } else { old(self).cursor + 1 }),
                KeyInput::Up => old(self).total > 0 ==> final(self).cursor == (if old(self).cursor == 0 { old(self).total - 1 } else { old(self).cursor - 1 }),
                _ => *final(self) == *old(self) && r is Nothing,
            },
            old(self).mode is ConfirmApply ==> match key {
                KeyInput::Character(c) => {
                    &&& ((c == 'y' || c == 'Y') ==> (final(self).mode is InputUrl && final(self).input_buffer@ == (match default_url {
                        Some(u) => u@,
                        None => Seq::<char>::empty(),
                    }) && final(self).error_message is None))
                    &&& ((c == 'n' || c == 'N') ==> final(self).mode is BrowsingTable)
                },
                KeyInput::Esc => final(self).mode is BrowsingTable,
                _ => *final(self) == *old(self) && r is Nothing,
            },
            (old(self).mode is InputUrl || old(self).mode is InputToken || old(self).mode
                is InputUsername || old(self).mode is InputBranch) ==> final(self).cursor
                == old(self).cursor && final(self).selected == old(self).selected,
            (old(self).mode is InputUrl || old(self).mode is InputToken || old(self).mode
                is InputUsername || old(self).mode is InputBranch) ==> match key {
                KeyInput::Esc => r is Nothing && final(self).mode is BrowsingTable && final(self).input_buffer@.len() == 0 && final(self).error_message is None && final(self).collected_url == old(self).collected_url && final(self).collected_token == old(self).collected_token && final(self).collected_username == old(self).collected_username,
                KeyInput::Character(c) => r is Nothing && final(self).input_buffer@ == old(self).input_buffer@.push(c) && final(self).mode == old(self).mode && final(self).error_message is None && final(self).collected_url == old(self).collected_url && final(self).collected_token == old(self).collected_token && final(self).collected_username == old(self).collected_username,
                KeyInput::Backspace => r is Nothing && final(self).mode == old(self).mode && final(self).error_message is None && final(self).collected_url == old(self).collected_url && final(self).collected_token == old(self).collected_token && final(self).collected_username == old(self).collected_username && (old(self).input_buffer@.len() > 0 ==> final(self).input_buffer@ == old(self).input_buffer@.drop_last()) && (old(self).input_buffer@.len() == 0 ==> final(self).input_buffer@ == old(self).input_buffer@),
                KeyInput::Enter => !(old(self).mode is InputBranch) ==> r is Nothing,
                _ => *final(self) == *old(self) && r is Nothing,
            },
            (old(self).mode is InputUrl && key is Enter) ==> match url_normalized_of(
                old(self).input_buffer@,
            ) {
                Some(u) => final(self).mode is InputToken && (final(self).collected_url
                    matches Some(cu) && cu@ == u) && final(self).error_message is None
                    && final(self).collected_token == old(self).collected_token && final(self).collected_username == old(self).collected_username && final(self).input_buffer@ == (match default_token {
                    Some(t) => t@,
                    None => Seq::<char>::empty(),
                }),
                None => final(self).mode is InputUrl && (final(self).error_message
                    matches Some(m) && starts_with_seq(m@, "Invalid URL: "@)) && final(self).input_buffer == old(self).input_buffer && final(self).collected_url == old(self).collected_url && final(self).collected_token == old(self).collected_token
                    && final(self).collected_username == old(self).collected_username,
            },
            (old(self).mode is InputToken && key is Enter) ==> {
                &&& final(self).mode is InputUsername
                &&& (old(self).input_buffer@.len() == 0 ==> final(self).collected_token
                    is None)
                &&& (old(self).input_buffer@.len() > 0 ==> (final(self).collected_token
                    matches Some(t) && t == old(self).input_buffer))
                &&& final(self).collected_url == old(self).collected_url
                &&& final(self).collected_username == old(self).collected_username
                &&& final(self).error_message is None
                &&& final(self).input_buffer@ == (match default_username {
                    Some(u) => u@,
                    None => Seq::<char>::empty(),
                })
            },
            (old(self).mode is InputUsername && key is Enter) ==> {
                &&& final(self).mode is InputBranch
                &&& (old(self).input_buffer@.len() == 0 ==> final(self).collected_username
                    is None)
                &&& (old(self).input_buffer@.len() > 0 ==> (final(self).collected_username
                    matches Some(t) && t == old(self).input_buffer))
                &&& final(self).collected_url == old(self).collected_url
                &&& final(self).collected_token == old(self).collected_token
                &&& final(self).error_message is None
                &&& final(self).input_buffer@ == default_branch@
            },
            (old(self).mode is InputBranch && key is Enter) ==> match old(self).collected_url {
                Some(u) => (r matches UiAction::StartApply { url, branch, username, token }
                    && url == u && branch == old(self).input_buffer && username == old(self).collected_username && token == old(self).collected_token) && (final(self).mode matches AppMode::Applying { progress, stage } && progress == 0
                    && stage@ == "Initializing..."@),
                None => r is Nothing && *final(self) == *old(self),
            },
            old(self).mode is ShowResult ==> r is Quit,
            old(self).mode is Applying ==> (r is Nothing && *final(self) == *old(self)),
{
        match &self.mode {
            AppMode::BrowsingTable => {
                match key {
                    KeyInput::Character(c) => {
                        if c == 'q' {
                            return UiAction::Quit;
                        } else if c == ' ' {
                            self.toggle_selected();
                        } else if c == 'a' {
                            self.set_all(true);
                        } else if c == 'n' {
                            self.set_all(false);
                        } else if c == 'j' {
                            self.cursor_down();
                        } else if c == 'k' {
                            self.cursor_up();
                        }
                        UiAction::Nothing
                    },
                    KeyInput::Esc => UiAction::Quit,
                    KeyInput::Enter => {
                        if self.has_selection() {
                            self.mode = AppMode::ConfirmApply;
                        }
                        UiAction::Nothing
                    },
                    KeyInput::Down => {
                        self.cursor_down();
                        UiAction::Nothing
                    },
                    KeyInput::Up => {
                        self.cursor_up();
                        UiAction::Nothing
                    },
                    _ => UiAction::Nothing,
                }
            },
            AppMode::ConfirmApply => {
                match key {
                    KeyInput::Character(c) => {
                        if c == 'y' || c == 'Y' {
                            self.mode = AppMode::InputUrl;
                            self.input_buffer = match default_url {
                                Some(u) => u.clone(),
                                None => String::new(),
                            };
                            self.error_message = None;
                        } else if c == 'n' || c == 'N' {
                            self.mode = AppMode::BrowsingTable;
                        }
                        UiAction::Nothing
                    },
                    KeyInput::Esc => {
                        self.mode = AppMode::BrowsingTable;
                        UiAction::Nothing
                    },
                    _ => UiAction::Nothing,
                }
            },
            AppMode::InputUrl | AppMode::InputToken | AppMode::InputUsername
                | AppMode::InputBranch => {
                match key {
                    KeyInput::Enter => self.submit_input(default_token, default_username,
                        default_branch),
                    KeyInput::Esc => {
                        self.mode = AppMode::BrowsingTable;
                        self.input_buffer = String::new();
                        self.error_message = None;
                        UiAction::Nothing
                    },
                    KeyInput::Character(c) => {
                        push_char(&mut self.input_buffer, c);
                        self.error_message = None;
                        UiAction::Nothing
                    },
                    KeyInput::Backspace => {
                        self.backspace_input();
                        self.error_message = None;
                        UiAction::Nothing
                    },
                    _ => UiAction::Nothing,
                }
            },
            AppMode::ShowResult { .. } => UiAction::Quit,
            AppMode::Applying { .. } => UiAction::Nothing,
        }
    }

    fn cursor_down(&mut self)
        requires
            old(self).wf(),
        ensures
            final(self).wf(),
            final(self).total == old(self).total,
            final(self).selected == old(self).selected,
            final(self).mode == old(self).mode,
            old(self).total > 0 ==> final(self).cursor == (if old(self).cursor
                >= old(self).total - 1 { 0int } else { old(self).cursor + 1 }),
    {
        if self.total > 0 {
            if self.cursor >= self.total - 1 {
                self.cursor = 0;
            } else {
                self.cursor = self.cursor + 1;
            }
        }
    }

    fn cursor_up(&mut self)
        requires
            old(self).wf(),
        ensures
            final(self).wf(),
            final(self).total == old(self).total,
            final(self).selected == old(self).selected,
            final(self).mode == old(self).mode,
            old(self).total > 0 ==> final(self).cursor == (if old(self).cursor == 0 {
                old(self).total - 1
            } else { old(self).cursor - 1 }),
    {
        if self.total > 0 {
            if self.cursor == 0 {
                self.cursor = self.total - 1;
            } else {
                self.cursor = self.cursor - 1;
            }
        }
    }

    /// Removes the last character of the input buffer, if any.
    fn backspace_input(&mut self)
        ensures
            final(self).total == old(self).total,
            final(self).cursor == old(self).cursor,
            final(self).selected == old(self).selected,
            final(self).mode == old(self).mode,
            final(self).error_message == old(self).error_message,
            final(self).collected_url == old(self).collected_url,
            final(self).collected_token == old(self).collected_token,
            final(self).collected_username == old(self).collected_username,
            old(self).input_buffer@.len() == 0 ==> final(self).input_buffer@ == old(self).input_buffer@,
            old(self).input_buffer@.len() > 0 ==> final(self).input_buffer@ == old(self).input_buffer@.drop_last(),
    {
        let n = self.input_buffer.as_str().unicode_len();
        if n > 0 {
            let shorter = self.input_buffer.as_str().substring_char(0, n - 1).to_owned();
            proof {
                assert(shorter@ =~= self.input_buffer@.drop_last());
            }
            self.input_buffer = shorter;
        }
    }

    /// Submits the current input field: the URL must parse (an invalid
    /// one re-renders the same field with the error), token and username
    /// are optional, and submitting the branch starts the apply run.
    fn submit_input(
        &mut self,
        default_token: &Option<String>,
        default_username: &Option<String>,
        default_branch: &str,
    ) -> (r: UiAction)
        requires
            old(self).wf(),
        ensures
            final(self).wf(),
            final(self).total == old(self).total,
            final(self).cursor == old(self).cursor,
            final(self).selected == old(self).selected,
            !(old(self).mode is InputBranch) ==> r is Nothing,
            old(self).mode is InputUrl ==> match url_normalized_of(
                old(self).input_buffer@,
            ) {
                Some(u) => final(self).mode is InputToken && (final(self).collected_url
                    matches Some(cu) && cu@ == u) && final(self).error_message is None
                    && final(self).collected_token == old(self).collected_token && final(self).collected_username == old(self).collected_username && final(self).input_buffer@ == (match default_token {
                    Some(t) => t@,
                    None => Seq::<char>::empty(),
                }),
                None => final(self).mode is InputUrl && (final(self).error_message
                    matches Some(m) && starts_with_seq(m@, "Invalid URL: "@)) && final(self).input_buffer == old(self).input_buffer && final(self).collected_url == old(self).collected_url && final(self).collected_token == old(self).collected_token
                    && final(self).collected_username == old(self).collected_username,
            },
            old(self).mode is InputToken ==> final(self).mode is InputUsername && (
            old(self).input_buffer@.len() == 0 ==> final(self).collected_token is None) && (
            old(self).input_buffer@.len() > 0 ==> (final(self).collected_token matches Some(t)
                && t == old(self).input_buffer)) && final(self).collected_url == old(self).collected_url && final(self).collected_username == old(self).collected_username && final(self).error_message is None && final(self).input_buffer@ == (match default_username {
                Some(u) => u@,
                None => Seq::<char>::empty(),
            }),
            old(self).mode is InputUsername ==> final(self).mode is InputBranch && (
            old(self).input_buffer@.len() == 0 ==> final(self).collected_username is None) && (
            old(self).input_buffer@.len() > 0 ==> (final(self).collected_username matches Some(
                t,
            ) && t == old(self).input_buffer)) && final(self).collected_url == old(self).collected_url && final(self).collected_token == old(self).collected_token
                && final(self).error_message is None && final(self).input_buffer@
                == default_branch@,
            old(self).mode is InputBranch ==> match old(self).collected_url {
                Some(u) => (r matches UiAction::StartApply { url, branch, username, token }
                    && url == u && branch == old(self).input_buffer && username == old(self).collected_username && token == old(self).collected_token) && (final(self).mode matches AppMode::Applying { progress, stage } && progress == 0 && stage@
                    == "Initializing..."@),
                None => r is Nothing && *final(self) == *old(self),
            },
    {
        match &self.mode {
            AppMode::InputUrl => {
                match parse_url(self.input_buffer.as_str()) {
                    Ok(normalized) => {
                        self.collected_url = Some(normalized);
                        self.mode = AppMode::InputToken;
                        self.input_buffer = match default_token {
                            Some(t) => t.clone(),
                            None => String::new(),
                        };
                        self.error_message = None;
                    },
                    Err(e) => {
                        let mut m = String::from_str("Invalid URL: ");
                        m.append(e.as_str());
                        proof {
                            assert(m@.subrange(0, "Invalid URL: "@.len() as int)
                                =~= "Invalid URL: "@);
                        }
                        self.error_message = Some(m);
                    },
                }
                UiAction::Nothing
            },
            AppMode::InputToken => {
                if self.input_buffer.as_str().unicode_len() == 0 {
                    self.collected_token = None;
                } else {
                    self.collected_token = Some(self.input_buffer.clone());
                }
                self.mode = AppMode::InputUsername;
                self.input_buffer = match default_username {
                    Some(u) => u.clone(),
                    None => String::new(),
                };
                self.error_message = None;
                UiAction::Nothing
            },
            AppMode::InputUsername => {
                if self.input_buffer.as_str().unicode_len() == 0 {
                    self.collected_username = None;
                } else {
                    self.collected_username = Some(self.input_buffer.clone());
                }
                self.mode = AppMode::InputBranch;
                self.input_buffer = default_branch.to_owned();
                self.error_message = None;
                UiAction::Nothing
            },
            AppMode::InputBranch => {
                let branch = self.input_buffer.clone();
                match &self.collected_url {
                    Some(u) => {
                        let action = UiAction::StartApply {
                            url: u.clone(),
                            branch,
                            username: match &self.collected_username {
                                Some(x) => Some(x.clone()),
                                None => None,
                            },
                            token: match &self.collected_token {
                                Some(x) => Some(x.clone()),
                                None => None,
                            },
                        };
                        self.mode = AppMode::Applying {
                            progress: 0,
                            stage: String::from_str("Initializing..."),
                        };
                        action
                    },
                    None => UiAction::Nothing,
                }
            },
            _ => UiAction::Nothing,
        }
    }
}

/// The subsequence of the recommendations whose selection flag is set,
/// in table order.
pub open spec fn selected_subsequence(
    recs: Seq<ResourceRecommendation>,
    flags: Seq<bool>,
) -> Seq<ResourceRecommendation>
    decreases recs.len(),
{
    if recs.len() == 0 {
        Seq::empty()
    } else {
        let rest = selected_subsequence(recs.drop_first(), flags.drop_first());
        if flags.len() > 0 && flags[0] {
            seq![recs[0]] + rest
        } else {
            rest
        }
    }
}

/// Picks out the recommendations whose row is selected; this is what the
/// apply run receives.
pub fn selected_recommendations(
    recommendations: Vec<ResourceRecommendation>,
    selected: &Vec<bool>,
) -> (r: Vec<ResourceRecommendation>)
    requires
        recommendations@.len() == selected@.len(),
    ensures
        r@ == selected_subsequence(recommendations@, selected@),
{
    let ghost all = recommendations@;
    let ghost flags = selected@;
    let n = selected.len();
    let mut rest = recommendations;
    let mut out: Vec<ResourceRecommendation> = Vec::new();
    let mut i: usize = 0;
    proof {
        assert(flags.skip(0) =~= flags);
        assert(selected_subsequence(all, flags) =~= out@ + selected_subsequence(rest@,
            flags.skip(0)));
    }
    while rest.len() > 0
        invariant
            flags == selected@,
            flags.len() == n,
            i + rest@.len() == flags.len(),
            selected_subsequence(all, flags) == out@ + selected_subsequence(rest@,
                flags.skip(i as int)),
        decreases rest@.len(),
    {
        let ghost rest_pre = rest@;
        let ghost out_pre = out@;
        let rec = rest.remove(0);
        proof {
            assert(rest@ =~= rest_pre.drop_first());
            assert(flags.skip(i as int).drop_first() =~= flags.skip(i + 1));
            assert(flags.skip(i as int)[0] == flags[i as int]);
            assert(flags.skip(i as int).len() == rest_pre.len());
        }
        if selected[i] {
            out.push(rec);
            proof {
                assert(selected_subsequence(rest_pre, flags.skip(i as int)) =~= seq![rec]
                    + selected_subsequence(rest@, flags.skip(i + 1)));
                assert(out@ + selected_subsequence(rest@, flags.skip(i + 1))
                    =~= out_pre + selected_subsequence(rest_pre, flags.skip(i as int)));
            }
        } else {
            proof {
                assert(selected_subsequence(rest_pre, flags.skip(i as int))
                    =~= selected_subsequence(rest@, flags.skip(i + 1)));
            }
        }
        i += 1;
    }
    proof {
        assert(selected_subsequence(rest@, flags.skip(i as int)) =~= Seq::<
            ResourceRecommendation,
        >::empty());
        assert(selected_subsequence(all, flags) =~= out@);
    }
    out
}

/// How a recommended value compares against the current one, for the
/// table's color: `not set` on either side (or equality) counts as
/// unchanged.
#[derive(Clone, Copy, Debug, PartialEq, Eq, Structural)]
pub enum ChangeDirection {
    Unchanged,
    Increased,
    Decreased,
}

pub open spec fn change_direction_of(current: Seq<char>, recommended: Seq<char>) -> ChangeDirection {
    if current == recommended || current == "not set"@ || recommended == "not set"@ {
        ChangeDirection::Unchanged
    } else {
        let c = nat_min(quantity_value(current), u64::MAX as nat);
        let r = nat_min(quantity_value(recommended), u64::MAX as nat);
        if r > c {
            ChangeDirection::Increased
        } else if r < c {
            ChangeDirection::Decreased
        } else {
            ChangeDirection::Unchanged
        }
    }
}

/// Compares a current and a recommended quantity for the table's change
/// indicator.
pub fn get_change_indicator(current: &str, recommended: &str) -> (r: ChangeDirection)
    ensures
        r == change_direction_of(current@, recommended@),
{
    if str_eq(current, recommended) || str_eq(current, "not set") || str_eq(
        recommended,
        "not set",
    ) {
        return ChangeDirection::Unchanged;
    }
    let current_val = parse_resource_value(current);
    let recommended_val = parse_resource_value(recommended);
    if recommended_val > current_val {
        ChangeDirection::Increased
    } else if recommended_val < current_val {
        ChangeDirection::Decreased
    } else {
        ChangeDirection::Unchanged
    }
}

/// The completion message shown when the apply run succeeded.
pub fn completion_message(count: usize, branch: &str) -> (r: String)
    ensures
        r@ == "Successfully applied "@ + crate::strutil::decimal_digits(count as nat)
            + " recommendation(s) to branch '"@ + branch@ + "'"@,
{
    let mut m = String::from_str("Successfully applied ");
    let n = u64_to_string(count as u64);
    m.append(n.as_str());
    m.append(" recommendation(s) to branch '");
    m.append(branch);
    m.append("'");
    m
}

} // verus!

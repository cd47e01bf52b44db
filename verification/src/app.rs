//! The dashboard's state: modes, the profile list with its search filter and
//! selection, and the decisions taken when a profile is saved or deleted.
use vstd::prelude::*;
use crate::form::ProfileForm;
use crate::notification::{Notification, NotificationLevel};
use crate::form::{is_config_of, FIELD_NAME};
use crate::profile_list::{
    deleted_message, form_name, kept_on_save, names_of, save_message, save_profile,
    test_failed_message, test_passed_message, SaveOutcome,
};
use crate::text::decimal;
use crate::profile::{ProfileConfig, ProfileSnapshot};
use crate::text::{has_substring, lemma_empty_is_substring, lowercase, str_contains, to_lowercase};

verus! {

/// What the keyboard is driving.
#[derive(Debug, Clone, Copy, PartialEq, Eq, Structural)]
pub enum AppMode {
    Normal,
    Search,
    AddProfile,
    EditProfile,
    Confirm,
}

/// What the right-hand panel shows.
#[derive(Debug, Clone, Copy, PartialEq, Eq, Structural)]
pub enum RightPanel {
    Logs,
    Detail,
}

/// Work that the dashboard hands to its runner, to be done outside the
/// drawing loop.
#[derive(Debug, Clone)]
pub enum AsyncAction {
    SaveProfile(ProfileForm),
    DeleteProfile(String),
    StartProxy,
    StopProxy,
    TestProfile(String),
}

/// The dashboard's state.
pub struct App {
    pub should_quit: bool,
    pub mode: AppMode,
    pub right_panel: RightPanel,
    pub search_query: String,
    pub proxy_running: bool,
    pub show_help: bool,
    pub launch_profile: Option<String>,
    pub notification: Option<Notification>,
    pub pending_action: Option<AsyncAction>,
    pub confirm_target: Option<String>,
    pub form: ProfileForm,
    /// The profiles as last read from the configuration.
    pub profile_list: Vec<ProfileSnapshot>,
    /// Indices into `profile_list` of the profiles that the search lets through.
    pub filtered_indices: Vec<usize>,
    /// Position of the highlighted entry among `filtered_indices`.
    pub selected: Option<usize>,
}

/// The indices, in increasing order, of the names whose lowercase form
/// contains `query`.
pub open spec fn search_matches(names: Seq<Seq<char>>, query: Seq<char>) -> Seq<usize>
    decreases names.len(),
{
    if names.len() == 0 {
        Seq::empty()
    } else {
        let earlier = search_matches(names.drop_last(), query);
        if has_substring(lowercase(names.last()), query) {
            earlier.push((names.len() - 1) as usize)
        } else {
            earlier
        }
    }
}

/// The selection after the list it points into has `len` entries: none for an
/// empty list, otherwise the first entry if there was none, the last one if it
/// pointed past the end, and unchanged else.
pub open spec fn clamped_selection(selected: Option<usize>, len: nat) -> Option<usize> {
    if len == 0 {
        None
    } else {
        match selected {
            None => Some(0),
            Some(s) => if s >= len {
                Some((len - 1) as usize)
            } else {
                Some(s)
            },
        }
    }
}

/// The selection after moving down in a list of `len` entries: one entry
/// further, but not past the last; the first entry if there was none.
pub open spec fn next_selection(selected: Option<usize>, len: nat) -> Option<usize> {
    if len == 0 {
        selected
    } else {
        match selected {
            Some(i) => Some(
                if i + 1 < len {
                    (i + 1) as usize
                } else {
                    (len - 1) as usize
                },
            ),
            None => Some(0),
        }
    }
}

/// The selection after moving up in a list of `len` entries: one entry back,
/// but not before the first; the first entry if there was none. An empty list
/// has nothing to select, and the selection stays as it is.
pub open spec fn previous_selection(selected: Option<usize>, len: nat) -> Option<usize> {
    if len == 0 {
        selected
    } else {
        Some(
            match selected {
                Some(i) => if i > 0 {
                    (i - 1) as usize
                } else {
                    0
                },
                None => 0,
            },
        )
    }
}

/// The selection points into a list of `len` entries.
pub open spec fn selection_in_range(selected: Option<usize>, len: nat) -> bool {
    match selected {
        Some(s) => s < len,
        None => len == 0,
    }
}

impl App {
    /// The names of the listed profiles.
    pub open spec fn names(self) -> Seq<Seq<char>> {
        self.profile_list@.map_values(|p: ProfileSnapshot| p.name@)
    }

    /// The index into `profile_list` of the highlighted profile, if the
    /// selection points at one.
    pub open spec fn selected_entry(self) -> Option<int> {
        match self.selected {
            Some(s) => if s < self.filtered_indices.len() && self.filtered_indices@[s as int]
                < self.profile_list.len() {
                Some(self.filtered_indices@[s as int] as int)
            } else {
                None
            },
            None => None,
        }
    }

    /// Everything but the profile list, the filter and the selection is the same.
    pub open spec fn same_settings(self, other: App) -> bool {
        &&& self.should_quit == other.should_quit
        &&& self.mode == other.mode
        &&& self.right_panel == other.right_panel
        &&& self.search_query == other.search_query
        &&& self.proxy_running == other.proxy_running
        &&& self.show_help == other.show_help
        &&& self.launch_profile == other.launch_profile
        &&& self.notification == other.notification
        &&& self.pending_action == other.pending_action
        &&& self.confirm_target == other.confirm_target
        &&& self.form == other.form
    }

    /// Everything but the notification and the proxy flag is the same.
    pub open spec fn same_screen(self, other: App) -> bool {
        &&& self.should_quit == other.should_quit
        &&& self.mode == other.mode
        &&& self.right_panel == other.right_panel
        &&& self.search_query == other.search_query
        &&& self.show_help == other.show_help
        &&& self.launch_profile == other.launch_profile
        &&& self.pending_action == other.pending_action
        &&& self.confirm_target == other.confirm_target
        &&& self.form == other.form
        &&& self.profile_list == other.profile_list
        &&& self.filtered_indices == other.filtered_indices
        &&& self.selected == other.selected
    }

    /// The notification shows `message` at `level`.
    pub open spec fn notifies(self, level: NotificationLevel, message: Seq<char>) -> bool {
        self.notification matches Some(n) && n.level == level && n.message@ == message
    }

    /// The filter and selection follow the profile list and the search query.
    pub open spec fn filter_follows(self, old_selected: Option<usize>) -> bool {
        &&& self.filtered_indices@ == search_matches(self.names(), lowercase(self.search_query@))
        &&& self.selected == clamped_selection(old_selected, self.filtered_indices@.len())
    }

    /// A dashboard with no profiles, in normal mode, showing the logs.
    pub fn new() -> (app: Self)
        ensures
            !app.should_quit,
            app.mode == AppMode::Normal,
            app.right_panel == RightPanel::Logs,
            app.search_query@ == Seq::<char>::empty(),
            !app.proxy_running,
            !app.show_help,
            app.launch_profile is None,
            app.notification is None,
            app.pending_action is None,
            app.confirm_target is None,
            app.form.is_blank(),
            app.profile_list@.len() == 0,
            app.filtered_indices@.len() == 0,
            app.selected is None,
    {
        App {
            should_quit: false,
            mode: AppMode::Normal,
            right_panel: RightPanel::Logs,
            search_query: String::new(),
            proxy_running: false,
            show_help: false,
            launch_profile: None,
            notification: None,
            pending_action: None,
            confirm_target: None,
            form: ProfileForm::new_blank(),
            profile_list: Vec::new(),
            filtered_indices: Vec::new(),
            selected: None,
        }
    }

    /// Replaces the listed profiles by snapshots of `profiles` and filters them again.
    pub fn refresh_profiles(&mut self, profiles: &Vec<ProfileConfig>)
        ensures
            final(self).profile_list.len() == profiles.len(),
            forall|i: int|
                0 <= i < profiles.len() ==> ProfileSnapshot::shows(
                    #[trigger] final(self).profile_list@[i],
                    profiles@[i],
                ),
            final(self).filter_follows(old(self).selected),
            final(self).same_settings(*old(self)),
    {
        let mut list: Vec<ProfileSnapshot> = Vec::new();
        let mut i: usize = 0;
        while i < profiles.len()
            invariant
                i <= profiles.len(),
                list.len() == i,
                forall|j: int| 0 <= j < i ==> ProfileSnapshot::shows(#[trigger] list@[j], profiles@[j]),
            decreases profiles.len() - i,
        {
            list.push(ProfileSnapshot::from_profile(&profiles[i]));
            i = i + 1;
        }
        self.profile_list = list;
        self.apply_search_filter();
    }

    /// Filters the list by the search query, compared without regard to case,
    /// and keeps the selection within the filtered list.
    pub fn apply_search_filter(&mut self)
        ensures
            final(self).filter_follows(old(self).selected),
            final(self).profile_list == old(self).profile_list,
            final(self).same_settings(*old(self)),
    {
        let query = to_lowercase(self.search_query.as_str());
        let filtered = matching_profiles(&self.profile_list, &query);
        self.filtered_indices = filtered;
        let len = self.filtered_indices.len();
        if len == 0 {
            self.selected = None;
        } else {
            match self.selected {
                None => self.selected = Some(0),
                Some(sel) => if sel >= len {
                    self.selected = Some(len - 1);
                },
            }
        }
    }

    /// The name of the highlighted profile.
    pub fn selected_profile_name(&self) -> (name: Option<String>)
        ensures
            match self.selected_entry() {
                Some(i) => name matches Some(n) && n@ == self.profile_list@[i].name@,
                None => name is None,
            },
    {
        match self.selected_index() {
            Some(i) => Some(self.profile_list[i].name.clone()),
            None => None,
        }
    }

    /// The snapshot of the highlighted profile.
    pub fn selected_profile(&self) -> (profile: Option<&ProfileSnapshot>)
        ensures
            match self.selected_entry() {
                Some(i) => profile == Some(&self.profile_list@[i]),
                None => profile is None,
            },
    {
        match self.selected_index() {
            Some(i) => Some(&self.profile_list[i]),
            None => None,
        }
    }

    fn selected_index(&self) -> (index: Option<usize>)
        ensures
            match self.selected_entry() {
                Some(i) => index == Some(i as usize) && i < self.profile_list.len(),
                None => index is None,
            },
    {
        match self.selected {
            Some(sel) => if sel < self.filtered_indices.len() {
                let orig = self.filtered_indices[sel];
                if orig < self.profile_list.len() {
                    Some(orig)
                } else {
                    None
                }
            } else {
                None
            },
            None => None,
        }
    }

    /// Takes the notification down when `expired` says it has been up for its
    /// time, and keeps it otherwise.
    pub fn dismiss_notification_if(&mut self, expired: bool)
        ensures
            final(self).notification == if expired {
                None
            } else {
                old(self).notification
            },
            final(self).proxy_running == old(self).proxy_running,
            final(self).same_screen(*old(self)),
    {
        if expired {
            self.notification = None;
        }
    }

    /// Takes the notification down once it has been up for its time. Whether
    /// it has is read from the clock, so the contract says only that the
    /// notification is either taken down or left as it was, and that nothing
    /// else changes.
    pub fn clear_expired_notification(&mut self)
        ensures
            final(self).notification is None || final(self).notification == old(
                self,
            ).notification,
            old(self).notification is None ==> final(self).notification is None,
            final(self).should_quit == old(self).should_quit,
            final(self).mode == old(self).mode,
            final(self).right_panel == old(self).right_panel,
            final(self).search_query == old(self).search_query,
            final(self).proxy_running == old(self).proxy_running,
            final(self).show_help == old(self).show_help,
            final(self).launch_profile == old(self).launch_profile,
            final(self).pending_action == old(self).pending_action,
            final(self).confirm_target == old(self).confirm_target,
            final(self).form == old(self).form,
            final(self).profile_list == old(self).profile_list,
            final(self).filtered_indices == old(self).filtered_indices,
            final(self).selected == old(self).selected,
    {
        let expired = match &self.notification {
            Some(n) => n.is_expired(),
            None => false,
        };
        self.dismiss_notification_if(expired);
    }

    /// Hands the pending background action to the runner, leaving none.
    pub fn take_pending_action(&mut self) -> (action: Option<AsyncAction>)
        ensures
            action == old(self).pending_action,
            final(self).pending_action is None,
            final(self).notification == old(self).notification,
            final(self).proxy_running == old(self).proxy_running,
            final(self).should_quit == old(self).should_quit,
            final(self).mode == old(self).mode,
            final(self).right_panel == old(self).right_panel,
            final(self).search_query == old(self).search_query,
            final(self).show_help == old(self).show_help,
            final(self).launch_profile == old(self).launch_profile,
            final(self).confirm_target == old(self).confirm_target,
            final(self).form == old(self).form,
            final(self).profile_list == old(self).profile_list,
            final(self).filtered_indices == old(self).filtered_indices,
            final(self).selected == old(self).selected,
    {
        self.pending_action.take()
    }

    /// Applies a saved form to the configured `profiles`. A new profile whose
    /// name is taken is refused: the list stays as it is and the error is
    /// reported at once, so the configuration is neither written nor read
    /// again. Otherwise the list is changed as `save_profile` says and the
    /// notification is left for `finish_save`, once the list is written.
    pub fn begin_save(&mut self, profiles: &mut Vec<ProfileConfig>, form: &ProfileForm) -> (outcome:
        SaveOutcome)
        requires
            form.fields.len() >= 7,
        ensures
            outcome == if form.is_edit {
                SaveOutcome::Updated
            } else if names_of(old(profiles)@).contains(form_name(*form)) {
                SaveOutcome::AlreadyExists
            } else {
                SaveOutcome::Added
            },
            outcome == SaveOutcome::AlreadyExists ==> {
                &&& final(profiles)@ == old(profiles)@
                &&& final(self).notifies(
                    NotificationLevel::Error,
                    "Profile '"@ + form_name(*form) + "' already exists"@,
                )
            },
            outcome != SaveOutcome::AlreadyExists ==> {
                &&& final(profiles)@.len() > 0
                &&& final(profiles)@.drop_last() == kept_on_save(old(profiles)@, *form)
                &&& is_config_of(final(profiles)@.last(), form.field_views())
                &&& final(self).notification == old(self).notification
            },
            final(self).proxy_running == old(self).proxy_running,
            final(self).same_screen(*old(self)),
    {
        let outcome = save_profile(profiles, form);
        if outcome == SaveOutcome::AlreadyExists {
            self.finish_save(outcome, form.fields[FIELD_NAME].value.as_str(), Ok(()));
        }
        outcome
    }

    /// The terminal's event stream failed: the dashboard stops.
    pub fn quit_on_event_error(&mut self)
        ensures
            final(self).should_quit,
            final(self).notification == old(self).notification,
            final(self).proxy_running == old(self).proxy_running,
            final(self).mode == old(self).mode,
            final(self).right_panel == old(self).right_panel,
            final(self).search_query == old(self).search_query,
            final(self).show_help == old(self).show_help,
            final(self).launch_profile == old(self).launch_profile,
            final(self).pending_action == old(self).pending_action,
            final(self).confirm_target == old(self).confirm_target,
            final(self).form == old(self).form,
            final(self).profile_list == old(self).profile_list,
            final(self).filtered_indices == old(self).filtered_indices,
            final(self).selected == old(self).selected,
    {
        self.should_quit = true;
    }

    /// Reports a saved form. A refused new profile is an error; otherwise the
    /// outcome of writing the configuration (`saved`, with the error's text)
    /// decides between success and a save failure.
    pub fn finish_save(&mut self, outcome: SaveOutcome, name: &str, saved: Result<(), String>)
        ensures
            match outcome {
                SaveOutcome::AlreadyExists => final(self).notifies(
                    NotificationLevel::Error,
                    "Profile '"@ + name@ + "' already exists"@,
                ),
                SaveOutcome::Updated => match saved {
                    Ok(_) => final(self).notifies(
                        NotificationLevel::Success,
                        "Updated profile '"@ + name@ + "'"@,
                    ),
                    Err(e) => final(self).notifies(NotificationLevel::Error, "Save failed: "@ + e@),
                },
                SaveOutcome::Added => match saved {
                    Ok(_) => final(self).notifies(
                        NotificationLevel::Success,
                        "Added profile '"@ + name@ + "'"@,
                    ),
                    Err(e) => final(self).notifies(NotificationLevel::Error, "Save failed: "@ + e@),
                },
            },
            final(self).proxy_running == old(self).proxy_running,
            final(self).same_screen(*old(self)),
    {
        let notice = match outcome {
            SaveOutcome::AlreadyExists => Notification::error(save_message(outcome, name)),
            _ => match saved {
                Ok(()) => Notification::success(save_message(outcome, name)),
                Err(e) => Notification::error(prefixed("Save failed: ", e.as_str())),
            },
        };
        self.notification = Some(notice);
    }

    /// Reports a deleted profile by the outcome of writing the configuration.
    pub fn finish_delete(&mut self, name: &str, saved: Result<(), String>)
        ensures
            match saved {
                Ok(_) => final(self).notifies(
                    NotificationLevel::Success,
                    "Deleted profile '"@ + name@ + "'"@,
                ),
                Err(e) => final(self).notifies(NotificationLevel::Error, "Delete failed: "@ + e@),
            },
            final(self).proxy_running == old(self).proxy_running,
            final(self).same_screen(*old(self)),
    {
        let notice = match saved {
            Ok(()) => Notification::success(deleted_message(name)),
            Err(e) => Notification::error(prefixed("Delete failed: ", e.as_str())),
        };
        self.notification = Some(notice);
    }

    /// Reports a connectivity test: the latency in milliseconds, or the
    /// error's text.
    pub fn finish_test(&mut self, name: &str, tested: Result<u64, String>)
        ensures
            match tested {
                Ok(ms) => final(self).notifies(
                    NotificationLevel::Success,
                    name@ + ": OK ("@ + decimal(ms as nat) + "ms)"@,
                ),
                Err(e) => final(self).notifies(
                    NotificationLevel::Error,
                    name@ + ": FAIL - "@ + e@,
                ),
            },
            final(self).proxy_running == old(self).proxy_running,
            final(self).same_screen(*old(self)),
    {
        let notice = match tested {
            Ok(ms) => Notification::success(test_passed_message(name, ms)),
            Err(e) => Notification::error(test_failed_message(name, e.as_str())),
        };
        self.notification = Some(notice);
    }

    /// Reports a proxy start by whether the proxy is found running afterwards.
    pub fn finish_start(&mut self, running: bool)
        ensures
            final(self).proxy_running == running,
            if running {
                final(self).notifies(NotificationLevel::Success, "Proxy started"@)
            } else {
                final(self).notifies(NotificationLevel::Error, "Proxy failed to start"@)
            },
            final(self).same_screen(*old(self)),
    {
        self.proxy_running = running;
        let notice = if running {
            Notification::success("Proxy started".to_owned())
        } else {
            Notification::error("Proxy failed to start".to_owned())
        };
        self.notification = Some(notice);
    }

    /// Reports a proxy stop: a stopped proxy is no longer running; a failure
    /// leaves the flag and reports the error's text.
    pub fn finish_stop(&mut self, stopped: Result<(), String>)
        ensures
            match stopped {
                Ok(_) => {
                    &&& !final(self).proxy_running
                    &&& final(self).notifies(NotificationLevel::Success, "Proxy stopped"@)
                },
                Err(e) => {
                    &&& final(self).proxy_running == old(self).proxy_running
                    &&& final(self).notifies(NotificationLevel::Error, "Stop failed: "@ + e@)
                },
            },
            final(self).same_screen(*old(self)),
    {
        match stopped {
            Ok(()) => {
                self.proxy_running = false;
                self.notification = Some(Notification::success("Proxy stopped".to_owned()));
            },
            Err(e) => {
                self.notification = Some(
                    Notification::error(prefixed("Stop failed: ", e.as_str())),
                );
            },
        }
    }

    /// Moves the highlight one entry down, staying on the last entry.
    pub fn select_next(&mut self)
        requires
            old(self).filtered_indices@.len() > 0 ==> old(self).selected != Some(usize::MAX),
        ensures
            final(self).selected == next_selection(
                old(self).selected,
                old(self).filtered_indices@.len(),
            ),
            final(self).filtered_indices == old(self).filtered_indices,
            final(self).profile_list == old(self).profile_list,
            final(self).same_settings(*old(self)),
    {
        if self.filtered_indices.len() == 0 {
            return ;
        }
        let i = match self.selected {
            Some(i) => {
                let last = self.filtered_indices.len() - 1;
                if i + 1 < last {
                    i + 1
                } else {
                    last
                }
            },
            None => 0,
        };
        self.selected = Some(i);
    }

    /// Moves the highlight one entry up, staying on the first entry.
    pub fn select_previous(&mut self)
        ensures
            final(self).selected == previous_selection(
                old(self).selected,
                old(self).filtered_indices@.len(),
            ),
            final(self).filtered_indices == old(self).filtered_indices,
            final(self).profile_list == old(self).profile_list,
            final(self).same_settings(*old(self)),
    {
        if self.filtered_indices.len() == 0 {
            return ;
        }
        let i = match self.selected {
            Some(i) => i.saturating_sub(1),
            None => 0,
        };
        self.selected = Some(i);
    }
}

/// `prefix` followed by `detail`, as a new `String`.
fn prefixed(prefix: &str, detail: &str) -> (text: String)
    ensures
        text@ == prefix@ + detail@,
{
    let mut text = prefix.to_owned();
    text.append(detail);
    text
}

/// The indices of the profiles whose lowercase name contains `query`, which
/// is already in lowercase.
fn matching_profiles(list: &Vec<ProfileSnapshot>, query: &String) -> (found: Vec<usize>)
    ensures
        found@ == search_matches(list@.map_values(|p: ProfileSnapshot| p.name@), query@),
{
    let ghost names = list@.map_values(|p: ProfileSnapshot| p.name@);
    let mut found: Vec<usize> = Vec::new();
    let everything = query.as_str().is_empty();
    let mut i: usize = 0;
    while i < list.len()
        invariant
            i <= list.len(),
            names == list@.map_values(|p: ProfileSnapshot| p.name@),
            everything == (query@.len() == 0),
            found@ == search_matches(names.take(i as int), query@),
        decreases list.len() - i,
    {
        assert(names.take(i + 1).drop_last() =~= names.take(i as int));
        assert(names.take(i + 1).last() == list@[i as int].name@);
        if everything {
            proof {
                lemma_empty_is_substring(lowercase(list@[i as int].name@));
                assert(query@ =~= Seq::<char>::empty());
            }
            found.push(i);
        } else {
            let name = to_lowercase(list[i].name.as_str());
            if str_contains(name.as_str(), query.as_str()) {
                found.push(i);
            }
        }
        i = i + 1;
    }
    assert(names.take(list.len() as int) =~= names);
    found
}


// ---------------------------------------------------------------------------
// Laws of the list, the filter and the selection
// ---------------------------------------------------------------------------

/// The search lets through exactly the names whose lowercase form contains
/// the query, each index once and in increasing order.
pub proof fn law_search_matches(names: Seq<Seq<char>>, query: Seq<char>)
    requires
        names.len() <= usize::MAX,
    ensures
        forall|k: int|
            0 <= k < search_matches(names, query).len() ==> {
                let i = #[trigger] search_matches(names, query)[k];
                &&& i < names.len()
                &&& has_substring(lowercase(names[i as int]), query)
            },
        forall|k: int, l: int|
            0 <= k < l < search_matches(names, query).len() ==> search_matches(names, query)[k]
                < search_matches(names, query)[l],
        forall|i: int|
            0 <= i < names.len() && has_substring(lowercase(#[trigger] names[i]), query)
                ==> search_matches(names, query).contains(i as usize),
    decreases names.len(),
{
    if names.len() > 0 {
        let rest = names.drop_last();
        law_search_matches(rest, query);
        let earlier = search_matches(rest, query);
        let all = search_matches(names, query);
        let last = (names.len() - 1) as usize;
        let hit = has_substring(lowercase(names.last()), query);
        assert(all == if hit {
            earlier.push(last)
        } else {
            earlier
        });
        assert forall|k: int| 0 <= k < earlier.len() implies all[k] == earlier[k] && earlier[k]
            < rest.len() && rest[earlier[k] as int] == names[earlier[k] as int] by {
            let i = earlier[k];
            assert(i < rest.len());
        }
        assert forall|k: int| 0 <= k < all.len() implies {
            let i = #[trigger] all[k];
            &&& i < names.len()
            &&& has_substring(lowercase(names[i as int]), query)
        } by {
            if k < earlier.len() {
                let i = earlier[k];
                assert(has_substring(lowercase(rest[i as int]), query));
            }
        }
        assert forall|k: int, l: int| 0 <= k < l < all.len() implies all[k] < all[l] by {
            if l < earlier.len() {
                assert(earlier[k] < earlier[l]);
            } else {
                assert(earlier[k] < rest.len());
            }
        }
        assert forall|i: int|
            0 <= i < names.len() && has_substring(lowercase(#[trigger] names[i]), query)
                implies all.contains(i as usize) by {
            if i < names.len() - 1 {
                assert(rest[i] == names[i]);
                assert(earlier.contains(i as usize));
                let k = choose|k: int| 0 <= k < earlier.len() && earlier[k] == i as usize;
                assert(all[k] == i as usize);
            } else {
                assert(all[all.len() - 1] == last);
            }
        }
    }
}

/// After filtering, the selection points into the filtered list: it is empty
/// exactly when the filtered list is.
pub proof fn law_clamped_selection_in_range(selected: Option<usize>, len: nat)
    requires
        len <= usize::MAX,
    ensures
        selection_in_range(clamped_selection(selected, len), len),
{
}

/// Filtering keeps a selection that still points into the filtered list; it
/// moves a selection past the end to the last entry, selects the first entry
/// when there was none, and selects nothing in an empty list.
pub proof fn law_filter_keeps_selection(selected: Option<usize>, len: nat)
    requires
        len <= usize::MAX,
    ensures
        selected matches Some(s) && s < len ==> clamped_selection(selected, len) == selected,
        selected matches Some(s) && s >= len && len > 0 ==> clamped_selection(selected, len)
            == Some((len - 1) as usize),
        selected is None && len > 0 ==> clamped_selection(selected, len) == Some(0usize),
        len == 0 ==> clamped_selection(selected, len) is None,
{
}

/// Filtering again with the same list and query changes nothing: the
/// clamped selection is kept as it is.
pub proof fn law_filtering_twice_is_filtering_once(selected: Option<usize>, len: nat)
    requires
        len <= usize::MAX,
    ensures
        clamped_selection(clamped_selection(selected, len), len) == clamped_selection(selected, len),
{
}

/// Moving the selection up or down keeps it in the list; in an empty list
/// nothing gets selected.
pub proof fn law_moves_stay_in_range(selected: Option<usize>, len: nat)
    requires
        len <= usize::MAX,
        selection_in_range(selected, len),
    ensures
        selection_in_range(next_selection(selected, len), len),
        selection_in_range(previous_selection(selected, len), len),
{
}

/// Moving down and then up comes back, unless the selection was on the last entry.
pub proof fn law_next_then_previous(s: usize, len: nat)
    requires
        s + 1 < len <= usize::MAX,
    ensures
        previous_selection(next_selection(Some(s), len), len) == Some(s),
{
}

} // verus!

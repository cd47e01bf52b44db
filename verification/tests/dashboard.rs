use lib::app::{App, AppMode, RightPanel};
use lib::form::ProfileForm;
use lib::notification::{expired_after, Notification, NotificationLevel};
use lib::app::AsyncAction;
use lib::profile::{AuthType, ProfileConfig, ProfileSnapshot, ProviderType};
use lib::profile_list::{
    deleted_message, delete_profile, find_profile, save_message, save_profile, test_failed_message,
    test_passed_message, SaveOutcome,
};

fn profile(name: &str) -> ProfileConfig {
    ProfileConfig {
        name: name.to_string(),
        provider_type: ProviderType::DirectAnthropic,
        base_url: format!("https://{name}.example.com"),
        api_key: String::new(),
        api_key_keyring: None,
        default_model: "model".to_string(),
        priority: 100,
        enabled: true,
        auth_type: AuthType::ApiKey,
    }
}

fn profiles(names: &[&str]) -> Vec<ProfileConfig> {
    names.iter().map(|n| profile(n)).collect()
}

fn names(list: &[ProfileConfig]) -> Vec<&str> {
    list.iter().map(|p| p.name.as_str()).collect()
}

#[test]
fn notifications_carry_level_and_message() {
    let i = Notification::info("hello".to_string());
    assert_eq!(i.level, NotificationLevel::Info);
    assert_eq!(i.message, "hello");
    assert_eq!(Notification::success("ok".to_string()).level, NotificationLevel::Success);
    assert_eq!(Notification::error("bad".to_string()).level, NotificationLevel::Error);
    assert!(!i.is_expired());
}

#[test]
fn notifications_expire_after_three_seconds() {
    assert!(!expired_after(0));
    assert!(!expired_after(2));
    assert!(expired_after(3));
    assert!(expired_after(60));
}

#[test]
fn snapshot_shows_profile() {
    let mut p = profile("alpha");
    p.provider_type = ProviderType::OpenAICompatible;
    p.auth_type = AuthType::OAuth;
    let s = ProfileSnapshot::from_profile(&p);
    assert_eq!(s.name, "alpha");
    assert_eq!(s.provider_type, "OpenAICompatible");
    assert_eq!(s.auth_type, "OAuth");
    assert_eq!(s.base_url, "https://alpha.example.com");
    assert_eq!(s.default_model, "model");
    assert_eq!(s.priority, 100);
    assert!(s.enabled);
    assert!(!s.has_api_key);
    p.api_key_keyring = Some("entry".to_string());
    assert!(ProfileSnapshot::from_profile(&p).has_api_key);
    p.api_key_keyring = None;
    p.api_key = "k".to_string();
    assert!(ProfileSnapshot::from_profile(&p).has_api_key);
    p.provider_type = ProviderType::OpenAIResponses;
    assert_eq!(ProfileSnapshot::from_profile(&p).provider_type, "OpenAIResponses");
}

#[test]
fn new_app_is_idle() {
    let app = App::new();
    assert!(!app.should_quit);
    assert_eq!(app.mode, AppMode::Normal);
    assert_eq!(app.right_panel, RightPanel::Logs);
    assert!(app.search_query.is_empty());
    assert!(app.profile_list.is_empty());
    assert!(app.filtered_indices.is_empty());
    assert!(app.selected.is_none());
    assert!(app.selected_profile_name().is_none());
    assert_eq!(app.form.fields.len(), 7);
}

#[test]
fn refresh_lists_all_and_selects_first() {
    let mut app = App::new();
    app.refresh_profiles(&profiles(&["alpha", "Beta", "gamma"]));
    assert_eq!(app.profile_list.len(), 3);
    assert_eq!(app.filtered_indices, vec![0, 1, 2]);
    assert_eq!(app.selected, Some(0));
    assert_eq!(app.selected_profile_name().as_deref(), Some("alpha"));
    assert_eq!(app.selected_profile().map(|p| p.name.as_str()), Some("alpha"));
}

#[test]
fn search_ignores_case() {
    let mut app = App::new();
    app.refresh_profiles(&profiles(&["alpha", "Beta", "gamma", "BETAMAX"]));
    app.search_query = "BeT".to_string();
    app.apply_search_filter();
    assert_eq!(app.filtered_indices, vec![1, 3]);
    app.search_query = "ma".to_string();
    app.apply_search_filter();
    assert_eq!(app.filtered_indices, vec![2, 3]);
}

#[test]
fn search_without_match_clears_selection() {
    let mut app = App::new();
    app.refresh_profiles(&profiles(&["alpha", "beta"]));
    app.search_query = "zzz".to_string();
    app.apply_search_filter();
    assert!(app.filtered_indices.is_empty());
    assert!(app.selected.is_none());
    assert!(app.selected_profile().is_none());
}

#[test]
fn selection_is_clamped_to_filtered_list() {
    let mut app = App::new();
    app.refresh_profiles(&profiles(&["a1", "a2", "b1", "a3"]));
    app.select_next();
    app.select_next();
    app.select_next();
    assert_eq!(app.selected, Some(3));
    app.search_query = "a".to_string();
    app.apply_search_filter();
    assert_eq!(app.filtered_indices, vec![0, 1, 3]);
    assert_eq!(app.selected, Some(2));
    assert_eq!(app.selected_profile_name().as_deref(), Some("a3"));
}

#[test]
fn select_next_and_previous_stay_in_list() {
    let mut app = App::new();
    app.refresh_profiles(&profiles(&["one", "two", "three"]));
    app.select_previous();
    assert_eq!(app.selected, Some(0));
    app.select_next();
    app.select_next();
    app.select_next();
    assert_eq!(app.selected, Some(2));
    assert_eq!(app.selected_profile_name().as_deref(), Some("three"));
    app.select_previous();
    assert_eq!(app.selected, Some(1));
}

#[test]
fn select_next_on_empty_list_does_nothing() {
    let mut app = App::new();
    app.select_next();
    assert!(app.selected.is_none());
    app.select_previous();
    assert!(app.selected.is_none());
    assert!(app.selected_profile_name().is_none());
}

#[test]
fn find_profile_returns_first_match() {
    let list = profiles(&["a", "b", "a"]);
    assert_eq!(find_profile(&list, &"a".to_string()), Some(0));
    assert_eq!(find_profile(&list, &"b".to_string()), Some(1));
    assert_eq!(find_profile(&list, &"c".to_string()), None);
}

#[test]
fn delete_removes_every_profile_of_the_name() {
    let mut list = profiles(&["a", "b", "a", "c"]);
    delete_profile(&mut list, &"a".to_string());
    assert_eq!(names(&list), vec!["b", "c"]);
    delete_profile(&mut list, &"a".to_string());
    assert_eq!(names(&list), vec!["b", "c"]);
    assert_eq!(find_profile(&list, &"a".to_string()), None);
}

#[test]
fn save_new_profile_appends_it() {
    let mut list = profiles(&["a"]);
    let mut form = ProfileForm::new_blank();
    form.fields[0].value = "b".to_string();
    assert_eq!(save_profile(&mut list, &form), SaveOutcome::Added);
    assert_eq!(names(&list), vec!["a", "b"]);
    assert_eq!(list[1].provider_type, ProviderType::OpenAICompatible);
    assert_eq!(find_profile(&list, &"b".to_string()), Some(1));
}

#[test]
fn save_new_profile_with_taken_name_is_refused() {
    let mut list = profiles(&["a", "b"]);
    let mut form = ProfileForm::new_blank();
    form.fields[0].value = "b".to_string();
    assert_eq!(save_profile(&mut list, &form), SaveOutcome::AlreadyExists);
    assert_eq!(names(&list), vec!["a", "b"]);
    assert_eq!(list[1].base_url, "https://b.example.com");
}

#[test]
fn save_edit_replaces_original() {
    let mut list = profiles(&["a", "b", "c"]);
    let mut form = ProfileForm::from_profile(&list[1]);
    form.fields[0].value = "renamed".to_string();
    form.fields[6].value = "5".to_string();
    assert_eq!(save_profile(&mut list, &form), SaveOutcome::Updated);
    assert_eq!(names(&list), vec!["a", "c", "renamed"]);
    assert_eq!(list[2].priority, 5);
    assert_eq!(list[2].base_url, "https://b.example.com");
}

#[test]
fn messages_name_the_profile() {
    assert_eq!(save_message(SaveOutcome::Added, "x"), "Added profile 'x'");
    assert_eq!(save_message(SaveOutcome::Updated, "x"), "Updated profile 'x'");
    assert_eq!(save_message(SaveOutcome::AlreadyExists, "x"), "Profile 'x' already exists");
    assert_eq!(deleted_message("y"), "Deleted profile 'y'");
}

#[test]
fn connectivity_messages() {
    assert_eq!(test_passed_message("work", 153), "work: OK (153ms)");
    assert_eq!(test_failed_message("work", "timed out"), "work: FAIL - timed out");
}

#[test]
fn fresh_notification_is_kept() {
    let mut app = App::new();
    app.clear_expired_notification();
    assert!(app.notification.is_none());
    app.notification = Some(Notification::success("saved".to_string()));
    app.clear_expired_notification();
    assert_eq!(app.notification.as_ref().map(|n| n.message.as_str()), Some("saved"));
}

fn notice(app: &App) -> (NotificationLevel, String) {
    let n = app.notification.as_ref().expect("a notification");
    (n.level, n.message.clone())
}

#[test]
fn dismiss_follows_the_verdict() {
    let mut app = App::new();
    app.notification = Some(Notification::info("hi".to_string()));
    app.dismiss_notification_if(false);
    assert!(app.notification.is_some());
    app.dismiss_notification_if(true);
    assert!(app.notification.is_none());
}

#[test]
fn raised_at_keeps_the_moment() {
    let at = std::time::Instant::now();
    let n = Notification::raised_at("m".to_string(), NotificationLevel::Info, at);
    assert_eq!(n.created_at, at);
    assert_eq!(n.message, "m");
}

#[test]
fn save_outcomes_are_reported() {
    let mut app = App::new();
    app.finish_save(SaveOutcome::AlreadyExists, "x", Ok(()));
    assert_eq!(notice(&app), (NotificationLevel::Error, "Profile 'x' already exists".to_string()));
    app.finish_save(SaveOutcome::Added, "x", Ok(()));
    assert_eq!(notice(&app), (NotificationLevel::Success, "Added profile 'x'".to_string()));
    app.finish_save(SaveOutcome::Updated, "x", Ok(()));
    assert_eq!(notice(&app), (NotificationLevel::Success, "Updated profile 'x'".to_string()));
    app.finish_save(SaveOutcome::Added, "x", Err("disk full".to_string()));
    assert_eq!(notice(&app), (NotificationLevel::Error, "Save failed: disk full".to_string()));
}

#[test]
fn delete_and_test_outcomes_are_reported() {
    let mut app = App::new();
    app.finish_delete("y", Ok(()));
    assert_eq!(notice(&app), (NotificationLevel::Success, "Deleted profile 'y'".to_string()));
    app.finish_delete("y", Err("denied".to_string()));
    assert_eq!(notice(&app), (NotificationLevel::Error, "Delete failed: denied".to_string()));
    app.finish_test("w", Ok(12));
    assert_eq!(notice(&app), (NotificationLevel::Success, "w: OK (12ms)".to_string()));
    app.finish_test("w", Err("timeout".to_string()));
    assert_eq!(notice(&app), (NotificationLevel::Error, "w: FAIL - timeout".to_string()));
}

#[test]
fn proxy_outcomes_are_reported() {
    let mut app = App::new();
    app.finish_start(true);
    assert!(app.proxy_running);
    assert_eq!(notice(&app), (NotificationLevel::Success, "Proxy started".to_string()));
    app.finish_stop(Err("no pid".to_string()));
    assert!(app.proxy_running);
    assert_eq!(notice(&app), (NotificationLevel::Error, "Stop failed: no pid".to_string()));
    app.finish_stop(Ok(()));
    assert!(!app.proxy_running);
    assert_eq!(notice(&app), (NotificationLevel::Success, "Proxy stopped".to_string()));
    app.finish_start(false);
    assert!(!app.proxy_running);
    assert_eq!(notice(&app), (NotificationLevel::Error, "Proxy failed to start".to_string()));
}

#[test]
fn pending_action_is_handed_over_once() {
    let mut app = App::new();
    app.pending_action = Some(AsyncAction::StopProxy);
    assert!(matches!(app.take_pending_action(), Some(AsyncAction::StopProxy)));
    assert!(app.take_pending_action().is_none());
}

#[test]
fn select_next_on_empty_list_accepts_any_selection() {
    let mut app = App::new();
    app.selected = Some(usize::MAX);
    app.select_next();
    assert_eq!(app.selected, Some(usize::MAX));
}

#[test]
fn begin_save_refuses_taken_name_at_once() {
    let mut app = App::new();
    let mut list = profiles(&["a", "b"]);
    let mut form = ProfileForm::new_blank();
    form.fields[0].value = "b".to_string();
    assert_eq!(app.begin_save(&mut list, &form), SaveOutcome::AlreadyExists);
    assert_eq!(names(&list), vec!["a", "b"]);
    assert_eq!(notice(&app), (NotificationLevel::Error, "Profile 'b' already exists".to_string()));
}

#[test]
fn begin_save_leaves_report_for_later() {
    let mut app = App::new();
    let mut list = profiles(&["a"]);
    let mut form = ProfileForm::new_blank();
    form.fields[0].value = "c".to_string();
    assert_eq!(app.begin_save(&mut list, &form), SaveOutcome::Added);
    assert_eq!(names(&list), vec!["a", "c"]);
    assert!(app.notification.is_none());
}

#[test]
fn event_error_quits() {
    let mut app = App::new();
    app.quit_on_event_error();
    assert!(app.should_quit);
}

use lib::form::{FieldKind, FormField, ProfileForm};
use lib::profile::{AuthType, ProfileConfig, ProviderType};
use lib::text::{decimal_text, parse_u32};

fn text_field(value: &str) -> FormField {
    FormField::new("Name", FieldKind::Text, value.to_string())
}

fn select_field(value: &str) -> FormField {
    FormField::new(
        "Provider Type",
        FieldKind::Select(vec![
            "DirectAnthropic".to_string(),
            "OpenAICompatible".to_string(),
            "OpenAIResponses".to_string(),
        ]),
        value.to_string(),
    )
}

fn sample_profile() -> ProfileConfig {
    ProfileConfig {
        name: "work".to_string(),
        provider_type: ProviderType::OpenAIResponses,
        base_url: "https://api.example.com/v1".to_string(),
        api_key: "sk-test".to_string(),
        api_key_keyring: Some("keyring-entry".to_string()),
        default_model: "gpt-x".to_string(),
        priority: 42,
        enabled: false,
        auth_type: AuthType::OAuth,
    }
}

#[test]
fn new_field_puts_cursor_at_byte_end() {
    assert_eq!(text_field("abc").cursor_pos, 3);
    assert_eq!(text_field("").cursor_pos, 0);
    assert_eq!(text_field("é").cursor_pos, 2);
}

#[test]
fn typing_inserts_at_cursor() {
    let mut f = text_field("ac");
    f.move_cursor_left();
    f.insert_char('b');
    assert_eq!(f.value, "abc");
    assert_eq!(f.cursor_pos, 2);
    f.insert_char('é');
    assert_eq!(f.value, "abéc");
    assert_eq!(f.cursor_pos, 3);
}

#[test]
fn password_field_takes_any_char() {
    let mut f = FormField::new("API Key", FieldKind::Password, String::new());
    f.insert_char('s');
    f.insert_char('-');
    assert_eq!(f.value, "s-");
    assert_eq!(f.cursor_pos, 2);
}

#[test]
fn number_field_takes_only_digits() {
    let mut f = FormField::new("Priority", FieldKind::Number, "1".to_string());
    f.insert_char('x');
    assert_eq!(f.value, "1");
    assert_eq!(f.cursor_pos, 1);
    f.insert_char('7');
    assert_eq!(f.value, "17");
    assert_eq!(f.cursor_pos, 2);
}

#[test]
fn bool_field_toggles_on_any_key() {
    let mut f = FormField::new("Enabled", FieldKind::Bool, "true".to_string());
    let cursor = f.cursor_pos;
    f.insert_char('q');
    assert_eq!(f.value, "false");
    f.insert_char(' ');
    assert_eq!(f.value, "true");
    assert_eq!(f.cursor_pos, cursor);
    let mut g = FormField::new("Enabled", FieldKind::Bool, "maybe".to_string());
    g.insert_char('x');
    assert_eq!(g.value, "true");
}

#[test]
fn select_field_cycles_on_key() {
    let mut f = select_field("OpenAIResponses");
    f.insert_char('z');
    assert_eq!(f.value, "DirectAnthropic");
    f.insert_char('z');
    assert_eq!(f.value, "OpenAICompatible");
}

#[test]
fn select_with_unknown_value_stays() {
    let mut f = select_field("Other");
    f.insert_char('z');
    assert_eq!(f.value, "Other");
    f.cycle_select(true);
    assert_eq!(f.value, "Other");
}

#[test]
fn cycle_select_moves_both_ways() {
    let mut f = select_field("DirectAnthropic");
    f.cycle_select(false);
    assert_eq!(f.value, "OpenAIResponses");
    f.cycle_select(true);
    assert_eq!(f.value, "DirectAnthropic");
    f.cycle_select(true);
    assert_eq!(f.value, "OpenAICompatible");
}

#[test]
fn cycle_select_toggles_bool_and_ignores_text() {
    let mut b = FormField::new("Enabled", FieldKind::Bool, "false".to_string());
    b.cycle_select(false);
    assert_eq!(b.value, "true");
    let mut t = text_field("abc");
    t.cycle_select(true);
    assert_eq!(t.value, "abc");
    assert_eq!(t.cursor_pos, 3);
}

#[test]
fn backspace_removes_char_before_cursor() {
    let mut f = text_field("abc");
    f.delete_char();
    assert_eq!(f.value, "ab");
    assert_eq!(f.cursor_pos, 2);
    f.move_cursor_left();
    f.move_cursor_left();
    f.delete_char();
    assert_eq!(f.value, "ab");
    assert_eq!(f.cursor_pos, 0);
}

#[test]
fn backspace_undoes_typing() {
    let mut f = text_field("hello");
    f.move_cursor_left();
    f.move_cursor_left();
    let before = f.value.clone();
    let cursor = f.cursor_pos;
    f.insert_char('ü');
    assert_ne!(f.value, before);
    f.delete_char();
    assert_eq!(f.value, before);
    assert_eq!(f.cursor_pos, cursor);
}

#[test]
fn cursor_moves_stay_inside() {
    let mut f = text_field("ab");
    f.move_cursor_right();
    assert_eq!(f.cursor_pos, 2);
    f.move_cursor_left();
    f.move_cursor_left();
    f.move_cursor_left();
    assert_eq!(f.cursor_pos, 0);
    f.move_cursor_right();
    assert_eq!(f.cursor_pos, 1);
}

#[test]
fn blank_form_layout() {
    let form = ProfileForm::new_blank();
    let labels: Vec<&str> = form.fields.iter().map(|f| f.label).collect();
    assert_eq!(
        labels,
        vec!["Name", "Provider Type", "Base URL", "API Key", "Default Model", "Enabled", "Priority"]
    );
    let values: Vec<&str> = form.fields.iter().map(|f| f.value.as_str()).collect();
    assert_eq!(values, vec!["", "OpenAICompatible", "", "", "", "true", "100"]);
    assert_eq!(form.fields[6].cursor_pos, 3);
    assert_eq!(form.focused_field, 0);
    assert!(!form.is_edit);
    assert!(form.original_name.is_none());
}

#[test]
fn blank_form_gives_default_profile() {
    let c = ProfileForm::new_blank().to_profile_config();
    assert_eq!(c.name, "");
    assert_eq!(c.provider_type, ProviderType::OpenAICompatible);
    assert_eq!(c.base_url, "");
    assert_eq!(c.api_key, "");
    assert_eq!(c.default_model, "");
    assert_eq!(c.priority, 100);
    assert!(c.enabled);
    assert_eq!(c.auth_type, AuthType::ApiKey);
    assert!(c.api_key_keyring.is_none());
}

#[test]
fn form_from_profile_shows_profile() {
    let p = sample_profile();
    let form = ProfileForm::from_profile(&p);
    let values: Vec<&str> = form.fields.iter().map(|f| f.value.as_str()).collect();
    assert_eq!(
        values,
        vec!["work", "OpenAIResponses", "https://api.example.com/v1", "sk-test", "gpt-x", "false", "42"]
    );
    assert!(form.is_edit);
    assert_eq!(form.original_name.as_deref(), Some("work"));
    assert_eq!(form.fields[0].cursor_pos, 4);
}

#[test]
fn profile_form_round_trip() {
    let p = sample_profile();
    let c = ProfileForm::from_profile(&p).to_profile_config();
    assert_eq!(c.name, p.name);
    assert_eq!(c.provider_type, p.provider_type);
    assert_eq!(c.base_url, p.base_url);
    assert_eq!(c.api_key, p.api_key);
    assert_eq!(c.default_model, p.default_model);
    assert_eq!(c.priority, p.priority);
    assert_eq!(c.enabled, p.enabled);
    // what the form does not hold falls back to the defaults
    assert_eq!(c.auth_type, AuthType::ApiKey);
    assert!(c.api_key_keyring.is_none());
}

#[test]
fn unreadable_priority_falls_back_to_100() {
    let mut form = ProfileForm::new_blank();
    form.fields[6].value = "12x".to_string();
    assert_eq!(form.to_profile_config().priority, 100);
    form.fields[6].value = "99999999999".to_string();
    assert_eq!(form.to_profile_config().priority, 100);
    form.fields[6].value = "+8".to_string();
    assert_eq!(form.to_profile_config().priority, 8);
}

#[test]
fn edited_fields_reach_the_profile() {
    let mut form = ProfileForm::new_blank();
    for c in "local".chars() {
        form.fields[0].insert_char(c);
    }
    form.fields[1].cycle_select(false);
    form.fields[5].insert_char(' ');
    form.fields[6].delete_char();
    form.fields[6].insert_char('5');
    let c = form.to_profile_config();
    assert_eq!(c.name, "local");
    assert_eq!(c.provider_type, ProviderType::DirectAnthropic);
    assert!(!c.enabled);
    assert_eq!(c.priority, 105);
}

#[test]
fn unknown_provider_label_means_openai_compatible() {
    let mut form = ProfileForm::new_blank();
    form.fields[1].value = "Something".to_string();
    assert_eq!(form.to_profile_config().provider_type, ProviderType::OpenAICompatible);
    form.fields[1].value = "DirectAnthropic".to_string();
    assert_eq!(form.to_profile_config().provider_type, ProviderType::DirectAnthropic);
}

#[test]
fn focus_stays_within_fields() {
    let mut form = ProfileForm::new_blank();
    form.focus_prev();
    assert_eq!(form.focused_field, 0);
    for _ in 0..10 {
        form.focus_next();
    }
    assert_eq!(form.focused_field, 6);
    form.focus_prev();
    assert_eq!(form.focused_field, 5);
    form.focus_next();
    assert_eq!(form.focused_field, 6);
}

#[test]
fn parse_u32_follows_from_str() {
    for s in ["0", "100", "+7", "4294967295", "007", "", "+", "-1", "-0", "4294967296", "12a", " 1", "é1", "++1"] {
        assert_eq!(parse_u32(s), s.parse::<u32>().ok(), "{s}");
    }
    assert_eq!(parse_u32("100"), Some(100));
    assert_eq!(parse_u32("4294967296"), None);
}

#[test]
fn decimal_text_matches_to_string() {
    assert_eq!(decimal_text(u64::MAX), u64::MAX.to_string());
    for n in [0u32, 7, 10, 100, 4096, 1234567, u32::MAX] {
        assert_eq!(decimal_text(n as u64), n.to_string());
        assert_eq!(parse_u32(&decimal_text(n as u64)), Some(n));
    }
}

#[test]
fn guards_report_char_boundaries() {
    let mut f = text_field("é");
    assert!(f.can_insert_char('x'));
    assert!(!f.can_delete_char());
    f.move_cursor_left();
    assert_eq!(f.cursor_pos, 1);
    assert!(!f.can_insert_char('x'));
    assert!(f.can_delete_char());
    f.move_cursor_left();
    assert!(f.can_insert_char('x'));
    assert!(f.can_delete_char());
    let n = FormField::new("Priority", FieldKind::Number, "é".to_string());
    let mut m = n.clone();
    m.move_cursor_left();
    assert!(m.can_insert_char('a'));
    assert!(!m.can_insert_char('1'));
}

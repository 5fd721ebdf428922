use oven_tui::components::event::{Protocol, ProviderConfig};
use oven_tui::keys::{KeyCode, KeyEvent, KeyModifiers};
use oven_tui::ui::setup_wizard::{
    KindChoice, SetupWizard, SetupWizardAction, Stage, NAME_COUNT,
};

const SHIFT: KeyModifiers =
    KeyModifiers { shift: true, control: false, alt: false, logo: false, other: false };

fn key(code: KeyCode) -> KeyEvent {
    KeyEvent::new(code, KeyModifiers::none())
}

fn open() -> SetupWizard {
    let mut w = SetupWizard::new(ProviderConfig::empty());
    w.open();
    w
}

#[test]
fn enter_on_deepseek_then_completions_composes_command() {
    let mut w = SetupWizard::new(ProviderConfig {
        name: Some("deepseek".to_string()),
        ..ProviderConfig::empty()
    });
    w.open();
    assert!(matches!(
        w.handle_key(&key(KeyCode::Enter)),
        SetupWizardAction::Handled
    ));
    assert_eq!(w.stage(), Stage::Kind);
    assert!(matches!(
        w.handle_key(&key(KeyCode::Enter)),
        SetupWizardAction::Handled
    ));
    assert_eq!(w.stage(), Stage::ApiKey);
    for ch in "sk-secret".chars() {
        w.handle_key(&key(KeyCode::Char(ch)));
    }
    match w.handle_key(&key(KeyCode::Enter)) {
        SetupWizardAction::Submit(line) => {
            assert_eq!(
                line,
                "/setup name=deepseek kind=completions api_key=sk-secret"
            );
        }
        other => panic!("expected Submit, got {other:?}"),
    }
    assert!(!w.is_open());
}

#[test]
fn setup_wizard_keep_current_with_empty_key_closes() {
    let mut w = SetupWizard::new(ProviderConfig {
        name: Some("openai".to_string()),
        protocol: Some(Protocol::Responses),
        ..ProviderConfig::empty()
    });
    w.open();
    for _ in 0..NAME_COUNT - 1 {
        w.handle_key(&key(KeyCode::Down));
    }
    w.handle_key(&key(KeyCode::Enter));
    w.handle_key(&key(KeyCode::Down));
    w.handle_key(&key(KeyCode::Enter));
    match w.handle_key(&key(KeyCode::Enter)) {
        SetupWizardAction::Close => {}
        other => panic!("expected Close, got {other:?}"),
    }
    assert!(!w.is_open());
}

#[test]
fn setup_wizard_keep_current_only_sends_api_key() {
    let mut w = SetupWizard::new(ProviderConfig {
        name: Some("openai".to_string()),
        protocol: Some(Protocol::Responses),
        ..ProviderConfig::empty()
    });
    w.open();
    for _ in 0..NAME_COUNT - 1 {
        w.handle_key(&key(KeyCode::Down));
    }
    w.handle_key(&key(KeyCode::Enter));
    w.handle_key(&key(KeyCode::Down));
    w.handle_key(&key(KeyCode::Enter));
    for ch in "sk-new".chars() {
        w.handle_key(&key(KeyCode::Char(ch)));
    }
    match w.handle_key(&key(KeyCode::Enter)) {
        SetupWizardAction::Submit(line) => {
            assert_eq!(line, "/setup api_key=sk-new");
        }
        other => panic!("expected Submit, got {other:?}"),
    }
}

#[test]
fn setup_wizard_switching_provider_requires_api_key() {
    let mut w = SetupWizard::new(ProviderConfig {
        name: Some("deepseek".to_string()),
        ..ProviderConfig::empty()
    });
    w.open();
    w.handle_key(&key(KeyCode::Down));
    w.handle_key(&key(KeyCode::Enter));
    w.handle_key(&key(KeyCode::Enter));
    assert_eq!(w.stage(), Stage::ApiKey);
    assert!(matches!(
        w.handle_key(&key(KeyCode::Enter)),
        SetupWizardAction::Handled
    ));
    assert_eq!(w.stage(), Stage::ApiKey);
    assert!(w.is_open());
    for ch in "sk-new".chars() {
        w.handle_key(&key(KeyCode::Char(ch)));
    }
    match w.handle_key(&key(KeyCode::Enter)) {
        SetupWizardAction::Submit(line) => {
            assert_eq!(line, "/setup name=zhipu kind=completions api_key=sk-new");
        }
        other => panic!("expected Submit, got {other:?}"),
    }
}

#[test]
fn grok_only_offers_responses() {
    let mut w = SetupWizard::new(ProviderConfig {
        name: Some("grok".to_string()),
        ..ProviderConfig::empty()
    });
    w.open();
    w.handle_key(&key(KeyCode::Enter));
    assert_eq!(w.stage(), Stage::Kind);
    assert_eq!(w.kind_items(), vec![KindChoice::Use(Protocol::Responses)]);
    w.handle_key(&key(KeyCode::Enter));
    for ch in "xai-key".chars() {
        w.handle_key(&key(KeyCode::Char(ch)));
    }
    match w.handle_key(&key(KeyCode::Enter)) {
        SetupWizardAction::Submit(line) => {
            assert_eq!(line, "/setup name=grok kind=responses api_key=xai-key");
        }
        other => panic!("expected Submit, got {other:?}"),
    }
}

#[test]
fn setup_wizard_esc_on_first_stage_closes() {
    let mut w = open();
    assert!(matches!(
        w.handle_key(&key(KeyCode::Esc)),
        SetupWizardAction::Close
    ));
    assert!(!w.is_open());
}

#[test]
fn esc_on_kind_returns_to_name() {
    let mut w = open();
    w.handle_key(&key(KeyCode::Enter));
    assert_eq!(w.stage(), Stage::Kind);
    w.handle_key(&key(KeyCode::Esc));
    assert_eq!(w.stage(), Stage::Name);
    assert!(w.is_open());
}

#[test]
fn setup_wizard_api_key_is_masked_in_buffer_draw_state() {
    let mut w = open();
    w.enter_stage(Stage::ApiKey);
    for ch in "abcd".chars() {
        w.handle_key(&key(KeyCode::Char(ch)));
    }
    assert_eq!(w.buffer(), "abcd");
    assert_eq!(w.prompt_mask().as_deref(), Some("****"));
    assert_eq!(w.prompt_hint(), "");
}

#[test]
fn setup_wizard_list_stages_show_hint_not_mask() {
    let w = open();
    assert_eq!(w.prompt_hint(), "choose a provider");
    assert!(w.prompt_mask().is_none());
}

#[test]
fn setup_wizard_shift_uppercase_chars_are_kept_in_api_key() {
    let mut w = open();
    w.enter_stage(Stage::ApiKey);
    for (ch, mods) in [
        ('s', KeyModifiers::none()),
        ('k', KeyModifiers::none()),
        ('-', KeyModifiers::none()),
        ('6', KeyModifiers::none()),
        ('T', SHIFT),
        ('B', SHIFT),
        ('p', KeyModifiers::none()),
    ] {
        w.handle_key(&KeyEvent::new(KeyCode::Char(ch), mods));
    }
    assert_eq!(w.buffer(), "sk-6TBp");
}

#[test]
fn setup_wizard_paste_strips_whitespace_from_api_key() {
    let mut w = open();
    w.enter_stage(Stage::ApiKey);
    w.paste("sk-6TBpKsAJ\nQuU31N8 ");
    assert_eq!(w.buffer(), "sk-6TBpKsAJQuU31N8");
}

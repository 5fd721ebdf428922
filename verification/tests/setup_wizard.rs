use oven_tui::components::event::ProviderConfig;
use oven_tui::components::setup_wizard::{
    name_item, SetupWizard, SetupWizardAction, Stage, NAME_COUNT,
};
use oven_tui::keys::{KeyCode, KeyEvent, KeyModifiers};

const SHIFT: KeyModifiers =
    KeyModifiers { shift: true, control: false, alt: false, logo: false, other: false };

fn key(code: KeyCode) -> KeyEvent {
    KeyEvent::new(code, KeyModifiers::none())
}

fn open() -> SetupWizard {
    let mut w = SetupWizard::new(ProviderConfig::empty());
    w.open();
    w
}

#[test]
fn enter_on_deepseek_composes_command_without_kind() {
    let mut w = SetupWizard::new(ProviderConfig {
        name: Some("deepseek".to_string()),
        vendor: Some("deepseek".to_string()),
        ..ProviderConfig::empty()
    });
    w.open();
    assert!(matches!(
        w.handle_key(&key(KeyCode::Enter)),
        SetupWizardAction::Handled
    ));
    assert_eq!(w.stage(), Stage::ApiKey);
    for ch in "sk-secret".chars() {
        w.handle_key(&key(KeyCode::Char(ch)));
    }
    match w.handle_key(&key(KeyCode::Enter)) {
        SetupWizardAction::Submit(line) => {
            assert_eq!(line, "/setup name=deepseek api_key=sk-secret");
        }
        other => panic!("expected Submit, got {other:?}"),
    }
    assert!(!w.is_open());
}

#[test]
fn keep_current_with_empty_key_closes() {
    let mut w = SetupWizard::new(ProviderConfig {
        name: Some("openai".to_string()),
        vendor: Some("openai".to_string()),
        ..ProviderConfig::empty()
    });
    w.open();
    for _ in 0..NAME_COUNT - 1 {
        w.handle_key(&key(KeyCode::Down));
    }
    w.handle_key(&key(KeyCode::Enter));
    match w.handle_key(&key(KeyCode::Enter)) {
        SetupWizardAction::Close => {}
        other => panic!("expected Close, got {other:?}"),
    }
    assert!(!w.is_open());
}

#[test]
fn keep_current_only_sends_api_key() {
    let mut w = SetupWizard::new(ProviderConfig {
        name: Some("openai".to_string()),
        vendor: Some("openai".to_string()),
        ..ProviderConfig::empty()
    });
    w.open();
    for _ in 0..NAME_COUNT - 1 {
        w.handle_key(&key(KeyCode::Down));
    }
    w.handle_key(&key(KeyCode::Enter));
    for ch in "sk-new".chars() {
        w.handle_key(&key(KeyCode::Char(ch)));
    }
    match w.handle_key(&key(KeyCode::Enter)) {
        SetupWizardAction::Submit(line) => {
            assert_eq!(line, "/setup api_key=sk-new");
        }
        other => panic!("expected Submit, got {other:?}"),
    }
}

#[test]
fn switching_provider_requires_api_key() {
    let mut w = SetupWizard::new(ProviderConfig {
        name: Some("deepseek".to_string()),
        vendor: Some("deepseek".to_string()),
        ..ProviderConfig::empty()
    });
    w.open();
    w.handle_key(&key(KeyCode::Down));
    w.handle_key(&key(KeyCode::Enter));
    assert_eq!(w.stage(), Stage::ApiKey);
    assert!(matches!(
        w.handle_key(&key(KeyCode::Enter)),
        SetupWizardAction::Handled
    ));
    assert_eq!(w.stage(), Stage::ApiKey);
    assert!(w.is_open());
    for ch in "sk-new".chars() {
        w.handle_key(&key(KeyCode::Char(ch)));
    }
    match w.handle_key(&key(KeyCode::Enter)) {
        SetupWizardAction::Submit(line) => {
            assert_eq!(line, "/setup name=zhipu api_key=sk-new");
        }
        other => panic!("expected Submit, got {other:?}"),
    }
}

#[test]
fn grok_writes_canonical_xai() {
    let mut w = SetupWizard::new(ProviderConfig {
        name: Some("grok".to_string()),
        vendor: Some("xai".to_string()),
        ..ProviderConfig::empty()
    });
    w.open();
    assert_eq!(name_item(w.selected()).0, "xai");
    w.handle_key(&key(KeyCode::Enter));
    assert_eq!(w.stage(), Stage::ApiKey);
    for ch in "xai-key".chars() {
        w.handle_key(&key(KeyCode::Char(ch)));
    }
    match w.handle_key(&key(KeyCode::Enter)) {
        SetupWizardAction::Submit(line) => {
            assert_eq!(line, "/setup name=xai api_key=xai-key");
        }
        other => panic!("expected Submit, got {other:?}"),
    }
}

#[test]
fn custom_asks_for_base_url_and_protocol() {
    let mut w = open();
    while name_item(w.selected()).0 != "custom" {
        w.handle_key(&key(KeyCode::Down));
    }
    w.handle_key(&key(KeyCode::Enter));
    assert_eq!(w.stage(), Stage::CustomName);
    for ch in "my-proxy".chars() {
        w.handle_key(&key(KeyCode::Char(ch)));
    }
    match w.handle_key(&key(KeyCode::Enter)) {
        SetupWizardAction::Resolve(name) => assert_eq!(name, "my-proxy"),
        other => panic!("expected Resolve, got {other:?}"),
    }
    w.vendor_resolved("my-proxy".to_string());
    assert_eq!(w.stage(), Stage::BaseUrl);
    for ch in "https://proxy.example/v1".chars() {
        w.handle_key(&key(KeyCode::Char(ch)));
    }
    w.handle_key(&key(KeyCode::Enter));
    assert_eq!(w.stage(), Stage::Protocol);
    w.handle_key(&key(KeyCode::Enter));
    assert_eq!(w.stage(), Stage::ApiKey);
    for ch in "sk-gw".chars() {
        w.handle_key(&key(KeyCode::Char(ch)));
    }
    match w.handle_key(&key(KeyCode::Enter)) {
        SetupWizardAction::Submit(line) => {
            assert_eq!(
                line,
                "/setup name=my-proxy base_url=https://proxy.example/v1 protocol=completions api_key=sk-gw"
            );
        }
        other => panic!("expected Submit, got {other:?}"),
    }
}

#[test]
fn esc_on_first_stage_closes() {
    let mut w = open();
    assert!(matches!(
        w.handle_key(&key(KeyCode::Esc)),
        SetupWizardAction::Close
    ));
    assert!(!w.is_open());
}

#[test]
fn esc_on_api_key_returns_to_name() {
    let mut w = open();
    w.handle_key(&key(KeyCode::Enter));
    assert_eq!(w.stage(), Stage::ApiKey);
    w.handle_key(&key(KeyCode::Esc));
    assert_eq!(w.stage(), Stage::Name);
    assert!(w.is_open());
}

#[test]
fn api_key_is_masked_in_buffer_draw_state() {
    let mut w = open();
    w.enter_stage(Stage::ApiKey);
    for ch in "abcd".chars() {
        w.handle_key(&key(KeyCode::Char(ch)));
    }
    assert_eq!(w.buffer(), "abcd");
    assert_eq!(w.prompt_value().as_deref(), Some("****"));
    assert_eq!(w.prompt_hint(), "");
}

#[test]
fn custom_name_and_base_url_echo_typed_text() {
    let mut w = open();
    w.enter_stage(Stage::CustomName);
    assert_eq!(w.prompt_value().as_deref(), Some(""));
    for ch in "my-proxy".chars() {
        w.handle_key(&key(KeyCode::Char(ch)));
    }
    assert_eq!(w.prompt_value().as_deref(), Some("my-proxy"));

    match w.handle_key(&key(KeyCode::Enter)) {
        SetupWizardAction::Resolve(name) => assert_eq!(name, "my-proxy"),
        other => panic!("expected Resolve, got {other:?}"),
    }
    w.vendor_resolved("my-proxy".to_string());
    assert_eq!(w.stage(), Stage::BaseUrl);
    assert_eq!(w.prompt_value().as_deref(), Some(""));
    for ch in "https://proxy.example/v1".chars() {
        w.handle_key(&key(KeyCode::Char(ch)));
    }
    assert_eq!(
        w.prompt_value().as_deref(),
        Some("https://proxy.example/v1")
    );
    assert_eq!(w.prompt_hint(), "");
}

#[test]
fn list_stages_show_hint_not_mask() {
    let w = open();
    assert_eq!(w.prompt_hint(), "choose a provider");
    assert!(w.prompt_value().is_none());
}

#[test]
fn shift_uppercase_chars_are_kept_in_api_key() {
    let mut w = open();
    w.enter_stage(Stage::ApiKey);
    for (ch, mods) in [
        ('s', KeyModifiers::none()),
        ('k', KeyModifiers::none()),
        ('-', KeyModifiers::none()),
        ('6', KeyModifiers::none()),
        ('T', SHIFT),
        ('B', SHIFT),
        ('p', KeyModifiers::none()),
    ] {
        w.handle_key(&KeyEvent::new(KeyCode::Char(ch), mods));
    }
    assert_eq!(w.buffer(), "sk-6TBp");
}

#[test]
fn paste_strips_whitespace_from_api_key() {
    let mut w = open();
    w.enter_stage(Stage::ApiKey);
    w.paste("sk-6TBpKsAJ\nQuU31N8 ");
    assert_eq!(w.buffer(), "sk-6TBpKsAJQuU31N8");
}

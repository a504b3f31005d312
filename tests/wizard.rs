use meowi::config::CustomModel;
use meowi::session::{App, CustomModelStage};
use meowi::wizard::{CustomModelInput, WizardError, WizardOutcome};

fn type_str(w: &mut CustomModelInput, s: &str) {
    for c in s.chars() {
        w.type_text(&c.to_string());
    }
}

fn expect_continue(o: WizardOutcome) {
    assert!(matches!(o, WizardOutcome::Continue));
}

#[test]
fn derived_model_steps() {
    let app = App::new();
    let mut w = CustomModelInput::new();
    assert_eq!(w.stage(), CustomModelStage::TypeChoice);
    expect_continue(w.enter(&app.providers));
    assert_eq!(w.stage(), CustomModelStage::ProviderChoice);
    w.move_choice(true, app.providers.len());
    w.move_choice(true, app.providers.len());
    expect_continue(w.enter(&app.providers));
    assert_eq!(w.stage(), CustomModelStage::DerivedModelName);
    assert!(matches!(w.enter(&app.providers), WizardOutcome::Rejected(WizardError::EmptyName)));
    type_str(&mut w, "  grok-4x");
    w.backspace();
    match w.enter(&app.providers) {
        WizardOutcome::Done(CustomModel::Derived { provider, model }) => {
            assert_eq!(provider, "Grok");
            assert_eq!(model, "grok-4");
        }
        _ => panic!("expected a derived model"),
    }
}

#[test]
fn standalone_model_steps() {
    let app = App::new();
    let mut w = CustomModelInput::new();
    w.move_choice(false, app.providers.len());
    expect_continue(w.enter(&app.providers));
    assert_eq!(w.stage(), CustomModelStage::StandaloneName);
    type_str(&mut w, &"x".repeat(51));
    assert!(matches!(w.enter(&app.providers), WizardOutcome::Rejected(WizardError::NameTooLong)));
    for _ in 0..50 {
        w.backspace();
    }
    expect_continue(w.enter(&app.providers));
    assert_eq!(w.stage(), CustomModelStage::StandaloneUrl);
    type_str(&mut w, "ftp://host");
    assert!(matches!(w.enter(&app.providers), WizardOutcome::Rejected(WizardError::InvalidUrl)));
    for _ in 0.."ftp://host".len() {
        w.backspace();
    }
    type_str(&mut w, "not a url");
    assert!(matches!(w.enter(&app.providers), WizardOutcome::Rejected(WizardError::InvalidUrl)));
    for _ in 0.."not a url".len() {
        w.backspace();
    }
    type_str(&mut w, " http://localhost:11434/v1/chat/completions ");
    expect_continue(w.enter(&app.providers));
    assert!(matches!(w.enter(&app.providers), WizardOutcome::Rejected(WizardError::EmptyModelId)));
    type_str(&mut w, "llama3");
    expect_continue(w.enter(&app.providers));
    assert_eq!(w.stage(), CustomModelStage::StandaloneApiKeyChoice);
    w.move_choice(false, app.providers.len());
    expect_continue(w.enter(&app.providers));
    assert_eq!(w.stage(), CustomModelStage::StandaloneApiKeyInput);
    type_str(&mut w, "short");
    assert!(matches!(w.enter(&app.providers), WizardOutcome::Rejected(WizardError::KeyTooShort)));
    type_str(&mut w, "-enough");
    match w.enter(&app.providers) {
        WizardOutcome::Done(CustomModel::Standalone { name, endpoint, model, api_key, use_key_from }) => {
            assert_eq!(name, "x");
            assert_eq!(endpoint, "http://localhost:11434/v1/chat/completions");
            assert_eq!(model, "llama3");
            assert_eq!(api_key.as_deref(), Some("short-enough"));
            assert_eq!(use_key_from, None);
        }
        _ => panic!("expected a standalone model"),
    }
}

#[test]
fn standalone_model_borrows_a_provider_key() {
    let app = App::new();
    let mut w = CustomModelInput::StandaloneApiKeyChoice {
        name: "n".to_string(),
        endpoint: "https://e".to_string(),
        model: "m".to_string(),
        choice: 0,
    };
    w.move_choice(true, app.providers.len());
    match w.enter(&app.providers) {
        WizardOutcome::Done(CustomModel::Standalone { use_key_from, api_key, .. }) => {
            assert_eq!(use_key_from.as_deref(), Some("Anthropic"));
            assert_eq!(api_key, None);
        }
        _ => panic!("expected a standalone model"),
    }
}

#[test]
fn derived_model_needs_a_provider() {
    let mut w = CustomModelInput::new();
    assert!(matches!(w.enter(&Vec::new()), WizardOutcome::Rejected(WizardError::NoProviders)));
    assert_eq!(w.stage(), CustomModelStage::TypeChoice);
}

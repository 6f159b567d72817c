use nexus_core::config::{AiConfig, KeybindingsConfig};
use nexus_core::ui::UiState;

#[test]
fn test_ui_state_defaults_and_toggles() {
    let mut ui = UiState::new();
    assert!(ui.file_explorer_open);
    assert!(!ui.command_palette_open);
    assert_eq!(ui.active_tab, 0);
    ui.toggle_file_explorer();
    assert!(!ui.file_explorer_open);
    ui.toggle_command_palette();
    assert!(ui.command_palette_open);
    ui.set_active_tab(3);
    assert_eq!(ui.active_tab, 3);
}

#[test]
fn test_ai_config_default() {
    let ai = AiConfig::default();
    assert_eq!(ai.provider, "gemini");
    assert_eq!(ai.model, "gemini-pro");
    assert_eq!(ai.api_key, None);
    assert!(ai.auto_complete);
}

#[test]
fn test_keybindings_default() {
    let kb = KeybindingsConfig::default();
    assert_eq!(kb.save, "Ctrl+S");
    assert_eq!(kb.open, "Ctrl+O");
    assert_eq!(kb.find, "Ctrl+F");
    assert_eq!(kb.command_palette, "Ctrl+Shift+P");
}

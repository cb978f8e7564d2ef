use knowledge_cli::form::FieldError;
use knowledge_cli::json::Json;
use knowledge_cli::wizard::{key_is_safe, on_key, on_suggestions, Effect, Key, Notice, Wizard};

fn press(w: &mut Wizard, key: Key) -> Effect {
    assert!(key_is_safe(w, key));
    on_key(w, key, false)
}

fn type_text(w: &mut Wizard, text: &str) {
    for c in text.chars() {
        assert_eq!(press(w, Key::Char(c)), Effect::Nothing);
    }
}

#[test]
fn wizard_typing_edits_at_the_cursor() {
    let mut w = Wizard::new();
    assert!(!w.editing);
    type_text(&mut w, "ab");
    assert!(w.editing);
    assert_eq!(w.editing_text, "ab");
    assert_eq!(w.edit_pos, 2);
    press(&mut w, Key::Left);
    assert_eq!(w.edit_pos, 1);
    type_text(&mut w, "x");
    assert_eq!(w.editing_text, "axb");
    assert_eq!(w.edit_pos, 2);
    press(&mut w, Key::Backspace);
    assert_eq!(w.editing_text, "ab");
    assert_eq!(w.edit_pos, 1);
    press(&mut w, Key::Right);
    press(&mut w, Key::Right);
    assert_eq!(w.edit_pos, 2);
}

#[test]
fn wizard_tab_commits_and_moves_on() {
    let mut w = Wizard::new();
    type_text(&mut w, "Use Rust");
    assert_eq!(press(&mut w, Key::Tab), Effect::Nothing);
    assert_eq!(w.form.title, "Use Rust");
    assert_eq!(w.current_field, 1);
    assert!(w.editing);
    assert_eq!(w.editing_text, "");
    assert_eq!(w.edit_pos, 0);
    assert_eq!(press(&mut w, Key::BackTab), Effect::Nothing);
    assert_eq!(w.current_field, 0);
    assert_eq!(w.editing_text, "Use Rust");
    assert_eq!(w.edit_pos, 8);
}

#[test]
fn wizard_refuses_blank_title_and_bad_date() {
    let mut w = Wizard::new();
    type_text(&mut w, " ");
    assert_eq!(press(&mut w, Key::Tab), Effect::Refused(FieldError::TitleRequired));
    assert_eq!(w.current_field, 0);
    assert_eq!(w.form.title, "");
    press(&mut w, Key::Backspace);
    type_text(&mut w, "T");
    press(&mut w, Key::Tab);
    press(&mut w, Key::Tab);
    assert_eq!(w.current_field, 2);
    type_text(&mut w, "tomorrow");
    assert_eq!(on_key(&mut w, Key::Tab, false), Effect::Refused(FieldError::BadDate));
    assert_eq!(w.current_field, 2);
    assert_eq!(on_key(&mut w, Key::Tab, true), Effect::Nothing);
    assert_eq!(w.form.date, "tomorrow");
    assert_eq!(w.current_field, 3);
}

#[test]
fn wizard_enter_focuses_date_and_asks_for_rationale() {
    let mut w = Wizard::new();
    type_text(&mut w, "T");
    assert_eq!(press(&mut w, Key::Enter), Effect::Nothing);
    assert_eq!(press(&mut w, Key::Enter), Effect::DateFocused);
    assert_eq!(w.current_field, 2);
    for _ in 2..6 {
        press(&mut w, Key::Enter);
    }
    assert_eq!(w.current_field, 6);
    assert!(!w.suggestion_loading);
    assert_eq!(press(&mut w, Key::Enter), Effect::Infer(1));
    assert_eq!(w.current_field, 7);
    assert!(w.suggestion_loading);
    assert_eq!(w.suggestion_req_id, 1);
}

#[test]
fn wizard_takes_only_the_latest_suggestions() {
    let mut w = Wizard::new();
    w.suggestion_req_id = 2;
    w.suggestion_loading = true;
    let item = Json::Str("r".to_string());
    assert_eq!(on_suggestions(&mut w, 1, Ok(vec![item])), Effect::Nothing);
    assert!(w.suggestion_loading);
    assert!(w.suggestions.is_empty());
    let item = Json::Str("r".to_string());
    assert_eq!(
        on_suggestions(&mut w, 2, Ok(vec![item])),
        Effect::Show(Notice::SuggestionsReceived)
    );
    assert!(!w.suggestion_loading);
    assert_eq!(w.suggestions.len(), 1);
    w.suggestion_loading = true;
    assert_eq!(
        on_suggestions(&mut w, 2, Err("timeout".to_string())),
        Effect::Show(Notice::SuggestionsFailed)
    );
    assert_eq!(w.suggestion_error.as_deref(), Some("timeout"));
    assert_eq!(w.suggestions.len(), 1);
    assert_eq!(Notice::SuggestionsFailed.text(), "Error al obtener sugerencias");
}

#[test]
fn wizard_escape_stops_editing_then_quits() {
    let mut w = Wizard::new();
    type_text(&mut w, "x");
    assert_eq!(press(&mut w, Key::Esc), Effect::Nothing);
    assert!(!w.editing);
    assert_eq!(w.editing_text, "");
    assert_eq!(w.form.title, "");
    assert_eq!(press(&mut w, Key::Esc), Effect::Quit);
}

#[test]
fn wizard_up_and_down_wrap_round() {
    let mut w = Wizard::new();
    type_text(&mut w, "x");
    press(&mut w, Key::Up);
    assert_eq!(w.current_field, 7);
    press(&mut w, Key::Down);
    assert_eq!(w.current_field, 0);
    assert_eq!(w.editing_text, "");
    assert_eq!(w.form.title, "");
}

#[test]
fn wizard_confirms_then_runs() {
    let mut w = Wizard::new();
    assert_eq!(press(&mut w, Key::F(5)), Effect::Show(Notice::DraftSaved));
    assert_eq!(press(&mut w, Key::F(9)), Effect::Nothing);
    assert!(w.show_confirm);
    assert_eq!(press(&mut w, Key::Char('q')), Effect::Nothing);
    assert!(w.show_confirm);
    assert_eq!(press(&mut w, Key::Char('n')), Effect::Show(Notice::Cancelled));
    assert!(!w.show_confirm && !w.executing);
    press(&mut w, Key::F(9));
    assert_eq!(press(&mut w, Key::Char('y')), Effect::Show(Notice::Executing));
    assert!(w.executing);
    assert_eq!(press(&mut w, Key::Other), Effect::Show(Notice::Completed));
    assert!(!w.executing);
    assert_eq!(w.exec_result.as_deref(), Some("Resultado: OK (simulado)"));
    assert_eq!(Notice::Executing.text(), "Ejecutando...");
}

#[test]
fn wizard_flags_a_cursor_inside_a_character() {
    let mut w = Wizard::new();
    assert_eq!(press(&mut w, Key::Char('ñ')), Effect::Nothing);
    assert_eq!(w.editing_text, "ñ");
    assert_eq!(w.edit_pos, 1);
    assert!(!key_is_safe(&w, Key::Char('a')));
    assert!(key_is_safe(&w, Key::Left));
    assert!(key_is_safe(&w, Key::Backspace));
    on_key(&mut w, Key::Backspace, false);
    assert_eq!(w.editing_text, "");
    assert_eq!(w.edit_pos, 0);
}

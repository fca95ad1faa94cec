use granite::args::Provider;
use granite::chat::{ChatState, Key, LoopAction, ProviderSwitch, Speaker, TurnOutcome};
use granite::commands::default_registry;

fn type_text(state: &mut ChatState, text: &str) {
    let reg = default_registry();
    for c in text.chars() {
        assert!(matches!(state.on_key(Key::Char(c), &reg), LoopAction::Redraw));
    }
}

#[test]
fn enter_sends_trimmed_prompt() {
    let reg = default_registry();
    let mut s = ChatState::new();
    type_text(&mut s, "  hello  ");
    match s.on_key(Key::Enter, &reg) {
        LoopAction::RunTurn(p) => assert_eq!(p, "hello"),
        other => panic!("expected a turn, got {other:?}"),
    }
    assert_eq!(s.input(), "");
    assert_eq!(s.status(), Some("thinking..."));
    assert_eq!(s.history().len(), 1);
    assert_eq!(s.history()[0].speaker, Speaker::User);
    assert_eq!(s.history()[0].text, "hello");
}

#[test]
fn finished_turn_shows_answer_and_clears_status() {
    let reg = default_registry();
    let mut s = ChatState::new();
    type_text(&mut s, "q");
    s.on_key(Key::Enter, &reg);
    s.finish_turn(TurnOutcome::Answer("a".to_string()));
    assert_eq!(s.status(), None);
    assert_eq!(s.history()[1].speaker, Speaker::Agent);
    s.finish_turn(TurnOutcome::Cancelled);
    assert_eq!(s.history()[2].speaker, Speaker::Error);
    assert_eq!(s.history()[2].text, "cancelled");
}

#[test]
fn empty_prompt_does_nothing() {
    let reg = default_registry();
    let mut s = ChatState::new();
    type_text(&mut s, "   ");
    assert!(matches!(s.on_key(Key::Enter, &reg), LoopAction::Redraw));
    assert!(s.history().is_empty());
    assert_eq!(s.input(), "");
}

#[test]
fn exit_commands_and_escape_quit() {
    let reg = default_registry();
    let mut s = ChatState::new();
    type_text(&mut s, "/exit");
    assert!(matches!(s.on_key(Key::Enter, &reg), LoopAction::Quit));
    type_text(&mut s, "/quit");
    assert!(matches!(s.on_key(Key::Enter, &reg), LoopAction::Quit));
    assert!(matches!(s.on_key(Key::Esc, &reg), LoopAction::Quit));
    assert!(matches!(s.on_key(Key::Interrupt, &reg), LoopAction::Quit));
}

#[test]
fn unknown_command_is_reported() {
    let reg = default_registry();
    let mut s = ChatState::new();
    type_text(&mut s, "/bogus");
    assert!(matches!(s.on_key(Key::Enter, &reg), LoopAction::Redraw));
    assert_eq!(s.history()[0].speaker, Speaker::Error);
    assert_eq!(s.history()[0].text, "unknown command: /bogus");
}

#[test]
fn provider_and_model_commands_switch() {
    let reg = default_registry();
    let mut s = ChatState::new();
    type_text(&mut s, "/provider gemini");
    assert!(matches!(s.on_key(Key::Enter, &reg), LoopAction::SwitchProvider(Provider::Gemini)));
    type_text(&mut s, "/model llama-3.1-70b");
    match s.on_key(Key::Enter, &reg) {
        LoopAction::SwitchModel(m) => assert_eq!(m, "llama-3.1-70b"),
        other => panic!("expected a model switch, got {other:?}"),
    }
    type_text(&mut s, "/provider");
    assert!(matches!(s.on_key(Key::Enter, &reg), LoopAction::Redraw));
    assert_eq!(s.history().last().unwrap().speaker, Speaker::Info);
}

#[test]
fn up_and_down_recall_earlier_prompts() {
    let reg = default_registry();
    let mut s = ChatState::new();
    type_text(&mut s, "one");
    s.on_key(Key::Enter, &reg);
    s.finish_turn(TurnOutcome::Answer("1".to_string()));
    type_text(&mut s, "two");
    s.on_key(Key::Enter, &reg);
    s.finish_turn(TurnOutcome::Error("boom".to_string()));

    s.on_key(Key::Up, &reg);
    assert_eq!(s.input(), "two");
    // With a recalled prompt on the line, Up scrolls instead of recalling.
    s.on_key(Key::Up, &reg);
    assert_eq!(s.input(), "two");
    assert_eq!(s.scroll_up(), 1);
    s.on_key(Key::Down, &reg);
    assert_eq!(s.input(), "");
    // Editing the recalled line ends recall; Down then scrolls.
    s.on_key(Key::Up, &reg);
    assert_eq!(s.input(), "two");
    s.on_key(Key::Backspace, &reg);
    s.on_key(Key::Down, &reg);
    assert_eq!(s.input(), "tw");
    assert_eq!(s.scroll_up(), 0);
}

#[test]
fn arrows_scroll_when_not_recalling() {
    let reg = default_registry();
    let mut s = ChatState::new();
    s.on_key(Key::PageUp, &reg);
    assert_eq!(s.scroll_up(), 10);
    s.on_key(Key::Up, &reg);
    assert_eq!(s.scroll_up(), 11);
    s.on_key(Key::Down, &reg);
    s.on_key(Key::PageDown, &reg);
    assert_eq!(s.scroll_up(), 0);
    s.on_key(Key::PageDown, &reg);
    assert_eq!(s.scroll_up(), 0);
}

#[test]
fn backspace_removes_last_character() {
    let reg = default_registry();
    let mut s = ChatState::new();
    type_text(&mut s, "ab");
    s.on_key(Key::Backspace, &reg);
    assert_eq!(s.input(), "a");
    s.on_key(Key::Backspace, &reg);
    s.on_key(Key::Backspace, &reg);
    assert_eq!(s.input(), "");
}

#[test]
fn provider_and_model_switches_are_reported() {
    let mut s = ChatState::new();
    s.report_provider_switch(ProviderSwitch::Switched(Provider::Groq));
    assert_eq!(s.history()[0].speaker, Speaker::Info);
    assert_eq!(s.history()[0].text, "provider: groq");
    s.report_provider_switch(ProviderSwitch::NoKey { wanted: Provider::Mistral, kept: Provider::Groq });
    assert_eq!(s.history()[1].speaker, Speaker::Error);
    assert_eq!(s.history()[1].text, "no API key found for mistral; staying with groq");
    s.report_provider_switch(ProviderSwitch::Failed("Gemini provider not implemented yet".to_string()));
    assert_eq!(s.history()[2].text, "Gemini provider not implemented yet");
    s.report_model_switch("llama");
    assert_eq!(s.history()[3].speaker, Speaker::Info);
    assert_eq!(s.history()[3].text, "model: llama");
}

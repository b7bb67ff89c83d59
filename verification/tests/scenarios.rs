use merge_chat::about::AboutMessage;
use merge_chat::dispatch::{MergeChat, Message, Request};
use merge_chat::registry::Screen;
use merge_chat::settings::SettingsMessage;

#[test]
fn settings_close_removes_window_and_requests_close() {
    let (mut state, _) = MergeChat::new();
    state.update(Message::WindowOpened(1));
    state.windows.navigate_to(1, Screen::Settings);
    assert_eq!(state.windows.get(1).unwrap().current_screen, Screen::Settings);
    let request = state.update(Message::Settings(SettingsMessage::CloseSettingsWindow(1)));
    assert_eq!(request, Some(Request::CloseWindow(1)));
    assert!(state.windows.get(1).is_none());
    assert!(state.windows.is_empty());
    let late = state.update(Message::WindowClosed(1));
    assert_eq!(late, Some(Request::Exit));
}

#[test]
fn primary_window_renders_global_form() {
    let (mut state, _) = MergeChat::new();
    state.update(Message::WindowOpened(10));
    state.update(Message::TwitchIdChanged(String::from("abc")));
    let plan = state.render_plan(10);
    assert!(plan.is_primary);
    assert!(plan.is_main_screen);
    assert_eq!(plan.content, Some(Screen::Main));
    let form = plan.global_form.expect("the primary window shows the form");
    assert_eq!(form.twitch_id, "abc");
    assert_eq!(form.youtube_id, "");

    state.update(Message::WindowOpened(20));
    let secondary = state.render_plan(20);
    assert!(!secondary.is_primary);
    assert!(secondary.is_main_screen);
    assert!(secondary.global_form.is_none());
    let primary_again = state.render_plan(10);
    assert!(primary_again.global_form.is_some());
}

#[test]
fn global_form_hidden_off_main_screen() {
    let (mut state, _) = MergeChat::new();
    state.update(Message::WindowOpened(10));
    state.update(Message::AboutPressed(10));
    let plan = state.render_plan(10);
    assert!(plan.is_primary);
    assert!(!plan.is_main_screen);
    assert_eq!(plan.content, Some(Screen::About));
    assert!(plan.global_form.is_none());
}

#[test]
fn render_plan_for_unknown_window_is_blank() {
    let (state, _) = MergeChat::new();
    let plan = state.render_plan(42);
    assert_eq!(plan.content, None);
    assert!(!plan.is_primary);
    assert!(!plan.is_main_screen);
    assert!(plan.global_form.is_none());
}

#[test]
fn primary_is_least_identifier() {
    let (mut state, _) = MergeChat::new();
    state.update(Message::WindowOpened(5));
    state.update(Message::WindowOpened(3));
    assert_eq!(state.windows.primary(), Some(3));
    assert!(!state.render_plan(5).is_primary);
    state.update(Message::WindowClosed(3));
    assert_eq!(state.windows.primary(), Some(5));
    assert!(state.render_plan(5).is_primary);
}

#[test]
fn back_resolves_first_in_key_order() {
    let (mut state, _) = MergeChat::new();
    state.update(Message::WindowOpened(2));
    state.update(Message::WindowOpened(5));
    state.update(Message::AboutPressed(2));
    state.update(Message::AboutPressed(5));
    state.update(Message::About(AboutMessage::Back));
    assert_eq!(state.windows.get(2).unwrap().current_screen, Screen::Main);
    assert_eq!(state.windows.get(5).unwrap().current_screen, Screen::About);
    assert_eq!(
        state.windows.get(5).unwrap().previous_screen,
        Some(Screen::Main)
    );
    state.update(Message::About(AboutMessage::Back));
    assert_eq!(state.windows.get(5).unwrap().current_screen, Screen::Main);
    assert_eq!(state.windows.get(5).unwrap().previous_screen, None);
}

#[test]
fn title_theme_and_scale_queries() {
    let (mut state, _) = MergeChat::new();
    state.update(Message::WindowOpened(8));
    assert_eq!(state.title(8), "new");
    assert_eq!(state.theme(8), Some(1));
    assert_eq!(state.scale_factor(8), 1000);
    assert_eq!(state.title(9), "");
    assert_eq!(state.theme(9), None);
    assert_eq!(state.scale_factor(9), 1000);
}

use merge_chat::about::{About, AboutMessage};
use merge_chat::chat::{Chat, ChatMessage};
use merge_chat::dispatch::{MergeChat, Message, Request};
use merge_chat::registry::Screen;
use merge_chat::settings::{Settings, SettingsMessage};

#[test]
fn new_emits_open_request() {
    let (state, request) = MergeChat::new();
    assert_eq!(request, Request::OpenMainWindow);
    assert!(state.windows.is_empty());
    assert_eq!(state.global_twitch_id, "");
    assert_eq!(state.global_youtube_id, "");
}

#[test]
fn window_opened_inserts_fresh_record() {
    let (mut state, _) = MergeChat::new();
    let request = state.update(Message::WindowOpened(7));
    assert_eq!(request, None);
    assert_eq!(state.windows.window_count(), 1);
    let window = state.windows.get(7).unwrap();
    assert_eq!(window.title, "new");
    assert_eq!(window.scale_milli, 1000);
    assert_eq!(window.theme, 1);
    assert_eq!(window.current_screen, Screen::Main);
    assert_eq!(window.previous_screen, None);
}

#[test]
fn reopening_same_id_overwrites() {
    let (mut state, _) = MergeChat::new();
    state.update(Message::WindowOpened(7));
    state.update(Message::AboutPressed(7));
    state.update(Message::WindowOpened(7));
    assert_eq!(state.windows.window_count(), 1);
    let window = state.windows.get(7).unwrap();
    assert_eq!(window.current_screen, Screen::Main);
    assert_eq!(window.previous_screen, None);
}

#[test]
fn closing_unknown_id_keeps_size() {
    let (mut state, _) = MergeChat::new();
    state.update(Message::WindowOpened(1));
    state.update(Message::WindowOpened(2));
    let request = state.update(Message::WindowClosed(9));
    assert_eq!(request, None);
    assert_eq!(state.windows.window_count(), 2);
}

#[test]
fn lifecycle_closure_counts() {
    let (mut state, _) = MergeChat::new();
    state.update(Message::WindowOpened(1));
    state.update(Message::WindowOpened(2));
    state.update(Message::WindowClosed(9));
    state.update(Message::WindowOpened(2));
    state.update(Message::WindowClosed(1));
    assert_eq!(state.windows.window_count(), 1);
    assert!(state.windows.get(2).is_some());
    assert!(state.windows.get(1).is_none());
}

#[test]
fn closing_last_window_requests_exit() {
    let (mut state, _) = MergeChat::new();
    state.update(Message::WindowOpened(5));
    let request = state.update(Message::WindowClosed(5));
    assert_eq!(request, Some(Request::Exit));
    assert!(state.windows.is_empty());
}

#[test]
fn closing_with_another_remaining_does_not_exit() {
    let (mut state, _) = MergeChat::new();
    state.update(Message::WindowOpened(1));
    state.update(Message::WindowOpened(2));
    let request = state.update(Message::WindowClosed(1));
    assert_eq!(request, None);
    assert_eq!(state.windows.window_count(), 1);
}

#[test]
fn about_back_round_trip() {
    let (mut state, _) = MergeChat::new();
    state.update(Message::WindowOpened(4));
    state.update(Message::AboutPressed(4));
    {
        let window = state.windows.get(4).unwrap();
        assert_eq!(window.current_screen, Screen::About);
        assert_eq!(window.previous_screen, Some(Screen::Main));
    }
    let request = state.update(Message::About(AboutMessage::Back));
    assert_eq!(request, None);
    let window = state.windows.get(4).unwrap();
    assert_eq!(window.current_screen, Screen::Main);
    assert_eq!(window.previous_screen, None);
}

#[test]
fn chat_back_round_trip() {
    let (mut state, _) = MergeChat::new();
    state.update(Message::WindowOpened(4));
    state.update(Message::ChatPressed(4));
    {
        let window = state.windows.get(4).unwrap();
        assert_eq!(window.current_screen, Screen::Chat);
        assert_eq!(window.previous_screen, Some(Screen::Main));
    }
    state.update(Message::Chat(ChatMessage::Back));
    let window = state.windows.get(4).unwrap();
    assert_eq!(window.current_screen, Screen::Main);
    assert_eq!(window.previous_screen, None);
}

#[test]
fn back_on_empty_history_is_noop() {
    let (mut state, _) = MergeChat::new();
    state.update(Message::WindowOpened(4));
    let request = state.update(Message::About(AboutMessage::Back));
    assert_eq!(request, None);
    assert_eq!(state.windows.window_count(), 1);
    let window = state.windows.get(4).unwrap();
    assert_eq!(window.current_screen, Screen::Main);
    assert_eq!(window.previous_screen, None);
}

#[test]
fn single_level_history_keeps_one_step() {
    let (mut state, _) = MergeChat::new();
    state.update(Message::WindowOpened(4));
    state.update(Message::AboutPressed(4));
    state.update(Message::ChatPressed(4));
    {
        let window = state.windows.get(4).unwrap();
        assert_eq!(window.current_screen, Screen::Chat);
        assert_eq!(window.previous_screen, Some(Screen::About));
    }
    state.update(Message::Chat(ChatMessage::Back));
    {
        let window = state.windows.get(4).unwrap();
        assert_eq!(window.current_screen, Screen::About);
        assert_ne!(window.current_screen, Screen::Main);
        assert_eq!(window.previous_screen, None);
    }
    let request = state.update(Message::Chat(ChatMessage::Back));
    assert_eq!(request, None);
    let window = state.windows.get(4).unwrap();
    assert_eq!(window.current_screen, Screen::About);
}

#[test]
fn navigating_unknown_window_is_noop() {
    let (mut state, _) = MergeChat::new();
    state.update(Message::WindowOpened(1));
    let request = state.update(Message::AboutPressed(99));
    assert_eq!(request, None);
    assert_eq!(state.windows.window_count(), 1);
    let window = state.windows.get(1).unwrap();
    assert_eq!(window.current_screen, Screen::Main);
}

#[test]
fn global_field_edits_overwrite() {
    let (mut state, _) = MergeChat::new();
    let request = state.update(Message::TwitchIdChanged(String::from("abc")));
    assert_eq!(request, None);
    state.update(Message::YoutubeIdChanged(String::from("yt")));
    assert_eq!(state.global_twitch_id, "abc");
    assert_eq!(state.global_youtube_id, "yt");
    state.update(Message::TwitchIdChanged(String::from("")));
    assert_eq!(state.global_twitch_id, "");
}

#[test]
fn sub_screen_reducers_emit_nothing() {
    assert_eq!(About::update(AboutMessage::Test), None);
    assert_eq!(About::update(AboutMessage::Back), None);
    assert_eq!(Chat::update(ChatMessage::Test), None);
    assert_eq!(Chat::update(ChatMessage::Back), None);
    let _settings = Settings::new();
    assert_eq!(Settings::update(SettingsMessage::Close), None);
    assert_eq!(Settings::update(SettingsMessage::CloseSettingsWindow(1)), None);
}

#[test]
fn open_requests_are_emitted() {
    let (mut state, _) = MergeChat::new();
    assert_eq!(state.update(Message::OpenWindow), Some(Request::OpenMainWindow));
    assert_eq!(
        state.update(Message::OpenSettingsWindow),
        Some(Request::OpenSettingsWindow)
    );
    assert!(state.windows.is_empty());
}

#[test]
fn settings_window_opens_on_settings_screen() {
    let (mut state, _) = MergeChat::new();
    let request = state.update(Message::SettingsWindowOpened(2));
    assert_eq!(request, None);
    let window = state.windows.get(2).unwrap();
    assert_eq!(window.title, "Settings");
    assert_eq!(window.current_screen, Screen::Settings);
    assert_eq!(window.previous_screen, None);
}

//! The message dispatcher: the single entry point that consumes one message
//! at a time against the whole application state and may emit a follow-up
//! request for the surrounding shell to perform.

use crate::about::{About, AboutMessage};
use crate::chat::{Chat, ChatMessage};
use crate::registry::{
    fresh_window, spec_back, spec_navigate, Registry, Screen, Window, WindowModel,
    FRESH_SCALE_MILLI,
};
use crate::settings::{Settings, SettingsMessage};
use vstd::prelude::*;
use vstd::string::StringExecFns;

verus! {

/// A follow-up request the dispatcher hands to its caller; the surrounding
/// shell performs it and feeds the outcome back in as a later message.
#[derive(Clone, Copy, Debug, PartialEq, Eq, Structural)]
pub enum Request {
    /// Ask the windowing service to open an ordinary window.
    OpenMainWindow,
    /// Ask the windowing service to open a settings window.
    OpenSettingsWindow,
    /// Ask the windowing service to close the given window.
    CloseWindow(u64),
    /// Terminate the process with success.
    Exit,
}

/// Every message the dispatcher consumes.  Window identifiers arrive from
/// the windowing service; the dispatcher never makes one up itself.
#[derive(Clone, Debug)]
pub enum Message {
    /// Ask for an ordinary window to be opened.
    OpenWindow,
    /// The windowing service confirmed an ordinary window under this id.
    WindowOpened(u64),
    /// The windowing service reported that this window was closed.
    WindowClosed(u64),
    /// Navigate the given window to the About screen.
    AboutPressed(u64),
    /// A message of the About screen.
    About(AboutMessage),
    /// Navigate the given window to the Chat screen.
    ChatPressed(u64),
    /// A message of the Chat screen.
    Chat(ChatMessage),
    /// Ask for a settings window to be opened.
    OpenSettingsWindow,
    /// The windowing service confirmed a settings window under this id.
    SettingsWindowOpened(u64),
    /// A message of the Settings screen.
    Settings(SettingsMessage),
    /// Overwrite the global Twitch identifier.
    TwitchIdChanged(String),
    /// Overwrite the global YouTube identifier.
    YoutubeIdChanged(String),
}

/// Mathematical value of the whole application state: the open windows and
/// the two global string fields.
#[verifier::ext_equal]
pub ghost struct StateModel {
    pub windows: Map<u64, WindowModel>,
    pub twitch_id: Seq<char>,
    pub youtube_id: Seq<char>,
}

/// One dispatcher step on the map level: the state after the message, and
/// the request the step emits, if any.  Lookups against absent window
/// identifiers degrade to no-ops; no message is ever an error.
pub open spec fn spec_update(s: StateModel, message: Message) -> (StateModel, Option<Request>) {
    match message {
        Message::OpenWindow => (s, Some(Request::OpenMainWindow)),
        Message::WindowOpened(id) => (
            StateModel {
                windows: s.windows.insert(id, fresh_window("new"@, Screen::Main)),
                ..s
            },
            None,
        ),
        Message::WindowClosed(id) => (
            StateModel { windows: s.windows.remove(id), ..s },
            if s.windows.remove(id).dom() =~= Set::<u64>::empty() {
                Some(Request::Exit)
            } else {
                None
            },
        ),
        Message::AboutPressed(id) => (
            StateModel { windows: spec_navigate(s.windows, id, Screen::About), ..s },
            None,
        ),
        Message::About(AboutMessage::Back) => (
            StateModel { windows: spec_back(s.windows, Screen::About), ..s },
            None,
        ),
        Message::About(_) => (s, None),
        Message::ChatPressed(id) => (
            StateModel { windows: spec_navigate(s.windows, id, Screen::Chat), ..s },
            None,
        ),
        Message::Chat(ChatMessage::Back) => (
            StateModel { windows: spec_back(s.windows, Screen::Chat), ..s },
            None,
        ),
        Message::Chat(_) => (s, None),
        Message::OpenSettingsWindow => (s, Some(Request::OpenSettingsWindow)),
        Message::SettingsWindowOpened(id) => (
            StateModel {
                windows: s.windows.insert(id, fresh_window("Settings"@, Screen::Settings)),
                ..s
            },
            None,
        ),
        Message::Settings(SettingsMessage::CloseSettingsWindow(id)) => (
            StateModel { windows: s.windows.remove(id), ..s },
            Some(Request::CloseWindow(id)),
        ),
        Message::Settings(_) => (s, None),
        Message::TwitchIdChanged(value) => (StateModel { twitch_id: value@, ..s }, None),
        Message::YoutubeIdChanged(value) => (StateModel { youtube_id: value@, ..s }, None),
    }
}

/// The whole application state: every open window plus the two global
/// string fields, owned by the process rather than any one window.
pub struct MergeChat {
    pub windows: Registry,
    pub global_twitch_id: String,
    pub global_youtube_id: String,
}

impl MergeChat {
    /// The state as a mathematical value.
    pub open spec fn model(&self) -> StateModel {
        StateModel {
            windows: self.windows.as_map(),
            twitch_id: self.global_twitch_id@,
            youtube_id: self.global_youtube_id@,
        }
    }

    /// Well-formedness of the whole state.
    pub open spec fn wf(&self) -> bool {
        self.windows.wf()
    }

    /// A fresh session: no windows, empty global fields, and a request to
    /// open the first ordinary window.
    pub fn new() -> (r: (MergeChat, Request))
        ensures
            r.0.wf(),
            r.0.model().windows =~= Map::<u64, WindowModel>::empty(),
            r.0.model().twitch_id == Seq::<char>::empty(),
            r.0.model().youtube_id == Seq::<char>::empty(),
            r.1 == Request::OpenMainWindow,
    {
        let state = MergeChat {
            windows: Registry::new(),
            global_twitch_id: String::new(),
            global_youtube_id: String::new(),
        };
        (state, Request::OpenMainWindow)
    }

    /// Apply one message to the state; the result is the request the
    /// surrounding shell must perform, if any.  This is the only operation
    /// that mutates the state, and it is applied strictly sequentially.
    pub fn update(&mut self, message: Message) -> (r: Option<Request>)
        requires
            old(self).wf(),
        ensures
            final(self).wf(),
            final(self).model() =~= spec_update(old(self).model(), message).0,
            r == spec_update(old(self).model(), message).1,
    {
        match message {
            Message::OpenWindow => Some(Request::OpenMainWindow),
            Message::WindowOpened(id) => {
                let window = Window::new(String::from_str("new"), Screen::Main);
                self.windows.insert(id, window);
                None
            },
            Message::WindowClosed(id) => {
                let now_empty = self.windows.remove(id);
                if now_empty {
                    Some(Request::Exit)
                } else {
                    None
                }
            },
            Message::AboutPressed(id) => {
                self.windows.navigate_to(id, Screen::About);
                None
            },
            Message::About(about_message) => match about_message {
                AboutMessage::Back => {
                    self.windows.back(Screen::About);
                    None
                },
                other => About::update(other),
            },
            Message::ChatPressed(id) => {
                self.windows.navigate_to(id, Screen::Chat);
                None
            },
            Message::Chat(chat_message) => match chat_message {
                ChatMessage::Back => {
                    self.windows.back(Screen::Chat);
                    None
                },
                other => Chat::update(other),
            },
            Message::OpenSettingsWindow => Some(Request::OpenSettingsWindow),
            Message::SettingsWindowOpened(id) => {
                let window = Window::new(String::from_str("Settings"), Screen::Settings);
                self.windows.insert(id, window);
                None
            },
            Message::Settings(settings_message) => match settings_message {
                SettingsMessage::CloseSettingsWindow(id) => {
                    let _now_empty = self.windows.remove(id);
                    Some(Request::CloseWindow(id))
                },
                other => Settings::update(other),
            },
            Message::TwitchIdChanged(value) => {
                self.global_twitch_id = value;
                None
            },
            Message::YoutubeIdChanged(value) => {
                self.global_youtube_id = value;
                None
            },
        }
    }

    /// The title of the given window, or the empty string for an unknown
    /// identifier.
    pub fn title(&self, window_id: u64) -> (t: String)
        requires
            self.wf(),
        ensures
            t@ == if self.model().windows.dom().contains(window_id) {
                self.model().windows[window_id].title
            } else {
                Seq::<char>::empty()
            },
    {
        match self.windows.get(window_id) {
            Some(w) => w.title.clone(),
            None => String::new(),
        }
    }

    /// The palette index of the given window's theme; an unknown identifier
    /// has none, and the presentation layer falls back to its default.
    pub fn theme(&self, window_id: u64) -> (t: Option<u64>)
        requires
            self.wf(),
        ensures
            t == if self.model().windows.dom().contains(window_id) {
                Some(self.model().windows[window_id].theme)
            } else {
                None::<u64>
            },
    {
        match self.windows.get(window_id) {
            Some(w) => Some(w.theme),
            None => None,
        }
    }

    /// The scale factor of the given window in thousandths; an unknown
    /// identifier gets the default scale.
    pub fn scale_factor(&self, window_id: u64) -> (s: u64)
        requires
            self.wf(),
        ensures
            s == if self.model().windows.dom().contains(window_id) {
                self.model().windows[window_id].scale_milli
            } else {
                FRESH_SCALE_MILLI
            },
    {
        match self.windows.get(window_id) {
            Some(w) => w.scale_milli,
            None => FRESH_SCALE_MILLI,
        }
    }
}

/// `id` is the primary window: the least identifier in the registry.
pub open spec fn is_primary_id(m: Map<u64, WindowModel>, id: u64) -> bool {
    &&& m.dom().contains(id)
    &&& forall|j: u64| #[trigger] m.dom().contains(j) ==> id <= j
}

/// The global configuration section rendered on the primary window.
#[derive(Debug)]
pub struct GlobalForm {
    pub twitch_id: String,
    pub youtube_id: String,
}

/// Everything the rendering boundary consumes for one window: which screen
/// to draw, whether the window is primary and on the main screen, and the
/// global fields exactly when both hold.  The produced widget tree itself is
/// outside the library.
#[derive(Debug)]
pub struct RenderPlan {
    pub content: Option<Screen>,
    pub is_primary: bool,
    pub is_main_screen: bool,
    pub global_form: Option<GlobalForm>,
}

impl MergeChat {
    /// What the given window must render.  The global configuration section
    /// is handed out for the primary window on its main screen and for no
    /// other window.
    pub fn render_plan(&self, window_id: u64) -> (r: RenderPlan)
        requires
            self.wf(),
        ensures
            r.content == if self.model().windows.dom().contains(window_id) {
                Some(self.model().windows[window_id].current_screen)
            } else {
                None::<Screen>
            },
            r.is_primary == is_primary_id(self.model().windows, window_id),
            r.is_main_screen == (self.model().windows.dom().contains(window_id)
                && self.model().windows[window_id].current_screen == Screen::Main),
            match r.global_form {
                Some(form) => r.is_primary && r.is_main_screen && form.twitch_id@
                    == self.model().twitch_id && form.youtube_id@ == self.model().youtube_id,
                None => !(r.is_primary && r.is_main_screen),
            },
    {
        let is_primary = match self.windows.primary() {
            Some(least) => {
                proof {
                    let m = self.model().windows;
                    if m.dom().contains(window_id) && least != window_id {
                        assert(is_primary_id(m, window_id) ==> window_id <= least);
                    }
                }
                least == window_id
            },
            None => false,
        };
        let (content, is_main_screen) = match self.windows.get(window_id) {
            Some(w) => (Some(w.current_screen), matches!(w.current_screen, Screen::Main)),
            None => (None, false),
        };
        let global_form = if is_primary && is_main_screen {
            Some(
                GlobalForm {
                    twitch_id: self.global_twitch_id.clone(),
                    youtube_id: self.global_youtube_id.clone(),
                },
            )
        } else {
            None
        };
        RenderPlan { content, is_primary, is_main_screen, global_form }
    }
}

} // verus!

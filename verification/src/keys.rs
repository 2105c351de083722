//! What the user asks for: keys, media keys and the desktop's controls.
use crate::app::{became, did, no_effects, App, Effect};
use crate::model::{quiet, AppModel, Step, ViewMode, SEEK_STEP, VOLUME_STEP};
use vstd::prelude::*;

verus! {

/// A key for media on a keyboard.
#[derive(Clone, Copy, PartialEq, Eq, Structural)]
pub enum MediaKey {
    Play,
    Pause,
    PlayPause,
    TrackNext,
    TrackPrevious,
    Stop,
    Other,
}

/// A key of the keyboard.
#[derive(Clone, Copy, PartialEq, Eq, Structural)]
pub enum KeyCode {
    Char(char),
    Esc,
    Enter,
    Backspace,
    Up,
    Down,
    Left,
    Right,
    Media(MediaKey),
    Other,
}

/// A key that was pressed, and whether the shift key was held.
#[derive(Clone, Copy, PartialEq, Eq, Structural)]
pub struct KeyEvent {
    pub code: KeyCode,
    pub shift: bool,
}

/// What the desktop's controls ask for.
#[derive(Clone, Copy, PartialEq, Eq, Structural)]
pub enum MediaEvent {
    Play,
    Pause,
    Toggle,
    Next,
    Previous,
    Stop,
    Other,
}

/// What the player does for the desktop's controls.
#[derive(Clone, Copy, PartialEq, Eq, Structural, Debug)]
pub enum AppAction {
    TogglePause,
    Next,
    Prev,
    Stop,
}

/// What the player does for an event of the desktop's controls.
pub open spec fn action_for(event: MediaEvent) -> Option<AppAction> {
    match event {
        MediaEvent::Play | MediaEvent::Pause | MediaEvent::Toggle => Some(AppAction::TogglePause),
        MediaEvent::Next => Some(AppAction::Next),
        MediaEvent::Previous => Some(AppAction::Prev),
        MediaEvent::Stop => Some(AppAction::Stop),
        MediaEvent::Other => None,
    }
}

/// What the player does for an event of the desktop's controls.
pub fn action_of(event: MediaEvent) -> (r: Option<AppAction>)
    ensures
        r == action_for(event),
{
    match event {
        MediaEvent::Play | MediaEvent::Pause | MediaEvent::Toggle => Some(AppAction::TogglePause),
        MediaEvent::Next => Some(AppAction::Next),
        MediaEvent::Previous => Some(AppAction::Prev),
        MediaEvent::Stop => Some(AppAction::Stop),
        MediaEvent::Other => None,
    }
}

impl AppModel {
    /// An action for the desktop's controls.
    pub open spec fn acted(self, action: AppAction) -> Step {
        match action {
            AppAction::TogglePause => self.pause_toggled(),
            AppAction::Next => self.next_played(),
            AppAction::Prev => self.previous_played(),
            AppAction::Stop => self.stopped(),
        }
    }

    /// A key while the player asks whether to quit: `y` says yes, and `n`, `q` and the escape
    /// key say no.
    pub open spec fn popup_key(self, code: KeyCode) -> AppModel {
        match code {
            KeyCode::Char(c) => if c == 'y' || c == 'Y' {
                AppModel { should_quit: true, ..self }
            } else if c == 'n' || c == 'N' || c == 'q' {
                AppModel { show_quit_popup: false, ..self }
            } else {
                self
            },
            KeyCode::Esc => AppModel { show_quit_popup: false, ..self },
            _ => self,
        }
    }

    /// A key while the user types a search.
    pub open spec fn search_key(self, code: KeyCode) -> AppModel {
        match code {
            KeyCode::Esc => AppModel { is_searching: false, search_query: Seq::empty(), ..self },
            KeyCode::Enter => AppModel { is_searching: false, ..self },
            KeyCode::Backspace => (AppModel {
                search_query: if self.search_query.len() > 0 {
                    self.search_query.drop_last()
                } else {
                    self.search_query
                },
                ..self
            }).search_updated(),
            KeyCode::Char(c) => (AppModel { search_query: self.search_query.push(c), ..self }).search_updated(),
            _ => self,
        }
    }

    /// A media key.
    pub open spec fn media_key(self, key: MediaKey) -> Step {
        match key {
            MediaKey::Play | MediaKey::Pause | MediaKey::PlayPause => self.pause_toggled(),
            MediaKey::TrackNext => self.next_played(),
            MediaKey::TrackPrevious => self.previous_played(),
            MediaKey::Stop => self.stopped(),
            MediaKey::Other => quiet(self),
        }
    }

    /// A character key.
    pub open spec fn char_key(self, c: char) -> Step {
        if c == 'q' {
            quiet(AppModel { show_quit_popup: true, ..self })
        } else if c == '1' {
            quiet(AppModel { mode: ViewMode::Files, ..self })
        } else if c == '2' {
            quiet(AppModel { mode: ViewMode::Queue, ..self })
        } else if c == '3' {
            quiet(AppModel { mode: ViewMode::Zen, ..self })
        } else if c == '/' {
            if self.mode == ViewMode::Files {
                quiet(AppModel { is_searching: true, search_query: Seq::empty(), ..self })
            } else {
                quiet(self)
            }
        } else if c == 'J' {
            quiet(self.queue_moved_down())
        } else if c == 'K' {
            quiet(self.queue_moved_up())
        } else if c == 'a' {
            quiet(self.selected_added())
        } else if c == 'd' {
            quiet(self.selected_removed())
        } else if c == 'j' {
            quiet(self.moved_down())
        } else if c == 'k' {
            quiet(self.moved_up())
        } else if c == 'l' {
            self.entered()
        } else if c == 'h' {
            self.parent_entered()
        } else if c == ' ' {
            self.pause_toggled()
        } else if c == 's' {
            self.stopped()
        } else if c == 'n' {
            self.next_played()
        } else if c == 'p' {
            self.previous_played()
        } else if c == '+' || c == '=' {
            self.volume_changed(VOLUME_STEP as int)
        } else if c == '-' || c == '_' {
            self.volume_changed(-VOLUME_STEP)
        } else {
            quiet(self)
        }
    }

    /// A key while the player neither asks nor searches.
    pub open spec fn plain_key(self, key: KeyEvent) -> Step {
        match key.code {
            KeyCode::Char(c) => self.char_key(c),
            KeyCode::Esc => quiet(AppModel { show_quit_popup: true, ..self }),
            KeyCode::Media(m) => self.media_key(m),
            KeyCode::Down => quiet(self.moved_down()),
            KeyCode::Up => quiet(self.moved_up()),
            KeyCode::Enter => self.entered(),
            KeyCode::Right => if key.shift {
                self.next_played()
            } else {
                quiet(self.seek_asked(SEEK_STEP as int))
            },
            KeyCode::Left => if key.shift {
                self.previous_played()
            } else {
                quiet(self.seek_asked(-SEEK_STEP))
            },
            KeyCode::Backspace | KeyCode::Other => quiet(self),
        }
    }

    /// A key.
    pub open spec fn key_pressed(self, key: KeyEvent) -> Step {
        if self.show_quit_popup {
            quiet(self.popup_key(key.code))
        } else if self.is_searching {
            quiet(self.search_key(key.code))
        } else {
            self.plain_key(key)
        }
    }
}

impl App {
    /// Does what the desktop's controls asked for first, of what is still to be done, and gives
    /// the effects; nothing where nothing is to be done. The effects come before the next call.
    pub fn process_external_actions(&mut self, pending: &mut Vec<AppAction>) -> (r: Option<Vec<Effect>>)
        requires
            old(self)@.wf(),
        ensures
            r is Some <==> old(pending)@.len() > 0,
            r is None ==> *final(self) == *old(self) && final(pending)@ == old(pending)@,
            r matches Some(effects) ==> {
                &&& final(pending)@ == old(pending)@.drop_first()
                &&& did(*old(self), *final(self), effects@, old(self)@.acted(old(pending)@[0]))
            },
    {
        if pending.len() == 0 {
            return None;
        }
        let action: AppAction = pending.remove(0);
        assert(pending@ =~= old(pending)@.drop_first());
        Some(self.process_external_action(action))
    }

    /// Does one thing that the desktop's controls ask for.
    pub fn process_external_action(&mut self, action: AppAction) -> (r: Vec<Effect>)
        requires
            old(self)@.wf(),
        ensures
            did(*old(self), *final(self), r@, old(self)@.acted(action)),
    {
        match action {
            AppAction::TogglePause => self.toggle_pause(),
            AppAction::Next => self.play_next(),
            AppAction::Prev => self.play_prev(),
            AppAction::Stop => self.stop(),
        }
    }

    /// A key while the player asks whether to quit.
    fn handle_popup_key(&mut self, code: KeyCode)
        requires
            old(self)@.wf(),
        ensures
            became(*old(self), *final(self), old(self)@.popup_key(code)),
    {
        match code {
            KeyCode::Char(c) => {
                if c == 'y' || c == 'Y' {
                    self.should_quit = true;
                } else if c == 'n' || c == 'N' || c == 'q' {
                    self.show_quit_popup = false;
                }
            },
            KeyCode::Esc => {
                self.show_quit_popup = false;
            },
            _ => {},
        }
    }

    /// A key while the user types a search.
    fn handle_search_key(&mut self, code: KeyCode)
        requires
            old(self)@.wf(),
        ensures
            became(*old(self), *final(self), old(self)@.search_key(code)),
    {
        match code {
            KeyCode::Esc => {
                self.is_searching = false;
                self.search_query = String::new();
            },
            KeyCode::Enter => {
                self.is_searching = false;
            },
            KeyCode::Backspace => {
                let _ = self.search_query.pop();
                self.update_search_selection();
            },
            KeyCode::Char(c) => {
                self.search_query.push(c);
                self.update_search_selection();
            },
            _ => {},
        }
    }

    /// A media key.
    fn handle_media_key(&mut self, key: MediaKey) -> (r: Vec<Effect>)
        requires
            old(self)@.wf(),
        ensures
            did(*old(self), *final(self), r@, old(self)@.media_key(key)),
    {
        match key {
            MediaKey::Play | MediaKey::Pause | MediaKey::PlayPause => self.toggle_pause(),
            MediaKey::TrackNext => self.play_next(),
            MediaKey::TrackPrevious => self.play_prev(),
            MediaKey::Stop => self.stop(),
            MediaKey::Other => no_effects(),
        }
    }

    /// A character key.
    fn handle_char_key(&mut self, c: char) -> (r: Vec<Effect>)
        requires
            old(self)@.wf(),
        ensures
            did(*old(self), *final(self), r@, old(self)@.char_key(c)),
    {
        if c == 'q' {
            self.show_quit_popup = true;
        } else if c == '1' {
            self.mode = ViewMode::Files;
        } else if c == '2' {
            self.mode = ViewMode::Queue;
        } else if c == '3' {
            self.mode = ViewMode::Zen;
        } else if c == '/' {
            if self.mode == ViewMode::Files {
                self.is_searching = true;
                self.search_query = String::new();
            }
        } else if c == 'J' {
            self.queue_move_down();
        } else if c == 'K' {
            self.queue_move_up();
        } else if c == 'a' {
            self.add_selected_to_queue();
        } else if c == 'd' {
            self.remove_from_queue();
        } else if c == 'j' {
            self.move_down();
        } else if c == 'k' {
            self.move_up();
        } else if c == 'l' {
            return self.enter_selected();
        } else if c == 'h' {
            return self.go_parent();
        } else if c == ' ' {
            return self.toggle_pause();
        } else if c == 's' {
            return self.stop();
        } else if c == 'n' {
            return self.play_next();
        } else if c == 'p' {
            return self.play_prev();
        } else if c == '+' || c == '=' {
            return self.volume_up();
        } else if c == '-' || c == '_' {
            return self.volume_down();
        }
        no_effects()
    }

    /// Does what a key that was pressed asks for.
    pub fn handle_key(&mut self, key: KeyEvent) -> (r: Vec<Effect>)
        requires
            old(self)@.wf(),
        ensures
            did(*old(self), *final(self), r@, old(self)@.key_pressed(key)),
    {
        if self.show_quit_popup {
            self.handle_popup_key(key.code);
            return no_effects();
        }
        if self.is_searching {
            self.handle_search_key(key.code);
            return no_effects();
        }
        match key.code {
            KeyCode::Char(c) => {
                return self.handle_char_key(c);
            },
            KeyCode::Esc => {
                self.show_quit_popup = true;
            },
            KeyCode::Media(m) => {
                return self.handle_media_key(m);
            },
            KeyCode::Down => {
                self.move_down();
            },
            KeyCode::Up => {
                self.move_up();
            },
            KeyCode::Enter => {
                return self.enter_selected();
            },
            KeyCode::Right => {
                if key.shift {
                    return self.play_next();
                }
                self.seek_forward();
            },
            KeyCode::Left => {
                if key.shift {
                    return self.play_prev();
                }
                self.seek_backward();
            },
            KeyCode::Backspace | KeyCode::Other => {},
        }
        no_effects()
    }
}

}

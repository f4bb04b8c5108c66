//! Key handling: what a key press does to the application state, and what
//! it asks the interface to do besides (start playing, write a file, hand
//! the key to the note editor, ...).
//!
//! The keys match on the key code alone, as the terminal reports it; the
//! interface drops key releases before they get here.
use vstd::prelude::*;
use crate::app::{lit, text2, with_number, is_current, App, EditFocus, Mode, PlaybackStart, SettingsSection};
use crate::hotkeys::{default_hotkeys, spec_from_crossterm, spec_from_term, HotkeyConfig, TermKey, TermKeyCode};
use crate::audio::AudioMsg;
use crate::hotkeys::HotkeyCmd;
use crate::notifications::{access_error, finished, playing, stopped, Notice, NotificationConfig};
use crate::parser::{key_events, key_spans, key_tokens, span_of, parse, parse_accepts, parse_pitches, pitch_events, pitch_tokens, PitchEvent};
use crate::player::PlayerMsg;
use crate::processes::{allow_spec, mode_from, ProcessMode};
use crate::text::{append_chars, chars_of, decimal, decimal_of, string_of};
use crate::storage::Bookmark;
use crate::text::{pop_char, push_char, trim};

verus! {

/// What a key press asks of the interface, besides the change of state.
pub enum Effect<D> {
    /// Nothing more.
    Nothing,
    /// Play the loaded melody (see [`App::start_playback`]).
    StartPlayback,
    /// Play the hovered melody as sound (see [`App::start_audio`]).
    StartAudio,
    /// Change the volume by a tenth: up (`true`) or down.
    Volume(bool),
    /// Save the edit window: hand its notes and pauses to [`App::commit_edit`].
    CommitEdit,
    /// Give the key to the note editor.
    EditNotes,
    /// Move the active pause by a thousandth: up (`true`) or down.
    NudgeDelay(bool),
    /// Fill the note editor and the pause fields from the hovered melody.
    FillEditor,
    /// Empty the note editor.
    ClearEditor,
    /// Write this melody's file, then report with [`App::store_saved`].
    Save(Bookmark<D>),
    /// Delete the file of the melody of this name.
    DeleteFile(String),
    /// Save the bindings, then report with [`App::report_hotkeys`]
    /// (`true`: after a reset).
    SaveHotkeys(bool),
    /// Save the configuration.
    SaveConfig,
    /// Raise the stop flag: the key player and the sound test stop.
    RaiseStop,
}

/// Up, or `k`.
pub open spec fn is_up(k: TermKey) -> bool {
    k.code == TermKeyCode::Up || k.code == TermKeyCode::Char('k')
}

/// Down, or `j`.
pub open spec fn is_down(k: TermKey) -> bool {
    k.code == TermKeyCode::Down || k.code == TermKeyCode::Char('j')
}

fn up_key(k: TermKey) -> (r: bool)
    ensures
        r == is_up(k),
{
    match k.code {
        TermKeyCode::Up => true,
        TermKeyCode::Char(c) => c == 'k',
        _ => false,
    }
}

fn down_key(k: TermKey) -> (r: bool)
    ensures
        r == is_down(k),
{
    match k.code {
        TermKeyCode::Down => true,
        TermKeyCode::Char(c) => c == 'j',
        _ => false,
    }
}

impl<D> App<D> {
    /// The state with the one-line input replaced.
    pub open spec fn with_input(self, input: String) -> App<D> {
        App { input: input, ..self }
    }

    /// `r` is this state after loading the melody at `idx` (nothing when
    /// there is none).
    pub open spec fn loaded(self, idx: int, r: App<D>) -> bool {
        if idx < self.bookmarks@.len() {
            &&& r == self.after_load(idx, r.status)
            &&& r.status@ == "Заряжено (играет старт): "@ + self.bookmarks@[idx].name@
        } else {
            r == self
        }
    }

    /// `r` is this state after opening the edit window on the hovered melody.
    pub open spec fn edit_opened(self, r: App<D>) -> bool {
        if self.hovered() is Some {
            r == self.after_begin_edit()
        } else {
            &&& r == self.with_status(r.status)
            &&& r.status@ == "Нет закладки для правки."@
        }
    }

    /// A key in the melody list: `r` is the new state and `e` what the
    /// interface has to do.
    pub open spec fn normal_step(self, k: TermKey, r: App<D>, e: Effect<D>) -> bool {
        match k.code {
            TermKeyCode::Up => e is Nothing && r == self.after_select_prev(),
            TermKeyCode::Down => e is Nothing && r == self.after_select_next(),
            TermKeyCode::Enter => e is Nothing && match self.selected {
                Some(i) => self.loaded(i as int, r),
                None => r == self,
            },
            TermKeyCode::Char(c) => if c == 'q' {
                e is Nothing && r == (App { should_quit: true, ..self })
            } else if c == 'k' {
                e is Nothing && r == self.after_select_prev()
            } else if c == 'j' {
                e is Nothing && r == self.after_select_next()
            } else if c == 'a' {
                e is Nothing && r == self.with_input(r.input).with_mode(Mode::AddName)
                    && r.input@.len() == 0
            } else if c == 'e' {
                self.edit_opened(r) && (if self.hovered() is Some {
                    e is FillEditor
                } else {
                    e is Nothing
                })
            } else if c == 's' {
                e is Nothing && r == (App {
                    settings_selected: 0,
                    settings_inside: false,
                    mode: Mode::Settings,
                    ..self
                })
            } else if c == 'S' {
                &&& e is Nothing
                &&& r == self.with_input(r.input).with_mode(Mode::SaveBookmark)
                &&& r.input@ == (match self.hovered() {
                    Some(b) => b.name@,
                    None => Seq::<char>::empty(),
                })
            } else if c == 'd' {
                e is Nothing && r == (if self.selected is Some {
                    self.with_mode(Mode::ConfirmDelete)
                } else {
                    self
                })
            } else if c == 'p' {
                e is StartPlayback && r == self
            } else if c == 't' || c == 'T' {
                e is StartAudio && r == self
            } else if c == 'u' || c == 'U' {
                &&& e is Nothing
                &&& r == self.with_status(r.status).with_focus(!self.focused)
                &&& r.status@ == (if !self.focused {
                    "FOCUSED — старт-хоткей активен."@
                } else {
                    "UNFOCUSED — старт-хоткей отключён (стоп работает)."@
                })
            } else if c == '+' || c == '=' {
                e == Effect::<D>::Volume(true) && r == self
            } else if c == '-' || c == '_' {
                e == Effect::<D>::Volume(false) && r == self
            } else {
                e is Nothing && r == self
            },
            _ => e is Nothing && r == self,
        }
    }

    /// Typing into the one-line input: a character is appended, Backspace
    /// removes the last one; `true` when the key is one of these.
    pub open spec fn typed(self, k: TermKey, r: App<D>) -> bool {
        match k.code {
            TermKeyCode::Char(c) => r == self.with_input(r.input) && r.input@ == self.input@.push(c),
            TermKeyCode::Backspace => r == self.with_input(r.input) && r.input@ == (if self.input@.len() > 0 {
                self.input@.drop_last()
            } else {
                self.input@
            }),
            _ => false,
        }
    }

    /// A key while typing the name of a new melody.
    pub open spec fn add_name_step(self, k: TermKey, r: App<D>, e: Effect<D>) -> bool {
        match k.code {
            TermKeyCode::Char(_) | TermKeyCode::Backspace => e is Nothing && self.typed(k, r),
            TermKeyCode::Enter => if trim(self.input@).len() == 0 {
                &&& e is Nothing
                &&& r == self.with_status(r.status).with_mode(Mode::Normal)
                &&& r.status@ == "Имя не может быть пустым"@
            } else {
                &&& e is ClearEditor
                &&& r == self.after_begin_create(r)
                &&& r.input@ == trim(self.input@)
                &&& r.input_keys@ == "0.110"@
                &&& r.input_lines@ == "0.110"@
                &&& r.creating matches Some(c) && c@ == trim(self.input@)
            },
            TermKeyCode::Esc => e is Nothing && r == self.with_mode(Mode::Normal),
            _ => e is Nothing && r == self,
        }
    }

    /// A key while typing the name to save the hovered melody under.
    pub open spec fn save_input_step(self, k: TermKey, r: App<D>, e: Effect<D>) -> bool {
        match k.code {
            TermKeyCode::Char(_) | TermKeyCode::Backspace => e is Nothing && self.typed(k, r),
            TermKeyCode::Enter => if self.hovered() is None {
                &&& e is Nothing
                &&& r == self.with_status(r.status).with_mode(Mode::Normal)
                &&& r.status@ == "Нет закладки для сохранения."@
            } else if trim(self.input@).len() == 0 {
                &&& e is Nothing
                &&& r == self.with_status(r.status).with_mode(Mode::Normal)
                &&& r.status@ == "Имя закладки не может быть пустым"@
            } else {
                &&& r == self.with_mode(Mode::Normal)
                &&& e matches Effect::Save(b) && crate::app::renamed_copy(b, self.hovered()->0, trim(self.input@))
            },
            TermKeyCode::Esc => e is Nothing && r == self.with_mode(Mode::Normal),
            _ => e is Nothing && r == self,
        }
    }

    /// A key while confirming a deletion.
    pub open spec fn confirm_delete_step(self, k: TermKey, r: App<D>, e: Effect<D>) -> bool {
        match k.code {
            TermKeyCode::Char(c) => if c == 'y' || c == 'Y' {
                match self.hovered() {
                    None => e is Nothing && r == self.with_mode(Mode::Normal),
                    Some(b) => {
                        &&& e matches Effect::DeleteFile(n) && n == b.name
                        &&& r.mode == Mode::Normal
                        &&& self.is_after_delete(App { mode: self.mode, ..r })
                    },
                }
            } else if c == 'n' || c == 'N' {
                e is Nothing && r == self.with_mode(Mode::Normal)
            } else {
                e is Nothing && r == self
            },
            TermKeyCode::Esc => e is Nothing && r == self.with_mode(Mode::Normal),
            _ => e is Nothing && r == self,
        }
    }
}


/// Right or Enter.
pub open spec fn is_enter(k: TermKey) -> bool {
    k.code == TermKeyCode::Right || k.code == TermKeyCode::Enter
}

/// Left or Esc.
pub open spec fn is_back(k: TermKey) -> bool {
    k.code == TermKeyCode::Left || k.code == TermKeyCode::Esc
}

/// A character typed into a pause field: a digit, `.` or `,`.
pub open spec fn is_delay_char(c: char) -> bool {
    ('0' <= c && c <= '9') || c == '.' || c == ','
}

/// The switches after Enter on item `item` of the notification section:
/// item 0 is the master switch; items 1 to 4 (playing, stopped, finished,
/// error) flip only while notifications are on.
pub open spec fn toggled_item(n: NotificationConfig, item: usize) -> NotificationConfig {
    if item == 0 {
        n.spec_toggle_global()
    } else if item == 1 && n.enabled {
        n.spec_toggle_playing()
    } else if item == 2 && n.enabled {
        n.spec_toggle_stopped()
    } else if item == 3 && n.enabled {
        n.spec_toggle_finished()
    } else if item == 4 && n.enabled {
        n.spec_toggle_error()
    } else {
        n
    }
}

/// The item above (stopping at the first).
pub open spec fn item_up(item: usize) -> usize {
    if item > 0 { (item - 1) as usize } else { item }
}

/// The item below, up to `max`.
pub open spec fn item_down(item: usize, max: usize) -> usize {
    if item < max { (item + 1) as usize } else { item }
}

impl<D> App<D> {
    /// The state with the settings cursor moved.
    pub open spec fn with_settings(self, selected: usize, inside: bool, item: usize) -> App<D> {
        App { settings_selected: selected, settings_inside: inside, settings_item: item, ..self }
    }

    /// A key in the list of settings sections.
    pub open spec fn sections_step(self, k: TermKey, r: App<D>, e: Effect<D>) -> bool {
        let sel = self.settings_selected;
        &&& e is Nothing
        &&& r == (if is_up(k) {
            self.with_settings(item_up(sel), false, self.settings_item)
        } else if is_down(k) {
            self.with_settings(item_down(sel, 1), false, self.settings_item)
        } else if is_enter(k) {
            self.with_settings(sel, true, self.settings_item)
        } else if k.code == TermKeyCode::Esc {
            self.with_mode(Mode::Normal)
        } else {
            self
        })
    }

    /// A key inside the hotkey section: Ctrl+Backspace resets the bindings,
    /// Enter starts capturing the start (item 0) or stop (item 1) binding.
    pub open spec fn hotkeys_step(self, k: TermKey, r: App<D>, e: Effect<D>) -> bool {
        let item = self.settings_item;
        if k.code == TermKeyCode::Backspace && k.ctrl {
            e == Effect::<D>::SaveHotkeys(true) && r == self.with_hotkeys(default_hotkeys())
        } else if is_up(k) {
            e is Nothing && r == self.with_settings(self.settings_selected, true, item_up(item))
        } else if is_down(k) {
            e is Nothing && r == self.with_settings(self.settings_selected, true, item_down(item, 1))
        } else if is_enter(k) {
            &&& e is Nothing
            &&& r == self.with_status(r.status).with_mode(
                if item == 0 { Mode::CaptureStart } else { Mode::CaptureStop },
            )
            &&& r.status@ == (if item == 0 {
                "Нажмите новую комбинацию для СТАРТА (Esc — отмена)."@
            } else {
                "Нажмите новую комбинацию для СТОПА (Esc — отмена)."@
            })
        } else if is_back(k) {
            e is Nothing && r == self.with_settings(self.settings_selected, false, 0)
        } else {
            e is Nothing && r == self
        }
    }

    /// A key inside the notification section: Enter or Space flips the
    /// item's switch and asks to save the configuration.
    pub open spec fn notifications_step(self, k: TermKey, r: App<D>, e: Effect<D>) -> bool {
        let item = self.settings_item;
        if is_up(k) {
            e is Nothing && r == self.with_settings(self.settings_selected, true, item_up(item))
        } else if is_down(k) {
            e is Nothing && r == self.with_settings(self.settings_selected, true, item_down(item, 4))
        } else if k.code == TermKeyCode::Enter || k.code == TermKeyCode::Char(' ') {
            e is SaveConfig && r == (App { notif_config: toggled_item(self.notif_config, item), ..self })
        } else if is_back(k) {
            e is Nothing && r == self.with_settings(self.settings_selected, false, 0)
        } else {
            e is Nothing && r == self
        }
    }

    /// A key in the settings menu.
    pub open spec fn settings_step(self, k: TermKey, r: App<D>, e: Effect<D>) -> bool {
        if !self.settings_inside {
            self.sections_step(k, r, e)
        } else if self.settings_selected == 0 {
            self.hotkeys_step(k, r, e)
        } else {
            self.notifications_step(k, r, e)
        }
    }

    /// A key while capturing a binding: Esc cancels, a key the listener
    /// knows becomes the new binding, any other is refused.
    pub open spec fn capture_step(self, k: TermKey, r: App<D>, e: Effect<D>) -> bool {
        if k.code == TermKeyCode::Esc {
            &&& e is Nothing
            &&& r == self.with_status(r.status).with_mode(Mode::Settings)
            &&& r.status@ == "Перепривязка отменена."@
        } else {
            match spec_from_term(k) {
                Some(spec) => {
                    &&& e == Effect::<D>::SaveHotkeys(false)
                    &&& r == self.with_hotkeys(if self.mode == Mode::CaptureStart {
                        HotkeyConfig { start: spec, ..self.hotkeys }
                    } else {
                        HotkeyConfig { stop: spec, ..self.hotkeys }
                    }).with_mode(Mode::Settings)
                },
                None => {
                    &&& e is Nothing
                    &&& r == self.with_status(r.status)
                    &&& r.status@ == "Эту клавишу нельзя назначить."@
                },
            }
        }
    }

    /// Typing into the active pause field: a character is appended,
    /// Backspace removes the last one.
    pub open spec fn typed_delay(self, k: TermKey, r: App<D>) -> bool {
        let old_buf = if self.delay_field == 0 { self.input_keys@ } else { self.input_lines@ };
        let new_buf = match k.code {
            TermKeyCode::Char(c) => old_buf.push(c),
            _ => if old_buf.len() > 0 { old_buf.drop_last() } else { old_buf },
        };
        if self.delay_field == 0 {
            r == (App { input_keys: r.input_keys, ..self }) && r.input_keys@ == new_buf
        } else {
            r == (App { input_lines: r.input_lines, ..self }) && r.input_lines@ == new_buf
        }
    }

    /// A key in the edit window.  Esc saves, Ctrl+Q cancels, Tab and
    /// Shift+Tab move the focus; the rest goes to the focused field.
    pub open spec fn edit_step(self, k: TermKey, r: App<D>, e: Effect<D>) -> bool {
        match k.code {
            TermKeyCode::Esc => e is CommitEdit && r == self,
            TermKeyCode::Tab => e is Nothing && r == (App { edit_focus: self.edit_focus.spec_next(), ..self }),
            TermKeyCode::BackTab => e is Nothing && r == (App { edit_focus: self.edit_focus.spec_prev(), ..self }),
            TermKeyCode::Char(c) if c == 'q' && k.ctrl => {
                &&& e is Nothing
                &&& r == self.after_cancel_edit(r.status)
                &&& r.status@ == "Правка отменена."@
            },
            _ => match self.edit_focus {
                EditFocus::Name => e is Nothing && (if k.code is Char || k.code is Backspace {
                    self.typed(k, r)
                } else {
                    r == self
                }),
                EditFocus::Notes => e is EditNotes && r == self,
                EditFocus::Delays => match k.code {
                    TermKeyCode::Up | TermKeyCode::Down => e is Nothing && r == (App {
                        delay_field: self.delay_field ^ 1u8,
                        ..self
                    }),
                    TermKeyCode::Right => e == Effect::<D>::NudgeDelay(true) && r == self,
                    TermKeyCode::Left => e == Effect::<D>::NudgeDelay(false) && r == self,
                    TermKeyCode::Char(c) => e is Nothing && (if is_delay_char(c) {
                        self.typed_delay(k, r)
                    } else {
                        r == self
                    }),
                    TermKeyCode::Backspace => e is Nothing && self.typed_delay(k, r),
                    _ => e is Nothing && r == self,
                },
            },
        }
    }
}


/// `n` is the notice with `title` and `body` when `want`, and none otherwise.
pub open spec fn notice_is(n: Option<Notice>, want: bool, title: Seq<char>, body: Seq<char>) -> bool {
    if want {
        n matches Some(x) && x.title@ == title && x.body@ == body
    } else {
        n is None
    }
}

impl<D> App<D> {
    /// What the key handlers ask of the state: a hover index that can be
    /// moved past, and a settings section that exists.
    pub open spec fn keys_ready(self) -> bool {
        &&& (self.selected matches Some(i) ==> i < usize::MAX)
        &&& self.settings_selected < 2
    }

    /// What key `k` in one of the list's modes needs: in a non-empty list,
    /// Down needs a hover index that can be moved past; inside the
    /// settings, every key needs an existing section.
    pub open spec fn list_key_ok(self, k: TermKey) -> bool {
        &&& self.mode == Mode::Normal && is_down(k) && self.bookmarks@.len() > 0
            ==> (self.selected matches Some(i) ==> i < usize::MAX)
        &&& self.mode == Mode::Settings && self.settings_inside ==> self.settings_selected < 2
    }

    /// What a key press needs: nothing while playing (the key is dropped),
    /// otherwise what the list's modes need.
    pub open spec fn key_ok(self, k: TermKey) -> bool {
        !self.playing ==> self.list_key_ok(k)
    }

    /// A key in one of the list's modes.
    pub open spec fn key_step(self, k: TermKey, r: App<D>, e: Effect<D>) -> bool {
        match self.mode {
            Mode::Normal => self.normal_step(k, r, e),
            Mode::AddName => self.add_name_step(k, r, e),
            Mode::SaveBookmark => self.save_input_step(k, r, e),
            Mode::ConfirmDelete => self.confirm_delete_step(k, r, e),
            Mode::Settings => self.settings_step(k, r, e),
            _ => e is Nothing && r == self,
        }
    }

    /// A key press: ignored while playing (the played keys must not work
    /// the interface); otherwise by mode.
    pub open spec fn on_key_step(self, k: TermKey, r: App<D>, e: Effect<D>) -> bool {
        if self.playing {
            e is Nothing && r == self
        } else if self.mode == Mode::Edit {
            self.edit_step(k, r, e)
        } else if self.mode == Mode::CaptureStart || self.mode == Mode::CaptureStop {
            self.capture_step(k, r, e)
        } else {
            self.key_step(k, r, e)
        }
    }

    /// Whether the global start may play now: the window rules decide when
    /// they apply to the active window, the focus switch otherwise.
    pub open spec fn start_allowed(self) -> bool {
        match allow_spec(self.process_config, self.active_window) {
            Some(b) => b,
            None => self.focused,
        }
    }

    /// A message of the key player.
    pub open spec fn player_step(self, m: PlayerMsg, r: App<D>, n: Option<Notice>) -> bool {
        let cfg = self.notif_config;
        let name = self.current_name->0@;
        match m {
            PlayerMsg::Countdown(k) => {
                &&& n is None
                &&& r == (App { countdown: Some(k), status: r.status, ..self })
                &&& r.status@ == with_number("Старт через "@, k as nat, "… (переключитесь в нужное окно)"@)
            },
            PlayerMsg::Progress(done, total) => {
                &&& n is None
                &&& r == (App {
                    countdown: None,
                    progress: (done, total),
                    play_event: if done > 0 { (done - 1) as usize } else { 0 },
                    ..self
                })
            },
            PlayerMsg::Finished => {
                &&& r == (App { playing: false, countdown: None, status: r.status, ..self })
                &&& r.status@ == "Готово."@
                &&& notice_is(n, cfg.enabled && cfg.on_finished && self.current_name is Some,
                    "Воспроизведение завершено"@, name)
            },
            PlayerMsg::Stopped(at) => {
                &&& r == (App { playing: false, countdown: None, status: r.status, ..self })
                &&& r.status@ == with_number("Остановлено на позиции "@, at as nat, "."@)
                &&& notice_is(n, cfg.enabled && cfg.on_stopped && self.current_name is Some,
                    "Остановлено"@, name)
            },
            PlayerMsg::Error(e) => {
                &&& r == (App { playing: false, countdown: None, status: r.status, ..self })
                &&& r.status@ == e@ + ". Разрешите Accessibility в System Settings."@
                &&& notice_is(n, cfg.enabled && cfg.on_error,
                    "Ошибка доступа"@, "Разрешите Accessibility в System Settings"@)
            },
        }
    }

    /// A message of the sound test.
    pub open spec fn audio_step(self, m: AudioMsg, r: App<D>) -> bool {
        &&& r == (App { audio_playing: false, status: r.status, ..self })
        &&& r.status@ == (match m {
            AudioMsg::Finished => "Тест: готово."@,
            AudioMsg::Stopped => "Тест остановлен."@,
            AudioMsg::Error(e) => e@,
        })
    }
}


impl<D> App<D> {
    /// `r` and `p` are the state and request after starting to play the
    /// loaded melody (nothing playing before) with that countdown.
    pub open spec fn playback_started(self, countdown_secs: u64, r: App<D>, p: Option<PlaybackStart<D>>) -> bool {
        if self.current_name is None {
            &&& p is None
            &&& r == self.with_status(r.status)
            &&& r.status@ == "Ничего не заряжено — нажми Enter на нужной мелодии."@
        } else if key_tokens(self.notes@).len() == 0 {
            &&& p is None
            &&& r == self.with_status(r.status)
            &&& r.status@ == "Нет нот для воспроизведения."@
        } else {
            let cfg = self.notif_config;
            &&& p matches Some(req) && {
                &&& key_events(self.notes@, self.between_keys, self.between_lines, req.events@)
                &&& req.countdown_secs == countdown_secs
                &&& notice_is(req.notice, cfg.enabled && cfg.on_playing, "Сейчас играет"@, self.current_name->0@)
            }
            &&& r == (App {
                playing: true,
                play_notes: r.play_notes,
                spans: r.spans,
                play_event: 0,
                progress: (0, key_tokens(self.notes@).len() as usize),
                countdown: Some(countdown_secs),
                status: r.status,
                ..self
            })
            &&& r.play_notes@ == self.notes@
            &&& key_spans(self.notes@, r.spans@)
            &&& r.status@ == with_number("Старт через "@, countdown_secs as nat, "…"@)
        }
    }

    /// `r` and `g` are the state and pitch groups after starting the sound
    /// test of the hovered melody (nothing playing before).
    pub open spec fn audio_started(self, volume_pct: u32, r: App<D>, g: Option<Vec<PitchEvent<D>>>) -> bool {
        match self.hovered() {
            None => {
                &&& g is None
                &&& r == self.with_status(r.status)
                &&& r.status@ == "Нет закладки для теста."@
            },
            Some(b) => if pitch_tokens(b.notes@).len() == 0 {
                &&& g is None
                &&& r == self.with_status(r.status)
                &&& r.status@ == "Нет нот для теста."@
            } else {
                &&& g matches Some(groups) && pitch_events(b.notes@, b.between_keys, b.between_lines, groups@)
                &&& r == (App {
                    audio_playing: true,
                    play_notes: b.notes,
                    spans: r.spans,
                    play_event: 0,
                    status: r.status,
                    ..self
                })
                &&& r.spans@.len() == 0
                &&& r.status@ == "♪ Тест «"@ + b.name@ + "» (громкость "@ + decimal(volume_pct as nat) + "%)"@
            },
        }
    }
}


/// Every key press leaves the state ready for the next one: the hover stays
/// movable and the settings cursor on an existing section.
pub proof fn lemma_key_keeps_ready<D>(app: App<D>, k: TermKey, r: App<D>, e: Effect<D>)
    requires
        app.keys_ready(),
        app.on_key_step(k, r, e),
    ensures
        r.keys_ready(),
{
    vstd::std_specs::vec::axiom_spec_len(&app.bookmarks);
    if !app.playing && app.mode == Mode::Normal {
        let n = app.bookmarks@.len();
        if n > 0 {
            if let Some(i) = app.selected {
                assert((i + 1) % (n as int) < n) by (nonlinear_arith)
                    requires n > 0;
            }
        }
        assert(r.keys_ready());
    } else if !app.playing && app.mode == Mode::Settings {
        assert(r.keys_ready());
    } else if !app.playing && app.mode == Mode::ConfirmDelete {
        assert(r.keys_ready());
    } else {
        assert(r.keys_ready());
    }
}


/// The global start: with the window rules off the focus switch decides; a
/// tracked active window allows it and an ignored one blocks it whatever
/// the focus; any other window leaves it to the focus switch.
pub proof fn lemma_start_rules<D>(app: App<D>)
    ensures
        ({
            let name = match app.active_window {
                Some(w) => w@,
                None => Seq::<char>::empty(),
            };
            let rule = mode_from(app.process_config.entries@, name, 0);
            &&& !app.process_config.enabled ==> (app.start_allowed() == app.focused)
            &&& app.process_config.enabled && rule == Some(ProcessMode::Track) ==> app.start_allowed()
            &&& app.process_config.enabled && rule == Some(ProcessMode::Ignore) ==> !app.start_allowed()
            &&& app.process_config.enabled && rule != Some(ProcessMode::Track) && rule != Some(ProcessMode::Ignore)
                ==> (app.start_allowed() == app.focused)
        }),
{
}


/// The sound test plays the hovered melody and leaves the loaded one (what
/// the global start plays) as it was.
pub proof fn lemma_test_keeps_loaded<D>(app: App<D>, volume_pct: u32, r: App<D>, g: Option<Vec<PitchEvent<D>>>)
    requires
        app.audio_started(volume_pct, r, g),
    ensures
        r.notes == app.notes,
        r.between_keys == app.between_keys,
        r.between_lines == app.between_lines,
        r.current_name == app.current_name,
        r.bookmarks == app.bookmarks,
{
}


/// A key press keeps the hover on a melody of the list, or nowhere.
pub proof fn lemma_key_keeps_hover<D>(app: App<D>, k: TermKey, r: App<D>, e: Effect<D>)
    requires
        app.selection_valid(),
        app.on_key_step(k, r, e),
    ensures
        r.selection_valid(),
{
    vstd::std_specs::vec::axiom_spec_len(&app.bookmarks);
    if !app.playing && app.mode == Mode::Normal {
        let n = app.bookmarks@.len();
        if n > 0 {
            if let Some(i) = app.selected {
                assert((i + 1) % (n as int) < n) by (nonlinear_arith)
                    requires n > 0;
            }
        }
        assert(r.selection_valid());
    } else if !app.playing && app.mode == Mode::ConfirmDelete {
        assert(r.selection_valid());
    } else {
        assert(r.selection_valid());
    }
}


/// The global start plays the melody loaded with Enter: after loading the
/// `idx`-th melody, starting plays its notes with its pauses.
pub proof fn lemma_plays_loaded<D>(app: App<D>, idx: int, mid: App<D>, countdown_secs: u64, r: App<D>, p: Option<PlaybackStart<D>>)
    requires
        0 <= idx < app.bookmarks@.len(),
        app.loaded(idx, mid),
        !mid.playing && !mid.audio_playing,
        mid.playback_started(countdown_secs, r, p),
        key_tokens(app.bookmarks@[idx].notes@).len() > 0,
    ensures
        p matches Some(req) && key_events(
            app.bookmarks@[idx].notes@,
            app.bookmarks@[idx].between_keys,
            app.bookmarks@[idx].between_lines,
            req.events@,
        ),
        r.play_notes@ == app.bookmarks@[idx].notes@,
{
}

impl<D: Copy> App<D> {
    /// Types into the one-line input (a character or Backspace).
    fn type_key(&mut self, key: TermKey)
        requires
            key.code is Char || key.code is Backspace,
        ensures
            old(self).typed(key, *final(self)),
    {
        match key.code {
            TermKeyCode::Char(c) => push_char(&mut self.input, c),
            TermKeyCode::Backspace => pop_char(&mut self.input),
            _ => {},
        }
    }

    /// A key in the melody list.
    pub fn handle_normal(&mut self, key: TermKey) -> (e: Effect<D>)
        requires
            is_down(key) && old(self).bookmarks@.len() > 0 ==> (old(self).selected matches Some(i) ==> i < usize::MAX),
        ensures
            old(self).normal_step(key, *final(self), e),
    {
        match key.code {
            TermKeyCode::Up => {
                self.select_prev();
                Effect::Nothing
            },
            TermKeyCode::Down => {
                self.select_next();
                Effect::Nothing
            },
            TermKeyCode::Enter => {
                if let Some(i) = self.selected() {
                    self.load_bookmark(i);
                }
                Effect::Nothing
            },
            TermKeyCode::Char(c) => {
                if c == 'q' {
                    self.should_quit = true;
                    Effect::Nothing
                } else if c == 'k' {
                    self.select_prev();
                    Effect::Nothing
                } else if c == 'j' {
                    self.select_next();
                    Effect::Nothing
                } else if c == 'a' {
                    self.input = String::new();
                    self.mode = Mode::AddName;
                    Effect::Nothing
                } else if c == 'e' {
                    let hovered = self.selected_bookmark().is_some();
                    self.begin_edit();
                    if hovered {
                        Effect::FillEditor
                    } else {
                        Effect::Nothing
                    }
                } else if c == 's' {
                    self.settings_selected = 0;
                    self.settings_inside = false;
                    self.mode = Mode::Settings;
                    Effect::Nothing
                } else if c == 'S' {
                    self.input = match self.selected_bookmark() {
                        Some(b) => b.name.clone(),
                        None => String::new(),
                    };
                    self.mode = Mode::SaveBookmark;
                    Effect::Nothing
                } else if c == 'd' {
                    if self.selected().is_some() {
                        self.mode = Mode::ConfirmDelete;
                    }
                    Effect::Nothing
                } else if c == 'p' {
                    Effect::StartPlayback
                } else if c == 't' || c == 'T' {
                    Effect::StartAudio
                } else if c == 'u' || c == 'U' {
                    self.toggle_focus();
                    Effect::Nothing
                } else if c == '+' || c == '=' {
                    Effect::Volume(true)
                } else if c == '-' || c == '_' {
                    Effect::Volume(false)
                } else {
                    Effect::Nothing
                }
            },
            _ => Effect::Nothing,
        }
    }

    /// A key while typing the name of a new melody: Enter opens the edit
    /// window for it, Esc goes back to the list.
    pub fn handle_add_name(&mut self, key: TermKey) -> (e: Effect<D>)
        ensures
            old(self).add_name_step(key, *final(self), e),
    {
        match key.code {
            TermKeyCode::Char(_) | TermKeyCode::Backspace => {
                self.type_key(key);
                Effect::Nothing
            },
            TermKeyCode::Enter => {
                let name = self.input.clone();
                self.begin_create(name);
                if self.mode == Mode::Edit {
                    Effect::ClearEditor
                } else {
                    Effect::Nothing
                }
            },
            TermKeyCode::Esc => {
                self.mode = Mode::Normal;
                Effect::Nothing
            },
            _ => Effect::Nothing,
        }
    }

    /// A key while typing the name to save the hovered melody under: Enter
    /// asks to save it under that name, Esc goes back to the list.
    pub fn handle_save_input(&mut self, key: TermKey) -> (e: Effect<D>)
        ensures
            old(self).save_input_step(key, *final(self), e),
    {
        match key.code {
            TermKeyCode::Char(_) | TermKeyCode::Backspace => {
                self.type_key(key);
                Effect::Nothing
            },
            TermKeyCode::Enter => {
                let name = self.input.clone();
                let saved = self.save_hovered_as(name);
                self.mode = Mode::Normal;
                match saved {
                    Some(b) => Effect::Save(b),
                    None => Effect::Nothing,
                }
            },
            TermKeyCode::Esc => {
                self.mode = Mode::Normal;
                Effect::Nothing
            },
            _ => Effect::Nothing,
        }
    }

    /// A key while confirming a deletion: `y` deletes the hovered melody,
    /// `n` or Esc goes back.
    pub fn handle_confirm_delete(&mut self, key: TermKey) -> (e: Effect<D>)
        ensures
            old(self).confirm_delete_step(key, *final(self), e),
    {
        match key.code {
            TermKeyCode::Char(c) => {
                if c == 'y' || c == 'Y' {
                    let removed = self.delete_selected();
                    self.mode = Mode::Normal;
                    match removed {
                        Some(name) => Effect::DeleteFile(name),
                        None => Effect::Nothing,
                    }
                } else if c == 'n' || c == 'N' {
                    self.mode = Mode::Normal;
                    Effect::Nothing
                } else {
                    Effect::Nothing
                }
            },
            TermKeyCode::Esc => {
                self.mode = Mode::Normal;
                Effect::Nothing
            },
            _ => Effect::Nothing,
        }
    }

    /// A key in the settings menu: the list of sections, or inside the
    /// hotkey or notification section.
    pub fn handle_settings(&mut self, key: TermKey) -> (e: Effect<D>)
        requires
            old(self).settings_inside ==> old(self).settings_selected < 2,
        ensures
            old(self).settings_step(key, *final(self), e),
    {
        let sections = SettingsSection::all();
        if !self.settings_inside {
            self.sections_key(key, sections.len());
            return Effect::Nothing;
        }
        match sections[self.settings_selected] {
            SettingsSection::Hotkeys => self.hotkeys_key(key),
            SettingsSection::Notifications => self.notifications_key(key),
        }
    }

    /// A key in the list of sections (`count` of them).
    fn sections_key(&mut self, key: TermKey, count: usize)
        requires
            count == 2,
            !old(self).settings_inside,
        ensures
            old(self).sections_step(key, *final(self), Effect::<D>::Nothing),
    {
        if up_key(key) {
            if self.settings_selected > 0 {
                self.settings_selected = self.settings_selected - 1;
            }
        } else if down_key(key) {
            if self.settings_selected < count - 1 {
                self.settings_selected = self.settings_selected + 1;
            }
        } else {
            match key.code {
                TermKeyCode::Right | TermKeyCode::Enter => {
                    self.settings_inside = true;
                },
                TermKeyCode::Esc => {
                    self.mode = Mode::Normal;
                },
                _ => {},
            }
        }
    }

    /// A key inside the hotkey section.
    fn hotkeys_key(&mut self, key: TermKey) -> (e: Effect<D>)
        requires
            old(self).settings_inside,
        ensures
            old(self).hotkeys_step(key, *final(self), e),
    {
        if key.code == TermKeyCode::Backspace && key.ctrl {
            self.reset_hotkeys();
            return Effect::SaveHotkeys(true);
        }
        if up_key(key) {
            if self.settings_item > 0 {
                self.settings_item = self.settings_item - 1;
            }
        } else if down_key(key) {
            if self.settings_item < 1 {
                self.settings_item = self.settings_item + 1;
            }
        } else {
            match key.code {
                TermKeyCode::Enter | TermKeyCode::Right => {
                    if self.settings_item == 0 {
                        self.mode = Mode::CaptureStart;
                        self.status = lit("Нажмите новую комбинацию для СТАРТА (Esc — отмена).");
                    } else {
                        self.mode = Mode::CaptureStop;
                        self.status = lit("Нажмите новую комбинацию для СТОПА (Esc — отмена).");
                    }
                },
                TermKeyCode::Left | TermKeyCode::Esc => {
                    self.settings_inside = false;
                    self.settings_item = 0;
                },
                _ => {},
            }
        }
        Effect::Nothing
    }

    /// A key inside the notification section (items 0 to 4).
    fn notifications_key(&mut self, key: TermKey) -> (e: Effect<D>)
        requires
            old(self).settings_inside,
        ensures
            old(self).notifications_step(key, *final(self), e),
    {
        let max_item: usize = 4;
        if up_key(key) {
            if self.settings_item > 0 {
                self.settings_item = self.settings_item - 1;
            }
            Effect::Nothing
        } else if down_key(key) {
            if self.settings_item < max_item {
                self.settings_item = self.settings_item + 1;
            }
            Effect::Nothing
        } else {
            match key.code {
                TermKeyCode::Enter => self.toggle_item(),
                TermKeyCode::Char(c) => {
                    if c == ' ' {
                        self.toggle_item()
                    } else {
                        Effect::Nothing
                    }
                },
                TermKeyCode::Left | TermKeyCode::Esc => {
                    self.settings_inside = false;
                    self.settings_item = 0;
                    Effect::Nothing
                },
                _ => Effect::Nothing,
            }
        }
    }

    /// Flips the switch of the current notification item.
    fn toggle_item(&mut self) -> (e: Effect<D>)
        ensures
            e is SaveConfig,
            *final(self) == (App { notif_config: toggled_item(old(self).notif_config, old(self).settings_item), ..*old(self) }),
    {
        let enabled = self.notif_config.enabled;
        let item = self.settings_item;
        if item == 0 {
            self.notif_config.toggle_global();
        } else if item == 1 && enabled {
            self.notif_config.toggle_playing();
        } else if item == 2 && enabled {
            self.notif_config.toggle_stopped();
        } else if item == 3 && enabled {
            self.notif_config.toggle_finished();
        } else if item == 4 && enabled {
            self.notif_config.toggle_error();
        }
        Effect::SaveConfig
    }

    /// A key while capturing a new binding for start or stop.
    pub fn handle_capture(&mut self, key: TermKey) -> (e: Effect<D>)
        ensures
            old(self).capture_step(key, *final(self), e),
    {
        if key.code == TermKeyCode::Esc {
            self.mode = Mode::Settings;
            self.status = lit("Перепривязка отменена.");
            return Effect::Nothing;
        }
        match spec_from_crossterm(key) {
            Some(spec) => {
                let start = self.mode == Mode::CaptureStart;
                self.set_hotkey(start, spec);
                self.mode = Mode::Settings;
                Effect::SaveHotkeys(false)
            },
            None => {
                self.status = lit("Эту клавишу нельзя назначить.");
                Effect::Nothing
            },
        }
    }

    /// A key in the edit window.
    pub fn handle_edit(&mut self, key: TermKey) -> (e: Effect<D>)
        ensures
            old(self).edit_step(key, *final(self), e),
    {
        match key.code {
            TermKeyCode::Esc => return Effect::CommitEdit,
            TermKeyCode::Char(c) => {
                if c == 'q' && key.ctrl {
                    self.cancel_edit();
                    return Effect::Nothing;
                }
            },
            TermKeyCode::Tab => {
                self.edit_focus = self.edit_focus.next();
                return Effect::Nothing;
            },
            TermKeyCode::BackTab => {
                self.edit_focus = self.edit_focus.prev();
                return Effect::Nothing;
            },
            _ => {},
        }
        match self.edit_focus {
            EditFocus::Name => {
                match key.code {
                    TermKeyCode::Char(_) | TermKeyCode::Backspace => self.type_key(key),
                    _ => {},
                }
                Effect::Nothing
            },
            EditFocus::Notes => Effect::EditNotes,
            EditFocus::Delays => match key.code {
                TermKeyCode::Up | TermKeyCode::Down => {
                    self.delay_field = self.delay_field ^ 1;
                    Effect::Nothing
                },
                TermKeyCode::Right => Effect::NudgeDelay(true),
                TermKeyCode::Left => Effect::NudgeDelay(false),
                TermKeyCode::Char(c) => {
                    if ('0' <= c && c <= '9') || c == '.' || c == ',' {
                        push_char(self.active_delay_buf(), c);
                    }
                    Effect::Nothing
                },
                TermKeyCode::Backspace => {
                    pop_char(self.active_delay_buf());
                    Effect::Nothing
                },
                _ => Effect::Nothing,
            },
        }
    }

    /// A key in one of the list's modes.
    pub fn handle_key(&mut self, key: TermKey) -> (e: Effect<D>)
        requires
            old(self).list_key_ok(key),
        ensures
            old(self).key_step(key, *final(self), e),
    {
        match self.mode {
            Mode::Normal => self.handle_normal(key),
            Mode::AddName => self.handle_add_name(key),
            Mode::SaveBookmark => self.handle_save_input(key),
            Mode::ConfirmDelete => self.handle_confirm_delete(key),
            Mode::Settings => self.handle_settings(key),
            Mode::Edit | Mode::CaptureStart | Mode::CaptureStop => Effect::Nothing,
        }
    }

    /// A key press from the terminal.
    pub fn on_key(&mut self, key: TermKey) -> (e: Effect<D>)
        requires
            old(self).key_ok(key),
        ensures
            old(self).on_key_step(key, *final(self), e),
            old(self).keys_ready() ==> final(self).keys_ready(),
            old(self).selection_valid() ==> final(self).selection_valid(),
    {
        let e = if self.playing {
            Effect::Nothing
        } else if self.mode == Mode::Edit {
            self.handle_edit(key)
        } else if self.mode == Mode::CaptureStart || self.mode == Mode::CaptureStop {
            self.handle_capture(key)
        } else {
            self.handle_key(key)
        };
        proof {
            if old(self).keys_ready() {
                lemma_key_keeps_ready(*old(self), key, *self, e);
            }
            if old(self).selection_valid() {
                lemma_key_keeps_hover(*old(self), key, *self, e);
            }
        }
        e
    }

    /// A key event from the terminal: a key release (which some terminals
    /// report besides the press) is dropped; a press goes to [`App::on_key`].
    pub fn on_key_event(&mut self, release: bool, key: TermKey) -> (e: Effect<D>)
        requires
            !release ==> old(self).key_ok(key),
        ensures
            release ==> e is Nothing && *final(self) == *old(self),
            old(self).playing ==> e is Nothing && *final(self) == *old(self),
            !release ==> old(self).on_key_step(key, *final(self), e),
            old(self).keys_ready() ==> final(self).keys_ready(),
            old(self).selection_valid() ==> final(self).selection_valid(),
    {
        if release {
            Effect::Nothing
        } else {
            self.on_key(key)
        }
    }

    /// Whether the global start may play now.
    pub fn can_start_play(&self) -> (r: bool)
        ensures
            r == self.start_allowed(),
    {
        match self.process_config.should_allow(&self.active_window) {
            Some(b) => b,
            None => self.focused,
        }
    }

    /// A command of the global hotkey listener: start (when allowed and
    /// in the list), stop, or the listener's failure.
    pub fn on_hotkey_cmd(&mut self, cmd: HotkeyCmd) -> (e: Effect<D>)
        ensures
            cmd is Start ==> *final(self) == *old(self) && (if old(self).start_allowed() && old(self).mode == Mode::Normal {
                e is StartPlayback
            } else {
                e is Nothing
            }),
            cmd is Stop ==> (if old(self).playing || old(self).audio_playing {
                e is RaiseStop && *final(self) == old(self).with_status(final(self).status)
                    && final(self).status@ == "Остановка..."@
            } else {
                e is Nothing && *final(self) == *old(self)
            }),
            cmd matches HotkeyCmd::ListenError(m) ==> e is Nothing && *final(self) == old(self).with_status(final(self).status)
                && final(self).status@ == "Глобальные хоткеи недоступны ("@ + m@ + "). Разрешите Input Monitoring."@,
    {
        match cmd {
            HotkeyCmd::Start => {
                if self.can_start_play() && self.mode == Mode::Normal {
                    Effect::StartPlayback
                } else {
                    Effect::Nothing
                }
            },
            HotkeyCmd::Stop => {
                if self.stop_playback() {
                    Effect::RaiseStop
                } else {
                    Effect::Nothing
                }
            },
            HotkeyCmd::ListenError(m) => {
                let mut out = chars_of("Глобальные хоткеи недоступны (");
                append_chars(&mut out, &chars_of(m.as_str()));
                append_chars(&mut out, &chars_of("). Разрешите Input Monitoring."));
                self.status = string_of(&out);
                Effect::Nothing
            },
        }
    }

    /// Asks the key player and the sound test to stop; `true` when one of
    /// them runs (the caller then raises the stop flag).
    pub fn stop_playback(&mut self) -> (r: bool)
        ensures
            r == (old(self).playing || old(self).audio_playing),
            r ==> *final(self) == old(self).with_status(final(self).status) && final(self).status@ == "Остановка..."@,
            !r ==> *final(self) == *old(self),
    {
        if self.playing || self.audio_playing {
            self.status = lit("Остановка...");
            true
        } else {
            false
        }
    }

    /// A message of the key player: countdown, progress, the end, a stop
    /// or a failure; returns the notice to show, if one is wanted.
    pub fn on_player_msg(&mut self, msg: PlayerMsg) -> (n: Option<Notice>)
        ensures
            old(self).player_step(msg, *final(self), n),
    {
        match msg {
            PlayerMsg::Countdown(k) => {
                self.countdown = Some(k);
                let mut out = chars_of("Старт через ");
                append_chars(&mut out, &decimal_of(k));
                append_chars(&mut out, &chars_of("… (переключитесь в нужное окно)"));
                self.status = string_of(&out);
                None
            },
            PlayerMsg::Progress(done, total) => {
                self.countdown = None;
                self.progress = (done, total);
                self.play_event = if done > 0 { done - 1 } else { 0 };
                None
            },
            PlayerMsg::Finished => self.player_finished(),
            PlayerMsg::Stopped(at) => self.player_stopped(at),
            PlayerMsg::Error(e) => self.player_failed(e),
        }
    }

    fn player_finished(&mut self) -> (n: Option<Notice>)
        ensures
            old(self).player_step(PlayerMsg::Finished, *final(self), n),
    {
        self.playing = false;
        self.countdown = None;
        self.status = lit("Готово.");
        if self.notif_config.enabled && self.notif_config.on_finished {
            match &self.current_name {
                Some(name) => Some(finished(name.as_str())),
                None => None,
            }
        } else {
            None
        }
    }

    fn player_stopped(&mut self, at: usize) -> (n: Option<Notice>)
        ensures
            old(self).player_step(PlayerMsg::Stopped(at), *final(self), n),
    {
        self.playing = false;
        self.countdown = None;
        let mut out = chars_of("Остановлено на позиции ");
        append_chars(&mut out, &decimal_of(at as u64));
        append_chars(&mut out, &chars_of("."));
        self.status = string_of(&out);
        if self.notif_config.enabled && self.notif_config.on_stopped {
            match &self.current_name {
                Some(name) => Some(stopped(name.as_str())),
                None => None,
            }
        } else {
            None
        }
    }

    fn player_failed(&mut self, e: String) -> (n: Option<Notice>)
        ensures
            old(self).player_step(PlayerMsg::Error(e), *final(self), n),
    {
        self.playing = false;
        self.countdown = None;
        self.status = text2(e.as_str(), ". Разрешите Accessibility в System Settings.");
        if self.notif_config.enabled && self.notif_config.on_error {
            Some(access_error())
        } else {
            None
        }
    }

    /// A message of the sound test: it ended, was stopped, or failed.
    pub fn on_audio_msg(&mut self, msg: AudioMsg)
        ensures
            old(self).audio_step(msg, *final(self)),
    {
        self.audio_playing = false;
        match msg {
            AudioMsg::Finished => {
                self.status = lit("Тест: готово.");
            },
            AudioMsg::Stopped => {
                self.status = lit("Тест остановлен.");
            },
            AudioMsg::Error(e) => {
                self.status = e;
            },
        }
    }

    /// Starts playing the loaded melody after a countdown of
    /// `countdown_secs`: nothing while something plays; a message when no
    /// melody is loaded or it has no notes; otherwise the state turns to
    /// playing and the events go back to be sent to the key player, with
    /// the notice to show if one is wanted.
    pub fn start_playback(&mut self, countdown_secs: u64) -> (r: Option<PlaybackStart<D>>)
        requires
            !old(self).playing && !old(self).audio_playing && old(self).current_name is Some
                ==> parse_accepts(old(self).notes@),
        ensures
            old(self).playing || old(self).audio_playing ==> r is None && *final(self) == *old(self),
            !old(self).playing && !old(self).audio_playing ==> old(self).playback_started(countdown_secs, *final(self), r),
    {
        if self.playing || self.audio_playing {
            return None;
        }
        if self.current_name.is_none() {
            self.status = lit("Ничего не заряжено — нажми Enter на нужной мелодии.");
            return None;
        }
        let parsed = parse(self.notes.as_str(), self.between_keys, self.between_lines);
        if parsed.events.len() == 0 {
            self.status = lit("Нет нот для воспроизведения.");
            return None;
        }
        proof {
            assert forall|k: int| 0 <= k < parsed.spans@.len() implies #[trigger] parsed.spans@[k]
                == span_of(self.notes@, key_tokens(self.notes@)[k]) by {
                let _ = parsed.events@[k];
            }
        }
        self.playing = true;
        self.play_notes = self.notes.clone();
        self.spans = parsed.spans;
        self.play_event = 0;
        self.progress = (0, parsed.events.len());
        self.countdown = Some(countdown_secs);
        let mut out = chars_of("Старт через ");
        append_chars(&mut out, &decimal_of(countdown_secs));
        append_chars(&mut out, &chars_of("…"));
        self.status = string_of(&out);
        let notice = if self.notif_config.enabled && self.notif_config.on_playing {
            match &self.current_name {
                Some(name) => Some(playing(name.as_str())),
                None => None,
            }
        } else {
            None
        };
        Some(PlaybackStart { events: parsed.events, countdown_secs, notice })
    }

    /// The key player could not take the melody: playing stops with a message.
    pub fn playback_unavailable(&mut self)
        ensures
            *final(self) == (App { playing: false, countdown: None, status: final(self).status, ..*old(self) }),
            final(self).status@ == "Поток воспроизведения недоступен."@,
    {
        self.playing = false;
        self.countdown = None;
        self.status = lit("Поток воспроизведения недоступен.");
    }

    /// Starts the sound test of the hovered melody at `volume_pct` percent:
    /// nothing while something plays; a message when nothing is hovered or
    /// it has no pitches; otherwise the state turns to testing and the
    /// pitch groups go back to be sent to the sound thread.
    pub fn start_audio(&mut self, volume_pct: u32) -> (r: Option<Vec<PitchEvent<D>>>)
        ensures
            old(self).playing || old(self).audio_playing ==> r is None && *final(self) == *old(self),
            !old(self).playing && !old(self).audio_playing ==> old(self).audio_started(volume_pct, *final(self), r),
    {
        if self.playing || self.audio_playing {
            return None;
        }
        let b = match self.selected_bookmark() {
            Some(b) => b.duplicate(),
            None => {
                self.status = lit("Нет закладки для теста.");
                return None;
            },
        };
        let groups = parse_pitches(b.notes.as_str(), b.between_keys, b.between_lines);
        if groups.len() == 0 {
            self.status = lit("Нет нот для теста.");
            return None;
        }
        self.audio_playing = true;
        self.play_notes = b.notes;
        self.spans = Vec::new();
        self.play_event = 0;
        let mut out = chars_of("♪ Тест «");
        append_chars(&mut out, &chars_of(b.name.as_str()));
        append_chars(&mut out, &chars_of("» (громкость "));
        append_chars(&mut out, &decimal_of(volume_pct as u64));
        append_chars(&mut out, &chars_of("%)"));
        self.status = string_of(&out);
        Some(groups)
    }

    /// The sound thread could not take the melody: the test stops with a message.
    pub fn audio_unavailable(&mut self)
        ensures
            *final(self) == (App { audio_playing: false, status: final(self).status, ..*old(self) }),
            final(self).status@ == "Аудио-поток недоступен."@,
    {
        self.audio_playing = false;
        self.status = lit("Аудио-поток недоступен.");
    }
}

} // verus!

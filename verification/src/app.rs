//! Application state and the logic that does not depend on rendering.
//!
//! The interface keeps the widgets (list view, note editor) and the shared
//! handles; it hands this state plain values (the edited notes, parsed
//! pauses, the outcome of a file save) and performs what a method asks for.
use vstd::prelude::*;
use crate::hotkeys::{default_hotkeys, hotkey_label, HotkeyConfig, HotkeySpec};
use crate::notifications::{finished, stopped, access_error, playing, NotificationConfig, Notice};
use crate::parser::{key_tokens, parse, parse_accepts, Event, TokenSpan};
use crate::player::PlayerMsg;
use crate::processes::ProcessConfig;
use crate::audio::AudioMsg;
use crate::storage::{lemma_sort_keeps_names_unique, lemma_sorted_by_name, name_ordered, sort_by_name, sorted_by_name, unique_names, Bookmark};
use crate::text::{append_chars, chars_of, decimal, decimal_of, string_of, trim, trim_chars};

verus! {

broadcast use {vstd::seq::group_seq_axioms, vstd::seq_lib::group_seq_properties};

/// The current input mode.
#[derive(Clone, Copy, Debug, PartialEq, Eq, Structural)]
pub enum Mode {
    /// Browsing the melody list.
    Normal,
    /// Typing the name of a new melody.
    AddName,
    /// The edit window: notes and pauses (Tab moves between fields).
    Edit,
    /// Typing a name to save the hovered melody under.
    SaveBookmark,
    /// Confirming a deletion.
    ConfirmDelete,
    /// The settings menu.
    Settings,
    /// Capturing a new start binding.
    CaptureStart,
    /// Capturing a new stop binding.
    CaptureStop,
}

/// Sections of the settings menu.
#[derive(Clone, Copy, Debug, PartialEq, Eq, Structural)]
pub enum SettingsSection {
    Hotkeys,
    Notifications,
}

impl SettingsSection {
    /// All sections, in menu order.
    pub fn all() -> (r: &'static [SettingsSection])
        ensures
            r@ == seq![SettingsSection::Hotkeys, SettingsSection::Notifications],
    {
        let r: &'static [SettingsSection] = &[SettingsSection::Hotkeys, SettingsSection::Notifications];
        assert(r@ =~= seq![SettingsSection::Hotkeys, SettingsSection::Notifications]);
        r
    }

    /// The section's title.
    pub fn label(self) -> (r: &'static str)
        ensures
            r@ == match self {
                SettingsSection::Hotkeys => "Хоткеи"@,
                SettingsSection::Notifications => "Уведомления"@,
            },
    {
        match self {
            SettingsSection::Hotkeys => "Хоткеи",
            SettingsSection::Notifications => "Уведомления",
        }
    }
}

/// The focused field of the edit window.
#[derive(Clone, Copy, Debug, PartialEq, Eq, Structural)]
pub enum EditFocus {
    Name,
    Notes,
    Delays,
}

impl EditFocus {
    /// The field after this one (Tab): Name → Notes → Delays → Name.
    pub open spec fn spec_next(self) -> EditFocus {
        match self {
            EditFocus::Name => EditFocus::Notes,
            EditFocus::Notes => EditFocus::Delays,
            EditFocus::Delays => EditFocus::Name,
        }
    }

    /// The field before this one (Shift+Tab).
    pub open spec fn spec_prev(self) -> EditFocus {
        match self {
            EditFocus::Name => EditFocus::Delays,
            EditFocus::Notes => EditFocus::Name,
            EditFocus::Delays => EditFocus::Notes,
        }
    }

    /// The next field (Tab).
    pub fn next(self) -> (r: EditFocus)
        ensures
            r == self.spec_next(),
    {
        match self {
            EditFocus::Name => EditFocus::Notes,
            EditFocus::Notes => EditFocus::Delays,
            EditFocus::Delays => EditFocus::Name,
        }
    }

    /// The previous field (Shift+Tab).
    pub fn prev(self) -> (r: EditFocus)
        ensures
            r == self.spec_prev(),
    {
        match self {
            EditFocus::Name => EditFocus::Delays,
            EditFocus::Notes => EditFocus::Name,
            EditFocus::Delays => EditFocus::Notes,
        }
    }
}

/// Tab and Shift+Tab undo each other.
pub proof fn lemma_focus_next_prev(f: EditFocus)
    ensures
        f.spec_next().spec_prev() == f,
        f.spec_prev().spec_next() == f,
        f.spec_next().spec_next().spec_next() == f,
{
}

/// The application state.  `D` is the type of pauses (seconds in the
/// application); the state only copies them.
pub struct App<D> {
    pub bookmarks: Vec<Bookmark<D>>,
    /// The hovered melody's index in the list.
    pub selected: Option<usize>,
    /// The loaded melody: what the global start plays.
    pub notes: String,
    pub between_keys: D,
    pub between_lines: D,
    /// The loaded melody's name.
    pub current_name: Option<String>,
    pub mode: Mode,
    /// One-line input buffer (names).
    pub input: String,
    /// Pause input buffers.
    pub input_keys: String,
    pub input_lines: String,
    /// Active pause field: 0 between keys, 1 between lines.
    pub delay_field: u8,
    pub edit_focus: EditFocus,
    /// Name of the melody being created, if creating.
    pub creating: Option<String>,
    /// Name of the melody being edited, if editing.
    pub editing: Option<String>,
    pub settings_selected: usize,
    pub settings_inside: bool,
    pub settings_item: usize,
    pub hotkeys: HotkeyConfig,
    pub notif_config: NotificationConfig,
    /// Rules on the active window.
    pub process_config: ProcessConfig,
    /// The active window's process name, as last reported.
    pub active_window: Option<String>,
    /// Whether the global start hotkey is listened to.
    pub focused: bool,
    pub status: String,
    pub playing: bool,
    pub audio_playing: bool,
    /// Seconds left before the start, while counting down.
    pub countdown: Option<u64>,
    pub progress: (usize, usize),
    /// Notes of the melody being played (for highlighting).
    pub play_notes: String,
    /// Token positions of the melody being played.
    pub spans: Vec<TokenSpan>,
    /// Index of the event being played.
    pub play_event: usize,
    pub should_quit: bool,
}

/// What a commit of the edit window asks to be written: a file to delete
/// (the old name of a renamed melody) and the melody to save.
pub struct StorePlan<D> {
    pub delete: Option<String>,
    pub save: Bookmark<D>,
}

/// What starting playback asks for: the events to play, the countdown, and
/// the notice to show.
pub struct PlaybackStart<D> {
    pub events: Vec<Event<D>>,
    pub countdown_secs: u64,
    pub notice: Option<Notice>,
}

// ---------------------------------------------------------------------
// Specification helpers
// ---------------------------------------------------------------------

/// The ready hint: `Готово. START — старт, STOP — стоп.`
pub open spec fn ready_hint_spec(h: HotkeyConfig) -> Seq<char> {
    "Готово. "@ + hotkey_label(h.start) + " — старт, "@ + hotkey_label(h.stop) + " — стоп."@
}

/// The index of the first melody named `name`.
pub open spec fn index_of_name<D>(list: Seq<Bookmark<D>>, name: Seq<char>) -> Option<int>
    decreases list.len(),
{
    if list.len() == 0 {
        None
    } else {
        match index_of_name(list.drop_last(), name) {
            Some(i) => Some(i),
            None => if list.last().name@ == name {
                Some(list.len() - 1)
            } else {
                None
            },
        }
    }
}

/// The list with `b` in place of the first melody of its name, or added.
pub open spec fn put_bookmark<D>(list: Seq<Bookmark<D>>, b: Bookmark<D>) -> Seq<Bookmark<D>> {
    match index_of_name(list, b.name@) {
        Some(i) => list.update(i, b),
        None => list.push(b),
    }
}

/// The list without the melodies named `name`.
pub open spec fn without_name<D>(list: Seq<Bookmark<D>>, name: Seq<char>) -> Seq<Bookmark<D>> {
    list.filter(|b: Bookmark<D>| b.name@ != name)
}

/// The loaded name is `name`.
pub open spec fn is_current<D>(app: App<D>, name: Seq<char>) -> bool {
    app.current_name matches Some(c) && c@ == name
}

/// Text with a number: `head` + decimal of `n` + `tail`.
pub open spec fn with_number(head: Seq<char>, n: nat, tail: Seq<char>) -> Seq<char> {
    head + decimal(n) + tail
}

impl<D> App<D> {
    /// The state with another status line.
    pub open spec fn with_status(self, status: String) -> App<D> {
        App { status: status, ..self }
    }

    /// The state in another mode.
    pub open spec fn with_mode(self, mode: Mode) -> App<D> {
        App { mode: mode, ..self }
    }

    /// The state with the start hotkey listened to or not.
    pub open spec fn with_focus(self, focused: bool) -> App<D> {
        App { focused: focused, ..self }
    }

    /// The hovered melody, if the hover is on one.
    pub open spec fn hovered(self) -> Option<Bookmark<D>> {
        match self.selected {
            Some(i) => if i < self.bookmarks@.len() {
                Some(self.bookmarks@[i as int])
            } else {
                None
            },
            None => None,
        }
    }

    /// After hovering the next melody (wrapping; nothing when empty).
    pub open spec fn after_select_next(self) -> App<D> {
        if self.bookmarks@.len() == 0 {
            self
        } else {
            App {
                selected: Some(
                    match self.selected {
                        Some(i) => ((i + 1) % (self.bookmarks@.len() as int)) as usize,
                        None => 0usize,
                    },
                ),
                ..self
            }
        }
    }

    /// After hovering the previous melody (wrapping; nothing when empty).
    pub open spec fn after_select_prev(self) -> App<D> {
        if self.bookmarks@.len() == 0 {
            self
        } else {
            App {
                selected: Some(
                    match self.selected {
                        Some(i) => if i == 0 {
                            (self.bookmarks@.len() - 1) as usize
                        } else {
                            (i - 1) as usize
                        },
                        None => (self.bookmarks@.len() - 1) as usize,
                    },
                ),
                ..self
            }
        }
    }

    /// After loading the `idx`-th melody (its notes and pauses become the
    /// working copy, its name the loaded name).
    pub open spec fn after_load(self, idx: int, status: String) -> App<D> {
        let b = self.bookmarks@[idx];
        App {
            notes: b.notes,
            between_keys: b.between_keys,
            between_lines: b.between_lines,
            current_name: Some(b.name),
            status: status,
            ..self
        }
    }

    /// After opening the edit window on the hovered melody.
    pub open spec fn after_begin_edit(self) -> App<D> {
        let b = self.hovered()->0;
        App {
            input: b.name,
            delay_field: 0,
            edit_focus: EditFocus::Delays,
            creating: None,
            editing: Some(b.name),
            mode: Mode::Edit,
            ..self
        }
    }

    /// After opening the edit window for a new melody (buffers from `r`).
    pub open spec fn after_begin_create(self, r: App<D>) -> App<D> {
        App {
            input: r.input,
            input_keys: r.input_keys,
            input_lines: r.input_lines,
            delay_field: 0,
            edit_focus: EditFocus::Notes,
            creating: r.creating,
            editing: None,
            mode: Mode::Edit,
            ..self
        }
    }

    /// After closing the edit window without saving.
    pub open spec fn after_cancel_edit(self, status: String) -> App<D> {
        App { creating: None, editing: None, mode: Mode::Normal, status: status, ..self }
    }
}

// ---------------------------------------------------------------------
// Helpers
// ---------------------------------------------------------------------

pub(crate) fn text2(a: &str, b: &str) -> (r: String)
    ensures
        r@ == a@ + b@,
{
    let mut out = chars_of(a);
    append_chars(&mut out, &chars_of(b));
    string_of(&out)
}

pub(crate) fn lit(a: &str) -> (r: String)
    ensures
        r@ == a@,
{
    string_of(&chars_of(a))
}

fn trimmed(s: &str) -> (r: String)
    ensures
        r@ == trim(s@),
{
    string_of(&trim_chars(&chars_of(s)))
}

fn same_name(a: &Option<String>, b: &str) -> (r: bool)
    ensures
        r == (a matches Some(x) && x@ == b@),
{
    match a {
        Some(x) => {
            let xs = chars_of(x.as_str());
            let bs = chars_of(b);
            vec_eq(&xs, &bs)
        },
        None => false,
    }
}

fn vec_eq(a: &Vec<char>, b: &Vec<char>) -> (r: bool)
    ensures
        r == (a@ == b@),
{
    if a.len() != b.len() {
        return false;
    }
    let mut i: usize = 0;
    while i < a.len()
        invariant
            a.len() == b.len(),
            i <= a.len(),
            forall|j: int| 0 <= j < i ==> a@[j] == b@[j],
        decreases a.len() - i,
    {
        if a[i] != b[i] {
            return false;
        }
        i += 1;
    }
    assert(a@ =~= b@);
    true
}

fn find_name<D>(list: &Vec<Bookmark<D>>, name: &str) -> (r: Option<usize>)
    ensures
        match index_of_name(list@, name@) {
            Some(i) => r == Some(i as usize),
            None => r is None,
        },
{
    let mut i: usize = 0;
    while i < list.len()
        invariant
            i <= list@.len(),
            index_of_name(list@.take(i as int), name@) is None,
        decreases list@.len() - i,
    {
        let same = vec_eq(&chars_of(list[i].name.as_str()), &chars_of(name));
        proof {
            assert(list@.take(i + 1).drop_last() =~= list@.take(i as int));
            assert(list@.take(i + 1).last() == list@[i as int]);
        }
        if same {
            proof {
                lemma_index_of_name_prefix(list@, i as int + 1);
            }
            return Some(i);
        }
        i += 1;
    }
    assert(list@.take(list@.len() as int) =~= list@);
    None
}

proof fn lemma_index_of_name_prefix<D>(list: Seq<Bookmark<D>>, k: int)
    requires
        0 < k <= list.len(),
        index_of_name(list.take(k - 1), list[k - 1].name@) is None,
    ensures
        index_of_name(list, list[k - 1].name@) == Some(k - 1),
    decreases list.len() - k,
{
    let name = list[k - 1].name@;
    assert(list.take(k).drop_last() =~= list.take(k - 1));
    assert(index_of_name(list.take(k), name) == Some(k - 1));
    lemma_index_of_name_extend(list, k, name);
}

proof fn lemma_index_of_name_extend<D>(list: Seq<Bookmark<D>>, k: int, name: Seq<char>)
    requires
        0 <= k <= list.len(),
        index_of_name(list.take(k), name) is Some,
    ensures
        index_of_name(list, name) == index_of_name(list.take(k), name),
    decreases list.len() - k,
{
    if k == list.len() {
        assert(list.take(k) =~= list);
    } else {
        assert(list.take(k + 1).drop_last() =~= list.take(k));
        lemma_index_of_name_extend(list, k + 1, name);
    }
}

impl<D: Copy> App<D> {
    /// The application state over the loaded melodies and bindings: the
    /// first melody hovered and loaded, the ready hint shown.
    pub fn new(
        bookmarks: Vec<Bookmark<D>>,
        hotkeys: HotkeyConfig,
        notif_config: NotificationConfig,
        process_config: ProcessConfig,
        default_delay: D,
    ) -> (r: App<D>)
        ensures
            r.bookmarks@ == bookmarks@,
            r.selected == (if bookmarks@.len() > 0 { Some(0usize) } else { None }),
            bookmarks@.len() > 0 ==> {
                &&& r.notes@ == bookmarks@[0].notes@
                &&& r.between_keys == bookmarks@[0].between_keys
                &&& r.between_lines == bookmarks@[0].between_lines
                &&& r.current_name matches Some(c) && c@ == bookmarks@[0].name@
            },
            bookmarks@.len() == 0 ==> r.notes@.len() == 0 && r.between_keys == default_delay
                && r.between_lines == default_delay && r.current_name is None,
            r.mode == Mode::Normal,
            r.input@.len() == 0 && r.input_keys@.len() == 0 && r.input_lines@.len() == 0,
            r.delay_field == 0,
            r.edit_focus == EditFocus::Notes,
            r.creating is None && r.editing is None,
            r.settings_selected == 0 && !r.settings_inside && r.settings_item == 0,
            r.hotkeys == hotkeys,
            r.notif_config == notif_config,
            r.process_config == process_config,
            r.active_window is None,
            r.focused,
            r.status@ == ready_hint_spec(hotkeys),
            !r.playing && !r.audio_playing && r.countdown is None,
            r.progress == (0usize, 0usize),
            r.play_notes@.len() == 0 && r.spans@.len() == 0 && r.play_event == 0,
            !r.should_quit,
    {
        let nonempty = bookmarks.len() > 0;
        let mut app = App {
            bookmarks,
            selected: if nonempty {
                Some(0)
            } else {
                None
            },
            notes: String::new(),
            between_keys: default_delay,
            between_lines: default_delay,
            current_name: None,
            mode: Mode::Normal,
            input: String::new(),
            input_keys: String::new(),
            input_lines: String::new(),
            delay_field: 0,
            edit_focus: EditFocus::Notes,
            creating: None,
            editing: None,
            settings_selected: 0,
            settings_inside: false,
            settings_item: 0,
            hotkeys,
            notif_config,
            process_config,
            active_window: None,
            focused: true,
            status: String::new(),
            playing: false,
            audio_playing: false,
            countdown: None,
            progress: (0, 0),
            play_notes: String::new(),
            spans: Vec::new(),
            play_event: 0,
            should_quit: false,
        };
        if nonempty {
            app.load_bookmark(0);
        }
        app.status = app.ready_hint();
        app
    }

    /// The hint with the current bindings.
    pub fn ready_hint(&self) -> (r: String)
        ensures
            r@ == ready_hint_spec(self.hotkeys),
    {
        let start = self.hotkeys.start.label();
        let stop = self.hotkeys.stop.label();
        let mut out = chars_of("Готово. ");
        append_chars(&mut out, &chars_of(start.as_str()));
        append_chars(&mut out, &chars_of(" — старт, "));
        append_chars(&mut out, &chars_of(stop.as_str()));
        append_chars(&mut out, &chars_of(" — стоп."));
        string_of(&out)
    }

    /// The hovered index.
    pub fn selected(&self) -> (r: Option<usize>)
        ensures
            r == self.selected,
    {
        self.selected
    }

    /// Hovers the next melody, wrapping around.
    pub fn select_next(&mut self)
        requires
            old(self).bookmarks@.len() > 0 ==> (old(self).selected matches Some(i) ==> i < usize::MAX),
        ensures
            *final(self) == old(self).after_select_next(),
    {
        if self.bookmarks.len() == 0 {
            return;
        }
        let i = match self.selected {
            Some(i) => (i + 1) % self.bookmarks.len(),
            None => 0,
        };
        self.selected = Some(i);
    }

    /// Hovers the previous melody, wrapping around.
    pub fn select_prev(&mut self)
        ensures
            *final(self) == old(self).after_select_prev(),
    {
        if self.bookmarks.len() == 0 {
            return;
        }
        let i = match self.selected {
            Some(0) | None => self.bookmarks.len() - 1,
            Some(i) => i - 1,
        };
        self.selected = Some(i);
    }

    /// The hovered melody: editing, deleting and testing work on it.
    pub fn selected_bookmark(&self) -> (r: Option<&Bookmark<D>>)
        ensures
            match self.selected {
                Some(i) => if i < self.bookmarks@.len() {
                    r == Some(&self.bookmarks@[i as int])
                } else {
                    r is None
                },
                None => r is None,
            },
    {
        match self.selected {
            Some(i) => if i < self.bookmarks.len() {
                Some(&self.bookmarks[i])
            } else {
                None
            },
            None => None,
        }
    }

    /// Loads a melody: the global start plays it.
    pub fn load_bookmark(&mut self, idx: usize)
        ensures
            idx >= old(self).bookmarks@.len() ==> *final(self) == *old(self),
            idx < old(self).bookmarks@.len() ==> *final(self) == old(self).after_load(
                idx as int,
                final(self).status,
            ),
            idx < old(self).bookmarks@.len() ==> final(self).status@ == "Заряжено (играет старт): "@
                + old(self).bookmarks@[idx as int].name@,
    {
        if idx < self.bookmarks.len() {
            let b = self.bookmarks[idx].duplicate();
            self.notes = b.notes;
            self.between_keys = b.between_keys;
            self.between_lines = b.between_lines;
            self.status = text2("Заряжено (играет старт): ", b.name.as_str());
            self.current_name = Some(b.name);
        }
    }

    /// Opens the edit window for the hovered melody.  The interface then
    /// fills the note editor and the pause buffers from that melody.
    pub fn begin_edit(&mut self)
        ensures
            old(self).hovered() is Some ==> *final(self) == old(self).after_begin_edit(),
            old(self).hovered() is None ==> *final(self) == old(self).with_status(final(self).status),
            old(self).hovered() is None ==> final(self).status@ == "Нет закладки для правки."@,
    {
        let b = match self.selected_bookmark() {
            Some(b) => b.duplicate(),
            None => {
                self.status = lit("Нет закладки для правки.");
                return;
            },
        };
        self.input = b.name.clone();
        self.delay_field = 0;
        self.edit_focus = EditFocus::Delays;
        self.creating = None;
        self.editing = Some(b.name);
        self.mode = Mode::Edit;
    }

    /// Starts creating a melody: the edit window with empty notes (the
    /// interface clears the note editor).
    pub fn begin_create(&mut self, name: String)
        ensures
            trim(name@).len() == 0 ==> *final(self) == old(self).with_status(
                final(self).status,
            ).with_mode(Mode::Normal),
            trim(name@).len() == 0 ==> final(self).status@ == "Имя не может быть пустым"@,
            trim(name@).len() > 0 ==> *final(self) == old(self).after_begin_create(*final(self)),
            trim(name@).len() > 0 ==> final(self).input@ == trim(name@),
            trim(name@).len() > 0 ==> final(self).input_keys@ == "0.110"@,
            trim(name@).len() > 0 ==> final(self).input_lines@ == "0.110"@,
            trim(name@).len() > 0 ==> (final(self).creating matches Some(c) && c@ == trim(name@)),
    {
        let name = trimmed(name.as_str());
        if name.as_str().is_empty() {
            self.status = lit("Имя не может быть пустым");
            self.mode = Mode::Normal;
            return;
        }
        self.input = name.clone();
        self.input_keys = lit("0.110");
        self.input_lines = lit("0.110");
        self.delay_field = 0;
        self.edit_focus = EditFocus::Notes;
        self.creating = Some(name);
        self.editing = None;
        self.mode = Mode::Edit;
    }

    /// Closes the edit window without saving.
    pub fn cancel_edit(&mut self)
        ensures
            *final(self) == old(self).after_cancel_edit(final(self).status),
            final(self).status@ == "Правка отменена."@,
    {
        self.creating = None;
        self.editing = None;
        self.mode = Mode::Normal;
        self.status = lit("Правка отменена.");
    }

    /// Flips whether the global start hotkey is listened to.
    pub fn toggle_focus(&mut self)
        ensures
            *final(self) == old(self).with_status(final(self).status).with_focus(!old(self).focused),
            final(self).status@ == if !old(self).focused {
                "FOCUSED — старт-хоткей активен."@
            } else {
                "UNFOCUSED — старт-хоткей отключён (стоп работает)."@
            },
    {
        self.focused = !self.focused;
        self.status = if self.focused {
            lit("FOCUSED — старт-хоткей активен.")
        } else {
            lit("UNFOCUSED — старт-хоткей отключён (стоп работает).")
        };
    }
}


/// A name found in the list has a first position.
proof fn lemma_index_of_name_found<D>(list: Seq<Bookmark<D>>, name: Seq<char>, k: int)
    requires
        0 <= k < list.len(),
        list[k].name@ == name,
    ensures
        index_of_name(list, name) matches Some(i) && 0 <= i <= k && list[i].name@ == name,
    decreases list.len(),
{
    if k < list.len() - 1 {
        assert(list.drop_last()[k] == list[k]);
        lemma_index_of_name_found(list.drop_last(), name, k);
    } else {
        lemma_index_of_name_valid(list.drop_last(), name);
    }
}

/// A position [`index_of_name`] gives holds that name.
proof fn lemma_index_of_name_valid<D>(list: Seq<Bookmark<D>>, name: Seq<char>)
    ensures
        index_of_name(list, name) matches Some(i) ==> 0 <= i < list.len() && list[i].name@ == name,
    decreases list.len(),
{
    if list.len() > 0 {
        lemma_index_of_name_valid(list.drop_last(), name);
    }
}

/// The list with `b` in place of the first melody of its name, or added.
fn put_in<D: Copy>(list: Vec<Bookmark<D>>, b: Bookmark<D>) -> (r: Vec<Bookmark<D>>)
    ensures
        r@ == put_bookmark(list@, b),
{
    let mut list = list;
    match find_name(&list, b.name.as_str()) {
        Some(i) => {
            proof {
                lemma_index_of_name_valid(list@, b.name@);
            }
            list.set(i, b);
        },
        None => {
            list.push(b);
        },
    }
    list
}


/// After a successful save the saved melody is in the list and hovered:
/// what was written is what the list shows under its name.
pub proof fn lemma_saved_is_hovered<D>(app: App<D>, b: Bookmark<D>, r: App<D>)
    requires
        app.is_after_store(b, r),
    ensures
        r.bookmarks@.contains(b),
        r.hovered() matches Some(h) && h.name@ == b.name@,
{
    let put = put_bookmark(app.bookmarks@, b);
    let list = sorted_by_name(put);
    match index_of_name(app.bookmarks@, b.name@) {
        Some(i) => {
            lemma_index_of_name_valid(app.bookmarks@, b.name@);
            assert(put[i] == b);
        },
        None => {
            assert(put[put.len() - 1] == b);
        },
    }
    assert(put.contains(b));
    lemma_sorted_by_name(put);
    put.to_multiset_ensures();
    list.to_multiset_ensures();
    assert(put.to_multiset().count(b) > 0);
    assert(list.to_multiset().count(b) > 0);
    assert(list.contains(b));
    let k = choose|k: int| 0 <= k < list.len() && list[k] == b;
    lemma_index_of_name_found(list, b.name@, k);
    lemma_index_of_name_valid(list, b.name@);
    vstd::std_specs::vec::axiom_spec_len(&r.bookmarks);
}


/// Moving the hover down and then up (or up and then down) comes back to
/// the same melody.
pub proof fn lemma_select_next_prev<D>(app: App<D>)
    requires
        app.selected matches Some(i) && i < app.bookmarks@.len(),
    ensures
        app.after_select_next().after_select_prev().selected == app.selected,
        app.after_select_prev().after_select_next().selected == app.selected,
{
    let n = app.bookmarks@.len() as int;
    let i = app.selected->0 as int;
    vstd::std_specs::vec::axiom_spec_len(&app.bookmarks);
    assert((i + 1) % n == if i + 1 == n { 0 } else { i + 1 }) by (nonlinear_arith)
        requires 0 <= i < n;
    let j = if i == 0 { n - 1 } else { i - 1 };
    assert((j + 1) % n == i) by (nonlinear_arith)
        requires 0 <= i < n, j == (if i == 0 { n - 1 } else { i - 1 });
}


/// Every melody of the list after a save was in the list before, or is
/// the saved one.
proof fn lemma_store_members<D>(list: Seq<Bookmark<D>>, b: Bookmark<D>, x: Bookmark<D>)
    requires
        sorted_by_name(put_bookmark(list, b)).contains(x),
    ensures
        x == b || list.contains(x),
{
    let put = put_bookmark(list, b);
    let sorted = sorted_by_name(put);
    lemma_sorted_by_name(put);
    put.to_multiset_ensures();
    sorted.to_multiset_ensures();
    assert(sorted.to_multiset().count(x) > 0);
    assert(put.contains(x));
    let j = choose|j: int| 0 <= j < put.len() && put[j] == x;
    match index_of_name(list, b.name@) {
        Some(i) => {
            lemma_index_of_name_valid(list, b.name@);
            if j != i {
                assert(put[j] == list[j]);
            }
        },
        None => {
            if j < list.len() {
                assert(put[j] == list[j]);
            }
        },
    }
}

/// Renaming in the edit window and saving: the list then holds the melody
/// under its new name and none under the old one.
pub proof fn lemma_rename_replaces<D>(
    app: App<D>,
    notes: String,
    between_keys: D,
    between_lines: D,
    plan: StorePlan<D>,
    mid: App<D>,
    r: App<D>,
)
    requires
        app.renames(),
        app.is_commit_plan(plan, notes, between_keys, between_lines),
        app.is_after_commit(mid),
        mid.is_after_store(plan.save, r),
    ensures
        r.bookmarks@.contains(plan.save),
        forall|i: int| 0 <= i < r.bookmarks@.len() ==> (#[trigger] r.bookmarks@[i]).name@ != app.editing->0@,
{
    let old_name = app.editing->0@;
    lemma_saved_is_hovered(mid, plan.save, r);
    let kept = without_name(app.bookmarks@, old_name);
    assert(mid.bookmarks@ == kept);
    assert forall|i: int| 0 <= i < r.bookmarks@.len() implies (#[trigger] r.bookmarks@[i]).name@ != old_name by {
        let x = r.bookmarks@[i];
        assert(r.bookmarks@.contains(x));
        lemma_store_members(kept, plan.save, x);
        if x != plan.save {
            let k = choose|k: int| 0 <= k < kept.len() && kept[k] == x;
            broadcast use vstd::seq_lib::group_filter_ensures;
            assert(kept[k].name@ != old_name);
        }
    }
}


/// A successful save into a list with unique names: names stay unique and
/// sorted, the melody of that name is now exactly the saved one (its notes
/// and pauses) and is hovered, every other melody is kept as it was, and
/// the loaded notes and pauses follow the save exactly when that melody is
/// the loaded one.
pub proof fn lemma_store_keeps_names_unique<D>(app: App<D>, b: Bookmark<D>, r: App<D>)
    requires
        app.is_after_store(b, r),
        unique_names(app.bookmarks@),
    ensures
        unique_names(r.bookmarks@),
        name_ordered(r.bookmarks@),
        r.hovered() == Some(b),
        forall|i: int| 0 <= i < r.bookmarks@.len() && (#[trigger] r.bookmarks@[i]).name@ == b.name@ ==> r.bookmarks@[i] == b,
        forall|x: Bookmark<D>| r.bookmarks@.contains(x) && x.name@ != b.name@ ==> app.bookmarks@.contains(x),
        forall|x: Bookmark<D>| app.bookmarks@.contains(x) && x.name@ != b.name@ ==> r.bookmarks@.contains(x),
        r.current_name == app.current_name,
        is_current(app, b.name@) ==> r.notes == b.notes && r.between_keys == b.between_keys
            && r.between_lines == b.between_lines,
        !is_current(app, b.name@) ==> r.notes == app.notes && r.between_keys == app.between_keys
            && r.between_lines == app.between_lines,
{
    let list = app.bookmarks@;
    let put = put_bookmark(list, b);
    let sorted = sorted_by_name(put);
    lemma_saved_is_hovered(app, b, r);
    lemma_sorted_by_name(put);
    put.to_multiset_ensures();
    sorted.to_multiset_ensures();
    match index_of_name(list, b.name@) {
        Some(i) => {
            lemma_index_of_name_valid(list, b.name@);
            assert forall|p: int, q: int| 0 <= p < q < put.len() implies (#[trigger] put[p]).name@ != (#[trigger] put[q]).name@ by {
                assert(put[p].name@ == list[p].name@ && put[q].name@ == list[q].name@);
            }
        },
        None => {
            assert forall|k: int| 0 <= k < list.len() implies (#[trigger] list[k]).name@ != b.name@ by {
                if list[k].name@ == b.name@ {
                    lemma_index_of_name_found(list, b.name@, k);
                }
            }
            assert forall|p: int, q: int| 0 <= p < q < put.len() implies (#[trigger] put[p]).name@ != (#[trigger] put[q]).name@ by {
                assert(put[p] == list[p]);
                if q < list.len() {
                    assert(put[q] == list[q]);
                }
            }
        },
    }
    lemma_sort_keeps_names_unique(put);
    assert(sorted.contains(b));
    let kb = choose|k: int| 0 <= k < sorted.len() && sorted[k] == b;
    assert forall|i: int| 0 <= i < sorted.len() && (#[trigger] sorted[i]).name@ == b.name@ implies sorted[i] == b by {
        if i != kb {
            if i < kb {
                assert(sorted[i].name@ != sorted[kb].name@);
            } else {
                assert(sorted[kb].name@ != sorted[i].name@);
            }
        }
    }
    assert forall|x: Bookmark<D>| sorted.contains(x) && x.name@ != b.name@ implies list.contains(x) by {
        lemma_store_members(list, b, x);
    }
    assert forall|x: Bookmark<D>| list.contains(x) && x.name@ != b.name@ implies sorted.contains(x) by {
        let j = choose|j: int| 0 <= j < list.len() && list[j] == x;
        match index_of_name(list, b.name@) {
            Some(i) => {
                lemma_index_of_name_valid(list, b.name@);
                assert(j != i);
                assert(put[j] == x);
            },
            None => {
                assert(put[j] == x);
            },
        }
        assert(put.contains(x));
        assert(put.to_multiset().count(x) > 0);
        assert(sorted.to_multiset().count(x) > 0);
    }
}

/// The list without the melodies named `name`.
fn drop_named<D: Copy>(list: &Vec<Bookmark<D>>, name: &str) -> (r: Vec<Bookmark<D>>)
    ensures
        r@ == without_name(list@, name@),
{
    let ghost keep = |b: Bookmark<D>| b.name@ != name@;
    let mut out: Vec<Bookmark<D>> = Vec::new();
    let mut i: usize = 0;
    assert(list@.take(0).filter(keep) =~= Seq::<Bookmark<D>>::empty());
    while i < list.len()
        invariant
            i <= list@.len(),
            keep == (|b: Bookmark<D>| b.name@ != name@),
            out@ == list@.take(i as int).filter(keep),
        decreases list@.len() - i,
    {
        let same = vec_eq(&chars_of(list[i].name.as_str()), &chars_of(name));
        proof {
            assert(list@.take(i + 1) =~= list@.take(i as int).push(list@[i as int]));
            list@.take(i as int).lemma_filter_push(list@[i as int], keep);
        }
        if !same {
            out.push(list[i].duplicate());
        }
        i += 1;
    }
    assert(list@.take(list@.len() as int) =~= list@);
    out
}

impl<D> App<D> {
    /// The fields a save touches taken from `r`.
    pub open spec fn with_store_fields(self, r: App<D>) -> App<D> {
        App {
            bookmarks: r.bookmarks,
            selected: r.selected,
            notes: r.notes,
            between_keys: r.between_keys,
            between_lines: r.between_lines,
            status: r.status,
            ..self
        }
    }

    /// The fields a deletion touches taken from `r`.
    pub open spec fn with_delete_fields(self, r: App<D>) -> App<D> {
        App {
            bookmarks: r.bookmarks,
            selected: r.selected,
            notes: r.notes,
            current_name: r.current_name,
            status: r.status,
            ..self
        }
    }

    /// The state with other bindings.
    pub open spec fn with_hotkeys(self, h: HotkeyConfig) -> App<D> {
        App { hotkeys: h, ..self }
    }

    /// The hover is on a melody or nowhere.
    pub open spec fn selection_valid(self) -> bool {
        self.selected matches Some(i) ==> i < self.bookmarks@.len()
    }
}

/// The status after saving the bindings: an error, or the new bindings.
pub open spec fn hotkeys_status(reset: bool, h: HotkeyConfig, saved: Result<(), String>) -> Seq<char> {
    match saved {
        Err(e) => "Ошибка сохранения конфига: "@ + e@,
        Ok(_) => (if reset {
            "Хоткеи сброшены: старт "@
        } else {
            "Хоткей обновлён: старт "@
        }) + hotkey_label(h.start) + ", стоп "@ + hotkey_label(h.stop),
    }
}

impl<D> App<D> {
    /// The name the edit window saves under.
    pub open spec fn edited_name(self) -> Seq<char> {
        trim(self.input@)
    }

    /// Whether saving the edit window renames a melody.
    pub open spec fn renames(self) -> bool {
        self.editing matches Some(o) && o@ != self.edited_name()
    }

    /// Whether `plan` is what saving the edit window asks to store: the old
    /// file to delete on a rename, and the melody under its new name.
    pub open spec fn is_commit_plan(self, plan: StorePlan<D>, notes: String, between_keys: D, between_lines: D) -> bool {
        &&& plan.delete == (if self.renames() { self.editing } else { None })
        &&& plan.save.name@ == self.edited_name()
        &&& plan.save.notes == notes
        &&& plan.save.between_keys == between_keys
        &&& plan.save.between_lines == between_lines
    }

    /// Whether `r` is the state after saving the edit window: the window
    /// closed, and on a rename the old name gone from the list and the
    /// loaded name following the rename.
    pub open spec fn is_after_commit(self, r: App<D>) -> bool {
        let renamed = self.renames();
        let old_name = self.editing->0@;
        &&& r == (App {
            creating: None,
            editing: None,
            mode: Mode::Normal,
            bookmarks: r.bookmarks,
            current_name: r.current_name,
            ..self
        })
        &&& (renamed ==> r.bookmarks@ == without_name(self.bookmarks@, old_name))
        &&& (!renamed ==> r.bookmarks == self.bookmarks)
        &&& (renamed && is_current(self, old_name) ==> (r.current_name matches Some(c) && c@ == self.edited_name()))
        &&& (!(renamed && is_current(self, old_name)) ==> r.current_name == self.current_name)
    }
}

impl<D> App<D> {
    /// Whether `r` is the state after `b` was saved: `b` replaces the melody
    /// of its name (or joins the list), the list is sorted by name, the hover
    /// moves to it, and the loaded copy follows it when it is loaded.
    pub open spec fn is_after_store(self, b: Bookmark<D>, r: App<D>) -> bool {
        let list = sorted_by_name(put_bookmark(self.bookmarks@, b));
        let current = is_current(self, b.name@);
        &&& r == self.with_store_fields(r)
        &&& r.bookmarks@ == list
        &&& r.selected == (match index_of_name(list, b.name@) {
            Some(i) => Some(i as usize),
            None => self.selected,
        })
        &&& r.notes == (if current { b.notes } else { self.notes })
        &&& r.between_keys == (if current { b.between_keys } else { self.between_keys })
        &&& r.between_lines == (if current { b.between_lines } else { self.between_lines })
        &&& r.status@ == "Сохранено в Documents/Pianzo/tracks: "@ + b.name@
    }
}

impl<D> App<D> {
    /// Whether `r` is the state after deleting the hovered melody: gone from
    /// the list, the hover kept in range, the melody unloaded if loaded.
    pub open spec fn is_after_delete(self, r: App<D>) -> bool {
        let b = self.hovered()->0;
        let idx = self.selected->0;
        let rest = self.bookmarks@.remove(idx as int);
        &&& r == self.with_delete_fields(r)
        &&& r.bookmarks@ == rest
        &&& r.selected == (if rest.len() == 0 {
            None
        } else if idx < rest.len() {
            Some(idx)
        } else {
            Some((rest.len() - 1) as usize)
        })
        &&& (is_current(self, b.name@) ==> r.current_name is None && r.notes@.len() == 0)
        &&& (!is_current(self, b.name@) ==> r.current_name == self.current_name && r.notes == self.notes)
        &&& r.status@ == "Удалено: "@ + b.name@
    }
}

/// `b` is `orig` under the name `name`.
pub open spec fn renamed_copy<D>(b: Bookmark<D>, orig: Bookmark<D>, name: Seq<char>) -> bool {
    &&& b.name@ == name
    &&& b.notes == orig.notes
    &&& b.between_keys == orig.between_keys
    &&& b.between_lines == orig.between_lines
}

impl<D: Copy> App<D> {
    /// Saves the edit window: an empty (trimmed) name keeps the window open
    /// with a message; otherwise the window closes, a renamed melody leaves
    /// the list (and the loaded name follows it), and the returned plan says
    /// which file to delete and which melody to save (see [`App::store_saved`]).
    pub fn commit_edit(&mut self, notes: String, between_keys: D, between_lines: D) -> (r: Option<StorePlan<D>>)
        ensures
            trim(old(self).input@).len() == 0 ==> r is None,
            trim(old(self).input@).len() == 0 ==> *final(self) == old(self).with_status(final(self).status),
            trim(old(self).input@).len() == 0 ==> final(self).status@ == "Имя не может быть пустым — исправь и сохрани."@,
            trim(old(self).input@).len() > 0 ==> (r matches Some(plan) && old(self).is_commit_plan(plan, notes, between_keys, between_lines)),
            trim(old(self).input@).len() > 0 ==> old(self).is_after_commit(*final(self)),
    {
        let new_name = trimmed(self.input.as_str());
        if new_name.as_str().is_empty() {
            self.status = lit("Имя не может быть пустым — исправь и сохрани.");
            return None;
        }
        let creating = self.creating.take();
        let editing = self.editing.take();
        let _ = creating;
        let mut delete: Option<String> = None;
        if let Some(orig) = editing {
            if !vec_eq(&chars_of(orig.as_str()), &chars_of(new_name.as_str())) {
                let kept = drop_named(&self.bookmarks, orig.as_str());
                self.bookmarks = kept;
                if same_name(&self.current_name, orig.as_str()) {
                    self.current_name = Some(new_name.clone());
                }
                delete = Some(orig);
            }
        }
        self.mode = Mode::Normal;
        Some(
            StorePlan {
                delete,
                save: Bookmark { name: new_name, notes, between_keys, between_lines },
            },
        )
    }

    /// Saves the hovered melody under another (trimmed) name: returns the
    /// melody to save, or `None` with a message when nothing is hovered or
    /// the name is empty.
    pub fn save_hovered_as(&mut self, name: String) -> (r: Option<Bookmark<D>>)
        ensures
            old(self).hovered() is None ==> r is None,
            old(self).hovered() is None ==> *final(self) == old(self).with_status(final(self).status),
            old(self).hovered() is None ==> final(self).status@ == "Нет закладки для сохранения."@,
            old(self).hovered() is Some && trim(name@).len() == 0 ==> r is None,
            old(self).hovered() is Some && trim(name@).len() == 0 ==> *final(self) == old(self).with_status(final(self).status),
            old(self).hovered() is Some && trim(name@).len() == 0 ==> final(self).status@ == "Имя закладки не может быть пустым"@,
            old(self).hovered() is Some && trim(name@).len() > 0 ==> *final(self) == *old(self),
            old(self).hovered() is Some && trim(name@).len() > 0 ==> (r matches Some(b) && renamed_copy(b, old(self).hovered()->0, trim(name@))),
    {
        let b = match self.selected_bookmark() {
            Some(b) => b.duplicate(),
            None => {
                self.status = lit("Нет закладки для сохранения.");
                return None;
            },
        };
        let name = trimmed(name.as_str());
        if name.as_str().is_empty() {
            self.status = lit("Имя закладки не может быть пустым");
            return None;
        }
        Some(
            Bookmark {
                name,
                notes: b.notes,
                between_keys: b.between_keys,
                between_lines: b.between_lines,
            },
        )
    }

    /// Records the outcome of saving a melody: on failure only the message;
    /// on success the melody replaces the one of its name (or joins the
    /// list), the list is sorted by name, the hover moves to it, and the
    /// loaded copy follows it when it is the loaded melody.
    pub fn store_saved(&mut self, b: Bookmark<D>, saved: Result<(), String>)
        ensures
            saved matches Err(e) ==> *final(self) == old(self).with_status(final(self).status),
            saved matches Err(e) ==> final(self).status@ == "Ошибка сохранения: "@ + e@,
            saved is Ok ==> old(self).is_after_store(b, *final(self)),
    {
        if let Err(e) = saved {
            self.status = text2("Ошибка сохранения: ", e.as_str());
            return;
        }
        let ghost before = *self;
        let name = b.name.clone();
        let mut list: Vec<Bookmark<D>> = Vec::new();
        std::mem::swap(&mut list, &mut self.bookmarks);
        let list = put_in(list, b.duplicate());
        let sorted = sort_by_name(list);
        let selected = match find_name(&sorted, name.as_str()) {
            Some(idx) => Some(idx),
            None => self.selected,
        };
        let current = same_name(&self.current_name, name.as_str());
        self.bookmarks = sorted;
        self.selected = selected;
        if current {
            self.notes = b.notes;
            self.between_keys = b.between_keys;
            self.between_lines = b.between_lines;
        }
        self.status = text2("Сохранено в Documents/Pianzo/tracks: ", name.as_str());
        assert(before.is_after_store(b, *self));
    }

    /// Deletes the hovered melody from the list and returns its name (its
    /// file is the interface's to delete); unloads it if it was loaded.
    pub fn delete_selected(&mut self) -> (r: Option<String>)
        ensures
            old(self).hovered() is None ==> r is None && *final(self) == *old(self),
            old(self).hovered() matches Some(b) ==> (r matches Some(n) && n == b.name),
            old(self).hovered() is Some ==> old(self).is_after_delete(*final(self)),
    {
        if let Some(idx) = self.selected {
            if idx < self.bookmarks.len() {
                let removed = self.bookmarks.remove(idx);
                if same_name(&self.current_name, removed.name.as_str()) {
                    self.current_name = None;
                    self.notes = String::new();
                }
                self.status = text2("Удалено: ", removed.name.as_str());
                if self.bookmarks.len() == 0 {
                    self.selected = None;
                } else if idx < self.bookmarks.len() {
                    self.selected = Some(idx);
                } else {
                    self.selected = Some(self.bookmarks.len() - 1);
                }
                return Some(removed.name);
            }
        }
        None
    }

    /// The active pause buffer (0: between keys, 1: between lines).
    pub fn active_delay_buf(&mut self) -> (r: &mut String)
        ensures
            *r == (if old(self).delay_field == 0 {
                old(self).input_keys
            } else {
                old(self).input_lines
            }),
            old(self).delay_field == 0 ==> *final(self) == (App { input_keys: *final(r), ..*old(self) }),
            old(self).delay_field != 0 ==> *final(self) == (App { input_lines: *final(r), ..*old(self) }),
    {
        if self.delay_field == 0 {
            &mut self.input_keys
        } else {
            &mut self.input_lines
        }
    }

    /// Rebinds start (or stop) and returns the bindings to save.
    pub fn set_hotkey(&mut self, start: bool, spec: HotkeySpec) -> (r: HotkeyConfig)
        ensures
            r == (if start {
                HotkeyConfig { start: spec, ..old(self).hotkeys }
            } else {
                HotkeyConfig { stop: spec, ..old(self).hotkeys }
            }),
            *final(self) == old(self).with_hotkeys(r),
    {
        if start {
            self.hotkeys.start = spec;
        } else {
            self.hotkeys.stop = spec;
        }
        self.hotkeys
    }

    /// Resets the bindings to the defaults and returns them to save.
    pub fn reset_hotkeys(&mut self) -> (r: HotkeyConfig)
        ensures
            r == default_hotkeys(),
            *final(self) == old(self).with_hotkeys(r),
    {
        self.hotkeys = HotkeyConfig::default();
        self.hotkeys
    }

    /// Reports the outcome of saving the bindings (`reset`: after a reset).
    pub fn report_hotkeys(&mut self, reset: bool, saved: Result<(), String>)
        ensures
            *final(self) == old(self).with_status(final(self).status),
            final(self).status@ == hotkeys_status(reset, old(self).hotkeys, saved),
    {
        match saved {
            Err(e) => {
                self.status = text2("Ошибка сохранения конфига: ", e.as_str());
            },
            Ok(()) => {
                let mut out = if reset {
                    chars_of("Хоткеи сброшены: старт ")
                } else {
                    chars_of("Хоткей обновлён: старт ")
                };
                let s = self.hotkeys.start.label();
                let t = self.hotkeys.stop.label();
                append_chars(&mut out, &chars_of(s.as_str()));
                append_chars(&mut out, &chars_of(", стоп "));
                append_chars(&mut out, &chars_of(t.as_str()));
                self.status = string_of(&out);
            },
        }
    }
}
} // verus!

//! Desktop notification settings and the notices the player sends.
//!
//! Showing a notice is the application's business; this module decides the
//! settings and the text of each notice.
use vstd::prelude::*;
use crate::text::{append_chars, chars_of, replace_all, replace_chars, string_of};

verus! {

/// Which notifications are wanted.
#[derive(Clone, Copy, Debug)]
pub struct NotificationConfig {
    pub enabled: bool,
    pub on_playing: bool,
    pub on_stopped: bool,
    pub on_finished: bool,
    pub on_error: bool,
}

impl Default for NotificationConfig {
    fn default() -> (r: NotificationConfig)
        ensures
            r == (NotificationConfig {
                enabled: true,
                on_playing: true,
                on_stopped: true,
                on_finished: true,
                on_error: true,
            }),
    {
        NotificationConfig {
            enabled: true,
            on_playing: true,
            on_stopped: true,
            on_finished: true,
            on_error: true,
        }
    }
}

impl NotificationConfig {
    /// Some individual notification is on.
    pub open spec fn spec_any_individual(self) -> bool {
        self.on_playing || self.on_stopped || self.on_finished || self.on_error
    }

    /// A disabled configuration has every individual notification off.
    pub open spec fn quiet_when_disabled(self) -> bool {
        !self.enabled ==> !self.spec_any_individual()
    }

    /// The master switch flipped: turning it off silences everything;
    /// turning it on with nothing selected selects everything.
    pub open spec fn spec_toggle_global(self) -> NotificationConfig {
        if self.enabled {
            NotificationConfig {
                enabled: false,
                on_playing: false,
                on_stopped: false,
                on_finished: false,
                on_error: false,
            }
        } else if !self.spec_any_individual() {
            NotificationConfig {
                enabled: true,
                on_playing: true,
                on_stopped: true,
                on_finished: true,
                on_error: true,
            }
        } else {
            NotificationConfig { enabled: true, ..self }
        }
    }

    /// "Now playing" flipped; turning it on turns the master switch on.
    pub open spec fn spec_toggle_playing(self) -> NotificationConfig {
        NotificationConfig {
            on_playing: !self.on_playing,
            enabled: if !self.on_playing { true } else { self.enabled },
            ..self
        }
    }

    /// "Stopped" flipped; turning it on turns the master switch on.
    pub open spec fn spec_toggle_stopped(self) -> NotificationConfig {
        NotificationConfig {
            on_stopped: !self.on_stopped,
            enabled: if !self.on_stopped { true } else { self.enabled },
            ..self
        }
    }

    /// "Finished" flipped; turning it on turns the master switch on.
    pub open spec fn spec_toggle_finished(self) -> NotificationConfig {
        NotificationConfig {
            on_finished: !self.on_finished,
            enabled: if !self.on_finished { true } else { self.enabled },
            ..self
        }
    }

    /// "Error" flipped; turning it on turns the master switch on.
    pub open spec fn spec_toggle_error(self) -> NotificationConfig {
        NotificationConfig {
            on_error: !self.on_error,
            enabled: if !self.on_error { true } else { self.enabled },
            ..self
        }
    }

    fn any_individual(&self) -> (r: bool)
        ensures
            r == self.spec_any_individual(),
    {
        self.on_playing || self.on_stopped || self.on_finished || self.on_error
    }

    /// Flips the master switch.
    pub fn toggle_global(&mut self)
        ensures
            *final(self) == old(self).spec_toggle_global(),
    {
        if self.enabled {
            self.enabled = false;
            self.on_playing = false;
            self.on_stopped = false;
            self.on_finished = false;
            self.on_error = false;
        } else {
            self.enabled = true;
            if !self.any_individual() {
                self.on_playing = true;
                self.on_stopped = true;
                self.on_finished = true;
                self.on_error = true;
            }
        }
    }

    /// Flips the "now playing" notification.
    pub fn toggle_playing(&mut self)
        ensures
            *final(self) == old(self).spec_toggle_playing(),
    {
        self.on_playing = !self.on_playing;
        if self.on_playing {
            self.enabled = true;
        }
    }

    /// Flips the "stopped" notification.
    pub fn toggle_stopped(&mut self)
        ensures
            *final(self) == old(self).spec_toggle_stopped(),
    {
        self.on_stopped = !self.on_stopped;
        if self.on_stopped {
            self.enabled = true;
        }
    }

    /// Flips the "finished" notification.
    pub fn toggle_finished(&mut self)
        ensures
            *final(self) == old(self).spec_toggle_finished(),
    {
        self.on_finished = !self.on_finished;
        if self.on_finished {
            self.enabled = true;
        }
    }

    /// Flips the "error" notification.
    pub fn toggle_error(&mut self)
        ensures
            *final(self) == old(self).spec_toggle_error(),
    {
        self.on_error = !self.on_error;
        if self.on_error {
            self.enabled = true;
        }
    }
}

/// Every toggle keeps a disabled configuration silent: if the master switch
/// being off means every notification is off, that stays so.
pub proof fn lemma_toggles_keep_quiet(c: NotificationConfig)
    requires
        c.quiet_when_disabled(),
    ensures
        c.spec_toggle_global().quiet_when_disabled(),
        c.spec_toggle_playing().quiet_when_disabled(),
        c.spec_toggle_stopped().quiet_when_disabled(),
        c.spec_toggle_finished().quiet_when_disabled(),
        c.spec_toggle_error().quiet_when_disabled(),
{
}

/// Switching the master switch on always leaves some notification on, and
/// switching it off leaves none.
pub proof fn lemma_toggle_global_effect(c: NotificationConfig)
    ensures
        c.spec_toggle_global().enabled == !c.enabled,
        !c.enabled ==> c.spec_toggle_global().spec_any_individual(),
        c.enabled ==> !c.spec_toggle_global().spec_any_individual(),
{
}

/// Flipping one notification twice restores it (the master switch may stay on).
pub proof fn lemma_toggle_twice(c: NotificationConfig)
    ensures
        c.spec_toggle_playing().spec_toggle_playing().on_playing == c.on_playing,
        c.spec_toggle_stopped().spec_toggle_stopped().on_stopped == c.on_stopped,
        c.spec_toggle_finished().spec_toggle_finished().on_finished == c.on_finished,
        c.spec_toggle_error().spec_toggle_error().on_error == c.on_error,
        c.enabled ==> c.spec_toggle_playing().spec_toggle_playing() == c,
        c.enabled ==> c.spec_toggle_stopped().spec_toggle_stopped() == c,
        c.enabled ==> c.spec_toggle_finished().spec_toggle_finished() == c,
        c.enabled ==> c.spec_toggle_error().spec_toggle_error() == c,
{
}

/// A desktop notification: title and body.
pub struct Notice {
    pub title: String,
    pub body: String,
}

fn notice(title: &str, body: &str) -> (r: Notice)
    ensures
        r.title@ == title@,
        r.body@ == body@,
{
    Notice { title: string_of(&chars_of(title)), body: string_of(&chars_of(body)) }
}

/// "Now playing" with the melody's name.
pub fn playing(name: &str) -> (r: Notice)
    ensures
        r.title@ == "Сейчас играет"@,
        r.body@ == name@,
{
    notice("Сейчас играет", name)
}

/// "Stopped" with the melody's name.
pub fn stopped(name: &str) -> (r: Notice)
    ensures
        r.title@ == "Остановлено"@,
        r.body@ == name@,
{
    notice("Остановлено", name)
}

/// "Playback finished" with the melody's name.
pub fn finished(name: &str) -> (r: Notice)
    ensures
        r.title@ == "Воспроизведение завершено"@,
        r.body@ == name@,
{
    notice("Воспроизведение завершено", name)
}

/// "Access error": the input permission is missing.
pub fn access_error() -> (r: Notice)
    ensures
        r.title@ == "Ошибка доступа"@,
        r.body@ == "Разрешите Accessibility в System Settings"@,
{
    notice("Ошибка доступа", "Разрешите Accessibility в System Settings")
}

/// `s` with every `"` escaped as `\"`.
pub open spec fn escape_quotes(s: Seq<char>) -> Seq<char> {
    replace_all(s, "\""@, "\\\""@)
}

/// The AppleScript line that shows a notice on macOS.
pub open spec fn apple_script_spec(n: Notice) -> Seq<char> {
    "display notification \""@ + escape_quotes(n.body@) + "\" with title \""@ + escape_quotes(
        n.title@,
    ) + "\""@
}

/// The AppleScript line that shows a notice on macOS.
pub fn apple_script(n: &Notice) -> (r: String)
    ensures
        r@ == apple_script_spec(*n),
{
    let quote = chars_of("\"");
    let escaped = chars_of("\\\"");
    let body = replace_chars(&chars_of(n.body.as_str()), &quote, &escaped);
    let title = replace_chars(&chars_of(n.title.as_str()), &quote, &escaped);
    let mut out = chars_of("display notification \"");
    append_chars(&mut out, &body);
    append_chars(&mut out, &chars_of("\" with title \""));
    append_chars(&mut out, &title);
    append_chars(&mut out, &quote);
    string_of(&out)
}

} // verus!

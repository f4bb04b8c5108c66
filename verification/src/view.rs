//! What the status bar and the notes panel show: texts and their tones
//! (colours are the interface's choice).
use vstd::prelude::*;
use crate::app::App;
use crate::karaoke::current_index;
use crate::parser::TokenSpan;
use crate::processes::{mode_from, ProcessConfig, ProcessMode};
use crate::text::{append_chars, chars_of, decimal, decimal_of, string_of};

verus! {

/// The tone a text is shown in.
#[derive(Clone, Copy, Debug, PartialEq, Eq, Structural)]
pub enum Tone {
    Cyan,
    Green,
    Magenta,
    Red,
    Gray,
}

/// The left part of the status bar: the countdown, the playing progress,
/// the sound test, or the status message.
pub open spec fn status_spec<D>(app: App<D>, volume_pct: u32) -> (Seq<char>, Tone) {
    match app.countdown {
        Some(n) => ("⏳ Старт через "@ + decimal(n as nat) + "…  (переключитесь в нужное окно)"@, Tone::Cyan),
        None => if app.playing {
            ("▶ ВОСПРОИЗВЕДЕНИЕ  "@ + decimal(app.progress.0 as nat) + "/"@ + decimal(app.progress.1 as nat), Tone::Green)
        } else if app.audio_playing {
            ("♪ ТЕСТ  ("@ + decimal(volume_pct as nat) + "%)"@, Tone::Magenta)
        } else {
            ("● "@ + app.status@, Tone::Cyan)
        },
    }
}

/// The left part of the status bar (`volume_pct`: the volume in percent).
pub fn status_text<D>(app: &App<D>, volume_pct: u32) -> (r: (String, Tone))
    ensures
        r.0@ == status_spec(*app, volume_pct).0,
        r.1 == status_spec(*app, volume_pct).1,
{
    match app.countdown {
        Some(n) => {
            let mut out = chars_of("⏳ Старт через ");
            append_chars(&mut out, &decimal_of(n));
            append_chars(&mut out, &chars_of("…  (переключитесь в нужное окно)"));
            (string_of(&out), Tone::Cyan)
        },
        None => {
            if app.playing {
                let mut out = chars_of("▶ ВОСПРОИЗВЕДЕНИЕ  ");
                append_chars(&mut out, &decimal_of(app.progress.0 as u64));
                append_chars(&mut out, &chars_of("/"));
                append_chars(&mut out, &decimal_of(app.progress.1 as u64));
                (string_of(&out), Tone::Green)
            } else if app.audio_playing {
                let mut out = chars_of("♪ ТЕСТ  (");
                append_chars(&mut out, &decimal_of(volume_pct as u64));
                append_chars(&mut out, &chars_of("%)"));
                (string_of(&out), Tone::Magenta)
            } else {
                let mut out = chars_of("● ");
                append_chars(&mut out, &chars_of(app.status.as_str()));
                (string_of(&out), Tone::Cyan)
            }
        },
    }
}

/// The right part of the status bar: an available update first; else,
/// with the window rules on, the active window's name in the tone of its
/// rule (green: tracked, red: ignored, gray: neither); else nothing.
pub open spec fn indicator_spec(update: Option<Seq<char>>, cfg: ProcessConfig, active: Option<String>) -> Option<(Seq<char>, Tone)> {
    match update {
        Some(v) => Some(("↑ v"@ + v, Tone::Green)),
        None => if cfg.enabled {
            let name = match active {
                Some(w) => w@,
                None => "—"@,
            };
            Some((name, match mode_from(cfg.entries@, name, 0) {
                Some(ProcessMode::Track) => Tone::Green,
                Some(ProcessMode::Ignore) => Tone::Red,
                _ => Tone::Gray,
            }))
        } else {
            None
        },
    }
}

/// The right part of the status bar (`update`: a newer version, if any).
pub fn window_indicator(update: Option<&str>, cfg: &ProcessConfig, active: &Option<String>) -> (r: Option<(String, Tone)>)
    ensures
        match indicator_spec(
            match update {
                Some(v) => Some(v@),
                None => None,
            },
            *cfg,
            *active,
        ) {
            Some((t, tone)) => r matches Some(x) && x.0@ == t && x.1 == tone,
            None => r is None,
        },
{
    match update {
        Some(v) => {
            let mut out = chars_of("↑ v");
            append_chars(&mut out, &chars_of(v));
            Some((string_of(&out), Tone::Green))
        },
        None => {
            if cfg.enabled {
                let name: &str = match active {
                    Some(w) => w.as_str(),
                    None => "—",
                };
                let tone = match cfg.window_mode(name) {
                    Some(ProcessMode::Track) => Tone::Green,
                    Some(ProcessMode::Ignore) => Tone::Red,
                    _ => Tone::Gray,
                };
                Some((string_of(&chars_of(name)), tone))
            } else {
                None
            }
        },
    }
}

/// The first line shown in a notes panel of `visible` lines while playing
/// a text of `line_count` lines: the current token's line centred, the
/// view kept within the text.
pub open spec fn scroll_spec(spans: Seq<TokenSpan>, play_event: int, line_count: int, visible: int) -> int {
    let cur_line = spans[current_index(spans, play_event)].line as int;
    let centred = if cur_line > visible / 2 { cur_line - visible / 2 } else { 0 };
    let max_scroll = if line_count > visible { line_count - visible } else { 0 };
    if centred < max_scroll { centred } else { max_scroll }
}

/// The first line shown in the notes panel while playing.
pub fn notes_scroll(spans: &[TokenSpan], play_event: usize, line_count: usize, visible: usize) -> (r: usize)
    requires
        spans@.len() > 0,
    ensures
        r == scroll_spec(spans@, play_event as int, line_count as int, visible as int),
{
    let cur = if play_event < spans.len() - 1 {
        play_event
    } else {
        spans.len() - 1
    };
    let cur_line = spans[cur].line;
    let centred = cur_line.saturating_sub(visible / 2);
    let max_scroll = line_count.saturating_sub(visible);
    if centred < max_scroll {
        centred
    } else {
        max_scroll
    }
}

} // verus!

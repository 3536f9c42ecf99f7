//! Turns a snapshot of the player's status into the line that is printed.
use vstd::prelude::*;
use crate::config::Config;

verus! {

/// Pause glyph of the Material Icons font.
pub const PAUSE_ICON: &'static str = "<span font_desc='Material Icons'>\u{e034}</span>";

/// Play glyph of the Material Icons font.
pub const PLAY_ICON: &'static str = "<span font_desc='Material Icons'>\u{e037}</span>";

/// Stop glyph of the Material Icons font.
pub const STOP_ICON: &'static str = "<span font_desc='Material Icons'>\u{e047}</span>";

/// Shuffle glyph of the Material Icons font.
pub const SHUFFLE_ICON: &'static str = "<span font_desc='Material Icons'>\u{e043}</span>";

/// Repeat glyph of the Material Icons font.
pub const REPEAT_ICON: &'static str = "<span font_desc='Material Icons'>\u{e040}</span>";

/// Repeat-one glyph of the Material Icons font.
pub const REPEAT_ONE_ICON: &'static str = "<span font_desc='Material Icons'>\u{e041}</span>";

/// What the player is doing.
#[derive(Clone, Copy, Debug, PartialEq, Eq)]
pub enum PlayerState {
    Play,
    Pause,
    Stop,
}

/// One reading of the player's status. `time` holds the elapsed and the
/// total seconds of the current track, or nothing when no track is loaded.
#[derive(Clone, Copy, Debug, PartialEq, Eq)]
pub struct Status {
    pub state: PlayerState,
    pub time: Option<(u64, u64)>,
    pub repeat: bool,
    pub single: bool,
    pub random: bool,
}

/// The glyphs that the status line is made of.
#[derive(Clone, Debug, PartialEq, Eq)]
pub struct Glyphs {
    pub play: String,
    pub pause: String,
    pub stop: String,
    pub repeat: String,
    pub repeat_one: String,
    pub shuffle: String,
}

impl Glyphs {
    /// The glyphs of the Material Icons font, as Pango markup.
    pub fn material_icons() -> (r: Glyphs)
        ensures
            r.play@ == PLAY_ICON@,
            r.pause@ == PAUSE_ICON@,
            r.stop@ == STOP_ICON@,
            r.repeat@ == REPEAT_ICON@,
            r.repeat_one@ == REPEAT_ONE_ICON@,
            r.shuffle@ == SHUFFLE_ICON@,
    {
        Glyphs {
            play: PLAY_ICON.to_owned(),
            pause: PAUSE_ICON.to_owned(),
            stop: STOP_ICON.to_owned(),
            repeat: REPEAT_ICON.to_owned(),
            repeat_one: REPEAT_ONE_ICON.to_owned(),
            shuffle: SHUFFLE_ICON.to_owned(),
        }
    }
}

/// What is printed for a loaded track: the elapsed fraction, left for the
/// caller to write as a decimal number, or a full status line.
#[derive(Clone, Debug, PartialEq, Eq)]
pub enum Output {
    Fraction { elapsed: u64, total: u64 },
    Line(String),
}

/// The mathematical value of an [`Output`].
pub enum OutputView {
    Fraction { elapsed: u64, total: u64 },
    Line(Seq<char>),
}

impl View for Output {
    type V = OutputView;

    open spec fn view(&self) -> OutputView {
        match self {
            Output::Fraction { elapsed, total } => OutputView::Fraction {
                elapsed: *elapsed,
                total: *total,
            },
            Output::Line(l) => OutputView::Line(l@),
        }
    }
}

pub open spec fn digit_chars() -> Seq<char> {
    seq!['0', '1', '2', '3', '4', '5', '6', '7', '8', '9']
}

/// `n` in decimal, without leading zeros.
pub open spec fn decimal(n: nat) -> Seq<char>
    decreases n,
{
    if n < 10 {
        seq![digit_chars()[n as int]]
    } else {
        decimal(n / 10) + seq![digit_chars()[(n % 10) as int]]
    }
}

/// `n` in decimal, padded with a zero to at least two digits.
pub open spec fn two_digits(n: nat) -> Seq<char> {
    if n < 10 {
        seq!['0'] + decimal(n)
    } else {
        decimal(n)
    }
}

/// `elapsed / total * 100`, truncated; 0 for a track of no length.
pub open spec fn percent_of(elapsed: nat, total: nat) -> nat {
    if total == 0 {
        0
    } else {
        elapsed * 100 / total
    }
}

/// `m:ss` for a number of seconds.
pub open spec fn clock(secs: nat) -> Seq<char> {
    decimal(secs / 60) + seq![':'] + two_digits(secs % 60)
}

pub open spec fn state_glyph(state: PlayerState, g: Glyphs) -> Seq<char> {
    match state {
        PlayerState::Play => g.play@,
        PlayerState::Pause => g.pause@,
        PlayerState::Stop => g.stop@,
    }
}

pub open spec fn repeat_glyph(st: Status, g: Glyphs) -> Seq<char> {
    if !st.repeat {
        seq![]
    } else if st.single {
        g.repeat_one@
    } else {
        g.repeat@
    }
}

pub open spec fn shuffle_glyph(st: Status, g: Glyphs) -> Seq<char> {
    if st.random {
        g.shuffle@
    } else {
        seq![]
    }
}

/// The full status line: the state, repeat and shuffle glyphs, then
/// ` m:ss/m:ss (p%)`.
pub open spec fn status_line(st: Status, elapsed: nat, total: nat, g: Glyphs) -> Seq<char> {
    state_glyph(st.state, g) + repeat_glyph(st, g) + shuffle_glyph(st, g) + seq![' '] + clock(
        elapsed,
    ) + seq!['/'] + clock(total) + seq![' ', '('] + decimal(percent_of(elapsed, total)) + seq![
        '%',
        ')',
    ]
}

/// What is printed for `st`: nothing without a track; the fraction where
/// `percent` is asked for and the track has a length; the line otherwise.
pub open spec fn rendered(st: Status, percent: bool, g: Glyphs) -> Option<OutputView> {
    match st.time {
        None => None,
        Some((e, t)) => if percent && t != 0 {
            Some(OutputView::Fraction { elapsed: e, total: t })
        } else {
            Some(OutputView::Line(status_line(st, e as nat, t as nat, g)))
        },
    }
}

fn digit_text(d: u128) -> (r: &'static str)
    requires
        d < 10,
    ensures
        r@ == seq![digit_chars()[d as int]],
{
    proof {
        reveal_strlit("0");
        reveal_strlit("1");
        reveal_strlit("2");
        reveal_strlit("3");
        reveal_strlit("4");
        reveal_strlit("5");
        reveal_strlit("6");
        reveal_strlit("7");
        reveal_strlit("8");
        reveal_strlit("9");
    }
    let r = if d == 0 {
        "0"
    } else if d == 1 {
        "1"
    } else if d == 2 {
        "2"
    } else if d == 3 {
        "3"
    } else if d == 4 {
        "4"
    } else if d == 5 {
        "5"
    } else if d == 6 {
        "6"
    } else if d == 7 {
        "7"
    } else if d == 8 {
        "8"
    } else {
        "9"
    };
    proof {
        assert(r@ =~= seq![digit_chars()[d as int]]);
    }
    r
}

fn push_decimal(out: &mut String, n: u128)
    ensures
        final(out)@ == old(out)@ + decimal(n as nat),
    decreases n,
{
    if n >= 10 {
        push_decimal(out, n / 10);
        out.append(digit_text(n % 10));
        proof {
            assert(final(out)@ =~= old(out)@ + decimal(n as nat));
        }
    } else {
        out.append(digit_text(n));
    }
}

fn push_clock(out: &mut String, secs: u64)
    ensures
        final(out)@ == old(out)@ + clock(secs as nat),
{
    push_decimal(out, (secs / 60) as u128);
    out.append(":");
    let s = secs % 60;
    if s < 10 {
        out.append("0");
    }
    push_decimal(out, s as u128);
    proof {
        reveal_strlit(":");
        reveal_strlit("0");
        assert(final(out)@ =~= old(out)@ + clock(secs as nat));
    }
}

/// The full status line for a track `elapsed` seconds into `total`.
pub fn status_line_text(status: &Status, elapsed: u64, total: u64, glyphs: &Glyphs) -> (r: String)
    ensures
        r@ == status_line(*status, elapsed as nat, total as nat, *glyphs),
{
    let mut out = String::new();
    match status.state {
        PlayerState::Play => out.append(glyphs.play.as_str()),
        PlayerState::Pause => out.append(glyphs.pause.as_str()),
        PlayerState::Stop => out.append(glyphs.stop.as_str()),
    }
    if status.repeat {
        if status.single {
            out.append(glyphs.repeat_one.as_str());
        } else {
            out.append(glyphs.repeat.as_str());
        }
    }
    if status.random {
        out.append(glyphs.shuffle.as_str());
    }
    out.append(" ");
    push_clock(&mut out, elapsed);
    out.append("/");
    push_clock(&mut out, total);
    out.append(" (");
    let percent: u128 = if total == 0 {
        0
    } else {
        (elapsed as u128 * 100) / (total as u128)
    };
    push_decimal(&mut out, percent);
    out.append("%)");
    proof {
        reveal_strlit(" ");
        reveal_strlit("/");
        reveal_strlit(" (");
        reveal_strlit("%)");
        assert(out@ =~= status_line(*status, elapsed as nat, total as nat, *glyphs));
    }
    out
}

/// What to print for `status` under `config`: nothing when no track is
/// loaded; the elapsed fraction in fraction mode when the track has a
/// length; the full status line otherwise. Equal inputs give equal outputs.
pub fn render(status: &Status, config: &Config, glyphs: &Glyphs) -> (r: Option<Output>)
    ensures
        r is None <==> status.time is None,
        match r {
            None => rendered(*status, config@.percent, *glyphs) is None,
            Some(o) => rendered(*status, config@.percent, *glyphs) == Some(o@),
        },
{
    match status.time {
        None => None,
        Some((elapsed, total)) => if config.percent() && total != 0 {
            Some(Output::Fraction { elapsed, total })
        } else {
            Some(Output::Line(status_line_text(status, elapsed, total, glyphs)))
        },
    }
}

/// Rendering depends on nothing but its inputs: two outputs that each meet
/// the contract of [`render`] for the same status, mode and glyphs are the
/// same output.
pub proof fn lemma_render_deterministic(
    status: Status,
    percent: bool,
    glyphs: Glyphs,
    first: Output,
    second: Output,
)
    requires
        rendered(status, percent, glyphs) == Some(first@),
        rendered(status, percent, glyphs) == Some(second@),
    ensures
        first@ == second@,
{
}

} // verus!

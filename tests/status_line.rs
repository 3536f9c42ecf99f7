use mpdtime::render::{
    status_line_text, PAUSE_ICON, PLAY_ICON, REPEAT_ICON, REPEAT_ONE_ICON, SHUFFLE_ICON, STOP_ICON,
};
use mpdtime::{render, Config, Glyphs, Output, PlayerState, Status};

fn config(percent: bool) -> Config {
    let mut args = vec!["mpdtime".to_string()];
    if percent {
        args.push("-p".to_string());
    }
    Config::from_args(&args, &None, &None).unwrap()
}

fn playing(elapsed: u64, total: u64) -> Status {
    Status {
        state: PlayerState::Play,
        time: Some((elapsed, total)),
        repeat: false,
        single: false,
        random: false,
    }
}

fn line(o: Option<Output>) -> String {
    match o {
        Some(Output::Line(l)) => l,
        other => panic!("expected a status line, got {:?}", other),
    }
}

#[test]
fn no_track_prints_nothing() {
    let st = Status { time: None, ..playing(0, 0) };
    let g = Glyphs::material_icons();
    assert_eq!(render(&st, &config(false), &g), None);
    assert_eq!(render(&st, &config(true), &g), None);
}

#[test]
fn full_line_for_playing_track() {
    let g = Glyphs::material_icons();
    let out = line(render(&playing(125, 260), &config(false), &g));
    assert_eq!(out, format!("{} 2:05/4:20 (48%)", PLAY_ICON));
}

#[test]
fn fraction_mode() {
    let g = Glyphs::material_icons();
    let out = render(&playing(125, 260), &config(true), &g);
    assert_eq!(out, Some(Output::Fraction { elapsed: 125, total: 260 }));
    if let Some(Output::Fraction { elapsed, total }) = out {
        assert_eq!(format!("{}", elapsed as f64 / total as f64), "0.4807692307692308");
    }
}

#[test]
fn all_mode_glyphs() {
    let g = Glyphs::material_icons();
    let st = Status { repeat: true, single: true, random: true, ..playing(125, 260) };
    let out = line(render(&st, &config(false), &g));
    assert_eq!(out, format!("{}{}{} 2:05/4:20 (48%)", PLAY_ICON, REPEAT_ONE_ICON, SHUFFLE_ICON));
}

#[test]
fn plain_repeat_glyph() {
    let g = Glyphs::material_icons();
    let st = Status { repeat: true, single: false, ..playing(0, 60) };
    assert_eq!(line(render(&st, &config(false), &g)), format!("{}{} 0:00/1:00 (0%)", PLAY_ICON, REPEAT_ICON));
    let st = Status { repeat: false, single: true, ..playing(0, 60) };
    assert_eq!(line(render(&st, &config(false), &g)), format!("{} 0:00/1:00 (0%)", PLAY_ICON));
}

#[test]
fn pause_and_stop_glyphs() {
    let g = Glyphs::material_icons();
    let st = Status { state: PlayerState::Pause, ..playing(59, 61) };
    assert_eq!(line(render(&st, &config(false), &g)), format!("{} 0:59/1:01 (96%)", PAUSE_ICON));
    let st = Status { state: PlayerState::Stop, ..playing(61, 61) };
    assert_eq!(line(render(&st, &config(false), &g)), format!("{} 1:01/1:01 (100%)", STOP_ICON));
}

#[test]
fn zero_length_track_shows_zero_percent() {
    let g = Glyphs::material_icons();
    let out = line(render(&playing(5, 0), &config(false), &g));
    assert_eq!(out, format!("{} 0:05/0:00 (0%)", PLAY_ICON));
    let out = line(render(&playing(5, 0), &config(true), &g));
    assert_eq!(out, format!("{} 0:05/0:00 (0%)", PLAY_ICON));
}

#[test]
fn rendering_twice_gives_the_same() {
    let g = Glyphs::material_icons();
    let st = Status { random: true, ..playing(125, 260) };
    for c in [config(false), config(true)] {
        assert_eq!(render(&st, &c, &g), render(&st, &c, &g));
    }
}

#[test]
fn long_times_and_percent_past_full() {
    let g = Glyphs::material_icons();
    let out = line(render(&playing(3725, 100), &config(false), &g));
    assert_eq!(out, format!("{} 62:05/1:40 (3725%)", PLAY_ICON));
    let out = line(render(&playing(u64::MAX, 1), &config(false), &g));
    assert_eq!(
        out,
        format!("{} 307445734561825860:15/0:01 (1844674407370955161500%)", PLAY_ICON)
    );
}

#[test]
fn percent_is_truncated() {
    let g = Glyphs::material_icons();
    assert_eq!(line(render(&playing(199, 200), &config(false), &g)), format!("{} 3:19/3:20 (99%)", PLAY_ICON));
    assert_eq!(line(render(&playing(29, 100), &config(false), &g)), format!("{} 0:29/1:40 (29%)", PLAY_ICON));
}

#[test]
fn other_glyph_table() {
    let g = Glyphs {
        play: ">".to_string(),
        pause: "||".to_string(),
        stop: "[]".to_string(),
        repeat: "R".to_string(),
        repeat_one: "1".to_string(),
        shuffle: "S".to_string(),
    };
    let st = Status { state: PlayerState::Pause, repeat: true, random: true, ..playing(10, 20) };
    assert_eq!(status_line_text(&st, 10, 20, &g), "||RS 0:10/0:20 (50%)");
}

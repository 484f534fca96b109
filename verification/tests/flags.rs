use ambient_crt::flags::{default_flags, load_flags, parse_flags, render_flags, LoadedFlags};

fn texts(items: &[&str]) -> Vec<String> {
    items.iter().map(|item| item.to_string()).collect()
}

#[test]
fn the_default_flags() {
    assert_eq!(
        default_flags(),
        texts(&[
            "--fullscreen",
            "--loop",
            "--no-video-title-show",
            "--play-and-exit",
            "--no-osd",
            "--no-volume-save",
            "--video-on-top",
            "--no-snapshot-preview",
            "--intf=dummy",
        ])
    );
}

#[test]
fn flags_are_read_one_per_line() {
    assert_eq!(
        parse_flags("--fullscreen\n  --loop  \n\n\t\n--no-osd\r\n"),
        texts(&["--fullscreen", "--loop", "--no-osd"])
    );
    assert_eq!(parse_flags(""), Vec::<String>::new());
    assert_eq!(parse_flags(" \n \n"), Vec::<String>::new());
    assert_eq!(parse_flags("--a --b"), texts(&["--a --b"]));
}

#[test]
fn flags_are_written_one_per_line() {
    assert_eq!(render_flags(&texts(&["--a", "--b"])), "--a\n--b");
    assert_eq!(render_flags(&texts(&[])), "");
}

#[test]
fn the_default_flags_are_read_as_written() {
    let written = render_flags(&default_flags());
    assert_eq!(
        written,
        "--fullscreen\n--loop\n--no-video-title-show\n--play-and-exit\n--no-osd\n--no-volume-save\n--video-on-top\n--no-snapshot-preview\n--intf=dummy"
    );
    assert_eq!(parse_flags(&written), default_flags());
}

#[test]
fn a_flag_file_is_used_as_it_is() {
    let loaded = load_flags(Some("--loop\n\n --no-osd \n"));
    assert_eq!(loaded, LoadedFlags { flags: texts(&["--loop", "--no-osd"]), to_write: None });
    let empty = load_flags(Some(""));
    assert_eq!(empty, LoadedFlags { flags: Vec::new(), to_write: None });
}

#[test]
fn without_a_flag_file_the_defaults_are_used_and_written() {
    let loaded = load_flags(None);
    assert_eq!(loaded.flags, default_flags());
    assert_eq!(loaded.to_write, Some(render_flags(&default_flags())));
}

//! The player flags: the list that every launch of the player begins with.
//!
//! The flags are read once, at start, from a file with one flag per line. Where there is
//! no such file, the default list is used and written to that file.

use crate::text;
use vstd::prelude::*;

verus! {

/// The flags that are used where no flag file exists.
pub open spec fn default_flag_list() -> Seq<Seq<char>> {
    seq![
        "--fullscreen"@,
        "--loop"@,
        "--no-video-title-show"@,
        "--play-and-exit"@,
        "--no-osd"@,
        "--no-volume-save"@,
        "--video-on-top"@,
        "--no-snapshot-preview"@,
        "--intf=dummy"@,
    ]
}

/// The flags that are used where no flag file exists.
pub fn default_flags() -> (flags: Vec<String>)
    ensures
        flags.deep_view() == default_flag_list(),
{
    let mut flags: Vec<String> = Vec::new();
    flags.push("--fullscreen".to_owned());
    flags.push("--loop".to_owned());
    flags.push("--no-video-title-show".to_owned());
    flags.push("--play-and-exit".to_owned());
    flags.push("--no-osd".to_owned());
    flags.push("--no-volume-save".to_owned());
    flags.push("--video-on-top".to_owned());
    flags.push("--no-snapshot-preview".to_owned());
    flags.push("--intf=dummy".to_owned());
    flags
}

/// The flags that `lines` hold: each line without the white space around it, in order,
/// the lines left out of which nothing remains.
pub open spec fn flags_of(lines: Seq<Seq<char>>) -> Seq<Seq<char>> {
    lines.map_values(|line: Seq<char>| text::trimmed(line)).filter(
        |flag: Seq<char>| flag.len() > 0,
    )
}

/// Reads the content of a flag file: one flag per line, white space around a flag and
/// empty lines passed over.
pub fn parse_flags(content: &str) -> (flags: Vec<String>)
    ensures
        flags.deep_view() == flags_of(text::lines_of(content@)),
{
    let lines = text::lines(content);
    let ghost trim = |line: Seq<char>| text::trimmed(line);
    let ghost full = |flag: Seq<char>| flag.len() > 0;
    let mut flags: Vec<String> = Vec::new();
    let mut i: usize = 0;
    assert(Seq::<Seq<char>>::empty().filter(full) =~= Seq::<Seq<char>>::empty()) by {
        reveal(Seq::filter);
    }
    while i < lines.len()
        invariant
            i <= lines.len(),
            trim == |line: Seq<char>| text::trimmed(line),
            full == |flag: Seq<char>| flag.len() > 0,
            flags.deep_view() == lines.deep_view().take(i as int).map_values(trim).filter(full),
        decreases lines.len() - i,
    {
        let flag = text::trim(lines[i].as_str());
        proof {
            let seen = lines.deep_view().take(i as int).map_values(trim);
            assert(lines.deep_view().take(i + 1).map_values(trim) =~= seen.push(flag@));
            seen.lemma_filter_push(flag@, full);
        }
        if flag.as_str().unicode_len() > 0 {
            flags.push(flag);
        }
        i = i + 1;
    }
    assert(lines.deep_view().take(lines.len() as int) =~= lines.deep_view());
    flags
}

/// The content of the flag file for `flags`: one flag per line.
pub fn render_flags(flags: &Vec<String>) -> (content: String)
    ensures
        content@ == text::joined_lines(flags.deep_view()),
{
    text::join_lines(flags)
}

/// The flags to start with, and what is to be written to the flag file, if anything.
#[derive(Debug, PartialEq, Eq)]
pub struct LoadedFlags {
    pub flags: Vec<String>,
    pub to_write: Option<String>,
}

/// Decides which flags the player is launched with. `content` is what the flag file holds,
/// where it could be read.
///
/// A flag file that could be read gives the flags, and nothing is written, even where it
/// holds no flag at all. Without one the default flags are used, and they are to be
/// written to the flag file for the next start.
pub fn load_flags(content: Option<&str>) -> (loaded: LoadedFlags)
    ensures
        match content {
            Some(file) => loaded.flags.deep_view() == flags_of(text::lines_of(file@))
                && loaded.to_write is None,
            None => loaded.flags.deep_view() == default_flag_list() && match loaded.to_write {
                Some(written) => written@ == text::joined_lines(default_flag_list()),
                None => false,
            },
        },
{
    match content {
        Some(file) => LoadedFlags { flags: parse_flags(file), to_write: None },
        None => {
            let flags = default_flags();
            let written = render_flags(&flags);
            LoadedFlags { flags, to_write: Some(written) }
        },
    }
}

/// Written and read again. The flag file that is written for `flags` gives back `flags`,
/// provided that each flag can stand as a line of its own and has no white space around
/// it.
pub proof fn lemma_written_then_read(flags: Seq<Seq<char>>)
    requires
        forall|i: int|
            0 <= i < flags.len() ==> text::is_plain_line(#[trigger] flags[i]) && text::trimmed(
                flags[i],
            ) == flags[i],
    ensures
        flags_of(text::lines_of(text::joined_lines(flags))) == flags,
{
    let trim = |line: Seq<char>| text::trimmed(line);
    let full = |flag: Seq<char>| flag.len() > 0;
    text::lemma_lines_of_joined(flags);
    assert(flags.map_values(trim) =~= flags);
    text::lemma_filter_keeps_all(flags, full);
}

} // verus!

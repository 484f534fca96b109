//! Thumbnails: where the thumbnail of a video lies, how the transcoder is called to make
//! it, and when it is made at all.

use crate::paths;
use crate::THUMB_PATH;
use vstd::prelude::*;

verus! {

/// The text of an optional name; empty where there is none.
pub open spec fn name_or_empty(name: Option<Seq<char>>) -> Seq<char> {
    match name {
        Some(text) => text,
        None => Seq::empty(),
    }
}

/// The path of the thumbnail of the video at `video`: the file name of the video, adjoined
/// to [`THUMB_PATH`], with the extension `jpg`.
pub open spec fn thumbnail_of(video: Seq<char>) -> Seq<char> {
    paths::with_extension(
        paths::joined(THUMB_PATH@, name_or_empty(paths::file_name_of(video))),
        "jpg"@,
    )
}

/// The path of the thumbnail of the video at `video_path`: `uploads/video.mp4` has its
/// thumbnail at `thumbs/video.jpg`.
#[must_use]
pub fn thumbnail_path(video_path: &str) -> (thumb: String)
    ensures
        thumb@ == thumbnail_of(video_path@),
{
    let name = match paths::file_name(video_path) {
        Some(name) => name,
        None => String::new(),
    };
    let plain = paths::join(THUMB_PATH, name.as_str());
    proof {
        reveal_strlit("jpg");
    }
    paths::set_extension(plain.as_str(), "jpg")
}

/// One call of the transcoder: its arguments, and the file that it writes.
#[derive(Debug, PartialEq, Eq)]
pub struct ThumbnailJob {
    pub args: Vec<String>,
    pub output: String,
}

/// A [`ThumbnailJob`] as a mathematical value.
pub struct ThumbnailJobView {
    pub args: Seq<Seq<char>>,
    pub output: Seq<char>,
}

impl View for ThumbnailJob {
    type V = ThumbnailJobView;

    open spec fn view(&self) -> ThumbnailJobView {
        ThumbnailJobView { args: self.args.deep_view(), output: self.output@ }
    }
}

/// The arguments with which the transcoder takes one representative key frame of `video`,
/// scaled to 640 by 360, and writes it to `thumb`.
pub open spec fn transcoder_args(video: Seq<char>, thumb: Seq<char>) -> Seq<Seq<char>> {
    seq![
        "-i"@,
        video,
        "-vf"@,
        "scale=640:360,select='eq(pict_type,I)',thumbnail"@,
        "-vframes"@,
        "1"@,
        "-qscale:v"@,
        "9"@,
        "-pattern_type"@,
        "none"@,
        "-update"@,
        "1"@,
        thumb,
    ]
}

/// The call of the transcoder that makes the thumbnail of `video`.
pub open spec fn job_of(video: Seq<char>) -> ThumbnailJobView {
    ThumbnailJobView {
        args: transcoder_args(video, thumbnail_of(video)),
        output: thumbnail_of(video),
    }
}

/// The call of the transcoder that makes the thumbnail of the video at `video_path`.
pub fn thumbnail_job(video_path: &str) -> (job: ThumbnailJob)
    ensures
        job@ == job_of(video_path@),
{
    let output = thumbnail_path(video_path);
    let mut args: Vec<String> = Vec::new();
    args.push("-i".to_owned());
    args.push(video_path.to_owned());
    args.push("-vf".to_owned());
    args.push("scale=640:360,select='eq(pict_type,I)',thumbnail".to_owned());
    args.push("-vframes".to_owned());
    args.push("1".to_owned());
    args.push("-qscale:v".to_owned());
    args.push("9".to_owned());
    args.push("-pattern_type".to_owned());
    args.push("none".to_owned());
    args.push("-update".to_owned());
    args.push("1".to_owned());
    args.push(output.clone());
    assert(args.deep_view() =~= transcoder_args(video_path@, thumbnail_of(video_path@)));
    ThumbnailJob { args, output }
}

/// What generating the thumbnail of `video` comes to: nothing where the thumbnail exists,
/// else one call of the transcoder.
pub open spec fn planned(video: Seq<char>, thumbnail_exists: bool) -> Option<ThumbnailJobView> {
    if thumbnail_exists {
        None
    } else {
        Some(job_of(video))
    }
}

/// Decides whether the thumbnail of the video at `video_path` is to be made.
/// `thumbnail_exists` says whether a file lies at [`thumbnail_path`] of the video. Where
/// it does, nothing is to be done; else the transcoder is to be called as the result says.
pub fn generate_thumbnail(video_path: &str, thumbnail_exists: bool) -> (job: Option<ThumbnailJob>)
    ensures
        match job {
            Some(call) => planned(video_path@, thumbnail_exists) == Some(call@),
            None => planned(video_path@, thumbnail_exists) is None,
        },
{
    if thumbnail_exists {
        None
    } else {
        Some(thumbnail_job(video_path))
    }
}

/// Decides for one entry of the video directory whether its thumbnail is to be made: only
/// for a regular file, and only where its thumbnail does not exist yet.
pub fn generate_new_thumb(entry_path: &str, is_file: bool, thumbnail_exists: bool) -> (job: Option<
    ThumbnailJob,
>)
    ensures
        match job {
            Some(call) => is_file && planned(entry_path@, thumbnail_exists) == Some(call@),
            None => !is_file || planned(entry_path@, thumbnail_exists) is None,
        },
{
    if is_file {
        generate_thumbnail(entry_path, thumbnail_exists)
    } else {
        None
    }
}

/// The thumbnails that exist once the call `job` has been made, where `existing` were
/// there before: the output of the call has joined them.
pub open spec fn after_job(
    job: Option<ThumbnailJobView>,
    existing: Set<Seq<char>>,
) -> Set<Seq<char>> {
    match job {
        Some(call) => existing.insert(call.output),
        None => existing,
    }
}

/// Generating twice calls once. Whatever thumbnails exist, once the thumbnail of `video`
/// has been generated, generating it again calls the transcoder no more.
pub proof fn lemma_generated_once(video: Seq<char>, existing: Set<Seq<char>>)
    ensures
        planned(
            video,
            after_job(
                planned(video, existing.contains(thumbnail_of(video))),
                existing,
            ).contains(thumbnail_of(video)),
        ) is None,
{
}

} // verus!

//! The metadata of a video, read from the JSON that `yt-dlp --dump-json`
//! prints.
use vstd::prelude::*;
use crate::formats::{collect_formats, item_views, listed, FormatItem, FormatSource};
use crate::json::{
    json_of, member, member_exec, parse_json, take_member, text_member, text_of,
    unsigned_member, unsigned_of, Json,
};
use crate::progress::{opt_view, string_views};
use crate::text::{concat_str, owned};

verus! {

/// The metadata of a video.
pub struct VideoInfo {
    pub id: Option<String>,
    pub title: Option<String>,
    pub channel: Option<String>,
    pub duration: Option<Json>,
    pub thumbnail: Option<String>,
    pub formats: Vec<FormatItem>,
}

/// The height and file size that a format of the metadata tells: its
/// `height`, and its `filesize` where that is an unsigned integer, its
/// `filesize_approx` otherwise.
pub open spec fn source_of(f: Json) -> FormatSource {
    FormatSource {
        height: unsigned_of(member(f, "height"@)),
        filesize: match unsigned_of(member(f, "filesize"@)) {
            Some(s) => Some(s),
            None => unsigned_of(member(f, "filesize_approx"@)),
        },
    }
}

/// The heights and sizes of the formats of `j`: one for each element of its
/// `formats` array, none where it has no such array.
pub open spec fn sources_of(j: Json) -> Seq<FormatSource> {
    match member(j, "formats"@) {
        Some(Json::Array(fs)) => fs@.map_values(|f: Json| source_of(f)),
        _ => seq![],
    }
}

/// The duration of `j`: its `duration_string` where present, its
/// `duration` otherwise.
pub open spec fn duration_of(j: Json) -> Option<Json> {
    match member(j, "duration_string"@) {
        Some(d) => Some(d),
        None => member(j, "duration"@),
    }
}

/// The metadata that the JSON value `j` describes, with `formats` its
/// listed qualities.
pub open spec fn describes(info: VideoInfo, j: Json) -> bool {
    &&& opt_view(info.id) == text_of(member(j, "id"@))
    &&& opt_view(info.title) == text_of(member(j, "title"@))
    &&& opt_view(info.channel) == text_of(member(j, "uploader"@))
    &&& opt_view(info.thumbnail) == text_of(member(j, "thumbnail"@))
    &&& info.duration == duration_of(j)
    &&& listed(sources_of(j), item_views(info.formats@))
}

/// The height and file size of a format of the metadata.
pub fn format_source(f: &Json) -> (r: FormatSource)
    ensures
        r == source_of(*f),
{
    let filesize = match unsigned_member(f, "filesize") {
        Some(s) => Some(s),
        None => unsigned_member(f, "filesize_approx"),
    };
    FormatSource { height: unsigned_member(f, "height"), filesize }
}

/// The heights and sizes of the formats of `j`.
pub fn sources_of_exec(j: &Json) -> (r: Vec<FormatSource>)
    ensures
        r@ == sources_of(*j),
{
    let mut r: Vec<FormatSource> = Vec::new();
    match member_exec(j, "formats") {
        Some(Json::Array(fs)) => {
            let mut i: usize = 0;
            while i < fs.len()
                invariant
                    i <= fs@.len(),
                    r@ == fs@.take(i as int).map_values(|f: Json| source_of(f)),
                decreases fs@.len() - i,
            {
                r.push(format_source(&fs[i]));
                i = i + 1;
                assert(r@ =~= fs@.take(i as int).map_values(|f: Json| source_of(f)));
            }
            assert(fs@.take(fs@.len() as int) =~= fs@);
            r
        },
        _ => r,
    }
}

/// The duration of `j`, taken out of it.
pub fn duration_member(j: Json) -> (r: Option<Json>)
    ensures
        r == duration_of(j),
{
    if member_exec(&j, "duration_string").is_some() {
        take_member(j, "duration_string")
    } else {
        take_member(j, "duration")
    }
}

/// The arguments given to yt-dlp to print the metadata of `url` as JSON,
/// without the rest of a playlist and without other output.
pub fn metadata_args(url: &str) -> (r: Vec<String>)
    ensures
        string_views(r@) == seq!["--dump-json"@, "--no-playlist"@, "--quiet"@, url@],
{
    let mut r: Vec<String> = Vec::new();
    r.push(owned("--dump-json"));
    r.push(owned("--no-playlist"));
    r.push(owned("--quiet"));
    r.push(owned(url));
    assert(string_views(r@) =~= seq!["--dump-json"@, "--no-playlist"@, "--quiet"@, url@]);
    r
}

/// The yt-dlp program to run: the one found, or the error
/// `yt-dlp executable not found` where none was.
pub fn ytdlp_program(found: Option<String>) -> (r: Result<String, String>)
    ensures
        match found {
            Some(p) => r matches Ok(q) && q@ == p@,
            None => r matches Err(e) && e@ == "yt-dlp executable not found"@,
        },
{
    match found {
        Some(p) => Ok(p),
        None => Err(owned("yt-dlp executable not found")),
    }
}

/// The command that prints the metadata of `url`: the yt-dlp program found
/// and [`metadata_args`], or the not-found error where no program was
/// found, in which case nothing is to be run.
pub fn metadata_command(found: Option<String>, url: &str) -> (r: Result<(String, Vec<String>), String>)
    ensures
        match found {
            Some(p) => r matches Ok((q, args)) && q@ == p@ && string_views(args@) == seq![
                "--dump-json"@,
                "--no-playlist"@,
                "--quiet"@,
                url@,
            ],
            None => r matches Err(e) && e@ == "yt-dlp executable not found"@,
        },
{
    match ytdlp_program(found) {
        Ok(p) => Ok((p, metadata_args(url))),
        Err(e) => Err(e),
    }
}

/// The error when yt-dlp could not be run, failing with `error`.
pub fn run_failure(error: &str) -> (r: String)
    ensures
        r@ == "Failed to run yt-dlp: "@ + error@,
{
    concat_str("Failed to run yt-dlp: ", error)
}

/// Reads the metadata of a video from what `yt-dlp --dump-json` printed:
/// `succeeded` tells whether it exited successfully, `stdout` is its output
/// and `stderr` its error text. A failed run gives `yt-dlp error: ` and the
/// error text; output that is not JSON gives `Failed to parse JSON: ` and
/// the parser's error text; JSON output gives the metadata it describes: its
/// `id`, `title`, `uploader` and `thumbnail` strings, its duration, and the
/// qualities of its formats, highest first.
pub fn fetch_video_info(succeeded: bool, stdout: &[u8], stderr: &str) -> (r: Result<
    VideoInfo,
    String,
>)
    ensures
        !succeeded ==> (r matches Err(e) && e@ == "yt-dlp error: "@ + stderr@),
        succeeded ==> match json_of(stdout@) {
            Ok(j) => r matches Ok(info) && describes(info, j),
            Err(msg) => r matches Err(e) && e@ == "Failed to parse JSON: "@ + msg,
        },
{
    if !succeeded {
        return Err(concat_str("yt-dlp error: ", stderr));
    }
    let json = match parse_json(stdout) {
        Ok(v) => v,
        Err(msg) => {
            return Err(concat_str("Failed to parse JSON: ", msg.as_str()));
        },
    };
    let id = text_member(&json, "id");
    let title = text_member(&json, "title");
    let channel = text_member(&json, "uploader");
    let thumbnail = text_member(&json, "thumbnail");
    let sources = sources_of_exec(&json);
    let formats = collect_formats(&sources);
    let ghost j = json;
    let duration = duration_member(json);
    let info = VideoInfo { id, title, channel, duration, thumbnail, formats };
    assert(describes(info, j));
    Ok(info)
}

} // verus!

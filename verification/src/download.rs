//! Starting and pausing a download: the command line given to yt-dlp and
//! the flags by which a running download is told to stop.
use vstd::prelude::*;
use vstd::hash_map::StringHashMap;
use crate::progress::string_views;
use crate::text::{chars_of, concat_str, owned, str_is};

verus! {

// ---------------------------------------------------------------------------
// The yt-dlp command line
// ---------------------------------------------------------------------------

/// The format selection: the best audio in audio mode, otherwise the best
/// video no higher than `quality` with the best audio.
pub open spec fn format_selector(mode: Seq<char>, quality: Seq<char>) -> Seq<char> {
    if mode == "audio"@ {
        "bestaudio/best"@
    } else {
        "bestvideo[height<="@ + quality + "]+bestaudio/best[height<="@ + quality + "]"@
    }
}

/// The output file template: the title, with the video id where duplicates
/// are allowed, in the folder `path`.
pub open spec fn output_template(path: Seq<char>, allow_duplicate: bool) -> Seq<char> {
    if allow_duplicate {
        path + "/%(title)s-%(id)s.%(ext)s"@
    } else {
        path + "/%(title)s.%(ext)s"@
    }
}

/// The audio bitrate: `quality` where it is one of 320, 256, 192, 128 and
/// 64, otherwise 192.
pub open spec fn audio_quality(quality: Seq<char>) -> Seq<char> {
    if quality == "320"@ || quality == "256"@ || quality == "192"@ || quality == "128"@
        || quality == "64"@ {
        quality
    } else {
        "192"@
    }
}

/// The arguments given to yt-dlp to download `url` into `path`: the folder
/// of ffmpeg where it is known, line-by-line progress, the format selection
/// and output template, the mp3 extraction in audio mode or the mp4
/// container otherwise, and the address last.
pub open spec fn download_args(
    url: Seq<char>,
    path: Seq<char>,
    mode: Seq<char>,
    quality: Seq<char>,
    allow_duplicate: bool,
    ffmpeg_dir: Option<Seq<char>>,
) -> Seq<Seq<char>> {
    let location = match ffmpeg_dir {
        Some(d) => seq!["--ffmpeg-location"@, d],
        None => seq![],
    };
    let common = seq![
        "--newline"@,
        "--progress"@,
        "-f"@,
        format_selector(mode, quality),
        "-o"@,
        output_template(path, allow_duplicate),
    ];
    let post = if mode == "audio"@ {
        seq![
            "--extract-audio"@,
            "--audio-format"@,
            "mp3"@,
            "--audio-quality"@,
            audio_quality(quality),
        ]
    } else {
        seq!["--merge-output-format"@, "mp4"@]
    };
    location + common + post + seq![url]
}

/// In every mode, the arguments start with the ffmpeg folder where it is
/// known (and with `--newline` otherwise), name the format selection and the
/// output template, extract mp3 audio in audio mode and merge into mp4
/// otherwise, and end with the address.
pub proof fn lemma_download_args_shape(
    url: Seq<char>,
    path: Seq<char>,
    mode: Seq<char>,
    quality: Seq<char>,
    allow_duplicate: bool,
    ffmpeg_dir: Option<Seq<char>>,
)
    ensures
        ({
            let a = download_args(url, path, mode, quality, allow_duplicate, ffmpeg_dir);
            let k: int = if ffmpeg_dir is Some {
                2
            } else {
                0
            };
            &&& ffmpeg_dir matches Some(d) ==> a.take(2) == seq!["--ffmpeg-location"@, d]
            &&& a[k] == "--newline"@
            &&& a[k + 3] == format_selector(mode, quality)
            &&& a[k + 5] == output_template(path, allow_duplicate)
            &&& a.last() == url
            &&& mode == "audio"@ ==> a.len() == k + 12 && a[k + 6] == "--extract-audio"@ && a[k
                + 8] == "mp3"@ && a[k + 10] == audio_quality(quality)
            &&& mode != "audio"@ ==> a.len() == k + 9 && a[k + 6] == "--merge-output-format"@
                && a[k + 7] == "mp4"@
        }),
{
    let a = download_args(url, path, mode, quality, allow_duplicate, ffmpeg_dir);
    if let Some(d) = ffmpeg_dir {
        assert(a.take(2) =~= seq!["--ffmpeg-location"@, d]);
    }
}

/// The format selection for `mode` and `quality`.
pub fn format_selector_exec(mode: &str, quality: &str) -> (r: String)
    ensures
        r@ == format_selector(mode@, quality@),
{
    let mv = chars_of(mode);
    if str_is(&mv, "audio") {
        owned("bestaudio/best")
    } else {
        let a = concat_str("bestvideo[height<=", quality);
        let b = concat_str(a.as_str(), "]+bestaudio/best[height<=");
        let c = concat_str(b.as_str(), quality);
        let d = concat_str(c.as_str(), "]");
        assert(d@ =~= format_selector(mode@, quality@));
        d
    }
}

/// The output file template for the folder `path`.
pub fn output_template_exec(path: &str, allow_duplicate: bool) -> (r: String)
    ensures
        r@ == output_template(path@, allow_duplicate),
{
    if allow_duplicate {
        concat_str(path, "/%(title)s-%(id)s.%(ext)s")
    } else {
        concat_str(path, "/%(title)s.%(ext)s")
    }
}

/// The audio bitrate for `quality`.
pub fn audio_quality_exec(quality: &str) -> (r: String)
    ensures
        r@ == audio_quality(quality@),
{
    let q = chars_of(quality);
    if str_is(&q, "320") || str_is(&q, "256") || str_is(&q, "192") || str_is(&q, "128") || str_is(
        &q,
        "64",
    ) {
        owned(quality)
    } else {
        owned("192")
    }
}

/// The arguments given to yt-dlp to download `url` into `path`.
pub fn download_args_exec(
    url: &str,
    path: &str,
    mode: &str,
    quality: &str,
    allow_duplicate: bool,
    ffmpeg_dir: Option<String>,
) -> (r: Vec<String>)
    ensures
        string_views(r@) == download_args(
            url@,
            path@,
            mode@,
            quality@,
            allow_duplicate,
            match ffmpeg_dir {
                Some(d) => Some(d@),
                None => None,
            },
        ),
{
    let mut r: Vec<String> = Vec::new();
    match ffmpeg_dir {
        Some(d) => {
            r.push(owned("--ffmpeg-location"));
            r.push(d);
        },
        None => {},
    }
    r.push(owned("--newline"));
    r.push(owned("--progress"));
    r.push(owned("-f"));
    r.push(format_selector_exec(mode, quality));
    r.push(owned("-o"));
    r.push(output_template_exec(path, allow_duplicate));
    let mv = chars_of(mode);
    if str_is(&mv, "audio") {
        r.push(owned("--extract-audio"));
        r.push(owned("--audio-format"));
        r.push(owned("mp3"));
        r.push(owned("--audio-quality"));
        r.push(audio_quality_exec(quality));
    } else {
        r.push(owned("--merge-output-format"));
        r.push(owned("mp4"));
    }
    r.push(owned(url));
    assert(string_views(r@) =~= download_args(
        url@,
        path@,
        mode@,
        quality@,
        allow_duplicate,
        match ffmpeg_dir {
            Some(d) => Some(d@),
            None => None,
        },
    ));
    r
}

// ---------------------------------------------------------------------------
// Pausing
// ---------------------------------------------------------------------------

/// Whether the flags `m` tell the download `id` to stop: it has a flag, and
/// the flag is set.
pub open spec fn stop_requested(m: Map<Seq<char>, bool>, id: Seq<char>) -> bool {
    m.contains_key(id) && m[id]
}

/// The flags by which running downloads are told to stop, by download id.
pub struct AbortFlags {
    flags: StringHashMap<bool>,
}

impl View for AbortFlags {
    type V = Map<Seq<char>, bool>;

    closed spec fn view(&self) -> Map<Seq<char>, bool> {
        self.flags@
    }
}

impl AbortFlags {
    /// No flags.
    pub fn new() -> (r: Self)
        ensures
            r@ == Map::<Seq<char>, bool>::empty(),
    {
        AbortFlags { flags: StringHashMap::new() }
    }

    /// Tells the download `download_id` to stop.
    pub fn pause(&mut self, download_id: String)
        ensures
            final(self)@ == old(self)@.insert(download_id@, true),
    {
        self.flags.insert(download_id, true);
    }

    /// Clears the flag of the download `download_id`, as a download does
    /// when it starts.
    pub fn clear(&mut self, download_id: String)
        ensures
            final(self)@ == old(self)@.insert(download_id@, false),
    {
        self.flags.insert(download_id, false);
    }

    /// Whether the download `download_id` has been told to stop.
    pub fn is_aborted(&self, download_id: &str) -> (r: bool)
        ensures
            r == stop_requested(self@, download_id@),
    {
        match self.flags.get(download_id) {
            Some(v) => *v,
            None => false,
        }
    }
}

/// A download for which nothing was ever set is not told to stop.
pub proof fn lemma_no_flag_runs(id: Seq<char>)
    ensures
        !stop_requested(Map::<Seq<char>, bool>::empty(), id),
{
}

/// After a download is paused it is told to stop; after its flag is
/// cleared it is not.
pub proof fn lemma_pause_then_check(m: Map<Seq<char>, bool>, id: Seq<char>)
    ensures
        stop_requested(m.insert(id, true), id),
        !stop_requested(m.insert(id, false), id),
{
}

/// Pausing or clearing one download leaves what every other download is
/// told unchanged.
pub proof fn lemma_flags_independent(
    m: Map<Seq<char>, bool>,
    id: Seq<char>,
    other: Seq<char>,
    v: bool,
)
    requires
        id != other,
    ensures
        stop_requested(m.insert(id, v), other) == stop_requested(m, other),
{
}

} // verus!

//! The helper programs (yt-dlp and ffmpeg): where they come from, how they
//! are found and unpacked, and how the file manager is asked to show a
//! downloaded file.
use vstd::prelude::*;
use crate::progress::string_views;
use crate::text::{chars_of, concat_str, ends_with, ends_with_str, owned, string_of, trim, trim_chars};

verus! {

/// The operating system the application runs on.
#[derive(Clone, Copy, PartialEq, Eq, Structural)]
pub enum TargetOs {
    Windows,
    MacOs,
    Linux,
    Other,
}

// ---------------------------------------------------------------------------
// Finding the programs
// ---------------------------------------------------------------------------

/// The file name of the program `name`: with `.exe` on Windows.
pub open spec fn exe_file_name(name: Seq<char>, os: TargetOs) -> Seq<char> {
    if os == TargetOs::Windows {
        name + ".exe"@
    } else {
        name
    }
}

/// The file name of the program `name`.
pub fn exe_file_name_exec(name: &str, os: TargetOs) -> (r: String)
    ensures
        r@ == exe_file_name(name@, os),
{
    if os == TargetOs::Windows {
        concat_str(name, ".exe")
    } else {
        owned(name)
    }
}

/// The program that finds a command on the search path: `where` on
/// Windows, `which` elsewhere.
pub open spec fn lookup_program(os: TargetOs) -> Seq<char> {
    if os == TargetOs::Windows {
        "where"@
    } else {
        "which"@
    }
}

/// The program that finds a command on the search path.
pub fn lookup_program_exec(os: TargetOs) -> (r: String)
    ensures
        r@ == lookup_program(os),
{
    if os == TargetOs::Windows {
        owned("where")
    } else {
        owned("which")
    }
}

/// The path that a lookup program reported: its output, trimmed, where it
/// succeeded and the trimmed output is not empty.
pub open spec fn command_from_lookup(success: bool, output: Seq<char>) -> Option<Seq<char>> {
    if success && trim(output).len() > 0 {
        Some(trim(output))
    } else {
        None
    }
}

/// The path that a lookup program reported.
pub fn command_from_lookup_exec(success: bool, output: &str) -> (r: Option<String>)
    ensures
        match command_from_lookup(success, output@) {
            Some(p) => r is Some && r->0@ == p,
            None => r is None,
        },
{
    if !success {
        return None;
    }
    let v = chars_of(output);
    let t = trim_chars(&v);
    if t.len() == 0 {
        None
    } else {
        Some(string_of(&t))
    }
}

/// The path of a helper program: its downloaded copy where that exists;
/// otherwise what the lookup program reported, where it could be run
/// (`lookup` holds whether it succeeded and its output).
pub open spec fn command_path(
    local_path: Seq<char>,
    local_exists: bool,
    lookup: Option<(bool, Seq<char>)>,
) -> Option<Seq<char>> {
    if local_exists {
        Some(local_path)
    } else {
        match lookup {
            Some((success, output)) => command_from_lookup(success, output),
            None => None,
        }
    }
}

/// The path of a helper program. The lookup program is only to be run,
/// and `lookup` given, where the downloaded copy does not exist.
pub fn find_command_path(local_path: String, local_exists: bool, lookup: Option<(bool, String)>) -> (r:
    Option<String>)
    ensures
        match command_path(
            local_path@,
            local_exists,
            match lookup {
                Some((s, o)) => Some((s, o@)),
                None => None,
            },
        ) {
            Some(p) => r matches Some(q) && q@ == p,
            None => r is None,
        },
{
    if local_exists {
        return Some(local_path);
    }
    match lookup {
        Some((success, output)) => command_from_lookup_exec(success, output.as_str()),
        None => None,
    }
}

/// Which of the two programs were found, under the names the user interface
/// reads: `ffmpeg` and `ytdlp`.
pub fn dependency_status(ffmpeg_found: bool, ytdlp_found: bool) -> (r: Vec<(String, bool)>)
    ensures
        r@.len() == 2,
        r@[0].0@ == "ffmpeg"@ && r@[0].1 == ffmpeg_found,
        r@[1].0@ == "ytdlp"@ && r@[1].1 == ytdlp_found,
{
    let mut r: Vec<(String, bool)> = Vec::new();
    r.push((owned("ffmpeg"), ffmpeg_found));
    r.push((owned("ytdlp"), ytdlp_found));
    r
}

// ---------------------------------------------------------------------------
// Downloading the programs
// ---------------------------------------------------------------------------

/// Where yt-dlp is downloaded from on `os`.
pub open spec fn ytdlp_url(os: TargetOs) -> Seq<char> {
    if os == TargetOs::Windows {
        "https://github.com/yt-dlp/yt-dlp/releases/latest/download/yt-dlp.exe"@
    } else if os == TargetOs::MacOs {
        "https://github.com/yt-dlp/yt-dlp/releases/latest/download/yt-dlp_macos"@
    } else {
        "https://github.com/yt-dlp/yt-dlp/releases/latest/download/yt-dlp"@
    }
}

/// Where the ffmpeg archive is downloaded from on `os`.
pub open spec fn ffmpeg_url(os: TargetOs) -> Seq<char> {
    if os == TargetOs::Windows {
        "https://github.com/GyanD/codexffmpeg/releases/download/7.1/ffmpeg-7.1-essentials_build.zip"@
    } else if os == TargetOs::MacOs {
        "https://evermeet.cx/ffmpeg/getrelease/zip"@
    } else {
        "https://johnvansickle.com/ffmpeg/releases/ffmpeg-release-amd64-static.tar.xz"@
    }
}

/// Where yt-dlp is downloaded from.
pub fn ytdlp_url_exec(os: TargetOs) -> (r: String)
    ensures
        r@ == ytdlp_url(os),
{
    if os == TargetOs::Windows {
        owned("https://github.com/yt-dlp/yt-dlp/releases/latest/download/yt-dlp.exe")
    } else if os == TargetOs::MacOs {
        owned("https://github.com/yt-dlp/yt-dlp/releases/latest/download/yt-dlp_macos")
    } else {
        owned("https://github.com/yt-dlp/yt-dlp/releases/latest/download/yt-dlp")
    }
}

/// Where the ffmpeg archive is downloaded from.
pub fn ffmpeg_url_exec(os: TargetOs) -> (r: String)
    ensures
        r@ == ffmpeg_url(os),
{
    if os == TargetOs::Windows {
        owned(
            "https://github.com/GyanD/codexffmpeg/releases/download/7.1/ffmpeg-7.1-essentials_build.zip",
        )
    } else if os == TargetOs::MacOs {
        owned("https://evermeet.cx/ffmpeg/getrelease/zip")
    } else {
        owned("https://johnvansickle.com/ffmpeg/releases/ffmpeg-release-amd64-static.tar.xz")
    }
}

/// How a downloaded ffmpeg archive is unpacked.
#[derive(Clone, Copy, PartialEq, Eq, Structural)]
pub enum ArchiveKind {
    /// A zip archive.
    Zip,
    /// A tar archive read through a gzip decoder.
    TarGz,
}

/// How the archive at `url` is unpacked on `os`: as zip where the address
/// ends in `.zip` or on macOS, as gzipped tar otherwise.
pub open spec fn archive_kind(url: Seq<char>, os: TargetOs) -> ArchiveKind {
    if ends_with(url, ".zip"@) || os == TargetOs::MacOs {
        ArchiveKind::Zip
    } else {
        ArchiveKind::TarGz
    }
}

/// How the archive at `url` is unpacked on `os`.
pub fn archive_kind_exec(url: &str, os: TargetOs) -> (r: ArchiveKind)
    ensures
        r == archive_kind(url@, os),
{
    if ends_with_str(url, ".zip") || os == TargetOs::MacOs {
        ArchiveKind::Zip
    } else {
        ArchiveKind::TarGz
    }
}

/// The member of a zip archive that is the ffmpeg program: its name ends
/// with `ffmpeg` or `ffmpeg.exe`.
pub open spec fn is_ffmpeg_zip_entry(name: Seq<char>) -> bool {
    ends_with(name, "ffmpeg"@) || ends_with(name, "ffmpeg.exe"@)
}

/// The member of a tar archive that is the ffmpeg program: its path ends
/// with `ffmpeg`.
pub open spec fn is_ffmpeg_tar_entry(path: Seq<char>) -> bool {
    ends_with(path, "ffmpeg"@)
}

/// Whether the zip member `name` is the ffmpeg program.
pub fn is_ffmpeg_zip_entry_exec(name: &str) -> (r: bool)
    ensures
        r == is_ffmpeg_zip_entry(name@),
{
    ends_with_str(name, "ffmpeg") || ends_with_str(name, "ffmpeg.exe")
}

/// Whether the tar member at `path` is the ffmpeg program.
pub fn is_ffmpeg_tar_entry_exec(path: &str) -> (r: bool)
    ensures
        r == is_ffmpeg_tar_entry(path@),
{
    ends_with_str(path, "ffmpeg")
}

/// What to download to install the missing programs.
pub struct DependencyDownloads {
    /// The address of yt-dlp, where it is missing.
    pub ytdlp_url: Option<String>,
    /// The address of the ffmpeg archive and how to unpack it, where ffmpeg
    /// is missing.
    pub ffmpeg: Option<(String, ArchiveKind)>,
}

/// What to download on `os`, given which programs were found.
pub fn dependency_downloads(os: TargetOs, ytdlp_found: bool, ffmpeg_found: bool) -> (r:
    DependencyDownloads)
    ensures
        ytdlp_found ==> r.ytdlp_url is None,
        !ytdlp_found ==> (r.ytdlp_url matches Some(u) && u@ == ytdlp_url(os)),
        ffmpeg_found ==> r.ffmpeg is None,
        !ffmpeg_found ==> (r.ffmpeg matches Some((u, k)) && u@ == ffmpeg_url(os) && k
            == archive_kind(ffmpeg_url(os), os)),
{
    let ytdlp = if ytdlp_found {
        None
    } else {
        Some(ytdlp_url_exec(os))
    };
    let ffmpeg = if ffmpeg_found {
        None
    } else {
        let u = ffmpeg_url_exec(os);
        let k = archive_kind_exec(u.as_str(), os);
        Some((u, k))
    };
    DependencyDownloads { ytdlp_url: ytdlp, ffmpeg }
}

// ---------------------------------------------------------------------------
// Showing a file
// ---------------------------------------------------------------------------

/// A program to start, with its arguments; where `wait` is set, it is run to
/// its end and counts as failed when it exits unsuccessfully.
pub struct LaunchStep {
    pub program: String,
    pub args: Vec<String>,
    pub wait: bool,
}

/// The mathematical content of a [`LaunchStep`].
pub struct LaunchView {
    pub program: Seq<char>,
    pub args: Seq<Seq<char>>,
    pub wait: bool,
}

impl View for LaunchStep {
    type V = LaunchView;

    open spec fn view(&self) -> LaunchView {
        LaunchView { program: self.program@, args: string_views(self.args@), wait: self.wait }
    }
}

/// The views of a sequence of steps.
pub open spec fn launch_views(v: Seq<LaunchStep>) -> Seq<LaunchView> {
    v.map_values(|s: LaunchStep| s@)
}

/// A step that starts `program` with `args`.
pub open spec fn launch(program: Seq<char>, args: Seq<Seq<char>>) -> LaunchView {
    LaunchView { program, args, wait: false }
}

/// The programs that show `path` in the file manager of `os`, tried in
/// order until one succeeds: for a file, the file selected in its folder
/// (on Linux, through the desktop's file manager service, then nautilus,
/// then the folder alone); otherwise the folder `folder`. `canonical` is the
/// absolute form of `path`. Other systems show nothing.
pub open spec fn open_location_steps(
    os: TargetOs,
    is_file: bool,
    path: Seq<char>,
    canonical: Seq<char>,
    folder: Seq<char>,
) -> Seq<LaunchView> {
    if os == TargetOs::Windows {
        if is_file {
            seq![launch("explorer"@, seq!["/select,"@, path])]
        } else {
            seq![launch("explorer"@, seq![folder])]
        }
    } else if os == TargetOs::MacOs {
        if is_file {
            seq![launch("open"@, seq!["-R"@, path])]
        } else {
            seq![launch("open"@, seq![folder])]
        }
    } else if os == TargetOs::Linux {
        if is_file {
            seq![
                LaunchView {
                    program: "dbus-send"@,
                    args: seq![
                        "--session"@,
                        "--print-reply"@,
                        "--dest=org.freedesktop.FileManager1"@,
                        "/org/freedesktop/FileManager1"@,
                        "org.freedesktop.FileManager1.ShowItems"@,
                        "array:string:file://"@ + canonical,
                        "string:\"\""@,
                    ],
                    wait: true,
                },
                launch("nautilus"@, seq!["-s"@, path]),
                launch("xdg-open"@, seq![folder]),
            ]
        } else {
            seq![launch("xdg-open"@, seq![folder])]
        }
    } else {
        seq![]
    }
}

fn launch_exec(program: &str, args: Vec<String>) -> (r: LaunchStep)
    ensures
        r@ == launch(program@, string_views(args@)),
{
    LaunchStep { program: owned(program), args, wait: false }
}

fn one_arg(a: String) -> (r: Vec<String>)
    ensures
        string_views(r@) == seq![a@],
{
    let mut r: Vec<String> = Vec::new();
    r.push(a);
    assert(string_views(r@) =~= seq![a@]);
    r
}

fn two_args(a: &str, b: &str) -> (r: Vec<String>)
    ensures
        string_views(r@) == seq![a@, b@],
{
    let mut r: Vec<String> = Vec::new();
    r.push(owned(a));
    r.push(owned(b));
    assert(string_views(r@) =~= seq![a@, b@]);
    r
}

/// The programs that show `path` in the file manager of `os`.
pub fn open_location_steps_exec(
    os: TargetOs,
    is_file: bool,
    path: &str,
    canonical: &str,
    folder: &str,
) -> (r: Vec<LaunchStep>)
    ensures
        launch_views(r@) == open_location_steps(os, is_file, path@, canonical@, folder@),
{
    let mut r: Vec<LaunchStep> = Vec::new();
    if os == TargetOs::Windows {
        if is_file {
            r.push(launch_exec("explorer", two_args("/select,", path)));
        } else {
            r.push(launch_exec("explorer", one_arg(owned(folder))));
        }
    } else if os == TargetOs::MacOs {
        if is_file {
            r.push(launch_exec("open", two_args("-R", path)));
        } else {
            r.push(launch_exec("open", one_arg(owned(folder))));
        }
    } else if os == TargetOs::Linux {
        if is_file {
            let mut args: Vec<String> = Vec::new();
            args.push(owned("--session"));
            args.push(owned("--print-reply"));
            args.push(owned("--dest=org.freedesktop.FileManager1"));
            args.push(owned("/org/freedesktop/FileManager1"));
            args.push(owned("org.freedesktop.FileManager1.ShowItems"));
            args.push(concat_str("array:string:file://", canonical));
            args.push(owned("string:\"\""));
            let ghost av = string_views(args@);
            r.push(LaunchStep { program: owned("dbus-send"), args, wait: true });
            r.push(launch_exec("nautilus", two_args("-s", path)));
            r.push(launch_exec("xdg-open", one_arg(owned(folder))));
            assert(av =~= seq![
                "--session"@,
                "--print-reply"@,
                "--dest=org.freedesktop.FileManager1"@,
                "/org/freedesktop/FileManager1"@,
                "org.freedesktop.FileManager1.ShowItems"@,
                "array:string:file://"@ + canonical@,
                "string:\"\""@,
            ]);
        } else {
            r.push(launch_exec("xdg-open", one_arg(owned(folder))));
        }
    }
    assert(launch_views(r@) =~= open_location_steps(os, is_file, path@, canonical@, folder@));
    r
}

/// What follows a step that showed the file or failed with `result`:
/// `Some` of the command's result where the step succeeded or was the last
/// to try, `None` where the next step is tried.
pub fn after_launch(is_last: bool, result: Result<(), String>) -> (r: Option<Result<(), String>>)
    ensures
        match result {
            Ok(()) => r == Some(Ok::<(), String>(())),
            Err(e) => if is_last {
                r matches Some(Err(e2)) && e2@ == e@
            } else {
                r is None
            },
        },
{
    match result {
        Ok(()) => Some(Ok(())),
        Err(e) => if is_last {
            Some(Err(e))
        } else {
            None
        },
    }
}

} // verus!

use lumen_grabber::download::{
    audio_quality_exec, download_args_exec, format_selector_exec, output_template_exec, AbortFlags,
};
use lumen_grabber::files::find_existing_file;
use lumen_grabber::setup::{
    after_launch, archive_kind_exec, find_command_path, command_from_lookup_exec, dependency_downloads, dependency_status,
    exe_file_name_exec, ffmpeg_url_exec, is_ffmpeg_tar_entry_exec, is_ffmpeg_zip_entry_exec,
    lookup_program_exec, open_location_steps_exec, ytdlp_url_exec, ArchiveKind, TargetOs,
};
use lumen_grabber::json::Json;
use lumen_grabber::video_info::{
    fetch_video_info, metadata_args, metadata_command, run_failure, ytdlp_program, VideoInfo,
};

#[test]
fn format_selector_and_template() {
    assert_eq!(format_selector_exec("audio", "320"), "bestaudio/best");
    assert_eq!(
        format_selector_exec("video", "1080"),
        "bestvideo[height<=1080]+bestaudio/best[height<=1080]"
    );
    assert_eq!(output_template_exec("/d", true), "/d/%(title)s-%(id)s.%(ext)s");
    assert_eq!(output_template_exec("/d", false), "/d/%(title)s.%(ext)s");
}

#[test]
fn audio_quality_choices() {
    for q in ["320", "256", "192", "128", "64"] {
        assert_eq!(audio_quality_exec(q), q);
    }
    assert_eq!(audio_quality_exec("1080"), "192");
    assert_eq!(audio_quality_exec(""), "192");
}

#[test]
fn download_arguments() {
    let a = download_args_exec("https://x/v", "/d", "audio", "128", false, Some("/opt/ff".to_string()));
    assert_eq!(
        a,
        vec![
            "--ffmpeg-location", "/opt/ff",
            "--newline", "--progress", "-f", "bestaudio/best", "-o", "/d/%(title)s.%(ext)s",
            "--extract-audio", "--audio-format", "mp3", "--audio-quality", "128", "https://x/v",
        ]
        .iter()
        .map(|s| s.to_string())
        .collect::<Vec<_>>()
    );
    let v = download_args_exec("https://x/v", "/d", "video", "720", true, None);
    assert_eq!(
        v,
        vec![
            "--newline", "--progress", "-f",
            "bestvideo[height<=720]+bestaudio/best[height<=720]", "-o",
            "/d/%(title)s-%(id)s.%(ext)s", "--merge-output-format", "mp4", "https://x/v",
        ]
        .iter()
        .map(|s| s.to_string())
        .collect::<Vec<_>>()
    );
}

#[test]
fn abort_flags_read_back_what_was_written() {
    let mut f = AbortFlags::new();
    assert!(!f.is_aborted("a"));
    f.clear("a".to_string());
    assert!(!f.is_aborted("a"));
    f.pause("a".to_string());
    assert!(f.is_aborted("a"));
    assert!(!f.is_aborted("b"));
    f.pause("b".to_string());
    f.clear("a".to_string());
    assert!(!f.is_aborted("a"));
    assert!(f.is_aborted("b"));
}

#[test]
fn program_sources() {
    assert_eq!(exe_file_name_exec("ffmpeg", TargetOs::Windows), "ffmpeg.exe");
    assert_eq!(exe_file_name_exec("yt-dlp", TargetOs::Linux), "yt-dlp");
    assert_eq!(lookup_program_exec(TargetOs::Windows), "where");
    assert_eq!(lookup_program_exec(TargetOs::MacOs), "which");
    assert_eq!(
        ytdlp_url_exec(TargetOs::MacOs),
        "https://github.com/yt-dlp/yt-dlp/releases/latest/download/yt-dlp_macos"
    );
    assert_eq!(
        ytdlp_url_exec(TargetOs::Other),
        "https://github.com/yt-dlp/yt-dlp/releases/latest/download/yt-dlp"
    );
    assert!(archive_kind_exec(&ffmpeg_url_exec(TargetOs::Windows), TargetOs::Windows) == ArchiveKind::Zip);
    assert!(archive_kind_exec(&ffmpeg_url_exec(TargetOs::MacOs), TargetOs::MacOs) == ArchiveKind::Zip);
    assert!(archive_kind_exec(&ffmpeg_url_exec(TargetOs::Linux), TargetOs::Linux) == ArchiveKind::TarGz);
    assert!(is_ffmpeg_zip_entry_exec("ffmpeg-7.1/bin/ffmpeg.exe"));
    assert!(is_ffmpeg_zip_entry_exec("ffmpeg"));
    assert!(!is_ffmpeg_zip_entry_exec("bin/ffprobe.exe"));
    assert!(is_ffmpeg_tar_entry_exec("ffmpeg-7.0-amd64-static/ffmpeg"));
    assert!(!is_ffmpeg_tar_entry_exec("ffmpeg-7.0-amd64-static/"));
}

#[test]
fn downloads_only_what_is_missing() {
    let d = dependency_downloads(TargetOs::Linux, true, false);
    assert!(d.ytdlp_url.is_none());
    let (u, k) = d.ffmpeg.unwrap();
    assert_eq!(u, "https://johnvansickle.com/ffmpeg/releases/ffmpeg-release-amd64-static.tar.xz");
    assert!(k == ArchiveKind::TarGz);
    let d = dependency_downloads(TargetOs::Windows, false, true);
    assert_eq!(
        d.ytdlp_url,
        Some("https://github.com/yt-dlp/yt-dlp/releases/latest/download/yt-dlp.exe".to_string())
    );
    assert!(d.ffmpeg.is_none());
}

#[test]
fn lookup_output_and_status() {
    assert_eq!(command_from_lookup_exec(true, "/usr/bin/ffmpeg\n"), Some("/usr/bin/ffmpeg".to_string()));
    assert_eq!(command_from_lookup_exec(true, "  \n"), None);
    assert_eq!(command_from_lookup_exec(false, "/usr/bin/ffmpeg"), None);
    let st = dependency_status(true, false);
    assert_eq!(st, vec![("ffmpeg".to_string(), true), ("ytdlp".to_string(), false)]);
}

#[test]
fn open_location_steps_per_system() {
    let w = open_location_steps_exec(TargetOs::Windows, true, "C:\\v\\a.mp4", "C:\\v\\a.mp4", "C:\\v");
    assert_eq!(w.len(), 1);
    assert_eq!(w[0].program, "explorer");
    assert_eq!(w[0].args, vec!["/select,".to_string(), "C:\\v\\a.mp4".to_string()]);
    let m = open_location_steps_exec(TargetOs::MacOs, false, "/v", "/v", ".");
    assert_eq!(m[0].program, "open");
    assert_eq!(m[0].args, vec![".".to_string()]);
    let l = open_location_steps_exec(TargetOs::Linux, true, "v/a.mp4", "/home/u/v/a.mp4", "v");
    assert_eq!(l.len(), 3);
    assert_eq!(l[0].program, "dbus-send");
    assert!(l[0].wait);
    assert_eq!(l[0].args[5], "array:string:file:///home/u/v/a.mp4");
    assert_eq!(l[0].args[6], "string:\"\"");
    assert_eq!(l[1].program, "nautilus");
    assert_eq!(l[1].args, vec!["-s".to_string(), "v/a.mp4".to_string()]);
    assert_eq!(l[2].program, "xdg-open");
    assert_eq!(l[2].args, vec!["v".to_string()]);
    assert!(!l[2].wait);
    assert!(open_location_steps_exec(TargetOs::Other, true, "a", "a", ".").is_empty());
}

#[test]
fn existing_files_are_recognised() {
    let names: Vec<String> = vec!["notes.txt".into(), "My Video.MP4".into(), "other.mkv".into()];
    assert_eq!(find_existing_file("my video", &names), Some(1));
    assert_eq!(find_existing_file("My Video!!.mp4", &names), None);
    assert_eq!(find_existing_file("MyVideo", &names), None);
    let names2: Vec<String> = vec!["abc".into(), "MyVideo.mp4".into()];
    assert_eq!(find_existing_file("My Video!.mp4", &names2), Some(1));
    assert_eq!(find_existing_file("a song about abc", &names2), Some(0));
    assert_eq!(find_existing_file("", &names2), Some(0));
    assert_eq!(find_existing_file("x", &vec![]), None);
}

#[test]
fn video_info_from_json() {
    let json = br#"{"id":"abc","title":"A clip","uploader":"Someone","duration_string":"3:05",
        "duration":185,"thumbnail":"https://t/x.jpg","formats":[
        {"height":360,"filesize":1048576},
        {"height":null},
        {"height":1080,"filesize":null,"filesize_approx":5242880},
        {"height":720,"filesize_approx":10485760},
        {"height":360,"filesize":999},
        {"height":1080.0},
        {"acodec":"opus"}]}"#;
    let info = match fetch_video_info(true, json, "") {
        Ok(i) => i,
        Err(e) => panic!("{}", e),
    };
    assert_eq!(info.id, Some("abc".to_string()));
    assert_eq!(info.title, Some("A clip".to_string()));
    assert_eq!(info.channel, Some("Someone".to_string()));
    assert_eq!(info.thumbnail, Some("https://t/x.jpg".to_string()));
    match &info.duration {
        Some(Json::Str(s)) => assert_eq!(s, "3:05"),
        _ => panic!("expected the duration string"),
    }
    let got: Vec<(u32, Option<u64>, String)> =
        info.formats.iter().map(|f| (f.height, f.filesize, f.label.clone())).collect();
    assert_eq!(
        got,
        vec![
            (1080, Some(5242880), "1080p (Full HD) (5.0 MB)".to_string()),
            (720, Some(10485760), "720p (HD) (10.0 MB)".to_string()),
            (360, Some(1048576), "360p (1.0 MB)".to_string()),
        ]
    );
}

#[test]
fn video_info_duration_falls_back_and_formats_may_be_missing() {
    let info = match fetch_video_info(true, br#"{"duration":185.5,"title":7}"#, "") {
        Ok(i) => i,
        Err(e) => panic!("{}", e),
    };
    match &info.duration {
        Some(Json::Number(n)) => {
            assert_eq!(n.text, "185.5");
            assert_eq!(n.unsigned, None);
        }
        _ => panic!("expected the duration number"),
    }
    assert_eq!(info.title, None);
    assert!(info.formats.is_empty());
}

#[test]
fn video_info_errors() {
    match fetch_video_info(false, b"{}", "ERROR: Unsupported URL") {
        Err(e) => assert_eq!(e, "yt-dlp error: ERROR: Unsupported URL"),
        Ok(_) => panic!("expected error"),
    }
    let bad = b"not json";
    let expected = format!(
        "Failed to parse JSON: {}",
        serde_json::from_slice::<serde_json::Value>(bad).unwrap_err()
    );
    match fetch_video_info(true, bad, "") {
        Err(e) => assert_eq!(e, expected),
        Ok(_) => panic!("expected error"),
    }
}

#[test]
fn launch_steps_fall_through_to_the_last_error() {
    assert_eq!(after_launch(false, Ok(())), Some(Ok(())));
    assert_eq!(after_launch(true, Ok(())), Some(Ok(())));
    assert_eq!(after_launch(false, Err("no dbus".to_string())), None);
    assert_eq!(after_launch(true, Err("no xdg-open".to_string())), Some(Err("no xdg-open".to_string())));
}

fn formats_of(json: &[u8]) -> (VideoInfo, Vec<(u32, Option<u64>, String)>) {
    let info = match fetch_video_info(true, json, "") {
        Ok(i) => i,
        Err(e) => panic!("{}", e),
    };
    let list = info.formats.iter().map(|f| (f.height, f.filesize, f.label.clone())).collect();
    (info, list)
}

#[test]
fn first_size_of_a_height_is_kept() {
    let (info, list) = formats_of(
        br#"{"formats":[{"height":720,"filesize":100},{"height":720,"filesize":200},{"height":360}]}"#,
    );
    assert!(info.id.is_none() && info.title.is_none() && info.channel.is_none());
    assert!(info.thumbnail.is_none() && info.duration.is_none());
    assert_eq!(
        list,
        vec![(720, Some(100), "720p (HD) (0.0 MB)".to_string()), (360, None, "360p".to_string())]
    );
}

#[test]
fn estimated_sizes_are_shown() {
    let (_, list) = formats_of(
        br#"{"formats":[{"height":480,"filesize":1048576},{"height":2160},{"height":1440},{"height":1080,"filesize_approx":52428800}]}"#,
    );
    assert_eq!(
        list,
        vec![
            (2160, None, "4K (2160p)".to_string()),
            (1440, None, "2K (1440p)".to_string()),
            (1080, Some(52428800), "1080p (Full HD) (50.0 MB)".to_string()),
            (480, Some(1048576), "480p (1.0 MB)".to_string()),
        ]
    );
}

#[test]
fn null_size_falls_back_to_estimate() {
    let (_, list) =
        formats_of(br#"{"formats":[{"height":720,"filesize":null,"filesize_approx":2097152}]}"#);
    assert_eq!(list, vec![(720, Some(2097152), "720p (HD) (2.0 MB)".to_string())]);
}

#[test]
fn formats_that_are_not_an_array_give_no_qualities() {
    let (_, list) = formats_of(br#"{"formats":{"height":720}}"#);
    assert!(list.is_empty());
    let (info, list) = formats_of(br#"[1,2,3]"#);
    assert!(list.is_empty() && info.id.is_none());
}

#[test]
fn metadata_arguments() {
    assert_eq!(
        metadata_args("https://x/v"),
        vec!["--dump-json", "--no-playlist", "--quiet", "https://x/v"]
    );
}

#[test]
fn local_copy_comes_first() {
    assert_eq!(
        find_command_path("/data/bin/ffmpeg".into(), true, None),
        Some("/data/bin/ffmpeg".to_string())
    );
    assert_eq!(
        find_command_path("/data/bin/ffmpeg".into(), false, Some((true, "/usr/bin/ffmpeg\n".into()))),
        Some("/usr/bin/ffmpeg".to_string())
    );
    assert_eq!(find_command_path("/data/bin/ffmpeg".into(), false, Some((false, "x".into()))), None);
    assert_eq!(find_command_path("/data/bin/ffmpeg".into(), false, None), None);
}

#[test]
fn metadata_command_needs_the_program() {
    match metadata_command(None, "https://x/v") {
        Err(e) => assert_eq!(e, "yt-dlp executable not found"),
        Ok(_) => panic!("expected the not-found error"),
    }
    match metadata_command(Some("/usr/bin/yt-dlp".into()), "https://x/v") {
        Ok((p, args)) => {
            assert_eq!(p, "/usr/bin/yt-dlp");
            assert_eq!(args, vec!["--dump-json", "--no-playlist", "--quiet", "https://x/v"]);
        }
        Err(e) => panic!("{}", e),
    }
    assert_eq!(ytdlp_program(None), Err("yt-dlp executable not found".to_string()));
    assert_eq!(ytdlp_program(Some("y".into())), Ok("y".to_string()));
    assert_eq!(run_failure("No such file"), "Failed to run yt-dlp: No such file");
}

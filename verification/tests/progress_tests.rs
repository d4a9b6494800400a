use lumen_grabber::progress::{
    eta_seconds_exec, next_filepath_exec, parse_progress_line, DownloadSession, ExitEvent,
    LineEvent, Percent,
};
use lumen_grabber::text::chars_of;

#[test]
fn progress_line_fields() {
    let r = parse_progress_line("[download]  10.0% of 50.00MiB at 4.23MiB/s ETA 00:10").unwrap();
    assert_eq!(r.percent_texts, vec!["10.0".to_string()]);
    assert_eq!(r.total_size, Some("50.00MiB".to_string()));
    assert_eq!(r.speed, "4.23MiB/s");
    assert_eq!(r.eta, 10);
}

#[test]
fn progress_line_with_hours_and_approximate_size() {
    let r = parse_progress_line("[download]  42.5% of ~ 1.20GiB at  2.00MiB/s ETA 1:02:03 (frag 3/9)")
        .unwrap();
    assert_eq!(r.percent_texts, vec!["42.5".to_string()]);
    assert_eq!(r.total_size, Some("~".to_string()));
    assert_eq!(r.speed, "2.00MiB/s");
    assert_eq!(r.eta, 3723);
}

#[test]
fn finished_line_keeps_defaults() {
    let r = parse_progress_line("[download] 100% of   10.00MiB in 00:00:05 at 2.00MiB/s").unwrap();
    assert_eq!(r.percent_texts, vec!["100".to_string()]);
    assert_eq!(r.total_size, Some("10.00MiB".to_string()));
    assert_eq!(r.speed, "2.00MiB/s");
    assert_eq!(r.eta, 0);
}

#[test]
fn unknown_eta_and_trailing_keywords() {
    let r = parse_progress_line("[download]   5.0% of Unknown at Unknown ETA Unknown").unwrap();
    assert_eq!(r.eta, 0);
    assert_eq!(r.speed, "Unknown");
    let r = parse_progress_line("[download] 1% ETA 00:07 ETA").unwrap();
    assert_eq!(r.eta, 7);
    let r = parse_progress_line("[download] 1% of").unwrap();
    assert_eq!(r.total_size, None);
    assert_eq!(r.speed, "0 MB/s");
}

#[test]
fn eta_fields() {
    assert_eq!(eta_seconds_exec(&chars_of("00:10")), Some(10));
    assert_eq!(eta_seconds_exec(&chars_of("3:07")), Some(187));
    assert_eq!(eta_seconds_exec(&chars_of("1:00:00")), Some(3600));
    assert_eq!(eta_seconds_exec(&chars_of("ab:10")), Some(10));
    assert_eq!(eta_seconds_exec(&chars_of("-1:30")), Some(-30));
    assert_eq!(eta_seconds_exec(&chars_of("10")), None);
    assert_eq!(eta_seconds_exec(&chars_of("1:2:3:4")), None);
    assert_eq!(
        eta_seconds_exec(&chars_of("9223372036854775807:00")),
        Some(9223372036854775807i64.wrapping_mul(60))
    );
}

#[test]
fn lines_that_are_not_progress() {
    assert!(parse_progress_line("[youtube] abc: Downloading webpage").is_none());
    assert!(parse_progress_line("[download] Destination: /tmp/v.mp4").is_none());
    assert!(parse_progress_line("50% done").is_none());
    let r = parse_progress_line("[download] Destination: /tmp/100%.mp4").unwrap();
    assert_eq!(r.percent_texts, vec!["/tmp/100.mp4".to_string()]);
}

#[test]
fn destination_lines() {
    assert_eq!(
        next_filepath_exec("[download] Destination: /home/u/Videos/Clip.f137.mp4  ", None),
        Some("/home/u/Videos/Clip.f137.mp4".to_string())
    );
    assert_eq!(
        next_filepath_exec(
            "[Merger] Merging formats into \"/home/u/Videos/Clip.mp4\"",
            Some("old".to_string())
        ),
        Some("/home/u/Videos/Clip.mp4".to_string())
    );
    assert_eq!(
        next_filepath_exec("[ExtractAudio] Destination: /m/Song.mp3", None),
        Some("/m/Song.mp3".to_string())
    );
    assert_eq!(
        next_filepath_exec("[download] Destination:", Some("kept".to_string())),
        Some("kept".to_string())
    );
    assert_eq!(
        next_filepath_exec("[download]  10.0% of 5MiB", Some("kept".to_string())),
        Some("kept".to_string())
    );
    assert_eq!(next_filepath_exec("[Merger] Merging formats into nothing", None), None);
}

#[test]
fn session_reports_progress_with_the_announced_file() {
    let mut s = DownloadSession::new("d1".to_string());
    match s.on_line("[download] Destination: /v/a.mp4", false) {
        LineEvent::Quiet => {}
        _ => panic!("expected no event"),
    }
    assert_eq!(s.final_filepath(), Some("/v/a.mp4".to_string()));
    match s.on_line("[download]  50.0% of 8.00MiB at 1.00MiB/s ETA 00:04", false) {
        LineEvent::Progress(p) => {
            assert_eq!(p.download_id, "d1");
            match p.percent {
                Percent::Reported(t) => assert_eq!(t, vec!["50.0".to_string()]),
                _ => panic!("expected reported percent"),
            }
            assert_eq!(p.speed, "1.00MiB/s");
            assert_eq!(p.eta, 4);
            assert_eq!(p.filepath, Some("/v/a.mp4".to_string()));
            assert_eq!(p.total_size, Some("8.00MiB".to_string()));
        }
        _ => panic!("expected progress"),
    }
    match s.on_exit(true) {
        ExitEvent::Completed(p) => {
            assert!(matches!(p.percent, Percent::Full));
            assert_eq!(p.speed, "0 MB/s");
            assert_eq!(p.eta, 0);
            assert_eq!(p.filepath, Some("/v/a.mp4".to_string()));
            assert_eq!(p.total_size, None);
        }
        _ => panic!("expected completion"),
    }
}

#[test]
fn paused_session_reports_and_keeps_state() {
    let mut s = DownloadSession::new("d2".to_string());
    s.on_line("[download] Destination: /v/b.mp4", false);
    match s.on_line("[download] Destination: /v/other.mp4", true) {
        LineEvent::Paused(p) => {
            assert_eq!(p.download_id, "d2");
            assert!(matches!(p.percent, Percent::Zero));
            assert_eq!(p.speed, "Paused");
            assert_eq!(p.eta, 0);
            assert_eq!(p.filepath, None);
            assert_eq!(p.total_size, None);
        }
        _ => panic!("expected paused"),
    }
    assert_eq!(s.final_filepath(), Some("/v/b.mp4".to_string()));
    assert_eq!(s.download_id(), "d2");
}

#[test]
fn failed_download_reports_error() {
    let s = DownloadSession::new("d3".to_string());
    match s.on_exit(false) {
        ExitEvent::Failed(id, msg) => {
            assert_eq!(id, "d3");
            assert_eq!(msg, "Download failed or interrupted");
        }
        _ => panic!("expected failure"),
    }
}

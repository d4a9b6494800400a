//! Reading yt-dlp's console output while a download runs: progress lines,
//! the destination file it announces, and the session that turns each line
//! into the event to report.
use vstd::prelude::*;
use crate::text::{
    chars_of, contains, contains_str, owned, parse_i64, parse_i64_exec, pieces, second_piece,
    second_piece_exec, split_on, split_words, str_is, string_of, trim, trim_chars, views,
    without_char, without_char_exec, words,
};

verus! {

// ---------------------------------------------------------------------------
// Views of strings held in options and vectors
// ---------------------------------------------------------------------------

/// The characters of an optional string.
pub open spec fn opt_view(o: Option<String>) -> Option<Seq<char>> {
    match o {
        Some(s) => Some(s@),
        None => None,
    }
}

/// The characters of each string of a sequence.
pub open spec fn string_views(v: Seq<String>) -> Seq<Seq<char>> {
    v.map_values(|s: String| s@)
}

/// A copy of an optional string.
pub fn clone_opt(o: &Option<String>) -> (r: Option<String>)
    ensures
        opt_view(r) == opt_view(*o),
{
    match o {
        Some(s) => Some(s.clone()),
        None => None,
    }
}

// ---------------------------------------------------------------------------
// Remaining time
// ---------------------------------------------------------------------------

/// A clock field of an `ETA` value: its `i64` value, 0 where it does
/// not read as one.
pub open spec fn clock_field(s: Seq<char>) -> i64 {
    match parse_i64(s) {
        Some(v) => v,
        None => 0,
    }
}

/// The seconds that an `ETA` value such as `00:10` or `1:02:03` stands for:
/// `m:s` or `h:m:s`, each field read as an `i64` (0 where it does not read),
/// combined with wrapping arithmetic; `None` for any other number of fields.
pub open spec fn eta_seconds(t: Seq<char>) -> Option<i64> {
    let ps = pieces(t, ':');
    if ps.len() == 2 {
        Some(clock_field(ps[0]).wrapping_mul(60).wrapping_add(clock_field(ps[1])))
    } else if ps.len() == 3 {
        Some(
            clock_field(ps[0]).wrapping_mul(3600).wrapping_add(
                clock_field(ps[1]).wrapping_mul(60),
            ).wrapping_add(clock_field(ps[2])),
        )
    } else {
        None
    }
}

fn clock_field_exec(s: &Vec<char>) -> (r: i64)
    ensures
        r == clock_field(s@),
{
    match parse_i64_exec(s) {
        Some(v) => v,
        None => 0,
    }
}

/// The seconds that an `ETA` value stands for.
pub fn eta_seconds_exec(t: &Vec<char>) -> (r: Option<i64>)
    ensures
        r == eta_seconds(t@),
{
    let ps = split_on(t, ':');
    assert(ps@.len() == pieces(t@, ':').len());
    if ps.len() == 2 {
        assert(ps@[0]@ == pieces(t@, ':')[0]);
        assert(ps@[1]@ == pieces(t@, ':')[1]);
        let m = clock_field_exec(&ps[0]);
        let s = clock_field_exec(&ps[1]);
        Some(m.wrapping_mul(60).wrapping_add(s))
    } else if ps.len() == 3 {
        assert(ps@[0]@ == pieces(t@, ':')[0]);
        assert(ps@[1]@ == pieces(t@, ':')[1]);
        assert(ps@[2]@ == pieces(t@, ':')[2]);
        let h = clock_field_exec(&ps[0]);
        let m = clock_field_exec(&ps[1]);
        let s = clock_field_exec(&ps[2]);
        Some(h.wrapping_mul(3600).wrapping_add(m.wrapping_mul(60)).wrapping_add(s))
    } else {
        None
    }
}

// ---------------------------------------------------------------------------
// Progress lines
// ---------------------------------------------------------------------------

/// What a progress line reports: the texts of its percent words with `%`
/// removed, in order; the word after the last `of`; the word after the last
/// `at`; and the seconds of the last `ETA` value that has two or three
/// fields.
pub struct ProgressReport {
    pub percent_texts: Vec<String>,
    pub total_size: Option<String>,
    pub speed: String,
    pub eta: i64,
}

/// The mathematical content of a [`ProgressReport`].
pub struct ProgressFields {
    pub percent_texts: Seq<Seq<char>>,
    pub total_size: Option<Seq<char>>,
    pub speed: Seq<char>,
    pub eta: i64,
}

impl View for ProgressReport {
    type V = ProgressFields;

    open spec fn view(&self) -> ProgressFields {
        ProgressFields {
            percent_texts: string_views(self.percent_texts@),
            total_size: opt_view(self.total_size),
            speed: self.speed@,
            eta: self.eta,
        }
    }
}

/// The report before any word of the line is read: no percent, no total, a
/// speed of `0 MB/s` and no time left.
pub open spec fn initial_fields() -> ProgressFields {
    ProgressFields { percent_texts: seq![], total_size: None, speed: "0 MB/s"@, eta: 0 }
}

/// The report after reading word `i` of `ws`, given the report before it.
pub open spec fn read_word(f: ProgressFields, ws: Seq<Seq<char>>, i: int) -> ProgressFields {
    let w = ws[i];
    let has_next = i + 1 < ws.len();
    ProgressFields {
        percent_texts: if contains(w, "%"@) {
            f.percent_texts.push(without_char(w, '%'))
        } else {
            f.percent_texts
        },
        total_size: if w == "of"@ && has_next {
            Some(ws[i + 1])
        } else {
            f.total_size
        },
        speed: if w == "at"@ && has_next {
            ws[i + 1]
        } else {
            f.speed
        },
        eta: if w == "ETA"@ && has_next {
            match eta_seconds(ws[i + 1]) {
                Some(v) => v,
                None => f.eta,
            }
        } else {
            f.eta
        },
    }
}

/// The report after reading the first `k` words of `ws`.
pub open spec fn read_words(ws: Seq<Seq<char>>, k: nat) -> ProgressFields
    decreases k,
{
    if k == 0 {
        initial_fields()
    } else {
        read_word(read_words(ws, (k - 1) as nat), ws, k - 1)
    }
}

/// `line` is a progress line: it holds `[download]` and `%`.
pub open spec fn is_progress_line(line: Seq<char>) -> bool {
    contains(line, "[download]"@) && contains(line, "%"@)
}

/// What `line` reports, if it is a progress line.
pub open spec fn progress_of(line: Seq<char>) -> Option<ProgressFields> {
    if is_progress_line(line) {
        Some(read_words(words(line), words(line).len()))
    } else {
        None
    }
}

/// Reads a line of yt-dlp output such as
/// `[download]  10.0% of 50.00MiB at 4.23MiB/s ETA 00:10`.
pub fn parse_progress_line(line: &str) -> (r: Option<ProgressReport>)
    ensures
        match progress_of(line@) {
            Some(f) => r is Some && r->0@ == f,
            None => r is None,
        },
{
    let chars = chars_of(line);
    if !(contains_str(&chars, "[download]") && contains_str(&chars, "%")) {
        return None;
    }
    let ws = split_words(&chars);
    let n = ws.len();
    let mut percent_texts: Vec<String> = Vec::new();
    let mut total_size: Option<String> = None;
    let mut speed = owned("0 MB/s");
    let mut eta: i64 = 0;
    let mut i: usize = 0;
    assert(string_views(percent_texts@) =~= seq![]);
    while i < n
        invariant
            n == ws@.len(),
            views(ws@) == words(line@),
            i <= n,
            (ProgressReport { percent_texts, total_size, speed, eta })@ == read_words(
                views(ws@),
                i as nat,
            ),
        decreases n - i,
    {
        let ghost wsv = views(ws@);
        let ghost before = read_words(wsv, i as nat);
        let w = &ws[i];
        assert(w@ == wsv[i as int]);
        let has_next = i + 1 < n;
        if contains_str(w, "%") {
            let t = without_char_exec(w, '%');
            let ts = string_of(&t);
            let ghost old_p = percent_texts@;
            percent_texts.push(ts);
            assert(string_views(percent_texts@) =~= string_views(old_p).push(t@));
        }
        if has_next && str_is(w, "of") {
            assert(ws@[i + 1]@ == wsv[i + 1]);
            total_size = Some(string_of(&ws[i + 1]));
        }
        if has_next && str_is(w, "at") {
            assert(ws@[i + 1]@ == wsv[i + 1]);
            speed = string_of(&ws[i + 1]);
        }
        if has_next && str_is(w, "ETA") {
            assert(ws@[i + 1]@ == wsv[i + 1]);
            match eta_seconds_exec(&ws[i + 1]) {
                Some(v) => {
                    eta = v;
                },
                None => {},
            }
        }
        assert((ProgressReport { percent_texts, total_size, speed, eta })@ == read_word(
            before,
            wsv,
            i as int,
        ));
        i = i + 1;
    }
    Some(ProgressReport { percent_texts, total_size, speed, eta })
}

// ---------------------------------------------------------------------------
// Destination file
// ---------------------------------------------------------------------------

/// The file that yt-dlp writes to after it printed `line`, given the one
/// known before: the path after `Destination: ` on a `[download]
/// Destination:` or `[ExtractAudio] Destination:` line, or the path after
/// `into "` with quotes removed on a `[Merger] Merging formats into` line,
/// trimmed in each case; otherwise, or where the marker text is missing,
/// the one known before.
pub open spec fn next_filepath(line: Seq<char>, current: Option<Seq<char>>) -> Option<
    Seq<char>,
> {
    if contains(line, "[download] Destination:"@) {
        match second_piece(line, "Destination: "@) {
            Some(d) => Some(trim(d)),
            None => current,
        }
    } else if contains(line, "[Merger] Merging formats into"@) {
        match second_piece(line, "into \""@) {
            Some(d) => Some(trim(without_char(d, '"'))),
            None => current,
        }
    } else if contains(line, "[ExtractAudio] Destination:"@) {
        match second_piece(line, "Destination: "@) {
            Some(d) => Some(trim(d)),
            None => current,
        }
    } else {
        current
    }
}

fn destination_after(chars: &Vec<char>, marker: &str, current: Option<String>) -> (r: Option<
    String,
>)
    ensures
        opt_view(r) == match second_piece(chars@, marker@) {
            Some(d) => Some(trim(d)),
            None => opt_view(current),
        },
{
    let m = chars_of(marker);
    match second_piece_exec(chars, &m) {
        Some(d) => {
            let t = trim_chars(&d);
            Some(string_of(&t))
        },
        None => current,
    }
}

/// The file that yt-dlp writes to after it printed `line`.
pub fn next_filepath_exec(line: &str, current: Option<String>) -> (r: Option<String>)
    ensures
        opt_view(r) == next_filepath(line@, opt_view(current)),
{
    let chars = chars_of(line);
    if contains_str(&chars, "[download] Destination:") {
        destination_after(&chars, "Destination: ", current)
    } else if contains_str(&chars, "[Merger] Merging formats into") {
        let m = chars_of("into \"");
        match second_piece_exec(&chars, &m) {
            Some(d) => {
                let u = without_char_exec(&d, '"');
                let t = trim_chars(&u);
                Some(string_of(&t))
            },
            None => current,
        }
    } else if contains_str(&chars, "[ExtractAudio] Destination:") {
        destination_after(&chars, "Destination: ", current)
    } else {
        current
    }
}

// ---------------------------------------------------------------------------
// Events of a download
// ---------------------------------------------------------------------------

/// The percentage that an event reports.
pub enum Percent {
    /// 0, as a paused download reports.
    Zero,
    /// 100, as a finished download reports.
    Full,
    /// The percent texts of a progress line: the value is the last of them
    /// that reads as a decimal number, 0 where none does.
    Reported(Vec<String>),
}

/// The mathematical content of a [`Percent`].
pub enum PercentView {
    Zero,
    Full,
    Reported(Seq<Seq<char>>),
}

impl View for Percent {
    type V = PercentView;

    open spec fn view(&self) -> PercentView {
        match self {
            Percent::Zero => PercentView::Zero,
            Percent::Full => PercentView::Full,
            Percent::Reported(v) => PercentView::Reported(string_views(v@)),
        }
    }
}

/// The progress of one download, as reported to the user interface.
pub struct ProgressPayload {
    pub download_id: String,
    pub percent: Percent,
    pub speed: String,
    pub eta: i64,
    pub filepath: Option<String>,
    pub total_size: Option<String>,
}

/// The mathematical content of a [`ProgressPayload`].
pub struct PayloadView {
    pub download_id: Seq<char>,
    pub percent: PercentView,
    pub speed: Seq<char>,
    pub eta: i64,
    pub filepath: Option<Seq<char>>,
    pub total_size: Option<Seq<char>>,
}

impl View for ProgressPayload {
    type V = PayloadView;

    open spec fn view(&self) -> PayloadView {
        PayloadView {
            download_id: self.download_id@,
            percent: self.percent@,
            speed: self.speed@,
            eta: self.eta,
            filepath: opt_view(self.filepath),
            total_size: opt_view(self.total_size),
        }
    }
}

/// What a download reports for one line of yt-dlp's output.
pub enum LineEvent {
    /// The download was paused: report this status, stop yt-dlp, and read
    /// no further.
    Paused(ProgressPayload),
    /// Report this progress.
    Progress(ProgressPayload),
    /// Report nothing.
    Quiet,
}

/// The mathematical content of a [`LineEvent`].
pub enum LineEventView {
    Paused(PayloadView),
    Progress(PayloadView),
    Quiet,
}

impl View for LineEvent {
    type V = LineEventView;

    open spec fn view(&self) -> LineEventView {
        match self {
            LineEvent::Paused(p) => LineEventView::Paused(p@),
            LineEvent::Progress(p) => LineEventView::Progress(p@),
            LineEvent::Quiet => LineEventView::Quiet,
        }
    }
}

/// What a download reports when yt-dlp has exited.
pub enum ExitEvent {
    /// Report this final progress.
    Completed(ProgressPayload),
    /// Report an error for the download of this id, with this message.
    Failed(String, String),
}

/// The mathematical content of an [`ExitEvent`].
pub enum ExitEventView {
    Completed(PayloadView),
    Failed(Seq<char>, Seq<char>),
}

impl View for ExitEvent {
    type V = ExitEventView;

    open spec fn view(&self) -> ExitEventView {
        match self {
            ExitEvent::Completed(p) => ExitEventView::Completed(p@),
            ExitEvent::Failed(id, m) => ExitEventView::Failed(id@, m@),
        }
    }
}

/// The state of one running download: its id and the file yt-dlp last
/// announced.
pub struct DownloadSession {
    download_id: String,
    final_filepath: Option<String>,
}

/// The mathematical content of a [`DownloadSession`].
pub struct SessionView {
    pub download_id: Seq<char>,
    pub final_filepath: Option<Seq<char>>,
}

impl View for DownloadSession {
    type V = SessionView;

    closed spec fn view(&self) -> SessionView {
        SessionView { download_id: self.download_id@, final_filepath: opt_view(self.final_filepath) }
    }
}

/// The status a paused download reports.
pub open spec fn paused_payload(id: Seq<char>) -> PayloadView {
    PayloadView {
        download_id: id,
        percent: PercentView::Zero,
        speed: "Paused"@,
        eta: 0,
        filepath: None,
        total_size: None,
    }
}

/// The progress reported for a progress line.
pub open spec fn progress_payload(
    id: Seq<char>,
    f: ProgressFields,
    filepath: Option<Seq<char>>,
) -> PayloadView {
    PayloadView {
        download_id: id,
        percent: PercentView::Reported(f.percent_texts),
        speed: f.speed,
        eta: f.eta,
        filepath: filepath,
        total_size: f.total_size,
    }
}

/// The session and the event after yt-dlp printed `line`, where `aborted`
/// tells whether the download has been paused: a paused download reports so
/// and changes nothing; otherwise the announced file is updated first, and a
/// progress line then reports its progress with that file.
pub open spec fn step_line(s: SessionView, line: Seq<char>, aborted: bool) -> (
    SessionView,
    LineEventView,
) {
    if aborted {
        (s, LineEventView::Paused(paused_payload(s.download_id)))
    } else {
        let fp = next_filepath(line, s.final_filepath);
        let s2 = SessionView { download_id: s.download_id, final_filepath: fp };
        match progress_of(line) {
            Some(f) => (s2, LineEventView::Progress(progress_payload(s.download_id, f, fp))),
            None => (s2, LineEventView::Quiet),
        }
    }
}

/// The event when yt-dlp has exited, successfully or not.
pub open spec fn step_exit(s: SessionView, success: bool) -> ExitEventView {
    if success {
        ExitEventView::Completed(
            PayloadView {
                download_id: s.download_id,
                percent: PercentView::Full,
                speed: "0 MB/s"@,
                eta: 0,
                filepath: s.final_filepath,
                total_size: None,
            },
        )
    } else {
        ExitEventView::Failed(s.download_id, "Download failed or interrupted"@)
    }
}

/// A paused download reports `Paused` with nothing else and keeps the state
/// it had, whatever the line.
pub proof fn lemma_pause_keeps_state(s: SessionView, line: Seq<char>)
    ensures
        step_line(s, line, true) == (s, LineEventView::Paused(paused_payload(s.download_id))),
{
}

/// Every event of a session carries the id of its download, and no line
/// changes that id.
pub proof fn lemma_session_keeps_id(s: SessionView, line: Seq<char>, aborted: bool, ok: bool)
    ensures
        step_line(s, line, aborted).0.download_id == s.download_id,
        match step_line(s, line, aborted).1 {
            LineEventView::Paused(p) => p.download_id == s.download_id,
            LineEventView::Progress(p) => p.download_id == s.download_id,
            LineEventView::Quiet => true,
        },
        match step_exit(s, ok) {
            ExitEventView::Completed(p) => p.download_id == s.download_id,
            ExitEventView::Failed(id, _) => id == s.download_id,
        },
{
}

/// A line that announces no destination leaves the known file as it was,
/// and a progress line reports the file known after reading it.
pub proof fn lemma_file_carried(s: SessionView, line: Seq<char>)
    ensures
        !contains(line, "[download] Destination:"@) && !contains(
            line,
            "[Merger] Merging formats into"@,
        ) && !contains(line, "[ExtractAudio] Destination:"@) ==> step_line(
            s,
            line,
            false,
        ).0 == s,
        step_line(s, line, false).1 matches LineEventView::Progress(p) ==> p.filepath == step_line(
            s,
            line,
            false,
        ).0.final_filepath,
{
}

/// A line that announces where yt-dlp writes a download (`[download]
/// Destination:`), or, where no merge is announced, where it writes the
/// extracted audio (`[ExtractAudio] Destination:`), makes the path after
/// `Destination: `, trimmed, the file of the download, whatever file was
/// known before.
pub proof fn lemma_destination_replaces_file(
    line: Seq<char>,
    current: Option<Seq<char>>,
    path: Seq<char>,
)
    requires
        contains(line, "[download] Destination:"@) || (contains(
            line,
            "[ExtractAudio] Destination:"@,
        ) && !contains(line, "[Merger] Merging formats into"@)),
        second_piece(line, "Destination: "@) == Some(path),
    ensures
        next_filepath(line, current) == Some(trim(path)),
        step_line(
            SessionView { download_id: seq![], final_filepath: current },
            line,
            false,
        ).0.final_filepath == Some(trim(path)),
{
}

/// A merge line (`[Merger] Merging formats into "P"`) on which no download
/// destination is announced makes `P`, without quotes and trimmed, the file
/// of the download, whatever file was known before.
pub proof fn lemma_merge_replaces_file(line: Seq<char>, current: Option<Seq<char>>, path: Seq<char>)
    requires
        !contains(line, "[download] Destination:"@),
        contains(line, "[Merger] Merging formats into"@),
        second_piece(line, "into \""@) == Some(path),
    ensures
        next_filepath(line, current) == Some(trim(without_char(path, '"'))),
{
}

impl DownloadSession {
    /// A session for the download `download_id`, with no file announced yet.
    pub fn new(download_id: String) -> (r: Self)
        ensures
            r@ == (SessionView { download_id: download_id@, final_filepath: None }),
    {
        DownloadSession { download_id, final_filepath: None }
    }

    /// The id of the download.
    pub fn download_id(&self) -> (r: &String)
        ensures
            r@ == self@.download_id,
    {
        &self.download_id
    }

    /// The file yt-dlp last announced.
    pub fn final_filepath(&self) -> (r: Option<String>)
        ensures
            opt_view(r) == self@.final_filepath,
    {
        clone_opt(&self.final_filepath)
    }

    /// Takes the line yt-dlp printed and tells what to report.
    pub fn on_line(&mut self, line: &str, aborted: bool) -> (r: LineEvent)
        ensures
            (final(self)@, r@) == step_line(old(self)@, line@, aborted),
    {
        if aborted {
            return LineEvent::Paused(
                ProgressPayload {
                    download_id: self.download_id.clone(),
                    percent: Percent::Zero,
                    speed: owned("Paused"),
                    eta: 0,
                    filepath: None,
                    total_size: None,
                },
            );
        }
        let current = clone_opt(&self.final_filepath);
        self.final_filepath = next_filepath_exec(line, current);
        match parse_progress_line(line) {
            Some(rep) => LineEvent::Progress(
                ProgressPayload {
                    download_id: self.download_id.clone(),
                    percent: Percent::Reported(rep.percent_texts),
                    speed: rep.speed,
                    eta: rep.eta,
                    filepath: clone_opt(&self.final_filepath),
                    total_size: rep.total_size,
                },
            ),
            None => LineEvent::Quiet,
        }
    }

    /// Tells what to report once yt-dlp has exited.
    pub fn on_exit(&self, success: bool) -> (r: ExitEvent)
        ensures
            r@ == step_exit(self@, success),
    {
        if success {
            ExitEvent::Completed(
                ProgressPayload {
                    download_id: self.download_id.clone(),
                    percent: Percent::Full,
                    speed: owned("0 MB/s"),
                    eta: 0,
                    filepath: clone_opt(&self.final_filepath),
                    total_size: None,
                },
            )
        } else {
            ExitEvent::Failed(self.download_id.clone(), owned("Download failed or interrupted"))
        }
    }
}

} // verus!

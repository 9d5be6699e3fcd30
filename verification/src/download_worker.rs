//! The decisions a download worker makes while it fetches a video: what to
//! call the file, which renditions to ask for, what the tool's output lines
//! mean, which file it produced and where that file is uploaded.

use vstd::prelude::*;

use crate::download::DownloadStatus;
use crate::errors::AppError;
use crate::use_cases::DownloadEvent;
use crate::ids::{id_to_text, uuid_text};
use crate::text::{
    strings_of, views, chars_of, contains_chars, contains_text, is_alphanumeric, is_whitespace,
    starts_with_chars, starts_with_text, string_of_chars, alphanumeric,
    unicode_whitespace,
};
use crate::video_info::{quality_label, VideoQuality};

verus! {

/// A title character as it may appear in a file name: letters, digits,
/// spaces, `-` and `_` stay, anything else becomes `_`.
pub open spec fn file_safe_char(c: char) -> char {
    if alphanumeric(c) || c == ' ' || c == '-' || c == '_' {
        c
    } else {
        '_'
    }
}

pub open spec fn trim_start_ws(s: Seq<char>) -> Seq<char>
    decreases s.len(),
{
    if s.len() > 0 && unicode_whitespace(s[0]) {
        trim_start_ws(s.drop_first())
    } else {
        s
    }
}

pub open spec fn trim_end_ws(s: Seq<char>) -> Seq<char>
    decreases s.len(),
{
    if s.len() > 0 && unicode_whitespace(s.last()) {
        trim_end_ws(s.drop_last())
    } else {
        s
    }
}

/// The file-name stem made from a title: each character made file-safe, then
/// white space trimmed from both ends.
pub open spec fn file_stem(title: Seq<char>) -> Seq<char> {
    trim_end_ws(trim_start_ws(title.map_values(|c: char| file_safe_char(c))))
}

/// A character that cannot lead a file name out of its directory: no path
/// separator and no dot.
pub open spec fn stays_in_directory(c: char) -> bool {
    c != '/' && c != '\\' && c != '.'
}

/// Trimming white space from the start leaves a suffix.
proof fn lemma_trim_start_suffix(s: Seq<char>)
    ensures
        trim_start_ws(s).len() <= s.len(),
        trim_start_ws(s) == s.subrange(s.len() - trim_start_ws(s).len(), s.len() as int),
        forall|j: int| 0 <= j < s.len() - trim_start_ws(s).len() ==> unicode_whitespace(#[trigger] s[j]),
        trim_start_ws(s).len() > 0 ==> !unicode_whitespace(trim_start_ws(s)[0]),
    decreases s.len(),
{
    if s.len() > 0 && unicode_whitespace(s[0]) {
        let t = s.drop_first();
        lemma_trim_start_suffix(t);
        assert(trim_start_ws(s) == trim_start_ws(t));
        assert forall|j: int| 0 <= j < s.len() - trim_start_ws(s).len() implies unicode_whitespace(
            #[trigger] s[j],
        ) by {
            if j > 0 {
                assert(s[j] == t[j - 1]);
            }
        }
        assert(t.subrange(t.len() - trim_start_ws(t).len(), t.len() as int) =~= s.subrange(
            s.len() - trim_start_ws(t).len(),
            s.len() as int,
        ));
    } else {
        assert(trim_start_ws(s) == s);
        assert(s.subrange(0, s.len() as int) =~= s);
    }
}

/// Trimming white space from the end leaves a prefix.
proof fn lemma_trim_end_prefix(s: Seq<char>)
    ensures
        trim_end_ws(s).len() <= s.len(),
        trim_end_ws(s) == s.subrange(0, trim_end_ws(s).len() as int),
        forall|j: int| trim_end_ws(s).len() <= j < s.len() ==> unicode_whitespace(#[trigger] s[j]),
        trim_end_ws(s).len() > 0 ==> !unicode_whitespace(trim_end_ws(s).last()),
    decreases s.len(),
{
    if s.len() > 0 && unicode_whitespace(s.last()) {
        let t = s.drop_last();
        lemma_trim_end_prefix(t);
        assert(trim_end_ws(s) == trim_end_ws(t));
        assert forall|j: int| trim_end_ws(s).len() <= j < s.len() implies unicode_whitespace(
            #[trigger] s[j],
        ) by {
            if j < s.len() - 1 {
                assert(s[j] == t[j]);
            }
        }
        assert(t.subrange(0, trim_end_ws(t).len() as int) =~= s.subrange(0, trim_end_ws(t).len() as int));
    } else {
        assert(trim_end_ws(s) == s);
        assert(s.subrange(0, s.len() as int) =~= s);
    }
}

/// A file stem is a stretch of the title, each character that is not a
/// letter, a digit, a space, `-` or `_` replaced by `_`; so every character of
/// a stem is a letter, a digit, a space, `-` or `_`.
pub proof fn file_stems_are_the_title_made_safe(title: Seq<char>) -> (a: int)
    ensures
        0 <= a && a + file_stem(title).len() <= title.len(),
        forall|i: int|
            0 <= i < file_stem(title).len() ==> (#[trigger] file_stem(title)[i]) == if alphanumeric(
                title[a + i],
            ) || title[a + i] == ' ' || title[a + i] == '-' || title[a + i] == '_' {
                title[a + i]
            } else {
                '_'
            },
        forall|i: int|
            0 <= i < file_stem(title).len() ==> alphanumeric(#[trigger] file_stem(title)[i])
                || file_stem(title)[i] == ' ' || file_stem(title)[i] == '-' || file_stem(title)[i]
                == '_',
        file_stem(title).len() > 0 ==> !unicode_whitespace(file_stem(title)[0]) && !unicode_whitespace(
            file_stem(title).last(),
        ),
        forall|j: int|
            (0 <= j < a || a + file_stem(title).len() <= j < title.len()) ==> unicode_whitespace(
                #[trigger] title[j],
            ) && (alphanumeric(title[j]) || title[j] == ' '),
{
    let m = title.map_values(|c: char| file_safe_char(c));
    let ts = trim_start_ws(m);
    let st = file_stem(title);
    lemma_trim_start_suffix(m);
    lemma_trim_end_prefix(ts);
    let a = m.len() - ts.len();
    assert forall|i: int| 0 <= i < st.len() implies (#[trigger] st[i]) == if alphanumeric(title[a + i])
        || title[a + i] == ' ' || title[a + i] == '-' || title[a + i] == '_' {
        title[a + i]
    } else {
        '_'
    } by {
        assert(st[i] == ts[i]);
        assert(ts[i] == m[a + i]);
        assert(m[a + i] == file_safe_char(title[a + i]));
    }
    assert(!unicode_whitespace('_'));
    if st.len() > 0 {
        assert(st[0] == ts[0]);
    }
    assert forall|j: int|
        (0 <= j < a || a + st.len() <= j < title.len()) implies unicode_whitespace(#[trigger] title[j])
            && (alphanumeric(title[j]) || title[j] == ' ') by {
        assert(m[j] == file_safe_char(title[j]));
        if j >= a {
            assert(ts[j - a] == m[j]);
        }
    }
    a
}

/// A file stem made from any title holds no path separator and no dot, so
/// the file named after it stays in the download directory.
pub proof fn file_stems_stay_in_their_directory(title: Seq<char>)
    ensures
        forall|i: int|
            0 <= i < file_stem(title).len() ==> stays_in_directory(#[trigger] file_stem(title)[i]),
{
    let _ = file_stems_are_the_title_made_safe(title);
    let st = file_stem(title);
    assert forall|i: int| 0 <= i < st.len() implies stays_in_directory(#[trigger] st[i]) by {
        assert(alphanumeric(st[i]) || st[i] == ' ' || st[i] == '-' || st[i] == '_');
    }
}

/// The rendition request passed to the download tool for a quality.
pub open spec fn format_selector_text(q: VideoQuality) -> Seq<char> {
    match q {
        VideoQuality::Best => "bestvideo[ext=mp4]+bestaudio[ext=m4a]/best[ext=mp4]/best"@,
        VideoQuality::Quality2160p => "bestvideo[height<=2160][ext=mp4]+bestaudio[ext=m4a]/best[height<=2160]"@,
        VideoQuality::Quality1440p => "bestvideo[height<=1440][ext=mp4]+bestaudio[ext=m4a]/best[height<=1440]"@,
        VideoQuality::Quality1080p => "bestvideo[height<=1080][ext=mp4]+bestaudio[ext=m4a]/best[height<=1080]"@,
        VideoQuality::Quality720p => "bestvideo[height<=720][ext=mp4]+bestaudio[ext=m4a]/best[height<=720]"@,
        VideoQuality::Quality480p => "bestvideo[height<=480][ext=mp4]+bestaudio[ext=m4a]/best[height<=480]"@,
        VideoQuality::Quality360p => "bestvideo[height<=360][ext=mp4]+bestaudio[ext=m4a]/best[height<=360]"@,
        VideoQuality::AudioOnly => "bestaudio[ext=m4a]/bestaudio"@,
    }
}

/// The extension of the file a download of quality `q` produces.
pub open spec fn file_extension(q: VideoQuality) -> Seq<char> {
    if q == VideoQuality::AudioOnly { "m4a"@ } else { "mp4"@ }
}

/// Index of the first `c` in `s`, or the length of `s`.
pub open spec fn first_index_of(s: Seq<char>, c: char) -> int
    decreases s.len(),
{
    if s.len() == 0 {
        0
    } else if s[0] == c {
        0
    } else {
        1 + first_index_of(s.drop_first(), c)
    }
}

/// The trailing run of non-white-space characters of `s`.
pub open spec fn trailing_word(s: Seq<char>) -> Seq<char>
    decreases s.len(),
{
    if s.len() > 0 && !unicode_whitespace(s.last()) {
        trailing_word(s.drop_last()).push(s.last())
    } else {
        Seq::empty()
    }
}

/// The last white-space separated word of `s`, if it has one.
pub open spec fn last_word(s: Seq<char>) -> Option<Seq<char>> {
    let t = trim_end_ws(s);
    if t.len() == 0 { None } else { Some(trailing_word(t)) }
}

/// The number a progress line of the download tool reports: on a line
/// mentioning `[download]` and `%`, the last word before the first `%`.
pub open spec fn progress_token_of(line: Seq<char>) -> Option<Seq<char>> {
    if contains_text(line, "[download]"@) && contains_text(line, "%"@) {
        last_word(line.take(first_index_of(line, '%')))
    } else {
        None
    }
}

/// A line of the download tool announcing that it merges or converts.
pub open spec fn announces_processing(line: Seq<char>) -> bool {
    contains_text(line, "[Merger]"@) || contains_text(line, "[ffmpeg]"@)
}

/// A directory entry whose name is text starting with `stem`.
pub open spec fn named_with_prefix(n: Option<String>, stem: Seq<char>) -> bool {
    n matches Some(m) && starts_with_text(m@, stem)
}

/// Key under which a finished file is uploaded.
pub open spec fn object_key_text(id: u128, file_name: Seq<char>) -> Seq<char> {
    "downloaded-videos/"@ + uuid_text(id) + "-"@ + file_name
}

fn trim_bounds(s: &Vec<char>) -> (r: (usize, usize))
    ensures
        r.0 <= r.1 <= s@.len(),
        s@.subrange(r.0 as int, r.1 as int) == trim_end_ws(trim_start_ws(s@)),
{
    let mut b: usize = 0;
    proof {
        assert(s@.skip(0) =~= s@);
    }
    while b < s.len() && is_whitespace(s[b])
        invariant
            b <= s@.len(),
            trim_start_ws(s@) == trim_start_ws(s@.skip(b as int)),
        decreases s@.len() - b,
    {
        proof {
            assert(s@.skip(b as int).drop_first() =~= s@.skip(b + 1));
        }
        b = b + 1;
    }
    proof {
        let t = s@.skip(b as int);
        if t.len() > 0 {
            assert(t[0] == s@[b as int]);
        }
        assert(trim_start_ws(s@) == t);
    }
    let mut e = s.len();
    proof {
        assert(s@.subrange(b as int, e as int) =~= s@.skip(b as int));
    }
    while e > b && is_whitespace(s[e - 1])
        invariant
            b <= e <= s@.len(),
            trim_end_ws(s@.skip(b as int)) == trim_end_ws(s@.subrange(b as int, e as int)),
        decreases e - b,
    {
        proof {
            let t = s@.subrange(b as int, e as int);
            assert(t.drop_last() =~= s@.subrange(b as int, e - 1));
            assert(t.last() == s@[e - 1]);
        }
        e = e - 1;
    }
    proof {
        let t = s@.subrange(b as int, e as int);
        if t.len() > 0 {
            assert(t.last() == s@[e - 1]);
        }
    }
    (b, e)
}

fn trailing_word_start(s: &Vec<char>, end: usize) -> (r: usize)
    requires
        end <= s@.len(),
    ensures
        r <= end,
        s@.subrange(r as int, end as int) == trailing_word(s@.take(end as int)),
{
    let mut b = end;
    proof {
        assert(s@.subrange(b as int, end as int) =~= Seq::<char>::empty());
    }
    while b > 0 && !is_whitespace(s[b - 1])
        invariant
            b <= end <= s@.len(),
            trailing_word(s@.take(end as int)) == trailing_word(s@.take(b as int)) + s@.subrange(
                b as int,
                end as int,
            ),
        decreases b,
    {
        proof {
            let t = s@.take(b as int);
            assert(t.drop_last() =~= s@.take(b - 1));
            assert(t.last() == s@[b - 1]);
            assert(s@.subrange(b - 1, end as int) =~= seq![s@[b - 1]] + s@.subrange(
                b as int,
                end as int,
            ));
            assert(trailing_word(s@.take(b - 1)).push(s@[b - 1]) + s@.subrange(b as int, end as int)
                =~= trailing_word(s@.take(b - 1)) + s@.subrange(b - 1, end as int));
        }
        b = b - 1;
    }
    proof {
        let t = s@.take(b as int);
        if b > 0 {
            assert(t.last() == s@[b - 1]);
        }
        assert(trailing_word(t) == Seq::<char>::empty());
        assert(trailing_word(s@.take(end as int)) =~= s@.subrange(b as int, end as int));
    }
    b
}

/// Where a download worker stands.
pub enum WorkerPhase {
    /// Not started yet.
    Idle,
    /// Preparing the download directory.
    Fetching,
    /// The download tool runs.
    Downloading,
    /// The tool merges or converts what it downloaded.
    Processing,
    /// The produced file (path, size) is being uploaded.
    Uploading(String, u64),
    /// The download is recorded completed.
    Finished,
    /// The download is recorded failed.
    Failed,
}

/// What a download worker observes.
pub enum WorkerEvent {
    /// The worker starts.
    Started,
    /// The download directory exists.
    DirectoryReady,
    /// The tool reports progress, in hundredths of a percent.
    Progress(i64),
    /// The tool announces merging or converting.
    ProcessingAnnounced,
    /// The tool finished and produced a file (path, size); the last field
    /// tells whether an upload is configured.
    FileReady(String, u64, bool),
    /// The upload ended, with the file's public address when it succeeded.
    UploadDone(Option<String>),
    /// A step failed.
    Failure(AppError),
}

/// Order of the statuses a worker records; 0 for the others.
pub open spec fn status_rank(s: DownloadStatus) -> int {
    match s {
        DownloadStatus::Fetching => 1,
        DownloadStatus::Downloading => 2,
        DownloadStatus::Processing => 3,
        DownloadStatus::Completed => 4,
        DownloadStatus::Failed => 5,
        _ => 0,
    }
}

/// Rank of the status recorded on entering a phase.
pub open spec fn phase_rank(p: WorkerPhase) -> int {
    match p {
        WorkerPhase::Idle => 0,
        WorkerPhase::Fetching => 1,
        WorkerPhase::Downloading => 2,
        WorkerPhase::Processing => 3,
        WorkerPhase::Uploading(_, _) => 3,
        WorkerPhase::Finished => 4,
        WorkerPhase::Failed => 5,
    }
}

/// The status a recorded step sets, if it sets one.
pub open spec fn status_set_by(e: DownloadEvent) -> Option<DownloadStatus> {
    match e {
        DownloadEvent::Fetching => Some(DownloadStatus::Fetching),
        DownloadEvent::Downloading => Some(DownloadStatus::Downloading),
        DownloadEvent::Progress(_) => None,
        DownloadEvent::Processing => Some(DownloadStatus::Processing),
        DownloadEvent::Completed(_, _) => Some(DownloadStatus::Completed),
        DownloadEvent::Failed(_) => Some(DownloadStatus::Failed),
    }
}

pub open spec fn is_active(p: WorkerPhase) -> bool {
    p is Fetching || p is Downloading || p is Processing || p is Uploading
}

/// One step of a worker: in phase `p`, observing `e`, it moves to `next`
/// and records `rec`.
/// - Starting records Fetching; a ready directory records Downloading.
/// - While the tool runs, progress is recorded as is and an announced
///   merge records Processing.
/// - A produced file is recorded completed, or, with an upload configured,
///   Processing is recorded first and the file is recorded completed when the
///   upload ends, whether or not it succeeded.
/// - A failure in an active phase records Failed with the error's text.
/// - Anything else is ignored.
pub open spec fn is_worker_step(p: WorkerPhase, e: WorkerEvent, next: WorkerPhase, rec: Option<DownloadEvent>) -> bool {
    match e {
        WorkerEvent::Started => if p is Idle {
            next is Fetching && rec == Some(DownloadEvent::Fetching)
        } else {
            next == p && rec is None
        },
        WorkerEvent::DirectoryReady => if p is Fetching {
            next is Downloading && rec == Some(DownloadEvent::Downloading)
        } else {
            next == p && rec is None
        },
        WorkerEvent::Progress(x) => if p is Downloading || p is Processing {
            next == p && rec == Some(DownloadEvent::Progress(x))
        } else {
            next == p && rec is None
        },
        WorkerEvent::ProcessingAnnounced => if p is Downloading || p is Processing {
            next is Processing && rec == Some(DownloadEvent::Processing)
        } else {
            next == p && rec is None
        },
        WorkerEvent::FileReady(path, size, upload) => if p is Downloading || p is Processing {
            if upload {
                next == WorkerPhase::Uploading(path, size) && rec == Some(DownloadEvent::Processing)
            } else {
                next is Finished && rec == Some(DownloadEvent::Completed(path, size))
            }
        } else {
            next == p && rec is None
        },
        WorkerEvent::UploadDone(_) => match p {
            WorkerPhase::Uploading(path, size) => next is Finished && rec == Some(
                DownloadEvent::Completed(path, size),
            ),
            _ => next == p && rec is None,
        },
        WorkerEvent::Failure(err) => if is_active(p) {
            next is Failed && (rec matches Some(DownloadEvent::Failed(m)) && m@
                == err.display_prefix() + err.detail())
        } else {
            next == p && rec is None
        },
    }
}

/// A failure seen while a worker is fetching, downloading, processing or
/// uploading always ends the run: the worker moves to Failed and records
/// the download failed, with the error's rendering as the message.
pub proof fn failures_after_start_are_recorded(
    p: WorkerPhase,
    err: AppError,
    next: WorkerPhase,
    rec: Option<DownloadEvent>,
)
    requires
        p is Fetching || p is Downloading || p is Processing || p is Uploading,
        is_worker_step(p, WorkerEvent::Failure(err), next, rec),
    ensures
        next is Failed,
        rec matches Some(DownloadEvent::Failed(m)) && m@ == err.display_prefix() + err.detail(),
{
}

/// For a quality with a pixel height (its label without the final `p`), the
/// rendition request caps both the video-only and the combined choice at
/// that height.
pub proof fn selectors_cap_the_height(q: VideoQuality)
    requires
        !(q is Best),
        !(q is AudioOnly),
    ensures
        quality_label(q).last() == 'p',
        format_selector_text(q) == "bestvideo[height<="@ + quality_label(q).drop_last()
            + "][ext=mp4]+bestaudio[ext=m4a]/best[height<="@ + quality_label(q).drop_last() + "]"@,
{
    reveal_strlit("bestvideo[height<=");
    reveal_strlit("][ext=mp4]+bestaudio[ext=m4a]/best[height<=");
    reveal_strlit("]");
    reveal_strlit("2160p");
    reveal_strlit("1440p");
    reveal_strlit("1080p");
    reveal_strlit("720p");
    reveal_strlit("480p");
    reveal_strlit("360p");
    reveal_strlit("bestvideo[height<=2160][ext=mp4]+bestaudio[ext=m4a]/best[height<=2160]");
    reveal_strlit("bestvideo[height<=1440][ext=mp4]+bestaudio[ext=m4a]/best[height<=1440]");
    reveal_strlit("bestvideo[height<=1080][ext=mp4]+bestaudio[ext=m4a]/best[height<=1080]");
    reveal_strlit("bestvideo[height<=720][ext=mp4]+bestaudio[ext=m4a]/best[height<=720]");
    reveal_strlit("bestvideo[height<=480][ext=mp4]+bestaudio[ext=m4a]/best[height<=480]");
    reveal_strlit("bestvideo[height<=360][ext=mp4]+bestaudio[ext=m4a]/best[height<=360]");
    let h = quality_label(q).drop_last();
    assert(format_selector_text(q) =~= "bestvideo[height<="@ + h + "][ext=mp4]+bestaudio[ext=m4a]/best[height<="@
        + h + "]"@);
}

/// The statuses set by a sequence of recorded steps, in order.
pub open spec fn statuses_set(recs: Seq<Option<DownloadEvent>>) -> Seq<DownloadStatus>
    decreases recs.len(),
{
    if recs.len() == 0 {
        seq![]
    } else {
        let prev = statuses_set(recs.drop_last());
        match recs.last() {
            Some(e) => match status_set_by(e) {
                Some(st) => prev.push(st),
                None => prev,
            },
            None => prev,
        }
    }
}

/// `phases`, `events` and `recs` describe a run of worker steps.
pub open spec fn is_worker_run(
    phases: Seq<WorkerPhase>,
    events: Seq<WorkerEvent>,
    recs: Seq<Option<DownloadEvent>>,
) -> bool {
    &&& phases.len() == events.len() + 1
    &&& recs.len() == events.len()
    &&& forall|i: int|
        0 <= i < events.len() ==> is_worker_step(
            #[trigger] phases[i],
            events[i],
            phases[i + 1],
            recs[i],
        )
}

proof fn lemma_step_ranks(p: WorkerPhase, e: WorkerEvent, next: WorkerPhase, rec: Option<DownloadEvent>)
    requires
        is_worker_step(p, e, next, rec),
    ensures
        phase_rank(next) >= phase_rank(p),
        rec matches Some(ev) ==> (status_set_by(ev) matches Some(st) ==> (status_rank(st)
            == phase_rank(next) && status_rank(st) >= 1)),
        !(rec matches Some(ev) && status_set_by(ev) is Some) ==> next == p,
        p is Idle ==> (rec matches Some(ev) ==> ev is Fetching),
{
}

proof fn lemma_run_prefix(
    phases: Seq<WorkerPhase>,
    events: Seq<WorkerEvent>,
    recs: Seq<Option<DownloadEvent>>,
)
    requires
        is_worker_run(phases, events, recs),
        events.len() > 0,
    ensures
        is_worker_run(phases.drop_last(), events.drop_last(), recs.drop_last()),
{
    let ps = phases.drop_last();
    let es = events.drop_last();
    assert forall|i: int| 0 <= i < es.len() implies is_worker_step(
        #[trigger] ps[i],
        es[i],
        ps[i + 1],
        recs.drop_last()[i],
    ) by {
        assert(is_worker_step(phases[i], events[i], phases[i + 1], recs[i]));
    }
}

/// Over any run of a worker, the statuses it records never go back in the
/// order Fetching, Downloading, Processing, Completed, Failed; none is above
/// the phase reached; it never records Pending or Cancelled; and a run
/// started idle records Fetching before any other status.
pub proof fn worker_statuses_never_go_back(
    phases: Seq<WorkerPhase>,
    events: Seq<WorkerEvent>,
    recs: Seq<Option<DownloadEvent>>,
)
    requires
        is_worker_run(phases, events, recs),
    ensures
        ({
            let st = statuses_set(recs);
            &&& forall|i: int, j: int|
                0 <= i < j < st.len() ==> status_rank(#[trigger] st[i]) <= status_rank(#[trigger] st[j])
            &&& forall|i: int|
                0 <= i < st.len() ==> 1 <= status_rank(#[trigger] st[i]) <= phase_rank(phases.last())
            &&& forall|i: int| 0 <= i < st.len() ==> #[trigger] st[i] != DownloadStatus::Pending && st[i]
                != DownloadStatus::Cancelled
            &&& st.len() == 0 ==> phases.last() == phases[0]
            &&& phases[0] is Idle && st.len() > 0 ==> st[0] == DownloadStatus::Fetching
            &&& phase_rank(phases.last()) >= phase_rank(phases[0])
        }),
    decreases events.len(),
{
    if events.len() > 0 {
        lemma_run_prefix(phases, events, recs);
        let ps = phases.drop_last();
        worker_statuses_never_go_back(ps, events.drop_last(), recs.drop_last());
        let n = events.len() - 1;
        assert(is_worker_step(phases[n], events[n], phases[n + 1], recs[n]));
        lemma_step_ranks(phases[n], events[n], phases[n + 1], recs[n]);
        assert(ps.last() == phases[n]);
        assert(recs.drop_last() == recs.take(n));
        let prev = statuses_set(recs.drop_last());
        let st = statuses_set(recs);
        assert(recs.last() == recs[n]);
        if prev.len() == 0 && phases[0] is Idle {
            assert(phases[n] == phases[0]);
        }
        assert forall|i: int| 0 <= i < st.len() implies #[trigger] st[i] != DownloadStatus::Pending
            && st[i] != DownloadStatus::Cancelled by {
            if i < prev.len() {
                assert(st[i] == prev[i]);
            }
        }
    }
}

pub struct DownloadWorker;

impl DownloadWorker {
    /// The file-name stem made from a title.
    pub fn file_stem(title: &str) -> (r: String)
        ensures
            r@ == file_stem(title@),
            forall|i: int| 0 <= i < r@.len() ==> stays_in_directory(#[trigger] r@[i]),
    {
        proof {
            file_stems_stay_in_their_directory(title@);
        }
        let cs = chars_of(title);
        let mut mapped: Vec<char> = Vec::new();
        let mut k: usize = 0;
        while k < cs.len()
            invariant
                k <= cs@.len(),
                mapped@ == cs@.take(k as int).map_values(|c: char| file_safe_char(c)),
            decreases cs@.len() - k,
        {
            let c = cs[k];
            let kept = if is_alphanumeric(c) || c == ' ' || c == '-' || c == '_' { c } else { '_' };
            mapped.push(kept);
            proof {
                assert(cs@.take(k + 1).map_values(|c: char| file_safe_char(c)) =~= cs@.take(
                    k as int,
                ).map_values(|c: char| file_safe_char(c)).push(file_safe_char(c)));
            }
            k = k + 1;
        }
        proof {
            assert(cs@.take(cs@.len() as int) =~= cs@);
        }
        let (b, e) = trim_bounds(&mapped);
        let mut part: Vec<char> = Vec::new();
        let mut t = b;
        while t < e
            invariant
                b <= t <= e <= mapped@.len(),
                part@ == mapped@.subrange(b as int, t as int),
            decreases e - t,
        {
            part.push(mapped[t]);
            proof {
                assert(mapped@.subrange(b as int, t + 1) =~= mapped@.subrange(b as int, t as int).push(
                    mapped@[t as int],
                ));
            }
            t = t + 1;
        }
        string_of_chars(&part)
    }

    /// The rendition request for a quality.
    pub fn format_selector(quality: VideoQuality) -> (r: String)
        ensures
            r@ == format_selector_text(quality),
    {
        let s = match quality {
            VideoQuality::Best => "bestvideo[ext=mp4]+bestaudio[ext=m4a]/best[ext=mp4]/best",
            VideoQuality::Quality2160p => "bestvideo[height<=2160][ext=mp4]+bestaudio[ext=m4a]/best[height<=2160]",
            VideoQuality::Quality1440p => "bestvideo[height<=1440][ext=mp4]+bestaudio[ext=m4a]/best[height<=1440]",
            VideoQuality::Quality1080p => "bestvideo[height<=1080][ext=mp4]+bestaudio[ext=m4a]/best[height<=1080]",
            VideoQuality::Quality720p => "bestvideo[height<=720][ext=mp4]+bestaudio[ext=m4a]/best[height<=720]",
            VideoQuality::Quality480p => "bestvideo[height<=480][ext=mp4]+bestaudio[ext=m4a]/best[height<=480]",
            VideoQuality::Quality360p => "bestvideo[height<=360][ext=mp4]+bestaudio[ext=m4a]/best[height<=360]",
            VideoQuality::AudioOnly => "bestaudio[ext=m4a]/bestaudio",
        };
        String::from_str(s)
    }

    /// The output-name template handed to the download tool.
    pub fn output_template(stem: &str) -> (r: String)
        ensures
            r@ == stem@ + ".%(ext)s"@,
    {
        let mut r = String::from_str(stem);
        r.append(".%(ext)s");
        r
    }

    /// The name of the file a finished download is expected to have.
    pub fn expected_file_name(stem: &str, quality: VideoQuality) -> (r: String)
        ensures
            r@ == stem@ + "."@ + file_extension(quality),
    {
        let mut r = String::from_str(stem);
        r.append(".");
        if quality == VideoQuality::AudioOnly {
            r.append("m4a");
        } else {
            r.append("mp4");
        }
        r
    }

    /// The progress number a line of the download tool reports, as text.
    pub fn progress_token(line: &str) -> (r: Option<String>)
        ensures
            match progress_token_of(line@) {
                Some(t) => r matches Some(s) && s@ == t,
                None => r is None,
            },
    {
        let cs = chars_of(line);
        let marker = chars_of("[download]");
        let percent = chars_of("%");
        if !(contains_chars(&cs, &marker) && contains_chars(&cs, &percent)) {
            return None;
        }
        let mut p: usize = 0;
        proof {
            assert(cs@.skip(0) =~= cs@);
        }
        while p < cs.len() && cs[p] != '%'
            invariant
                p <= cs@.len(),
                first_index_of(cs@, '%') == p + first_index_of(cs@.skip(p as int), '%'),
            decreases cs@.len() - p,
        {
            proof {
                assert(cs@.skip(p as int).drop_first() =~= cs@.skip(p + 1));
            }
            p = p + 1;
        }
        proof {
            let t = cs@.skip(p as int);
            if t.len() > 0 {
                assert(t[0] == cs@[p as int]);
            }
        }
        let mut before: Vec<char> = Vec::new();
        let mut k: usize = 0;
        while k < p
            invariant
                k <= p <= cs@.len(),
                before@ == cs@.take(k as int),
            decreases p - k,
        {
            before.push(cs[k]);
            proof {
                assert(cs@.take(k + 1) =~= cs@.take(k as int).push(cs@[k as int]));
            }
            k = k + 1;
        }
        let mut e = before.len();
        proof {
            assert(before@.take(e as int) =~= before@);
        }
        while e > 0 && is_whitespace(before[e - 1])
            invariant
                e <= before@.len(),
                trim_end_ws(before@) == trim_end_ws(before@.take(e as int)),
            decreases e,
        {
            proof {
                let t = before@.take(e as int);
                assert(t.drop_last() =~= before@.take(e - 1));
                assert(t.last() == before@[e - 1]);
            }
            e = e - 1;
        }
        proof {
            let t = before@.take(e as int);
            if e > 0 {
                assert(t.last() == before@[e - 1]);
            }
            assert(trim_end_ws(before@) == t);
        }
        if e == 0 {
            return None;
        }
        let b = trailing_word_start(&before, e);
        let mut word: Vec<char> = Vec::new();
        let mut t = b;
        while t < e
            invariant
                b <= t <= e <= before@.len(),
                word@ == before@.subrange(b as int, t as int),
            decreases e - t,
        {
            word.push(before[t]);
            proof {
                assert(before@.subrange(b as int, t + 1) =~= before@.subrange(b as int, t as int).push(
                    before@[t as int],
                ));
            }
            t = t + 1;
        }
        Some(string_of_chars(&word))
    }

    /// Whether a line of the download tool announces merging or converting.
    pub fn announces_processing(line: &str) -> (r: bool)
        ensures
            r == announces_processing(line@),
    {
        let cs = chars_of(line);
        let merger = chars_of("[Merger]");
        let ffmpeg = chars_of("[ffmpeg]");
        contains_chars(&cs, &merger) || contains_chars(&cs, &ffmpeg)
    }

    /// The first listed file whose name starts with the stem; entries whose
    /// names are not text are passed over.
    pub fn pick_downloaded_file(names: &Vec<Option<String>>, stem: &str) -> (r: Option<usize>)
        ensures
            match r {
                Some(k) => k < names@.len() && named_with_prefix(names@[k as int], stem@) && forall|
                    j: int,
                | 0 <= j < k ==> !named_with_prefix(#[trigger] names@[j], stem@),
                None => forall|j: int|
                    0 <= j < names@.len() ==> !named_with_prefix(#[trigger] names@[j], stem@),
            },
    {
        let prefix = chars_of(stem);
        let mut k: usize = 0;
        while k < names.len()
            invariant
                k <= names@.len(),
                prefix@ == stem@,
                forall|j: int| 0 <= j < k ==> !named_with_prefix(#[trigger] names@[j], stem@),
            decreases names@.len() - k,
        {
            match &names[k] {
                Some(n) => {
                    let cs = chars_of(n.as_str());
                    if starts_with_chars(&cs, &prefix) {
                        return Some(k);
                    }
                },
                None => {},
            }
            k = k + 1;
        }
        None
    }

    /// The key a finished file is uploaded under.
    pub fn object_key(id: u128, file_name: &str) -> (r: String)
        ensures
            r@ == object_key_text(id, file_name@),
    {
        let mut r = String::from_str("downloaded-videos/");
        let t = id_to_text(id);
        r.append(t.as_str());
        r.append("-");
        r.append(file_name);
        r
    }

    /// The outcome of the download tool's run: a failed run fails the download.
    pub fn exit_outcome(success: bool) -> (r: Result<(), AppError>)
        ensures
            success ==> r is Ok,
            !success ==> (r matches Err(AppError::DownloadFailed(m)) && m@ == "yt-dlp download failed"@),
    {
        if success {
            Ok(())
        } else {
            Err(AppError::DownloadFailed(String::from_str("yt-dlp download failed")))
        }
    }

    /// Which file a finished run produced: the expected one when it exists
    /// (`None`), else the first listed file whose name starts with the stem;
    /// when there is none the download fails.
    pub fn choose_file(expected_exists: bool, names: &Vec<Option<String>>, stem: &str) -> (r: Result<
        Option<usize>,
        AppError,
    >)
        ensures
            expected_exists ==> r == Ok::<Option<usize>, AppError>(None),
            !expected_exists ==> match r {
                Ok(Some(k)) => k < names@.len() && named_with_prefix(names@[k as int], stem@) && forall|
                    j: int,
                | 0 <= j < k ==> !named_with_prefix(#[trigger] names@[j], stem@),
                Ok(None) => false,
                Err(e) => (e matches AppError::DownloadFailed(m) && m@ == "Could not find downloaded file"@)
                    && forall|j: int| 0 <= j < names@.len() ==> !named_with_prefix(#[trigger] names@[j], stem@),
            },
    {
        if expected_exists {
            return Ok(None);
        }
        match Self::pick_downloaded_file(names, stem) {
            Some(k) => Ok(Some(k)),
            None => Err(AppError::DownloadFailed(String::from_str("Could not find downloaded file"))),
        }
    }

    /// One step of the worker: the phase it moves to and the step to record.
    pub fn step(phase: WorkerPhase, event: WorkerEvent) -> (r: (WorkerPhase, Option<DownloadEvent>))
        ensures
            is_worker_step(phase, event, r.0, r.1),
    {
        match event {
            WorkerEvent::Started => match phase {
                WorkerPhase::Idle => (WorkerPhase::Fetching, Some(DownloadEvent::Fetching)),
                _ => (phase, None),
            },
            WorkerEvent::DirectoryReady => match phase {
                WorkerPhase::Fetching => (WorkerPhase::Downloading, Some(DownloadEvent::Downloading)),
                _ => (phase, None),
            },
            WorkerEvent::Progress(x) => match phase {
                WorkerPhase::Downloading | WorkerPhase::Processing => (
                    phase,
                    Some(DownloadEvent::Progress(x)),
                ),
                _ => (phase, None),
            },
            WorkerEvent::ProcessingAnnounced => match phase {
                WorkerPhase::Downloading | WorkerPhase::Processing => (
                    WorkerPhase::Processing,
                    Some(DownloadEvent::Processing),
                ),
                _ => (phase, None),
            },
            WorkerEvent::FileReady(path, size, upload) => match phase {
                WorkerPhase::Downloading | WorkerPhase::Processing => if upload {
                    (WorkerPhase::Uploading(path, size), Some(DownloadEvent::Processing))
                } else {
                    (WorkerPhase::Finished, Some(DownloadEvent::Completed(path, size)))
                },
                _ => (phase, None),
            },
            WorkerEvent::UploadDone(_) => match phase {
                WorkerPhase::Uploading(path, size) => (
                    WorkerPhase::Finished,
                    Some(DownloadEvent::Completed(path, size)),
                ),
                _ => (phase, None),
            },
            WorkerEvent::Failure(err) => match phase {
                WorkerPhase::Fetching | WorkerPhase::Downloading | WorkerPhase::Processing
                | WorkerPhase::Uploading(_, _) => {
                    let text = err.to_string();
                    (WorkerPhase::Failed, Some(DownloadEvent::Failed(text)))
                },
                _ => (phase, None),
            },
        }
    }

    /// Arguments that download a video with the download tool, writing to the
    /// output template (or to a default template when the directory's name is
    /// not text).
    pub fn download_args(format_selector: &str, output_template: Option<&str>, video_url: &str) -> (r:
        Vec<String>)
        ensures
            views(r@) == seq![
                "-f"@,
                format_selector@,
                "--merge-output-format"@,
                "mp4"@,
                "-o"@,
                match output_template {
                    Some(t) => t@,
                    None => "%(title)s.%(ext)s"@,
                },
                "--newline"@,
                "--progress"@,
                "--no-warnings"@,
                video_url@,
            ],
    {
        let template = match output_template {
            Some(t) => t,
            None => "%(title)s.%(ext)s",
        };
        let items = vec![
            "-f",
            format_selector,
            "--merge-output-format",
            "mp4",
            "-o",
            template,
            "--newline",
            "--progress",
            "--no-warnings",
            video_url,
        ];
        let r = strings_of(&items);
        proof {
            assert(views(r@) =~= seq![
                "-f"@,
                format_selector@,
                "--merge-output-format"@,
                "mp4"@,
                "-o"@,
                template@,
                "--newline"@,
                "--progress"@,
                "--no-warnings"@,
                video_url@,
            ]);
        }
        r
    }
}

} // verus!

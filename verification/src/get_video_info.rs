//! Recognising a YouTube video id inside whatever the user pasted.

use vstd::prelude::*;

use crate::clock::{days_from_civil, is_valid_date, midnight_utc, MAX_DATE_YEAR, MIN_DATE_YEAR};
use crate::errors::AppError;
use crate::text::{chars_of, parse_signed_range, parse_signed_spec, parse_unsigned_range, parse_unsigned_spec, push_char, strings_of, views};
use crate::video_info::{quality_rank, VideoFormat, VideoInfo, VideoQuality};

verus! {

/// Use case: look up a video and summarise it.
pub struct GetVideoInfo;

/// Characters a video id is made of.
pub open spec fn is_id_char(c: char) -> bool {
    ('a' <= c && c <= 'z') || ('A' <= c && c <= 'Z') || ('0' <= c && c <= '9') || c == '_' || c
        == '-'
}

/// Eleven id characters start at `k`.
pub open spec fn id_at(s: Seq<char>, k: int) -> bool {
    0 <= k && k + 11 <= s.len() && forall|j: int| k <= j < k + 11 ==> is_id_char(#[trigger] s[j])
}

/// `lit` occurs in `s` at position `k`.
pub open spec fn lit_at(s: Seq<char>, k: int, lit: Seq<char>) -> bool {
    0 <= k && k + lit.len() <= s.len() && s.subrange(k, k + lit.len()) == lit
}

pub open spec fn watch_prefix() -> Seq<char> {
    "youtube.com/watch?"@
}

pub open spec fn v_param() -> Seq<char> {
    "v="@
}

pub open spec fn short_link_prefix() -> Seq<char> {
    "youtu.be/"@
}

pub open spec fn embed_prefix() -> Seq<char> {
    "youtube.com/embed/"@
}

pub open spec fn legacy_prefix() -> Seq<char> {
    "youtube.com/v/"@
}

pub open spec fn shorts_prefix() -> Seq<char> {
    "youtube.com/shorts/"@
}

/// Index of the first line break at or after `k`, or the length of `s`.
pub open spec fn line_end(s: Seq<char>, k: int) -> int
    decreases s.len() - k,
{
    if k >= s.len() {
        s.len() as int
    } else if s[k] == '\n' {
        k
    } else {
        line_end(s, k + 1)
    }
}

/// `v=` followed by an id starts at `j`.
pub open spec fn v_param_at(s: Seq<char>, j: int) -> bool {
    lit_at(s, j, v_param()) && id_at(s, j + 2)
}

/// The last position in `lo..hi` where `v=` and an id start.
pub open spec fn last_v_param(s: Seq<char>, lo: int, hi: int) -> Option<int>
    decreases hi - lo,
{
    if hi <= lo {
        None
    } else if v_param_at(s, hi - 1) {
        Some(hi - 1)
    } else {
        last_v_param(s, lo, hi - 1)
    }
}

/// A watch link starting at `i`: `youtube.com/watch?`, then anything on the
/// same line, then `v=` and an id. The furthest such `v=` is the one taken.
pub open spec fn watch_match_at(s: Seq<char>, i: int) -> Option<int> {
    if lit_at(s, i, watch_prefix()) {
        let lo = i + watch_prefix().len();
        last_v_param(s, lo, line_end(s, lo))
    } else {
        None
    }
}

/// The id of the leftmost watch link at or after `i`.
pub open spec fn first_watch(s: Seq<char>, i: int) -> Option<Seq<char>>
    decreases s.len() + 1 - i,
{
    if i > s.len() || i < 0 {
        None
    } else {
        match watch_match_at(s, i) {
            Some(j) => Some(s.subrange(j + 2, j + 13)),
            None => first_watch(s, i + 1),
        }
    }
}

/// The id right after the leftmost occurrence, at or after `i`, of `prefix`
/// that is followed by an id.
pub open spec fn first_prefixed(s: Seq<char>, prefix: Seq<char>, i: int) -> Option<Seq<char>>
    decreases s.len() + 1 - i,
{
    if i > s.len() || i < 0 {
        None
    } else if lit_at(s, i, prefix) && id_at(s, i + prefix.len()) {
        Some(s.subrange(i + prefix.len(), i + prefix.len() + 11))
    } else {
        first_prefixed(s, prefix, i + 1)
    }
}

/// The whole text is a bare id.
pub open spec fn bare_id(s: Seq<char>) -> Option<Seq<char>> {
    if s.len() == 11 && id_at(s, 0) {
        Some(s)
    } else {
        None
    }
}

/// The video id found in `s`: the accepted link shapes are tried in turn
/// (watch link, short link, embed link, legacy link, shorts link, bare id)
/// and the first that occurs gives the id.
pub open spec fn video_id_in(s: Seq<char>) -> Option<Seq<char>> {
    if first_watch(s, 0) is Some {
        first_watch(s, 0)
    } else if first_prefixed(s, short_link_prefix(), 0) is Some {
        first_prefixed(s, short_link_prefix(), 0)
    } else if first_prefixed(s, embed_prefix(), 0) is Some {
        first_prefixed(s, embed_prefix(), 0)
    } else if first_prefixed(s, legacy_prefix(), 0) is Some {
        first_prefixed(s, legacy_prefix(), 0)
    } else if first_prefixed(s, shorts_prefix(), 0) is Some {
        first_prefixed(s, shorts_prefix(), 0)
    } else {
        bare_id(s)
    }
}

proof fn lemma_line_end_without_breaks(s: Seq<char>, k: int)
    requires
        0 <= k <= s.len(),
        forall|j: int| k <= j < s.len() ==> s[j] != '\n',
    ensures
        line_end(s, k) == s.len(),
    decreases s.len() - k,
{
    if k < s.len() {
        lemma_line_end_without_breaks(s, k + 1);
    }
}

proof fn lemma_last_v_param_is_first(s: Seq<char>, lo: int, hi: int)
    requires
        lo < hi,
        v_param_at(s, lo),
        forall|j: int| lo < j < hi ==> !v_param_at(s, j),
    ensures
        last_v_param(s, lo, hi) == Some(lo),
    decreases hi - lo,
{
    if hi - 1 > lo {
        lemma_last_v_param_is_first(s, lo, hi - 1);
    }
}

proof fn lemma_first_watch_skips(s: Seq<char>, i: int, m: int)
    requires
        0 <= i <= m <= s.len(),
        forall|k: int| i <= k < m ==> watch_match_at(s, k) is None,
    ensures
        first_watch(s, i) == first_watch(s, m),
    decreases m - i,
{
    if i < m {
        lemma_first_watch_skips(s, i + 1, m);
    }
}

/// A watch link with any eleven-character id over letters, digits, `_` and
/// `-` gives that id back.
pub proof fn watch_links_give_their_id(id: Seq<char>)
    requires
        id.len() == 11,
        forall|j: int|
            0 <= j < 11 ==> ('a' <= #[trigger] id[j] && id[j] <= 'z') || ('A' <= id[j] && id[j]
                <= 'Z') || ('0' <= id[j] && id[j] <= '9') || id[j] == '_' || id[j] == '-',
    ensures
        video_id_in("https://www.youtube.com/watch?v="@ + id) == Some(id),
{
    reveal_strlit("https://www.youtube.com/watch?v=");
    reveal_strlit("youtube.com/watch?");
    reveal_strlit("v=");
    let p = "https://www.youtube.com/watch?v="@;
    let s = p + id;
    assert(p.len() == 32);
    assert(s.len() == 43);
    assert forall|j: int| 32 <= j < 43 implies s[j] == id[j - 32] && is_id_char(#[trigger] s[j]) by {
        assert(s[j] == id[j - 32]);
    }
    assert forall|k: int| 0 <= k < 12 implies watch_match_at(s, k) is None by {
        assert(s[k] == p[k]);
        if lit_at(s, k, watch_prefix()) {
            assert(s.subrange(k, k + 18)[0] == s[k]);
            assert(watch_prefix()[0] == 'y');
        }
    }
    lemma_first_watch_skips(s, 0, 12);
    assert(s.subrange(12, 30) =~= watch_prefix());
    assert(s.subrange(30, 32) =~= v_param());
    assert(id_at(s, 32));
    assert(v_param_at(s, 30));
    lemma_line_end_without_breaks(s, 30);
    lemma_last_v_param_is_first(s, 30, 43);
    assert(watch_match_at(s, 12) == Some(30int));
    assert(s.subrange(32, 43) =~= id);
}

proof fn lemma_first_prefixed_none(s: Seq<char>, prefix: Seq<char>, i: int)
    requires
        0 <= i,
        forall|k: int| i <= k <= s.len() ==> !lit_at(s, k, prefix),
    ensures
        first_prefixed(s, prefix, i) is None,
    decreases s.len() + 1 - i,
{
    if i <= s.len() {
        lemma_first_prefixed_none(s, prefix, i + 1);
    }
}

/// Any eleven characters over letters, digits, `_` and `-`, pasted on their
/// own, are taken as the id.
pub proof fn bare_ids_are_taken_as_they_are(id: Seq<char>)
    requires
        id.len() == 11,
        forall|j: int|
            0 <= j < 11 ==> ('a' <= #[trigger] id[j] && id[j] <= 'z') || ('A' <= id[j] && id[j]
                <= 'Z') || ('0' <= id[j] && id[j] <= '9') || id[j] == '_' || id[j] == '-',
    ensures
        video_id_in(id) == Some(id),
{
    reveal_strlit("youtube.com/watch?");
    reveal_strlit("youtu.be/");
    reveal_strlit("youtube.com/embed/");
    reveal_strlit("youtube.com/v/");
    reveal_strlit("youtube.com/shorts/");
    assert forall|k: int| 0 <= k <= 11 implies watch_match_at(id, k) is None by {
        if lit_at(id, k, watch_prefix()) {
            assert(watch_prefix().len() == 18);
        }
    }
    lemma_first_watch_skips(id, 0, 11);
    assert(watch_match_at(id, 11) is None);
    assert(first_watch(id, 12) is None);
    assert(first_watch(id, 11) is None);
    assert forall|k: int| 0 <= k <= 11 implies !lit_at(id, k, short_link_prefix()) by {
        if lit_at(id, k, short_link_prefix()) {
            assert(id.subrange(k, k + 9)[5] == id[k + 5]);
            assert(short_link_prefix()[5] == '.');
        }
    }
    lemma_first_prefixed_none(id, short_link_prefix(), 0);
    assert forall|k: int| 0 <= k <= 11 implies !lit_at(id, k, embed_prefix()) by {
        assert(embed_prefix().len() == 18);
    }
    lemma_first_prefixed_none(id, embed_prefix(), 0);
    assert forall|k: int| 0 <= k <= 11 implies !lit_at(id, k, legacy_prefix()) by {
        assert(legacy_prefix().len() == 14);
    }
    lemma_first_prefixed_none(id, legacy_prefix(), 0);
    assert forall|k: int| 0 <= k <= 11 implies !lit_at(id, k, shorts_prefix()) by {
        assert(shorts_prefix().len() == 19);
    }
    lemma_first_prefixed_none(id, shorts_prefix(), 0);
    assert(id_at(id, 0));
}

/// The text is a well-formed video id: eleven id characters.
pub open spec fn is_video_id(id: Seq<char>) -> bool {
    id.len() == 11 && forall|j: int| 0 <= j < 11 ==> is_id_char(#[trigger] id[j])
}

proof fn lemma_id_at_subrange(s: Seq<char>, k: int)
    requires
        id_at(s, k),
    ensures
        is_video_id(s.subrange(k, k + 11)),
{
    assert forall|j: int| 0 <= j < 11 implies is_id_char(#[trigger] s.subrange(k, k + 11)[j]) by {
        assert(s.subrange(k, k + 11)[j] == s[k + j]);
    }
}

proof fn lemma_first_watch_well_formed(s: Seq<char>, i: int)
    ensures
        first_watch(s, i) matches Some(id) ==> is_video_id(id),
    decreases s.len() + 1 - i,
{
    if 0 <= i <= s.len() {
        match watch_match_at(s, i) {
            Some(j) => {
                let lo = i + watch_prefix().len();
                lemma_last_v_param(s, lo, line_end(s, lo));
                lemma_id_at_subrange(s, j + 2);
            },
            None => lemma_first_watch_well_formed(s, i + 1),
        }
    }
}

proof fn lemma_first_prefixed_well_formed(s: Seq<char>, prefix: Seq<char>, i: int)
    ensures
        first_prefixed(s, prefix, i) matches Some(id) ==> is_video_id(id),
    decreases s.len() + 1 - i,
{
    if 0 <= i <= s.len() {
        if lit_at(s, i, prefix) && id_at(s, i + prefix.len()) {
            lemma_id_at_subrange(s, i + prefix.len());
        } else {
            lemma_first_prefixed_well_formed(s, prefix, i + 1);
        }
    }
}

/// Whatever link shape it comes from, an extracted video id is eleven id
/// characters.
pub proof fn extracted_ids_are_well_formed(s: Seq<char>)
    ensures
        video_id_in(s) matches Some(id) ==> is_video_id(id),
{
    lemma_first_watch_well_formed(s, 0);
    lemma_first_prefixed_well_formed(s, short_link_prefix(), 0);
    lemma_first_prefixed_well_formed(s, embed_prefix(), 0);
    lemma_first_prefixed_well_formed(s, legacy_prefix(), 0);
    lemma_first_prefixed_well_formed(s, shorts_prefix(), 0);
}

/// Message of the error given when the lookup tool is not installed.
pub open spec fn missing_tool_message() -> Seq<char> {
    "yt-dlp not found. Please install yt-dlp (e.g., `nix develop` or `brew install yt-dlp`)"@
}

/// Message of the error given when no id can be found.
pub open spec fn no_video_id_message() -> Seq<char> {
    "Could not extract video ID from URL. Please provide a valid YouTube URL."@
}

fn is_id_char_exec(c: char) -> (r: bool)
    ensures
        r == is_id_char(c),
{
    ('a' <= c && c <= 'z') || ('A' <= c && c <= 'Z') || ('0' <= c && c <= '9') || c == '_' || c
        == '-'
}

fn id_at_exec(s: &Vec<char>, k: usize) -> (r: bool)
    ensures
        r == id_at(s@, k as int),
{
    if k > s.len() || s.len() - k < 11 {
        return false;
    }
    let end = k + 11;
    let mut j = k;
    while j < end
        invariant
            end == k + 11,
            k <= j <= k + 11,
            k + 11 <= s@.len(),
            forall|t: int| k <= t < j ==> is_id_char(#[trigger] s@[t]),
        decreases k + 11 - j,
    {
        if !is_id_char_exec(s[j]) {
            return false;
        }
        j = j + 1;
    }
    true
}

fn lit_at_exec(s: &Vec<char>, k: usize, lit: &Vec<char>) -> (r: bool)
    ensures
        r == lit_at(s@, k as int, lit@),
{
    if k > s.len() || s.len() - k < lit.len() {
        return false;
    }
    let n = s.len();
    let mut t: usize = 0;
    while t < lit.len()
        invariant
            n == s@.len(),
            t <= lit@.len(),
            k + lit@.len() <= s@.len(),
            forall|u: int| 0 <= u < t ==> s@[k + u] == lit@[u],
        decreases lit@.len() - t,
    {
        if s[k + t] != lit[t] {
            proof {
                assert(s@.subrange(k as int, k + lit@.len())[t as int] != lit@[t as int]);
            }
            return false;
        }
        t = t + 1;
    }
    proof {
        assert(s@.subrange(k as int, k + lit@.len()) =~= lit@);
    }
    true
}

proof fn lemma_last_v_param(s: Seq<char>, lo: int, hi: int)
    ensures
        last_v_param(s, lo, hi) matches Some(j) ==> lo <= j < hi && v_param_at(s, j),
    decreases hi - lo,
{
    if hi > lo && !v_param_at(s, hi - 1) {
        lemma_last_v_param(s, lo, hi - 1);
    }
}

fn line_end_exec(s: &Vec<char>, k: usize) -> (r: usize)
    requires
        k <= s@.len(),
    ensures
        r == line_end(s@, k as int),
        k <= r <= s@.len(),
{
    let mut e = k;
    while e < s.len() && s[e] != '\n'
        invariant
            k <= e <= s@.len(),
            line_end(s@, k as int) == line_end(s@, e as int),
        decreases s@.len() - e,
    {
        e = e + 1;
    }
    e
}

fn last_v_param_exec(s: &Vec<char>, v: &Vec<char>, lo: usize, hi: usize) -> (r: Option<usize>)
    requires
        v@ == v_param(),
        lo <= hi <= s@.len(),
    ensures
        match last_v_param(s@, lo as int, hi as int) {
            Some(j) => r == Some(j as usize),
            None => r is None,
        },
{
    proof {
        reveal_strlit("v=");
    }
    let n = s.len();
    let mut h = hi;
    while h > lo
        invariant
            n == s@.len(),
            lo <= h <= hi,
            v@ == v_param(),
            v@.len() == 2,
            hi <= s@.len(),
            last_v_param(s@, lo as int, hi as int) == last_v_param(s@, lo as int, h as int),
        decreases h - lo,
    {
        if lit_at_exec(s, h - 1, v) && id_at_exec(s, h + 1) {
            return Some(h - 1);
        }
        h = h - 1;
    }
    None
}

/// Start of the id of the leftmost watch link.
fn first_watch_exec(s: &Vec<char>) -> (r: Option<usize>)
    ensures
        r is Some <==> first_watch(s@, 0) is Some,
        r matches Some(k) ==> k + 11 <= s@.len() && first_watch(s@, 0) == Some(
            s@.subrange(k as int, k + 11),
        ),
{
    let w = chars_of("youtube.com/watch?");
    let v = chars_of("v=");
    proof {
        reveal_strlit("youtube.com/watch?");
    }
    let mut i: usize = 0;
    while i < s.len()
        invariant
            i <= s@.len(),
            w@ == watch_prefix(),
            w@.len() == 18,
            v@ == v_param(),
            first_watch(s@, 0) == first_watch(s@, i as int),
        decreases s@.len() - i,
    {
        if lit_at_exec(s, i, &w) {
            let lo = i + w.len();
            let hi = line_end_exec(s, lo);
            match last_v_param_exec(s, &v, lo, hi) {
                Some(j) => {
                    proof {
                        lemma_last_v_param(s@, lo as int, hi as int);
                    }
                    return Some(j + 2);
                },
                None => {},
            }
        }
        i = i + 1;
    }
    proof {
        assert(!lit_at(s@, s@.len() as int, watch_prefix()));
        assert(first_watch(s@, s@.len() as int + 1) is None);
    }
    None
}

/// Start of the id right after the leftmost occurrence of `prefix`.
fn first_prefixed_exec(s: &Vec<char>, prefix: &Vec<char>) -> (r: Option<usize>)
    requires
        prefix@.len() > 0,
    ensures
        r is Some <==> first_prefixed(s@, prefix@, 0) is Some,
        r matches Some(k) ==> k + 11 <= s@.len() && first_prefixed(s@, prefix@, 0) == Some(
            s@.subrange(k as int, k + 11),
        ),
{
    let mut i: usize = 0;
    while i < s.len()
        invariant
            i <= s@.len(),
            prefix@.len() > 0,
            first_prefixed(s@, prefix@, 0) == first_prefixed(s@, prefix@, i as int),
        decreases s@.len() - i,
    {
        if lit_at_exec(s, i, prefix) && id_at_exec(s, i + prefix.len()) {
            return Some(i + prefix.len());
        }
        i = i + 1;
    }
    proof {
        assert(first_prefixed(s@, prefix@, s@.len() as int + 1) is None);
    }
    None
}

/// The characters `s[from..to]` as a string.
fn string_of_range(s: &Vec<char>, from: usize, to: usize) -> (r: String)
    requires
        from <= to <= s@.len(),
    ensures
        r@ == s@.subrange(from as int, to as int),
{
    let mut r = String::new();
    let mut k = from;
    while k < to
        invariant
            from <= k <= to <= s@.len(),
            r@ == s@.subrange(from as int, k as int),
        decreases to - k,
    {
        push_char(&mut r, s[k]);
        proof {
            assert(s@.subrange(from as int, k + 1) =~= s@.subrange(from as int, k as int).push(
                s@[k as int],
            ));
        }
        k = k + 1;
    }
    r
}

impl GetVideoInfo {
    /// Finds the video id in a pasted link or id.
    pub fn extract_video_id(url_str: &str) -> (r: Result<String, AppError>)
        ensures
            match video_id_in(url_str@) {
                Some(id) => r matches Ok(s) && s@ == id,
                None => r matches Err(AppError::InvalidUrl(m)) && m@ == no_video_id_message(),
            },
    {
        let s = chars_of(url_str);
        let n = s.len();
        proof {
            reveal_strlit("youtu.be/");
            reveal_strlit("youtube.com/embed/");
            reveal_strlit("youtube.com/v/");
            reveal_strlit("youtube.com/shorts/");
        }
        if let Some(k) = first_watch_exec(&s) {
            return Ok(string_of_range(&s, k, k + 11));
        }
        let prefixes = [
            chars_of("youtu.be/"),
            chars_of("youtube.com/embed/"),
            chars_of("youtube.com/v/"),
            chars_of("youtube.com/shorts/"),
        ];
        if let Some(k) = first_prefixed_exec(&s, &prefixes[0]) {
            return Ok(string_of_range(&s, k, k + 11));
        }
        if let Some(k) = first_prefixed_exec(&s, &prefixes[1]) {
            return Ok(string_of_range(&s, k, k + 11));
        }
        if let Some(k) = first_prefixed_exec(&s, &prefixes[2]) {
            return Ok(string_of_range(&s, k, k + 11));
        }
        if let Some(k) = first_prefixed_exec(&s, &prefixes[3]) {
            return Ok(string_of_range(&s, k, k + 11));
        }
        if s.len() == 11 && id_at_exec(&s, 0) {
            proof {
                assert(s@.subrange(0, 11) =~= s@);
            }
            return Ok(string_of_range(&s, 0, 11));
        }
        Err(
            AppError::InvalidUrl(
                String::from_str(
                    "Could not extract video ID from URL. Please provide a valid YouTube URL.",
                ),
            ),
        )
    }
}

/// One rendition as listed by the video lookup tool.
pub struct YtDlpFormat {
    pub format_id: String,
    pub ext: String,
    pub height: Option<u64>,
    pub filesize: Option<u64>,
    pub filesize_approx: Option<u64>,
    pub vcodec: Option<String>,
    pub acodec: Option<String>,
}

/// A video as described by the video lookup tool. `duration` is in whole
/// seconds.
pub struct YtDlpInfo {
    pub id: String,
    pub title: String,
    pub description: Option<String>,
    pub channel: Option<String>,
    pub channel_id: Option<String>,
    pub duration: Option<u64>,
    pub view_count: Option<u64>,
    pub like_count: Option<u64>,
    pub thumbnail: Option<String>,
    pub upload_date: Option<String>,
    pub formats: Option<Vec<YtDlpFormat>>,
}

/// The quality class of a picture `height` pixels tall.
pub open spec fn quality_for_height(height: u64) -> VideoQuality {
    if height >= 2160 {
        VideoQuality::Quality2160p
    } else if height >= 1440 {
        VideoQuality::Quality1440p
    } else if height >= 1080 {
        VideoQuality::Quality1080p
    } else if height >= 720 {
        VideoQuality::Quality720p
    } else if height >= 480 {
        VideoQuality::Quality480p
    } else {
        VideoQuality::Quality360p
    }
}

/// A codec field names a real codec: present and not `none`.
pub open spec fn names_codec(c: Option<String>) -> bool {
    c matches Some(v) && v@ != "none"@
}

/// The size of a rendition: the exact one when known, else the estimate.
pub open spec fn known_size(f: YtDlpFormat) -> Option<u64> {
    if f.filesize is Some { f.filesize } else { f.filesize_approx }
}

/// What a listed rendition contributes: renditions with a picture and a
/// height are classed by height, sound-only renditions are audio, the rest
/// contribute nothing.
pub open spec fn offered_format(f: YtDlpFormat) -> Option<VideoFormat> {
    let has_video = names_codec(f.vcodec);
    let has_audio = names_codec(f.acodec);
    if has_video {
        match f.height {
            Some(h) => Some(
                VideoFormat {
                    quality: quality_for_height(h),
                    format_id: f.format_id,
                    extension: f.ext,
                    file_size: known_size(f),
                    has_video: true,
                    has_audio,
                },
            ),
            None => None,
        }
    } else if has_audio {
        Some(
            VideoFormat {
                quality: VideoQuality::AudioOnly,
                format_id: f.format_id,
                extension: f.ext,
                file_size: known_size(f),
                has_video: false,
                has_audio: true,
            },
        )
    } else {
        None
    }
}

/// Two offered formats are the same offer: same quality, and both with or
/// both without sound.
pub open spec fn same_offer(a: VideoFormat, b: VideoFormat) -> bool {
    a.quality == b.quality && a.has_audio == b.has_audio
}

pub open spec fn offers(v: Seq<VideoFormat>, f: VideoFormat) -> bool {
    exists|k: int| 0 <= k < v.len() && same_offer(#[trigger] v[k], f)
}

/// The offers of a listing, each kept where it first appears.
pub open spec fn distinct_offers(fs: Seq<YtDlpFormat>) -> Seq<VideoFormat>
    decreases fs.len(),
{
    if fs.len() == 0 {
        seq![]
    } else {
        let prev = distinct_offers(fs.drop_last());
        match offered_format(fs.last()) {
            Some(v) => if offers(prev, v) {
                prev
            } else {
                prev.push(v)
            },
            None => prev,
        }
    }
}

/// The formats of rank `r`, in the order given.
pub open spec fn of_rank(v: Seq<VideoFormat>, r: int) -> Seq<VideoFormat>
    decreases v.len(),
{
    if v.len() == 0 {
        seq![]
    } else {
        let prev = of_rank(v.drop_last(), r);
        if quality_rank(v.last().quality) == r {
            prev.push(v.last())
        } else {
            prev
        }
    }
}

/// The formats of rank below `r`: rank 0 first, each rank in the order given.
pub open spec fn ranks_below(v: Seq<VideoFormat>, r: int) -> Seq<VideoFormat>
    decreases r,
{
    if r <= 0 {
        seq![]
    } else {
        ranks_below(v, r - 1) + of_rank(v, r - 1)
    }
}

/// The formats ordered by quality rank, those of equal rank in the order given.
pub open spec fn by_rank(v: Seq<VideoFormat>) -> Seq<VideoFormat> {
    ranks_below(v, 8)
}

/// The format offered when a listing offers nothing usable.
pub open spec fn is_fallback_format(f: VideoFormat) -> bool {
    &&& f.quality == VideoQuality::Best
    &&& f.format_id@ == "best"@
    &&& f.extension@ == "mp4"@
    &&& f.file_size is None
    &&& f.has_video
    &&& f.has_audio
}

/// The renditions a listing offers, as shown to users.
pub open spec fn listing_is_offered(fs: Seq<YtDlpFormat>, r: Seq<VideoFormat>) -> bool {
    let ordered = by_rank(distinct_offers(fs));
    if ordered.len() > 0 {
        r == ordered
    } else {
        r.len() == 1 && is_fallback_format(r[0])
    }
}

/// Midnight UTC of a `YYYYMMDD` date, in seconds since the epoch: the year,
/// month and day are read as `str::parse` reads an `i32`, a `u32` and a `u32`.
pub open spec fn upload_timestamp(s: Seq<char>) -> Option<int> {
    if s.len() != 8 {
        None
    } else {
        let y = parse_signed_spec(s.subrange(0, 4), i32::MAX as nat);
        let m = parse_unsigned_spec(s.subrange(4, 6), u32::MAX as nat);
        let d = parse_unsigned_spec(s.subrange(6, 8), u32::MAX as nat);
        if y is Some && m is Some && d is Some && is_valid_date(y->0, m->0 as int, d->0 as int)
            && MIN_DATE_YEAR <= y->0 <= MAX_DATE_YEAR {
            Some(days_from_civil(y->0, m->0 as int, d->0 as int) * 86400)
        } else {
            None
        }
    }
}

/// The text does not make `YYYYMMDD` slicing cut a character in two.
pub open spec fn date_slices_on_boundaries(s: Seq<char>) -> bool {
    vstd::utf8::encode_utf8(s).len() == 8 ==> (vstd::utf8::is_char_boundary(vstd::utf8::encode_utf8(s), 4)
        && vstd::utf8::is_char_boundary(vstd::utf8::encode_utf8(s), 6))
}

fn names_codec_exec(c: &Option<String>) -> (r: bool)
    ensures
        r == names_codec(*c),
{
    match c {
        Some(v) => {
            let none = String::from_str("none");
            !v.eq(&none)
        },
        None => false,
    }
}

proof fn lemma_take_last<A>(s: Seq<A>, i: int)
    requires
        0 <= i < s.len(),
    ensures
        s.take(i + 1).drop_last() == s.take(i),
        s.take(i + 1).last() == s[i],
{
    assert(s.take(i + 1).drop_last() =~= s.take(i));
}

proof fn lemma_ranks_below_grow(v: Seq<VideoFormat>, r: int)
    requires
        r >= 0,
    ensures
        ranks_below(v, r + 1) == ranks_below(v, r) + of_rank(v, r),
{
}

/// No two formats of a listing's distinct offers are the same offer.
pub proof fn distinct_offers_are_distinct(fs: Seq<YtDlpFormat>)
    ensures
        forall|i: int, j: int|
            0 <= i < j < distinct_offers(fs).len() ==> !same_offer(
                #[trigger] distinct_offers(fs)[i],
                #[trigger] distinct_offers(fs)[j],
            ),
    decreases fs.len(),
{
    if fs.len() > 0 {
        distinct_offers_are_distinct(fs.drop_last());
        let prev = distinct_offers(fs.drop_last());
        let d = distinct_offers(fs);
        if let Some(v) = offered_format(fs.last()) {
            if !offers(prev, v) {
                assert forall|i: int, j: int| 0 <= i < j < d.len() implies !same_offer(
                    #[trigger] d[i],
                    #[trigger] d[j],
                ) by {
                    if j == prev.len() {
                        assert(!same_offer(prev[i], v));
                    } else {
                        assert(d[i] == prev[i] && d[j] == prev[j]);
                    }
                }
            }
        }
    }
}

/// A listing's offers hold one entry per quality and sound: no two entries
/// share both their quality and whether they have sound, whatever their
/// format id, extension or size.
pub proof fn one_offer_per_quality_and_sound(fs: Seq<YtDlpFormat>)
    ensures
        forall|i: int, j: int|
            0 <= i < j < distinct_offers(fs).len() ==> !((#[trigger] distinct_offers(fs)[i]).quality
                == (#[trigger] distinct_offers(fs)[j]).quality && distinct_offers(fs)[i].has_audio
                == distinct_offers(fs)[j].has_audio),
{
    distinct_offers_are_distinct(fs);
}

/// Every usable rendition of a listing is offered: some entry has its
/// quality and sound.
pub proof fn every_rendition_is_offered(fs: Seq<YtDlpFormat>, k: int)
    requires
        0 <= k < fs.len(),
        offered_format(fs[k]) is Some,
    ensures
        exists|t: int|
            0 <= t < distinct_offers(fs).len() && (#[trigger] distinct_offers(fs)[t]).quality
                == offered_format(fs[k])->0.quality && distinct_offers(fs)[t].has_audio
                == offered_format(fs[k])->0.has_audio,
    decreases fs.len(),
{
    let prev = distinct_offers(fs.drop_last());
    let d = distinct_offers(fs);
    let v = offered_format(fs[k]).unwrap();
    if k < fs.len() - 1 {
        assert(fs.drop_last()[k] == fs[k]);
        every_rendition_is_offered(fs.drop_last(), k);
        let t = choose|t: int|
            0 <= t < prev.len() && (#[trigger] prev[t]).quality == v.quality && prev[t].has_audio
                == v.has_audio;
        assert(d[t] == prev[t]);
    } else {
        if offers(prev, v) {
            let t = choose|t: int| 0 <= t < prev.len() && same_offer(#[trigger] prev[t], v);
            assert(d[t] == prev[t]);
        } else {
            assert(d[prev.len() as int] == v);
        }
    }
}

/// Each offer is the first rendition of the listing with its quality and
/// sound: the returned position holds it, and no earlier rendition has the
/// same quality and sound.
pub proof fn offers_are_first_renditions(fs: Seq<YtDlpFormat>, t: int) -> (k: int)
    requires
        0 <= t < distinct_offers(fs).len(),
    ensures
        0 <= k < fs.len(),
        offered_format(fs[k]) == Some(distinct_offers(fs)[t]),
        forall|j: int|
            0 <= j < k && (#[trigger] offered_format(fs[j])) is Some ==> !(offered_format(
                fs[j],
            )->0.quality == distinct_offers(fs)[t].quality && offered_format(fs[j])->0.has_audio
                == distinct_offers(fs)[t].has_audio),
    decreases fs.len(),
{
    let prev = distinct_offers(fs.drop_last());
    let d = distinct_offers(fs);
    if t < prev.len() {
        assert(d[t] == prev[t]);
        let k = offers_are_first_renditions(fs.drop_last(), t);
        assert forall|j: int| 0 <= j < k implies fs.drop_last()[j] == fs[j] by {}
        assert(fs.drop_last()[k] == fs[k]);
        k
    } else {
        let v = offered_format(fs.last()).unwrap();
        assert(d[t] == v);
        let k = fs.len() - 1;
        assert forall|j: int|
            0 <= j < k && (#[trigger] offered_format(fs[j])) is Some implies !(offered_format(
                fs[j],
            )->0.quality == v.quality && offered_format(fs[j])->0.has_audio == v.has_audio) by {
            assert(fs.drop_last()[j] == fs[j]);
            every_rendition_is_offered(fs.drop_last(), j);
            let w = offered_format(fs[j])->0;
            if w.quality == v.quality && w.has_audio == v.has_audio {
                let u = choose|u: int|
                    0 <= u < prev.len() && (#[trigger] prev[u]).quality == w.quality
                        && prev[u].has_audio == w.has_audio;
                assert(same_offer(prev[u], v));
            }
        }
        k
    }
}

proof fn lemma_of_rank_has_rank(v: Seq<VideoFormat>, r: int)
    ensures
        forall|i: int| 0 <= i < of_rank(v, r).len() ==> quality_rank(#[trigger] of_rank(v, r)[i].quality) == r,
    decreases v.len(),
{
    if v.len() > 0 {
        lemma_of_rank_has_rank(v.drop_last(), r);
        let p = of_rank(v.drop_last(), r);
        assert forall|i: int| 0 <= i < of_rank(v, r).len() implies quality_rank(
            #[trigger] of_rank(v, r)[i].quality,
        ) == r by {
            if i < p.len() {
                assert(of_rank(v, r)[i] == p[i]);
            }
        }
    }
}

proof fn lemma_ranks_below_ordered(v: Seq<VideoFormat>, r: int)
    requires
        r >= 0,
    ensures
        forall|i: int| 0 <= i < ranks_below(v, r).len() ==> quality_rank(#[trigger] ranks_below(v, r)[i].quality) < r,
        forall|i: int, j: int|
            0 <= i < j < ranks_below(v, r).len() ==> quality_rank(
                #[trigger] ranks_below(v, r)[i].quality,
            ) <= quality_rank(#[trigger] ranks_below(v, r)[j].quality),
    decreases r,
{
    if r > 0 {
        lemma_ranks_below_ordered(v, r - 1);
        lemma_of_rank_has_rank(v, r - 1);
        let a = ranks_below(v, r - 1);
        let b = of_rank(v, r - 1);
        let c = ranks_below(v, r);
        assert(c == a + b);
        assert forall|i: int| 0 <= i < c.len() implies quality_rank(#[trigger] c[i].quality) < r by {
            if i < a.len() {
                assert(c[i] == a[i]);
            } else {
                assert(c[i] == b[i - a.len()]);
            }
        }
        assert forall|i: int, j: int| 0 <= i < j < c.len() implies quality_rank(
            #[trigger] c[i].quality,
        ) <= quality_rank(#[trigger] c[j].quality) by {
            if j < a.len() {
                assert(c[i] == a[i] && c[j] == a[j]);
            } else if i < a.len() {
                assert(c[i] == a[i] && c[j] == b[j - a.len()]);
            } else {
                assert(c[i] == b[i - a.len()] && c[j] == b[j - a.len()]);
            }
        }
    }
}

/// Ordering by rank puts formats of lower rank first.
pub proof fn by_rank_is_ordered(v: Seq<VideoFormat>)
    ensures
        forall|i: int, j: int|
            0 <= i < j < by_rank(v).len() ==> quality_rank(#[trigger] by_rank(v)[i].quality)
                <= quality_rank(#[trigger] by_rank(v)[j].quality),
{
    lemma_ranks_below_ordered(v, 8);
}

proof fn lemma_ranks_below_last(v: Seq<VideoFormat>, r: int)
    requires
        v.len() > 0,
        r >= 0,
    ensures
        ranks_below(v, r).to_multiset() == if quality_rank(v.last().quality) < r {
            ranks_below(v.drop_last(), r).to_multiset().insert(v.last())
        } else {
            ranks_below(v.drop_last(), r).to_multiset()
        },
    decreases r,
{
    broadcast use vstd::multiset::group_multiset_axioms;
    broadcast use vstd::seq_lib::lemma_multiset_commutative;
    broadcast use vstd::seq_lib::to_multiset_build;

    let w = v.drop_last();
    let x = v.last();
    if r > 0 {
        lemma_ranks_below_last(v, r - 1);
        assert(ranks_below(v, r) == ranks_below(v, r - 1) + of_rank(v, r - 1));
        assert(ranks_below(w, r) == ranks_below(w, r - 1) + of_rank(w, r - 1));
        if quality_rank(x.quality) == r - 1 {
            assert(of_rank(v, r - 1) == of_rank(w, r - 1).push(x));
        } else {
            assert(of_rank(v, r - 1) == of_rank(w, r - 1));
        }
        assert(ranks_below(v, r).to_multiset() =~= if quality_rank(x.quality) < r {
            ranks_below(w, r).to_multiset().insert(x)
        } else {
            ranks_below(w, r).to_multiset()
        });
    } else {
        assert(ranks_below(v, r).to_multiset() =~= ranks_below(w, r).to_multiset());
    }
}

proof fn lemma_ranks_below_empty(v: Seq<VideoFormat>, r: int)
    requires
        v.len() == 0,
    ensures
        ranks_below(v, r) =~= v,
    decreases r,
{
    if r > 0 {
        lemma_ranks_below_empty(v, r - 1);
    }
}

/// Ordering by rank neither loses nor adds formats.
pub proof fn by_rank_keeps_formats(v: Seq<VideoFormat>)
    ensures
        by_rank(v).to_multiset() == v.to_multiset(),
    decreases v.len(),
{
    broadcast use vstd::multiset::group_multiset_axioms;
    broadcast use vstd::seq_lib::to_multiset_build;

    if v.len() == 0 {
        lemma_ranks_below_empty(v, 8);
        assert(by_rank(v).to_multiset() =~= v.to_multiset());
    } else {
        by_rank_keeps_formats(v.drop_last());
        lemma_ranks_below_last(v, 8);
        assert(v.drop_last().push(v.last()) =~= v);
    }
}

impl GetVideoInfo {
    /// The quality class of a picture `height` pixels tall.
    pub fn quality_from_height(height: u64) -> (r: VideoQuality)
        ensures
            r == quality_for_height(height),
    {
        if height >= 2160 {
            VideoQuality::Quality2160p
        } else if height >= 1440 {
            VideoQuality::Quality1440p
        } else if height >= 1080 {
            VideoQuality::Quality1080p
        } else if height >= 720 {
            VideoQuality::Quality720p
        } else if height >= 480 {
            VideoQuality::Quality480p
        } else {
            VideoQuality::Quality360p
        }
    }

    /// What one listed rendition contributes.
    pub fn offered_format(f: &YtDlpFormat) -> (r: Option<VideoFormat>)
        ensures
            r == offered_format(*f),
    {
        let has_video = names_codec_exec(&f.vcodec);
        let has_audio = names_codec_exec(&f.acodec);
        let file_size = if f.filesize.is_some() { f.filesize } else { f.filesize_approx };
        if has_video {
            match f.height {
                Some(h) => Some(
                    VideoFormat {
                        quality: Self::quality_from_height(h),
                        format_id: f.format_id.clone(),
                        extension: f.ext.clone(),
                        file_size,
                        has_video: true,
                        has_audio,
                    },
                ),
                None => None,
            }
        } else if has_audio {
            Some(
                VideoFormat {
                    quality: VideoQuality::AudioOnly,
                    format_id: f.format_id.clone(),
                    extension: f.ext.clone(),
                    file_size,
                    has_video: false,
                    has_audio: true,
                },
            )
        } else {
            None
        }
    }

    /// The offers of a listing, each kept where it first appears.
    pub fn distinct_offers(fs: &Vec<YtDlpFormat>) -> (r: Vec<VideoFormat>)
        ensures
            r@ == distinct_offers(fs@),
    {
        let mut out: Vec<VideoFormat> = Vec::new();
        let mut i: usize = 0;
        while i < fs.len()
            invariant
                i <= fs@.len(),
                out@ == distinct_offers(fs@.take(i as int)),
            decreases fs@.len() - i,
        {
            proof {
                lemma_take_last(fs@, i as int);
            }
            match Self::offered_format(&fs[i]) {
                Some(v) => {
                    let mut seen = false;
                    let mut k: usize = 0;
                    while k < out.len()
                        invariant
                            k <= out@.len(),
                            seen == exists|t: int| 0 <= t < k && same_offer(#[trigger] out@[t], v),
                        decreases out@.len() - k,
                    {
                        if out[k].quality == v.quality && out[k].has_audio == v.has_audio {
                            seen = true;
                        }
                        k = k + 1;
                    }
                    if !seen {
                        out.push(v);
                    }
                },
                None => {},
            }
            i = i + 1;
        }
        proof {
            assert(fs@.take(fs@.len() as int) =~= fs@);
        }
        out
    }

    /// Orders formats by quality rank, those of equal rank staying in the order given.
    pub fn order_by_rank(v: &Vec<VideoFormat>) -> (r: Vec<VideoFormat>)
        ensures
            r@ == by_rank(v@),
    {
        let mut out: Vec<VideoFormat> = Vec::new();
        let mut rank: u8 = 0;
        while rank < 8
            invariant
                rank <= 8,
                out@ == ranks_below(v@, rank as int),
            decreases 8 - rank,
        {
            let mut k: usize = 0;
            while k < v.len()
                invariant
                    k <= v@.len(),
                    rank < 8,
                    out@ == ranks_below(v@, rank as int) + of_rank(v@.take(k as int), rank as int),
                decreases v@.len() - k,
            {
                proof {
                    lemma_take_last(v@, k as int);
                }
                if v[k].quality.rank() == rank {
                    out.push(v[k].clone());
                }
                proof {
                    let t = v@.take(k + 1);
                    assert(of_rank(t, rank as int) == if quality_rank(t.last().quality) == rank {
                        of_rank(t.drop_last(), rank as int).push(t.last())
                    } else {
                        of_rank(t.drop_last(), rank as int)
                    });
                    assert(out@ =~= ranks_below(v@, rank as int) + of_rank(v@.take(k + 1), rank as int));
                }
                k = k + 1;
            }
            proof {
                assert(v@.take(v@.len() as int) =~= v@);
                lemma_ranks_below_grow(v@, rank as int);
            }
            rank = rank + 1;
        }
        out
    }

    /// The renditions a listing offers: distinct offers ordered by rank, or
    /// the fallback format when there are none.
    pub fn available_formats(formats: &Option<Vec<YtDlpFormat>>) -> (r: Vec<VideoFormat>)
        ensures
            listing_is_offered(
                match formats {
                    Some(fs) => fs@,
                    None => Seq::<YtDlpFormat>::empty(),
                },
                r@,
            ),
    {
        let distinct = match formats {
            Some(fs) => Self::distinct_offers(fs),
            None => Vec::new(),
        };
        let ordered = Self::order_by_rank(&distinct);
        if ordered.len() > 0 {
            ordered
        } else {
            let mut r = Vec::new();
            r.push(
                VideoFormat {
                    quality: VideoQuality::Best,
                    format_id: String::from_str("best"),
                    extension: String::from_str("mp4"),
                    file_size: None,
                    has_video: true,
                    has_audio: true,
                },
            );
            r
        }
    }

    /// Midnight UTC of a `YYYYMMDD` upload date, in seconds since the epoch.
    pub fn parse_upload_date(date: &str) -> (r: Option<i64>)
        requires
            date_slices_on_boundaries(date@),
        ensures
            match upload_timestamp(date@) {
                Some(t) => r == Some(t as i64),
                None => r is None,
            },
    {
        let cs = chars_of(date);
        if cs.len() != 8 {
            return None;
        }
        let y = parse_signed_range(&cs, 0, 4, i32::MAX as u64);
        let m = parse_unsigned_range(&cs, 4, 6, u32::MAX as u64);
        let d = parse_unsigned_range(&cs, 6, 8, u32::MAX as u64);
        match (y, m, d) {
            (Some(y), Some(m), Some(d)) => midnight_utc(y as i32, m as u32, d as u32),
            _ => None,
        }
    }

    /// Summarises a looked-up video: missing channel names read `Unknown`,
    /// a missing channel id is empty, a missing duration is zero.
    pub fn summarize(info: YtDlpInfo) -> (r: VideoInfo)
        requires
            info.upload_date matches Some(d) ==> date_slices_on_boundaries(d@),
        ensures
            r.video_id == info.id,
            r.title == info.title,
            r.description == info.description,
            r.channel@ == (match info.channel {
                Some(c) => c@,
                None => "Unknown"@,
            }),
            r.channel_id@ == (match info.channel_id {
                Some(c) => c@,
                None => Seq::<char>::empty(),
            }),
            r.duration_seconds == (match info.duration {
                Some(d) => d,
                None => 0,
            }),
            r.view_count == info.view_count,
            r.like_count == info.like_count,
            r.thumbnail_url == info.thumbnail,
            r.upload_date == (match info.upload_date {
                Some(d) => match upload_timestamp(d@) {
                    Some(t) => Some(t as i64),
                    None => None,
                },
                None => None,
            }),
            listing_is_offered(
                match info.formats {
                    Some(fs) => fs@,
                    None => Seq::<YtDlpFormat>::empty(),
                },
                r.available_formats@,
            ),
    {
        let available_formats = Self::available_formats(&info.formats);
        let upload_date = match &info.upload_date {
            Some(d) => Self::parse_upload_date(d.as_str()),
            None => None,
        };
        let duration_seconds = match info.duration {
            Some(d) => d,
            None => 0,
        };
        let channel = match info.channel {
            Some(c) => c,
            None => String::from_str("Unknown"),
        };
        let channel_id = match info.channel_id {
            Some(c) => c,
            None => String::new(),
        };
        VideoInfo {
            video_id: info.id,
            title: info.title,
            description: info.description,
            channel,
            channel_id,
            duration_seconds,
            view_count: info.view_count,
            like_count: info.like_count,
            thumbnail_url: info.thumbnail,
            upload_date,
            available_formats,
        }
    }

    /// The watch address of a video id.
    pub fn watch_url(video_id: &str) -> (r: String)
        ensures
            r@ == "https://www.youtube.com/watch?v="@ + video_id@,
    {
        let mut r = String::from_str("https://www.youtube.com/watch?v=");
        r.append(video_id);
        r
    }

    /// Arguments that make the lookup tool describe a video as JSON without
    /// downloading it.
    pub fn lookup_args(video_url: &str) -> (r: Vec<String>)
        ensures
            views(r@) == seq!["--dump-json"@, "--no-download"@, "--no-warnings"@, video_url@],
    {
        let items = vec!["--dump-json", "--no-download", "--no-warnings", video_url];
        let r = strings_of(&items);
        proof {
            assert(views(r@) =~= seq!["--dump-json"@, "--no-download"@, "--no-warnings"@, video_url@]);
        }
        r
    }

    /// Whether the lookup tool can be run: when it cannot be found the
    /// request fails with an internal error telling how to install it.
    pub fn check_ytdlp(found: bool) -> (r: Result<(), AppError>)
        ensures
            found ==> r is Ok,
            !found ==> (r matches Err(AppError::InternalError(m)) && m@ == missing_tool_message()),
    {
        if found {
            Ok(())
        } else {
            Err(AppError::InternalError(String::from_str(
                "yt-dlp not found. Please install yt-dlp (e.g., `nix develop` or `brew install yt-dlp`)",
            )))
        }
    }

    /// The outcome of running the lookup tool: when it fails, the video is
    /// unavailable and its error output is passed on.
    pub fn lookup_status(success: bool, stderr: &str) -> (r: Result<(), AppError>)
        ensures
            success ==> r is Ok,
            !success ==> (r matches Err(AppError::VideoUnavailable(m)) && m@ == "yt-dlp failed: "@
                + stderr@),
    {
        if success {
            Ok(())
        } else {
            let mut m = String::from_str("yt-dlp failed: ");
            m.append(stderr);
            Err(AppError::VideoUnavailable(m))
        }
    }
}

} // verus!

//! Command lines for the media tool and the meaning of its exit status.

use vstd::prelude::*;

use crate::text::{push_signed_decimal, signed_decimal, strings_of, views};

verus! {

/// Debug rendering of an optional exit code: `Some(code)` or `None`.
pub open spec fn exit_code_text(code: Option<i32>) -> Seq<char> {
    match code {
        Some(c) => "Some("@ + signed_decimal(c as int) + ")"@,
        None => "None"@,
    }
}

pub open spec fn merge_args_text(video: Seq<char>, audio: Seq<char>, output: Seq<char>) -> Seq<Seq<char>> {
    seq!["-i"@, video, "-i"@, audio, "-c:v"@, "copy"@, "-c:a"@, "aac"@, "-y"@, output]
}

pub open spec fn extract_args_text(video: Seq<char>, output: Seq<char>) -> Seq<Seq<char>> {
    seq!["-i"@, video, "-vn"@, "-acodec"@, "copy"@, "-y"@, output]
}

fn failure(action: &str, code: Option<i32>) -> (r: String)
    ensures
        r@ == "FFmpeg "@ + action@ + " failed with exit code: "@ + exit_code_text(code),
{
    let mut m = String::from_str("FFmpeg ");
    m.append(action);
    m.append(" failed with exit code: ");
    match code {
        Some(c) => {
            m.append("Some(");
            push_signed_decimal(&mut m, c as i64);
            m.append(")");
        },
        None => {
            m.append("None");
        },
    }
    m
}

pub struct Ffmpeg;

impl Ffmpeg {
    /// Arguments that merge a video stream and an audio stream into one file.
    /// Paths that are not text are refused, the video's first, then the
    /// audio's, then the output's.
    pub fn merge_streams_args(video: Option<&str>, audio: Option<&str>, output: Option<&str>) -> (r:
        Result<Vec<String>, String>)
        ensures
            match (video, audio, output) {
                (Some(v), Some(a), Some(o)) => r matches Ok(args) && views(args@) == merge_args_text(
                    v@,
                    a@,
                    o@,
                ),
                (None, _, _) => r matches Err(m) && m@ == "Invalid video path"@,
                (Some(_), None, _) => r matches Err(m) && m@ == "Invalid audio path"@,
                (Some(_), Some(_), None) => r matches Err(m) && m@ == "Invalid output path"@,
            },
    {
        let v = match video {
            Some(v) => v,
            None => {
                return Err(String::from_str("Invalid video path"));
            },
        };
        let a = match audio {
            Some(a) => a,
            None => {
                return Err(String::from_str("Invalid audio path"));
            },
        };
        let o = match output {
            Some(o) => o,
            None => {
                return Err(String::from_str("Invalid output path"));
            },
        };
        let items = vec!["-i", v, "-i", a, "-c:v", "copy", "-c:a", "aac", "-y", o];
        let r = strings_of(&items);
        proof {
            assert(views(r@) =~= merge_args_text(v@, a@, o@));
        }
        Ok(r)
    }

    /// Arguments that copy the audio stream of a video into its own file.
    pub fn extract_audio_args(video: Option<&str>, output: Option<&str>) -> (r: Result<
        Vec<String>,
        String,
    >)
        ensures
            match (video, output) {
                (Some(v), Some(o)) => r matches Ok(args) && views(args@) == extract_args_text(
                    v@,
                    o@,
                ),
                (None, _) => r matches Err(m) && m@ == "Invalid video path"@,
                (Some(_), None) => r matches Err(m) && m@ == "Invalid output path"@,
            },
    {
        let v = match video {
            Some(v) => v,
            None => {
                return Err(String::from_str("Invalid video path"));
            },
        };
        let o = match output {
            Some(o) => o,
            None => {
                return Err(String::from_str("Invalid output path"));
            },
        };
        let items = vec!["-i", v, "-vn", "-acodec", "copy", "-y", o];
        let r = strings_of(&items);
        proof {
            assert(views(r@) =~= extract_args_text(v@, o@));
        }
        Ok(r)
    }

    /// The outcome of a merge from the tool's exit status.
    pub fn merge_outcome(success: bool, code: Option<i32>) -> (r: Result<(), String>)
        ensures
            success ==> r is Ok,
            !success ==> (r matches Err(m) && m@ == "FFmpeg merge failed with exit code: "@
                + exit_code_text(code)),
    {
        if success {
            Ok(())
        } else {
            let m = failure("merge", code);
            proof {
                reveal_strlit("merge");
                assert("FFmpeg "@ + "merge"@ + " failed with exit code: "@ =~= "FFmpeg merge failed with exit code: "@) by {
                    reveal_strlit("FFmpeg ");
                    reveal_strlit(" failed with exit code: ");
                    reveal_strlit("FFmpeg merge failed with exit code: ");
                }
            }
            Err(m)
        }
    }

    /// The outcome of an audio extraction from the tool's exit status.
    pub fn extract_outcome(success: bool, code: Option<i32>) -> (r: Result<(), String>)
        ensures
            success ==> r is Ok,
            !success ==> (r matches Err(m) && m@ == "FFmpeg extract failed with exit code: "@
                + exit_code_text(code)),
    {
        if success {
            Ok(())
        } else {
            let m = failure("extract", code);
            proof {
                reveal_strlit("extract");
                assert("FFmpeg "@ + "extract"@ + " failed with exit code: "@ =~= "FFmpeg extract failed with exit code: "@) by {
                    reveal_strlit("FFmpeg ");
                    reveal_strlit(" failed with exit code: ");
                    reveal_strlit("FFmpeg extract failed with exit code: ");
                }
            }
            Err(m)
        }
    }
}

} // verus!

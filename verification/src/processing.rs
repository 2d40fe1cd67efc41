//! Per-track profile decisions and the encoder argument vector: a track whose
//! codec is already compatible is passed through unmodified, any other is
//! re-encoded to the kind's default codec.

use vstd::prelude::*;

use crate::ffprobe::MediaInfo;
use crate::text::{dec_rep, push_dec, str_eq};

verus! {

/// The views of a list of argument tokens.
pub open spec fn args_view(v: Seq<String>) -> Seq<Seq<char>> {
    v.map_values(|s: String| s@)
}

/// The codec names of a video stream list, in order.
pub open spec fn video_codec_names(streams: Seq<crate::ffprobe::Video>) -> Seq<Seq<char>> {
    streams.map_values(|v: crate::ffprobe::Video| v.codec_name@)
}

/// The codec names of an audio stream list, in order.
pub open spec fn audio_codec_names(streams: Seq<crate::ffprobe::Audio>) -> Seq<Seq<char>> {
    streams.map_values(|a: crate::ffprobe::Audio| a.codec_name@)
}

/// The position of the first codec name equal to `target`, scanning in the
/// original stream order.
pub open spec fn first_codec_match(codecs: Seq<Seq<char>>, target: Seq<char>) -> Option<int>
    decreases codecs.len(),
{
    if codecs.len() == 0 {
        Option::None
    } else if codecs[0] == target {
        Option::Some(0)
    } else {
        match first_codec_match(codecs.drop_first(), target) {
            Option::Some(j) => Option::Some(j + 1),
            Option::None => Option::None,
        }
    }
}

proof fn lemma_first_codec_match_scan(codecs: Seq<Seq<char>>, target: Seq<char>, k: int)
    requires
        0 <= k <= codecs.len(),
        forall|j: int| 0 <= j < k ==> codecs[j] != target,
    ensures
        k == codecs.len() ==> first_codec_match(codecs, target) is None,
        k < codecs.len() && codecs[k] == target ==> first_codec_match(codecs, target)
            == Option::Some(k),
    decreases k,
{
    if k == 0 {
    } else {
        let rest = codecs.drop_first();
        assert(codecs[0] != target);
        assert(forall|j: int| 0 <= j < k - 1 ==> rest[j] == codecs[j + 1] && rest[j] != target);
        lemma_first_codec_match_scan(rest, target, k - 1);
        if k < codecs.len() {
            assert(rest[k - 1] == codecs[k]);
        }
    }
}

/// The passthrough argument tokens for the video stream at `idx`.
pub open spec fn video_transmux_args(idx: nat) -> Seq<Seq<char>> {
    seq!["-map"@, "0:v:"@ + dec_rep(idx), "-c:v"@, "copy"@]
}

/// The re-encode argument tokens for video: the first video stream, encoded
/// to the default video codec.
pub open spec fn video_transcode_args() -> Seq<Seq<char>> {
    seq!["-map"@, "0:v:0"@, "-c:v"@, "libx264"@]
}

/// The passthrough argument tokens for the audio stream at `idx`.
pub open spec fn audio_transmux_args(idx: nat) -> Seq<Seq<char>> {
    seq!["-map"@, "0:a:"@ + dec_rep(idx), "-c:a"@, "copy"@]
}

/// The re-encode argument tokens for audio: the first audio stream, encoded
/// to the default audio codec.
pub open spec fn audio_transcode_args() -> Seq<Seq<char>> {
    seq!["-map"@, "0:a:0"@, "-c:a"@, "aac"@]
}

/// The passthrough argument tokens for subtitles at `idx`.
pub open spec fn subtitle_transmux_args(idx: nat) -> Seq<Seq<char>> {
    seq!["-map"@, "0:a:"@ + dec_rep(idx), "-c:s"@, "copy"@]
}

/// The re-encode argument tokens for subtitles: the first subtitle stream,
/// encoded to the default subtitle codec.
pub open spec fn subtitle_transcode_args() -> Seq<Seq<char>> {
    seq!["-map"@, "0:s:0"@, "-c:s"@, "webvtt"@]
}

/// The video track decision: passthrough at the first compatible stream, or
/// re-encode the first stream. A matching index is narrowed to a byte as the
/// argument tokens carry it.
pub open spec fn video_args_spec(streams: Seq<crate::ffprobe::Video>) -> Seq<Seq<char>> {
    match first_codec_match(video_codec_names(streams), "h264"@) {
        Option::Some(i) => video_transmux_args((i % 256) as nat),
        Option::None => video_transcode_args(),
    }
}

/// The audio track decision, as for video with the audio codecs.
pub open spec fn audio_args_spec(streams: Seq<crate::ffprobe::Audio>) -> Seq<Seq<char>> {
    match first_codec_match(audio_codec_names(streams), "aac"@) {
        Option::Some(i) => audio_transmux_args((i % 256) as nat),
        Option::None => audio_transcode_args(),
    }
}

/// The subtitle track decision: with no subtitle stream the track is omitted
/// entirely; otherwise the first stream is re-encoded.
pub open spec fn subtitle_args_spec(streams: Seq<crate::ffprobe::Subtitle>) -> Seq<Seq<char>> {
    if streams.len() == 0 {
        Seq::empty()
    } else {
        subtitle_transcode_args()
    }
}

/// The video track profile.
pub struct Video;

/// The audio track profile.
pub struct Audio;

/// The subtitle track profile.
pub struct Subtitles;

impl Video {
    /// Passthrough arguments for the video stream at `stream_idx`.
    pub fn transmux(stream_idx: u8) -> (r: Vec<String>)
        ensures
            args_view(r@) == video_transmux_args(stream_idx as nat),
    {
        let mut r: Vec<String> = Vec::new();
        r.push("-map".to_owned());
        let mut m = "0:v:".to_owned();
        push_dec(&mut m, stream_idx as u64);
        r.push(m);
        r.push("-c:v".to_owned());
        r.push("copy".to_owned());
        proof {
            assert(args_view(r@) =~~= video_transmux_args(stream_idx as nat));
        }
        r
    }

    /// Re-encode arguments targeting the default video codec.
    pub fn transcode() -> (r: Vec<String>)
        ensures
            args_view(r@) == video_transcode_args(),
    {
        let mut r: Vec<String> = Vec::new();
        r.push("-map".to_owned());
        r.push("0:v:0".to_owned());
        r.push("-c:v".to_owned());
        r.push("libx264".to_owned());
        proof {
            assert(args_view(r@) =~~= video_transcode_args());
        }
        r
    }

    /// The video track decision over the probed inventory.
    pub fn get_args(media_info: &MediaInfo) -> (r: Vec<String>)
        ensures
            args_view(r@) == video_args_spec(media_info.video@),
    {
        let ghost codecs = video_codec_names(media_info.video@);
        let mut i: usize = 0;
        while i < media_info.video.len()
            invariant
                i <= media_info.video@.len(),
                codecs == video_codec_names(media_info.video@),
                forall|j: int| 0 <= j < i ==> codecs[j] != "h264"@,
            decreases media_info.video@.len() - i,
        {
            if str_eq(media_info.video[i].codec_name.as_str(), "h264") {
                let idx: u8 = (i % 256) as u8;
                proof {
                    lemma_first_codec_match_scan(codecs, "h264"@, i as int);
                }
                return Self::transmux(idx);
            }
            i += 1;
        }
        proof {
            lemma_first_codec_match_scan(codecs, "h264"@, i as int);
        }
        Self::transcode()
    }
}

impl Audio {
    /// Passthrough arguments for the audio stream at `stream_idx`.
    pub fn transmux(stream_idx: u8) -> (r: Vec<String>)
        ensures
            args_view(r@) == audio_transmux_args(stream_idx as nat),
    {
        let mut r: Vec<String> = Vec::new();
        r.push("-map".to_owned());
        let mut m = "0:a:".to_owned();
        push_dec(&mut m, stream_idx as u64);
        r.push(m);
        r.push("-c:a".to_owned());
        r.push("copy".to_owned());
        proof {
            assert(args_view(r@) =~~= audio_transmux_args(stream_idx as nat));
        }
        r
    }

    /// Re-encode arguments targeting the default audio codec.
    pub fn transcode() -> (r: Vec<String>)
        ensures
            args_view(r@) == audio_transcode_args(),
    {
        let mut r: Vec<String> = Vec::new();
        r.push("-map".to_owned());
        r.push("0:a:0".to_owned());
        r.push("-c:a".to_owned());
        r.push("aac".to_owned());
        proof {
            assert(args_view(r@) =~~= audio_transcode_args());
        }
        r
    }

    /// The audio track decision over the probed inventory.
    pub fn get_args(media_info: &MediaInfo) -> (r: Vec<String>)
        ensures
            args_view(r@) == audio_args_spec(media_info.audio@),
    {
        let ghost codecs = audio_codec_names(media_info.audio@);
        let mut i: usize = 0;
        while i < media_info.audio.len()
            invariant
                i <= media_info.audio@.len(),
                codecs == audio_codec_names(media_info.audio@),
                forall|j: int| 0 <= j < i ==> codecs[j] != "aac"@,
            decreases media_info.audio@.len() - i,
        {
            if str_eq(media_info.audio[i].codec_name.as_str(), "aac") {
                let idx: u8 = (i % 256) as u8;
                proof {
                    lemma_first_codec_match_scan(codecs, "aac"@, i as int);
                }
                return Self::transmux(idx);
            }
            i += 1;
        }
        proof {
            lemma_first_codec_match_scan(codecs, "aac"@, i as int);
        }
        Self::transcode()
    }
}

impl Subtitles {
    /// Passthrough arguments for subtitles at `stream_idx`.
    pub fn transmux(stream_idx: u8) -> (r: Vec<String>)
        ensures
            args_view(r@) == subtitle_transmux_args(stream_idx as nat),
    {
        let mut r: Vec<String> = Vec::new();
        r.push("-map".to_owned());
        let mut m = "0:a:".to_owned();
        push_dec(&mut m, stream_idx as u64);
        r.push(m);
        r.push("-c:s".to_owned());
        r.push("copy".to_owned());
        proof {
            assert(args_view(r@) =~~= subtitle_transmux_args(stream_idx as nat));
        }
        r
    }

    /// Re-encode arguments targeting the default subtitle codec.
    pub fn transcode() -> (r: Vec<String>)
        ensures
            args_view(r@) == subtitle_transcode_args(),
    {
        let mut r: Vec<String> = Vec::new();
        r.push("-map".to_owned());
        r.push("0:s:0".to_owned());
        r.push("-c:s".to_owned());
        r.push("webvtt".to_owned());
        proof {
            assert(args_view(r@) =~~= subtitle_transcode_args());
        }
        r
    }

    /// The subtitle track decision over the probed inventory: an empty
    /// argument list exactly when there is no subtitle stream.
    pub fn get_args(media_info: &MediaInfo) -> (r: Vec<String>)
        ensures
            args_view(r@) == subtitle_args_spec(media_info.subtitle@),
            r@.len() == 0 <==> media_info.subtitle@.len() == 0,
    {
        if media_info.subtitle.len() == 0 {
            let r: Vec<String> = Vec::new();
            proof {
                assert(args_view(r@) =~~= subtitle_args_spec(media_info.subtitle@));
            }
            return r;
        }
        let r = Self::transcode();
        proof {
            assert(r@.len() == args_view(r@).len());
        }
        r
    }
}

/// The global encoder flags up to and including the input path.
pub open spec fn global_args_spec(input: Seq<char>) -> Seq<Seq<char>> {
    seq!["-v"@, "error"@, "-ss"@, "0"@, "-i"@, input, "-copyts"@, "-y"@]
}

/// The fixed muxer flags closing the argument vector: fragmented output,
/// zero-based numbering, the deterministic init-segment name and the segment
/// and playlist paths under the content directory.
pub open spec fn mux_tail_args(id: Seq<char>, cdn: Seq<char>) -> Seq<Seq<char>> {
    seq![
        "-start_at_zero"@,
        "-vsync"@,
        "passthrough"@,
        "-avoid_negative_ts"@,
        "disabled"@,
        "-max_muxing_queue_size"@,
        "2048"@,
        "-f"@,
        "hls"@,
        "-start_number"@,
        "0"@,
        "-hls_flags"@,
        "temp_file"@,
        "-max_delay"@,
        "5000000"@,
        "-hls_fmp4_init_filename"@,
        id + "_init.mp4"@,
        "-hls_time"@,
        "10"@,
        "-force_key_frames"@,
        "expr:gte(t,n_forced*10)"@,
        "-hls_segment_type"@,
        "1"@,
        "-hls_segment_filename"@,
        cdn + "/"@ + id + "_%d.m4s"@,
        cdn + "/"@ + id + ".m3u8"@,
    ]
}

/// Appends a copy of every argument token of `src` to `dst`.
#[verifier::loop_isolation(false)]
fn append_cloned(dst: &mut Vec<String>, src: &Vec<String>)
    ensures
        args_view(final(dst)@) == args_view(old(dst)@) + args_view(src@),
{
    let mut j: usize = 0;
    while j < src.len()
        invariant
            j <= src@.len(),
            args_view(dst@) == args_view(old(dst)@) + args_view(src@.subrange(0, j as int)),
        decreases src@.len() - j,
    {
        let ghost prev = dst@;
        dst.push(src[j].clone());
        proof {
            assert(dst@ =~= prev.push(src@[j as int]));
            let lhs = args_view(dst@);
            let rhs = args_view(old(dst)@) + args_view(src@.subrange(0, j as int + 1));
            assert forall|m: int| 0 <= m < lhs.len() implies lhs[m] == rhs[m] by {
                assert(lhs[m] == dst@[m]@);
                if m < prev.len() {
                    assert(dst@[m] == prev[m]);
                    assert(args_view(prev)[m] == prev[m]@);
                } else {
                    assert(dst@[m] == src@[j as int]);
                    assert(src@.subrange(0, j as int + 1)[m - old(dst)@.len()] == src@[j as int]);
                }
            }
            assert(lhs =~~= rhs);
        }
        j += 1;
    }
    proof {
        assert(src@.subrange(0, src@.len() as int) =~= src@);
    }
}

/// The whole encoder argument vector: global flags, then the video, audio
/// and subtitle track arguments in that order, then the fixed muxer flags.
pub fn encoder_args(
    input: &str,
    id: &str,
    cdn_dir_path: &str,
    video_args: &Vec<String>,
    audio_args: &Vec<String>,
    subtitle_args: &Vec<String>,
) -> (r: Vec<String>)
    ensures
        args_view(r@) == global_args_spec(input@) + args_view(video_args@) + args_view(
            audio_args@,
        ) + args_view(subtitle_args@) + mux_tail_args(id@, cdn_dir_path@),
{
    let mut r: Vec<String> = Vec::new();
    r.push("-v".to_owned());
    r.push("error".to_owned());
    r.push("-ss".to_owned());
    r.push("0".to_owned());
    r.push("-i".to_owned());
    r.push(input.to_owned());
    r.push("-copyts".to_owned());
    r.push("-y".to_owned());
    proof {
        assert(args_view(r@) =~~= global_args_spec(input@));
    }
    append_cloned(&mut r, video_args);
    append_cloned(&mut r, audio_args);
    append_cloned(&mut r, subtitle_args);
    let ghost head = args_view(r@);
    r.push("-start_at_zero".to_owned());
    r.push("-vsync".to_owned());
    r.push("passthrough".to_owned());
    r.push("-avoid_negative_ts".to_owned());
    r.push("disabled".to_owned());
    r.push("-max_muxing_queue_size".to_owned());
    r.push("2048".to_owned());
    r.push("-f".to_owned());
    r.push("hls".to_owned());
    r.push("-start_number".to_owned());
    r.push("0".to_owned());
    r.push("-hls_flags".to_owned());
    r.push("temp_file".to_owned());
    r.push("-max_delay".to_owned());
    r.push("5000000".to_owned());
    r.push("-hls_fmp4_init_filename".to_owned());
    let mut init_seg = id.to_owned();
    init_seg.append("_init.mp4");
    r.push(init_seg);
    r.push("-hls_time".to_owned());
    r.push("10".to_owned());
    r.push("-force_key_frames".to_owned());
    r.push("expr:gte(t,n_forced*10)".to_owned());
    r.push("-hls_segment_type".to_owned());
    r.push("1".to_owned());
    r.push("-hls_segment_filename".to_owned());
    let mut seg_path = cdn_dir_path.to_owned();
    seg_path.append("/");
    seg_path.append(id);
    seg_path.append("_%d.m4s");
    r.push(seg_path);
    let mut out_path = cdn_dir_path.to_owned();
    out_path.append("/");
    out_path.append(id);
    out_path.append(".m3u8");
    r.push(out_path);
    proof {
        assert(args_view(r@) =~~= head + mux_tail_args(id@, cdn_dir_path@));
    }
    r
}

} // verus!

//! The prober's structured output and its normalization into a track
//! inventory, with explicit fallible handling of every field.

use vstd::prelude::*;

use crate::duration::{duration_ms_value, parse_duration_ms, valid_duration};
use crate::text::str_eq;

verus! {

/// Container-level metadata as the prober reports it.
#[derive(Debug)]
pub struct FFPFormat {
    pub filename: String,
    pub nb_streams: u32,
    pub format_name: String,
    pub format_long_name: String,
    pub start_time: String,
    pub duration: String,
    pub size: String,
    pub bit_rate: String,
}

/// One elementary stream as the prober reports it.
#[derive(Debug)]
pub struct FFPStream {
    pub codec_name: String,
    pub codec_type: String,
    pub duration: Option<String>,
    pub width: Option<u32>,
    pub height: Option<u32>,
    pub bit_rate: Option<String>,
    pub r_frame_rate: Option<String>,
}

/// The prober's whole report.
#[derive(Debug)]
pub struct FFprobe {
    pub format: FFPFormat,
    pub streams: Vec<FFPStream>,
}

/// A normalized video track; the duration is in whole milliseconds.
#[derive(Debug)]
pub struct Video {
    pub codec_name: String,
    pub duration_ms: u64,
    pub width: u32,
    pub height: u32,
}

/// A normalized audio track; the duration is in whole milliseconds.
#[derive(Debug)]
pub struct Audio {
    pub codec_name: String,
    pub duration_ms: u64,
}

/// A normalized subtitle track.
#[derive(Debug)]
pub struct Subtitle {
    pub codec_name: String,
}

/// The track inventory: streams bucketed by kind, in their original order.
#[derive(Debug)]
pub struct MediaInfo {
    pub format: FFPFormat,
    pub video: Vec<Video>,
    pub audio: Vec<Audio>,
    pub subtitle: Vec<Subtitle>,
}

/// Why prober output could not be turned into a track inventory.
#[derive(Clone, Copy, Debug, PartialEq, Eq, Structural)]
pub enum MediaError {
    /// The report does not have the expected shape: a duration field that is
    /// not a decimal seconds value (or does not fit in milliseconds).
    ProbeError,
    /// A classified video stream lacks its width or height.
    MalformedStreamError,
}

/// The duration string a stream goes by: its own, or the container's when it
/// has none.
pub open spec fn stream_duration_str(s: FFPStream, fmt_dur: Seq<char>) -> Seq<char> {
    match s.duration {
        Option::Some(d) => d@,
        Option::None => fmt_dur,
    }
}

/// Whether a duration string parses into milliseconds that fit in a `u64`.
pub open spec fn duration_ok(d: Seq<char>) -> bool {
    valid_duration(d) && duration_ms_value(d) <= u64::MAX
}

/// Classification of a stream list, first stream first: video and audio
/// streams must carry a usable duration, video streams their dimensions;
/// kinds other than video, audio and subtitle are dropped. The error of the
/// first failing stream wins.
pub open spec fn classify(fmt_dur: Seq<char>, streams: Seq<FFPStream>) -> Result<
    (Seq<Video>, Seq<Audio>, Seq<Subtitle>),
    MediaError,
>
    decreases streams.len(),
{
    if streams.len() == 0 {
        Ok((Seq::empty(), Seq::empty(), Seq::empty()))
    } else {
        match classify(fmt_dur, streams.drop_last()) {
            Err(e) => Err(e),
            Ok(t) => classify_one(fmt_dur, t, streams.last()),
        }
    }
}

/// How one stream extends an already-classified prefix.
pub open spec fn classify_one(
    fmt_dur: Seq<char>,
    t: (Seq<Video>, Seq<Audio>, Seq<Subtitle>),
    s: FFPStream,
) -> Result<(Seq<Video>, Seq<Audio>, Seq<Subtitle>), MediaError> {
    if s.codec_type@ == "video"@ {
        let d = stream_duration_str(s, fmt_dur);
        if !duration_ok(d) {
            Err(MediaError::ProbeError)
        } else {
            match (s.width, s.height) {
                (Option::Some(w), Option::Some(h)) => Ok(
                    (
                        t.0.push(
                            Video {
                                codec_name: s.codec_name,
                                duration_ms: duration_ms_value(d) as u64,
                                width: w,
                                height: h,
                            },
                        ),
                        t.1,
                        t.2,
                    ),
                ),
                _ => Err(MediaError::MalformedStreamError),
            }
        }
    } else if s.codec_type@ == "audio"@ {
        let d = stream_duration_str(s, fmt_dur);
        if !duration_ok(d) {
            Err(MediaError::ProbeError)
        } else {
            Ok(
                (
                    t.0,
                    t.1.push(
                        Audio { codec_name: s.codec_name, duration_ms: duration_ms_value(d) as u64 },
                    ),
                    t.2,
                ),
            )
        }
    } else if s.codec_type@ == "subtitle"@ {
        Ok((t.0, t.1, t.2.push(Subtitle { codec_name: s.codec_name })))
    } else {
        Ok(t)
    }
}

proof fn lemma_classify_err_extends(fmt_dur: Seq<char>, streams: Seq<FFPStream>, i: int)
    requires
        0 <= i <= streams.len(),
        classify(fmt_dur, streams.subrange(0, i)) is Err,
    ensures
        classify(fmt_dur, streams) == classify(fmt_dur, streams.subrange(0, i)),
    decreases streams.len() - i,
{
    if i == streams.len() {
        assert(streams.subrange(0, i) =~= streams);
    } else {
        let shorter = streams.subrange(0, streams.len() - 1);
        assert(shorter.subrange(0, i) =~= streams.subrange(0, i));
        lemma_classify_err_extends(fmt_dur, shorter, i);
        assert(streams.drop_last() =~= shorter);
    }
}

/// Buckets the prober's streams by kind into a track inventory. Fails with
/// `ProbeError` when a needed duration does not parse, and with
/// `MalformedStreamError` when a video stream lacks its dimensions; the first
/// failing stream decides.
#[verifier::loop_isolation(false)]
pub fn get_media_info(metadata: FFprobe) -> (r: Result<MediaInfo, MediaError>)
    ensures
        match r {
            Ok(mi) => classify(metadata.format.duration@, metadata.streams@) == Ok::<
                _,
                MediaError,
            >((mi.video@, mi.audio@, mi.subtitle@)) && mi.format == metadata.format,
            Err(e) => classify(metadata.format.duration@, metadata.streams@) == Err::<
                (Seq<Video>, Seq<Audio>, Seq<Subtitle>),
                _,
            >(e),
        },
{
    let ghost orig = metadata.streams@;
    let ghost fmt_dur = metadata.format.duration@;
    let FFprobe { format, mut streams } = metadata;
    proof {
        assert(streams@ == orig);
        assert(format.duration@ == fmt_dur);
    }
    let mut videos: Vec<Video> = Vec::new();
    let mut audios: Vec<Audio> = Vec::new();
    let mut subtitles: Vec<Subtitle> = Vec::new();
    let ghost mut i: int = 0;
    while streams.len() > 0
        invariant
            0 <= i <= orig.len(),
            streams@ == orig.subrange(i, orig.len() as int),
            format.duration@ == fmt_dur,
            classify(fmt_dur, orig.subrange(0, i)) == Ok::<_, MediaError>(
                (videos@, audios@, subtitles@),
            ),
        decreases streams@.len(),
    {
        let s = streams.remove(0);
        proof {
            assert(s == orig[i]);
            assert(streams@ =~= orig.subrange(i + 1, orig.len() as int));
            assert(orig.subrange(0, i + 1).drop_last() =~= orig.subrange(0, i));
            assert(orig.subrange(0, i + 1).last() == orig[i]);
        }
        if str_eq(s.codec_type.as_str(), "video") {
            let ms: u64 = {
                let parsed = match &s.duration {
                    Some(d) => parse_duration_ms(d.as_str()),
                    None => parse_duration_ms(format.duration.as_str()),
                };
                match parsed {
                    Some(v) => v,
                    None => {
                        proof {
                            lemma_classify_err_extends(fmt_dur, orig, i + 1);
                        }
                        return Err(MediaError::ProbeError);
                    },
                }
            };
            let w: u32 = match s.width {
                Some(w) => w,
                None => {
                    proof {
                        lemma_classify_err_extends(fmt_dur, orig, i + 1);
                    }
                    return Err(MediaError::MalformedStreamError);
                },
            };
            let h: u32 = match s.height {
                Some(h) => h,
                None => {
                    proof {
                        lemma_classify_err_extends(fmt_dur, orig, i + 1);
                    }
                    return Err(MediaError::MalformedStreamError);
                },
            };
            videos.push(Video { codec_name: s.codec_name, duration_ms: ms, width: w, height: h });
        } else if str_eq(s.codec_type.as_str(), "audio") {
            let parsed = match &s.duration {
                Some(d) => parse_duration_ms(d.as_str()),
                None => parse_duration_ms(format.duration.as_str()),
            };
            match parsed {
                Some(v) => {
                    audios.push(Audio { codec_name: s.codec_name, duration_ms: v });
                },
                None => {
                    proof {
                        lemma_classify_err_extends(fmt_dur, orig, i + 1);
                    }
                    return Err(MediaError::ProbeError);
                },
            }
        } else if str_eq(s.codec_type.as_str(), "subtitle") {
            subtitles.push(Subtitle { codec_name: s.codec_name });
        }
        proof {
            i = i + 1;
        }
    }
    proof {
        assert(orig.subrange(0, i) =~= orig);
    }
    Ok(MediaInfo { format, video: videos, audio: audios, subtitle: subtitles })
}

} // verus!

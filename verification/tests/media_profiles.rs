use parachute::ffprobe::{
    get_media_info, Audio, FFPFormat, FFPStream, FFprobe, MediaError, MediaInfo, Subtitle, Video,
};
use parachute::processing;

fn format_fixture(duration: &str) -> FFPFormat {
    FFPFormat {
        filename: "movie.mkv".to_string(),
        nb_streams: 2,
        format_name: "matroska".to_string(),
        format_long_name: "Matroska".to_string(),
        start_time: "0.000000".to_string(),
        duration: duration.to_string(),
        size: "1024".to_string(),
        bit_rate: "8000".to_string(),
    }
}

fn stream_fixture(codec_name: &str, codec_type: &str) -> FFPStream {
    FFPStream {
        codec_name: codec_name.to_string(),
        codec_type: codec_type.to_string(),
        duration: None,
        width: None,
        height: None,
        bit_rate: None,
        r_frame_rate: None,
    }
}

fn video_stream(codec_name: &str, duration: Option<&str>) -> FFPStream {
    FFPStream {
        width: Some(1920),
        height: Some(1080),
        duration: duration.map(|d| d.to_string()),
        ..stream_fixture(codec_name, "video")
    }
}

fn inventory(video: Vec<Video>, audio: Vec<Audio>, subtitle: Vec<Subtitle>) -> MediaInfo {
    MediaInfo { format: format_fixture("60.0"), video, audio, subtitle }
}

fn video_track(codec_name: &str) -> Video {
    Video { codec_name: codec_name.to_string(), duration_ms: 60000, width: 1920, height: 1080 }
}

fn audio_track(codec_name: &str) -> Audio {
    Audio { codec_name: codec_name.to_string(), duration_ms: 60000 }
}

#[test]
fn classifies_streams_by_kind() {
    let probe = FFprobe {
        format: format_fixture("596.458000"),
        streams: vec![
            video_stream("h264", Some("12.5")),
            stream_fixture("aac", "audio"),
            stream_fixture("subrip", "subtitle"),
            stream_fixture("bin_data", "data"),
        ],
    };
    let mi = get_media_info(probe).unwrap();
    assert_eq!(mi.video.len(), 1);
    assert_eq!(mi.video[0].codec_name, "h264");
    assert_eq!(mi.video[0].duration_ms, 12500);
    assert_eq!(mi.video[0].width, 1920);
    assert_eq!(mi.video[0].height, 1080);
    assert_eq!(mi.audio.len(), 1);
    // The audio stream has no duration of its own and inherits the container's.
    assert_eq!(mi.audio[0].duration_ms, 596458);
    assert_eq!(mi.subtitle.len(), 1);
    assert_eq!(mi.subtitle[0].codec_name, "subrip");
    assert_eq!(mi.format.duration, "596.458000");
}

#[test]
fn video_without_dimensions_is_malformed() {
    let probe = FFprobe {
        format: format_fixture("60.0"),
        streams: vec![stream_fixture("h264", "video")],
    };
    assert_eq!(get_media_info(probe).unwrap_err(), MediaError::MalformedStreamError);
}

#[test]
fn unparseable_duration_is_probe_error() {
    let probe = FFprobe {
        format: format_fixture("N/A"),
        streams: vec![stream_fixture("aac", "audio")],
    };
    assert_eq!(get_media_info(probe).unwrap_err(), MediaError::ProbeError);
}

#[test]
fn first_failing_stream_decides_the_error() {
    // The first stream's bad duration wins over the second's missing width.
    let probe = FFprobe {
        format: format_fixture("60.0"),
        streams: vec![
            FFPStream { duration: Some("bogus".to_string()), ..video_stream("h264", None) },
            stream_fixture("h264", "video"),
        ],
    };
    assert_eq!(get_media_info(probe).unwrap_err(), MediaError::ProbeError);
}

#[test]
fn video_passthrough_picks_first_compatible_stream() {
    let mi = inventory(vec![video_track("h265"), video_track("h264")], vec![], vec![]);
    let args = processing::Video::get_args(&mi);
    assert_eq!(args, vec!["-map", "0:v:1", "-c:v", "copy"]);
}

#[test]
fn video_transcode_targets_first_stream() {
    let mi = inventory(vec![video_track("h265"), video_track("vp9")], vec![], vec![]);
    let args = processing::Video::get_args(&mi);
    assert_eq!(args, vec!["-map", "0:v:0", "-c:v", "libx264"]);
}

#[test]
fn audio_passthrough_and_transcode() {
    let mi = inventory(vec![], vec![audio_track("mp3"), audio_track("aac")], vec![]);
    assert_eq!(processing::Audio::get_args(&mi), vec!["-map", "0:a:1", "-c:a", "copy"]);
    let mi = inventory(vec![], vec![audio_track("mp3")], vec![]);
    assert_eq!(processing::Audio::get_args(&mi), vec!["-map", "0:a:0", "-c:a", "aac"]);
}

#[test]
fn no_subtitle_streams_omit_the_track() {
    let mi = inventory(vec![], vec![], vec![]);
    let args = processing::Subtitles::get_args(&mi);
    assert!(args.is_empty());
}

#[test]
fn subtitle_streams_are_transcoded() {
    let mi = inventory(
        vec![],
        vec![],
        vec![Subtitle { codec_name: "subrip".to_string() }],
    );
    assert_eq!(processing::Subtitles::get_args(&mi), vec!["-map", "0:s:0", "-c:s", "webvtt"]);
}

#[test]
fn encoder_argument_vector_is_assembled_in_order() {
    let video = vec!["-map".to_string(), "0:v:0".to_string()];
    let audio = vec!["-c:a".to_string(), "aac".to_string()];
    let subs: Vec<String> = vec![];
    let args = processing::encoder_args("in.mkv", "job1", "/cdn", &video, &audio, &subs);
    let expected: Vec<String> = [
        "-v", "error", "-ss", "0", "-i", "in.mkv", "-copyts", "-y", "-map", "0:v:0", "-c:a",
        "aac", "-start_at_zero", "-vsync", "passthrough", "-avoid_negative_ts", "disabled",
        "-max_muxing_queue_size", "2048", "-f", "hls", "-start_number", "0", "-hls_flags",
        "temp_file", "-max_delay", "5000000", "-hls_fmp4_init_filename", "job1_init.mp4",
        "-hls_time", "10", "-force_key_frames", "expr:gte(t,n_forced*10)", "-hls_segment_type",
        "1", "-hls_segment_filename", "/cdn/job1_%d.m4s", "/cdn/job1.m3u8",
    ]
    .iter()
    .map(|s| s.to_string())
    .collect();
    assert_eq!(args, expected);
}

use parachute::duration::parse_duration_ms;
use parachute::manifest::{
    plan_segments, render_master_playlist, render_media_playlist, render_subtitle_playlist,
};

#[test]
fn plan_sums_and_counts() {
    // 123.456 seconds: 13 segments, durations adding up to the whole.
    let plan = plan_segments(123456);
    assert_eq!(plan.len(), 13);
    let total: u64 = plan.iter().sum();
    assert_eq!(total, 123456);
    for d in &plan[..12] {
        assert_eq!(*d, 10000);
    }
    assert_eq!(plan[12], 3456);
}

#[test]
fn plan_twenty_five_seconds() {
    assert_eq!(plan_segments(25000), vec![10000, 10000, 5000]);
}

#[test]
fn plan_exact_multiple_has_full_final_segment() {
    assert_eq!(plan_segments(30000), vec![10000, 10000, 10000]);
}

#[test]
fn plan_single_short_segment() {
    assert_eq!(plan_segments(1000), vec![1000]);
}

#[test]
fn media_playlist_document() {
    let plan = vec![10000, 5500];
    let doc = render_media_playlist("vid", &plan, "vid_init.mp4");
    assert_eq!(
        doc,
        "#EXTM3U\n#EXT-X-VERSION:7\n#EXT-X-TARGETDURATION:11\n#EXT-X-MEDIA-SEQUENCE:0\n\
         #EXT-X-MAP:URI=\"vid_init.mp4\"\n\
         #EXTINF: 10.000000,\nvid_0.m4s\n\
         #EXTINF: 5.500000,\nvid_1.m4s\n\
         #EXT-X-ENDLIST\n"
    );
}

#[test]
fn subtitle_playlist_document() {
    let plan = vec![10000, 5500];
    let doc = render_subtitle_playlist("vid", &plan);
    assert_eq!(
        doc,
        "#EXTM3U\n#EXT-X-VERSION:7\n#EXT-X-TARGETDURATION:11\n#EXT-X-MEDIA-SEQUENCE:0\n\
         #EXTINF: 10.000000,\nvid0.vtt\n\
         #EXTINF: 5.500000,\nvid1.vtt\n\
         #EXT-X-ENDLIST\n"
    );
}

#[test]
fn subtitle_playlist_full_final_segment() {
    let plan = plan_segments(20000);
    let doc = render_subtitle_playlist("s", &plan);
    assert_eq!(
        doc,
        "#EXTM3U\n#EXT-X-VERSION:7\n#EXT-X-TARGETDURATION:11\n#EXT-X-MEDIA-SEQUENCE:0\n\
         #EXTINF: 10.000000,\ns0.vtt\n\
         #EXTINF: 10.000000,\ns1.vtt\n\
         #EXT-X-ENDLIST\n"
    );
}

#[test]
fn master_playlist_with_subtitles() {
    let doc = render_master_playlist("vid_manifest.m3u8", "vid_manifest_subs.m3u8", true);
    assert_eq!(
        doc,
        "EXTM3U\n#EXT-X-VERSION:4\n\
         #EXT-X-MEDIA:TYPE=SUBTITLES,GROUP-ID=\"subs\",NAME=\"English\",DEFAULT=YES,\
         AUTOSELECT=YES,FORCED=NO,LANGUAGE=\"en\",URI=\"vid_manifest_subs.m3u8\"\n\
         #EXT-X-STREAM-INF:BANDWIDTH=5438980,AVERAGE-BANDWIDTH=2868620,SUBTITLES=\"subs\",\n\
         vid_manifest.m3u8"
    );
    assert!(doc.contains("#EXT-X-MEDIA"));
    assert!(doc.contains("SUBTITLES=\"subs\""));
}

#[test]
fn master_playlist_without_subtitles() {
    let doc = render_master_playlist("vid_manifest.m3u8", "vid_manifest_subs.m3u8", false);
    assert_eq!(
        doc,
        "EXTM3U\n#EXT-X-VERSION:4\n\
         #EXT-X-STREAM-INF:BANDWIDTH=5438980,AVERAGE-BANDWIDTH=2868620,\n\
         vid_manifest.m3u8"
    );
    assert!(!doc.contains("EXT-X-MEDIA"));
    assert!(!doc.contains("SUBTITLES"));
    assert!(doc.ends_with("vid_manifest.m3u8"));
}

#[test]
fn duration_parses_prober_output() {
    assert_eq!(parse_duration_ms("596.458000"), Some(596458));
    assert_eq!(parse_duration_ms("10"), Some(10000));
    assert_eq!(parse_duration_ms("0.5"), Some(500));
    assert_eq!(parse_duration_ms("5."), Some(5000));
    assert_eq!(parse_duration_ms(".5"), Some(500));
    assert_eq!(parse_duration_ms("1.23456789"), Some(1234));
}

#[test]
fn duration_rejects_malformed_strings() {
    assert_eq!(parse_duration_ms(""), None);
    assert_eq!(parse_duration_ms("."), None);
    assert_eq!(parse_duration_ms("abc"), None);
    assert_eq!(parse_duration_ms("1.2.3"), None);
    assert_eq!(parse_duration_ms("-5"), None);
    assert_eq!(parse_duration_ms("1e3"), None);
    assert_eq!(parse_duration_ms("99999999999999999999"), None);
}

#[test]
fn artifact_names_follow_the_id() {
    assert_eq!(parachute::manifest::manifest_file_name("vid"), "vid_manifest.m3u8");
    assert_eq!(
        parachute::manifest::manifest_subs_file_name("vid"),
        "vid_manifest_subs.m3u8"
    );
    assert_eq!(parachute::manifest::playlist_file_name("vid"), "vid_playlist.m3u8");
    assert_eq!(parachute::manifest::init_segment_name("vid"), "vid_init.mp4");
}

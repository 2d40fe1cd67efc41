//! Segment planning and playlist document synthesis: the media playlist, the
//! subtitle playlist and the master playlist.

use vstd::prelude::*;

use crate::duration::fmt_ms;
use crate::text::{dec_rep, push_dec};

verus! {

/// The nominal segment length in milliseconds.
pub const TARGET_MS: u64 = 10000;

/// How many segments a duration of `d` milliseconds is cut into: the ceiling
/// of `d / 10000`.
pub open spec fn segment_count(d: nat) -> nat {
    if d % 10000 == 0 {
        d / 10000
    } else {
        d / 10000 + 1
    }
}

/// The duration of the final segment: the remainder, or a full target-length
/// segment when the duration is an exact multiple of the target.
pub open spec fn last_segment_ms(d: nat) -> u64 {
    if d % 10000 == 0 {
        10000u64
    } else {
        (d % 10000) as u64
    }
}

/// The segment durations for a total duration of `d` milliseconds: every
/// segment but the last has the target duration.
pub open spec fn plan_spec(d: nat) -> Seq<u64> {
    Seq::new(
        segment_count(d),
        |i: int|
            if i + 1 < segment_count(d) {
                10000u64
            } else {
                last_segment_ms(d)
            },
    )
}

/// The sum of a sequence of segment durations.
pub open spec fn seq_sum(s: Seq<u64>) -> int
    decreases s.len(),
{
    if s.len() == 0 {
        0
    } else {
        seq_sum(s.drop_last()) + s.last()
    }
}

proof fn lemma_seq_sum_push(s: Seq<u64>, x: u64)
    ensures
        seq_sum(s.push(x)) == seq_sum(s) + x,
{
    assert(s.push(x).drop_last() =~= s);
}

/// Cuts a positive duration in milliseconds into target-length segments, the
/// last carrying the remainder (or a full target length when the duration is
/// an exact multiple). The durations sum to the whole, and their number is
/// the ceiling of `duration_ms / 10000`.
pub fn plan_segments(duration_ms: u64) -> (r: Vec<u64>)
    requires
        duration_ms > 0,
    ensures
        r@ == plan_spec(duration_ms as nat),
        r@.len() == segment_count(duration_ms as nat),
        seq_sum(r@) == duration_ms,
        forall|j: int| 0 <= j < r@.len() - 1 ==> r@[j] == 10000u64,
        r@[r@.len() - 1] == last_segment_ms(duration_ms as nat),
{
    let n: u64 = if duration_ms % TARGET_MS == 0 {
        duration_ms / TARGET_MS
    } else {
        duration_ms / TARGET_MS + 1
    };
    proof {
        vstd::arithmetic::div_mod::lemma_fundamental_div_mod(duration_ms as int, 10000);
    }
    let mut v: Vec<u64> = Vec::new();
    let mut i: u64 = 0;
    while i + 1 < n
        invariant
            i + 1 <= n,
            n as nat == segment_count(duration_ms as nat),
            v@.len() == i,
            forall|j: int| 0 <= j < i ==> v@[j] == 10000u64,
            seq_sum(v@) == i * 10000,
        decreases n - i,
    {
        proof {
            lemma_seq_sum_push(v@, 10000u64);
        }
        v.push(TARGET_MS);
        i += 1;
    }
    let last: u64 = if duration_ms % TARGET_MS == 0 {
        TARGET_MS
    } else {
        duration_ms % TARGET_MS
    };
    proof {
        lemma_seq_sum_push(v@, last_segment_ms(duration_ms as nat));
    }
    v.push(last);
    proof {
        assert(v@ =~= plan_spec(duration_ms as nat));
        vstd::arithmetic::div_mod::lemma_fundamental_div_mod(duration_ms as int, 10000);
    }
    v
}

/// The media segment filename `<id>_<index>.m4s`.
pub open spec fn media_segment_name(id: Seq<char>, i: nat) -> Seq<char> {
    id + "_"@ + dec_rep(i) + ".m4s"@
}

/// The subtitle segment filename `<id><index>.vtt` (no separator before the
/// index).
pub open spec fn subtitle_segment_name(id: Seq<char>, i: nat) -> Seq<char> {
    id + dec_rep(i) + ".vtt"@
}

/// One `EXTINF` entry of the media playlist.
pub open spec fn media_entry(id: Seq<char>, ms: u64, i: nat) -> Seq<char> {
    "#EXTINF: "@ + fmt_ms(ms as nat) + ",\n"@ + media_segment_name(id, i)
}

/// One `EXTINF` entry of the subtitle playlist.
pub open spec fn subtitle_entry(id: Seq<char>, ms: u64, i: nat) -> Seq<char> {
    "#EXTINF: "@ + fmt_ms(ms as nat) + ",\n"@ + subtitle_segment_name(id, i)
}

/// The first `upto` media entries, separated by newlines.
pub open spec fn media_entries(id: Seq<char>, plan: Seq<u64>, upto: int) -> Seq<char>
    decreases upto,
{
    if upto <= 0 {
        Seq::empty()
    } else if upto == 1 {
        media_entry(id, plan[0], 0)
    } else {
        media_entries(id, plan, upto - 1) + "\n"@ + media_entry(id, plan[upto - 1], (upto - 1) as nat)
    }
}

/// The first `upto` subtitle entries, separated by newlines.
pub open spec fn subtitle_entries(id: Seq<char>, plan: Seq<u64>, upto: int) -> Seq<char>
    decreases upto,
{
    if upto <= 0 {
        Seq::empty()
    } else if upto == 1 {
        subtitle_entry(id, plan[0], 0)
    } else {
        subtitle_entries(id, plan, upto - 1) + "\n"@ + subtitle_entry(
            id,
            plan[upto - 1],
            (upto - 1) as nat,
        )
    }
}

/// The whole media playlist document: version-7 header, a map line naming the
/// init segment, one entry per planned segment, and the end-list marker.
pub open spec fn media_playlist_spec(id: Seq<char>, plan: Seq<u64>, init_seg: Seq<char>) -> Seq<
    char,
> {
    "#EXTM3U\n#EXT-X-VERSION:7\n#EXT-X-TARGETDURATION:11\n#EXT-X-MEDIA-SEQUENCE:0\n#EXT-X-MAP:URI=\""@
        + init_seg + "\"\n"@ + media_entries(id, plan, plan.len() as int) + "\n#EXT-X-ENDLIST\n"@
}

/// The whole subtitle playlist document: the same structure without the map
/// line.
pub open spec fn subtitle_playlist_spec(id: Seq<char>, plan: Seq<u64>) -> Seq<char> {
    "#EXTM3U\n#EXT-X-VERSION:7\n#EXT-X-TARGETDURATION:11\n#EXT-X-MEDIA-SEQUENCE:0\n"@
        + subtitle_entries(id, plan, plan.len() as int) + "\n#EXT-X-ENDLIST\n"@
}

/// The master playlist document. With subtitles it carries a subtitle media
/// line and a `SUBTITLES` attribute on the stream line; without them neither
/// appears. Both forms end with a reference to the media playlist.
pub open spec fn master_playlist_spec(
    media_name: Seq<char>,
    subs_name: Seq<char>,
    has_subtitles: bool,
) -> Seq<char> {
    "EXTM3U\n#EXT-X-VERSION:4"@ + (if has_subtitles {
        "\n#EXT-X-MEDIA:TYPE=SUBTITLES,GROUP-ID=\"subs\",NAME=\"English\",DEFAULT=YES,AUTOSELECT=YES,FORCED=NO,LANGUAGE=\"en\",URI=\""@
            + subs_name + "\""@
    } else {
        Seq::empty()
    }) + "\n#EXT-X-STREAM-INF:BANDWIDTH=5438980,AVERAGE-BANDWIDTH=2868620,"@ + (if has_subtitles {
        "SUBTITLES=\"subs\","@
    } else {
        Seq::empty()
    }) + "\n"@ + media_name
}

/// Renders the media playlist for `id` over a non-empty segment plan.
pub fn render_media_playlist(id: &str, plan: &Vec<u64>, init_seg: &str) -> (r: String)
    requires
        plan@.len() >= 1,
    ensures
        r@ == media_playlist_spec(id@, plan@, init_seg@),
{
    let mut s = String::new();
    s.append(
        "#EXTM3U\n#EXT-X-VERSION:7\n#EXT-X-TARGETDURATION:11\n#EXT-X-MEDIA-SEQUENCE:0\n#EXT-X-MAP:URI=\"",
    );
    s.append(init_seg);
    s.append("\"\n");
    let ghost header = s@;
    let mut i: usize = 0;
    while i < plan.len()
        invariant
            plan@.len() >= 1,
            i <= plan@.len(),
            s@ == header + media_entries(id@, plan@, i as int),
        decreases plan@.len() - i,
    {
        if i > 0 {
            s.append("\n");
        }
        s.append("#EXTINF: ");
        crate::duration::push_duration(&mut s, plan[i]);
        s.append(",\n");
        s.append(id);
        s.append("_");
        push_dec(&mut s, i as u64);
        s.append(".m4s");
        proof {
            assert(s@ =~= header + media_entries(id@, plan@, i as int + 1));
        }
        i += 1;
    }
    s.append("\n#EXT-X-ENDLIST\n");
    proof {
        assert(s@ =~= media_playlist_spec(id@, plan@, init_seg@));
    }
    s
}

/// Renders the subtitle playlist for `id` over a non-empty segment plan.
pub fn render_subtitle_playlist(id: &str, plan: &Vec<u64>) -> (r: String)
    requires
        plan@.len() >= 1,
    ensures
        r@ == subtitle_playlist_spec(id@, plan@),
{
    let mut s = String::new();
    s.append("#EXTM3U\n#EXT-X-VERSION:7\n#EXT-X-TARGETDURATION:11\n#EXT-X-MEDIA-SEQUENCE:0\n");
    let ghost header = s@;
    let mut i: usize = 0;
    while i < plan.len()
        invariant
            plan@.len() >= 1,
            i <= plan@.len(),
            s@ == header + subtitle_entries(id@, plan@, i as int),
        decreases plan@.len() - i,
    {
        if i > 0 {
            s.append("\n");
        }
        s.append("#EXTINF: ");
        crate::duration::push_duration(&mut s, plan[i]);
        s.append(",\n");
        s.append(id);
        push_dec(&mut s, i as u64);
        s.append(".vtt");
        proof {
            assert(s@ =~= header + subtitle_entries(id@, plan@, i as int + 1));
        }
        i += 1;
    }
    s.append("\n#EXT-X-ENDLIST\n");
    proof {
        assert(s@ =~= subtitle_playlist_spec(id@, plan@));
    }
    s
}

/// Renders the master playlist referencing the media playlist by name and,
/// when subtitles are present, the subtitle playlist.
pub fn render_master_playlist(media_name: &str, subs_name: &str, has_subtitles: bool) -> (r:
    String)
    ensures
        r@ == master_playlist_spec(media_name@, subs_name@, has_subtitles),
{
    let mut s = String::new();
    s.append("EXTM3U\n#EXT-X-VERSION:4");
    if has_subtitles {
        s.append(
            "\n#EXT-X-MEDIA:TYPE=SUBTITLES,GROUP-ID=\"subs\",NAME=\"English\",DEFAULT=YES,AUTOSELECT=YES,FORCED=NO,LANGUAGE=\"en\",URI=\"",
        );
        s.append(subs_name);
        s.append("\"");
    }
    s.append("\n#EXT-X-STREAM-INF:BANDWIDTH=5438980,AVERAGE-BANDWIDTH=2868620,");
    if has_subtitles {
        s.append("SUBTITLES=\"subs\",");
    }
    s.append("\n");
    s.append(media_name);
    proof {
        assert(s@ =~= master_playlist_spec(media_name@, subs_name@, has_subtitles));
    }
    s
}

/// Without subtitles the master playlist does not depend on the subtitle
/// playlist name at all: no subtitle media line and no `SUBTITLES` attribute
/// is emitted.
pub proof fn lemma_master_without_subs_ignores_name(
    media_name: Seq<char>,
    s1: Seq<char>,
    s2: Seq<char>,
)
    ensures
        master_playlist_spec(media_name, s1, false) == master_playlist_spec(media_name, s2, false),
{
}

/// The media playlist filename `<id>_manifest.m3u8`.
pub fn manifest_file_name(id: &str) -> (r: String)
    ensures
        r@ == id@ + "_manifest.m3u8"@,
{
    let mut r = id.to_owned();
    r.append("_manifest.m3u8");
    r
}

/// The subtitle playlist filename `<id>_manifest_subs.m3u8`.
pub fn manifest_subs_file_name(id: &str) -> (r: String)
    ensures
        r@ == id@ + "_manifest_subs.m3u8"@,
{
    let mut r = id.to_owned();
    r.append("_manifest_subs.m3u8");
    r
}

/// The master playlist filename `<id>_playlist.m3u8`.
pub fn playlist_file_name(id: &str) -> (r: String)
    ensures
        r@ == id@ + "_playlist.m3u8"@,
{
    let mut r = id.to_owned();
    r.append("_playlist.m3u8");
    r
}

/// The init segment filename `<id>_init.mp4`, shared by the playlist map
/// line and the encoder invocation.
pub fn init_segment_name(id: &str) -> (r: String)
    ensures
        r@ == id@ + "_init.mp4"@,
{
    let mut r = id.to_owned();
    r.append("_init.mp4");
    r
}

} // verus!

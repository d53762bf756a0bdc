//! The encodings of a stream, and the pipeline that serves them.

use vstd::prelude::*;

use crate::text::{contents, join, joined};

verus! {

/// The encodings that a stream can have.
#[derive(Debug, PartialEq, Eq, Hash, Copy, Clone, Structural)]
pub enum StreamFormat {
    H264,
    H265,
    AAC,
    ADPCM,
}

impl StreamFormat {
    /// Whether the encoding is one of pictures; otherwise it is one of sound.
    pub open spec fn is_video(self) -> bool {
        self is H264 || self is H265
    }
}

/// The name, within the pipeline, of the element that takes the video data.
pub const VIDEO_SOURCE: &'static str = "vidsrc";

/// The name, within the pipeline, of the element that takes the audio data.
pub const AUDIO_SOURCE: &'static str = "audsrc";

/// The element that takes the video data.  It holds 50MB at most, so that it does not grow without
/// end if the queue behind it blocks.
pub const VIDEO_ELEMENT: &'static str =
    "appsrc name=vidsrc is-live=true block=true emit-signals=false max-bytes=52428800";

/// The element that takes the audio data, with the same bound.
pub const AUDIO_ELEMENT: &'static str =
    "appsrc name=audsrc is-live=true block=true emit-signals=false max-bytes=52428800";

/// Serves H.264.  The payloader would be content with less than a full parse, but viewers are not.
pub const H264_BRANCH: &'static str =
    "format=GST_FORMAT_TIME ! queue silent=true max-size-bytes=10485760 ! h264parse ! rtph264pay name=pay0";

/// Serves H.265.
pub const H265_BRANCH: &'static str =
    "format=GST_FORMAT_TIME ! queue silent=true  max-size-bytes=10485760 ! h265parse ! rtph265pay name=pay0";

/// Serves sound that was decoded from ADPCM to raw samples, which travel in big endian.  The caps
/// are spelled out because the parser for raw sound does not work on live sources.
pub const ADPCM_BRANCH: &'static str =
    "format=GST_FORMAT_TIME caps=audio/x-raw,format=S16LE,layout=interleaved,channels=1,rate=8000 ! queue silent=true max-size-bytes=10485760 min-threshold-bytes=10 ! audiorate ! audioconvert ! rtpL16pay name=pay1";

/// Serves AAC.  The caps are the ones that the payloader needs.
pub const AAC_BRANCH: &'static str =
    "format=GST_FORMAT_TIME caps=audio/mpeg,mpegversion=4,stream-format=raw ! queue silent=true max-size-bytes=10485760 min-threshold-bytes=10 ! rtpmp4apay name=pay1";

/// Throws the data away.
pub const DISCARD_BRANCH: &'static str = "! fakesink";

/// What follows the element that takes the video data.
pub open spec fn video_branch_text(format: Option<StreamFormat>) -> Seq<char> {
    match format {
        Some(StreamFormat::H264) => H264_BRANCH@,
        Some(StreamFormat::H265) => H265_BRANCH@,
        _ => DISCARD_BRANCH@,
    }
}

/// What follows the element that takes the audio data.
pub open spec fn audio_branch_text(format: Option<StreamFormat>) -> Seq<char> {
    match format {
        Some(StreamFormat::ADPCM) => ADPCM_BRANCH@,
        Some(StreamFormat::AAC) => AAC_BRANCH@,
        _ => DISCARD_BRANCH@,
    }
}

/// The description of the pipeline that serves a stream with these encodings.
pub open spec fn launch_text(video: Option<StreamFormat>, audio: Option<StreamFormat>) -> Seq<
    char,
> {
    joined(
        seq![
            "( "@,
            VIDEO_ELEMENT@,
            video_branch_text(video),
            AUDIO_ELEMENT@,
            audio_branch_text(audio),
            ")"@,
        ],
        " "@,
    )
}

/// Picks what follows the element that takes the video data.
fn video_branch(format: Option<StreamFormat>) -> (branch: &'static str)
    ensures
        branch@ == video_branch_text(format),
{
    match format {
        Some(StreamFormat::H264) => H264_BRANCH,
        Some(StreamFormat::H265) => H265_BRANCH,
        _ => DISCARD_BRANCH,
    }
}

/// Picks what follows the element that takes the audio data.
fn audio_branch(format: Option<StreamFormat>) -> (branch: &'static str)
    ensures
        branch@ == audio_branch_text(format),
{
    match format {
        Some(StreamFormat::ADPCM) => ADPCM_BRANCH,
        Some(StreamFormat::AAC) => AAC_BRANCH,
        _ => DISCARD_BRANCH,
    }
}

/// Describes the pipeline that serves a stream with these encodings.
pub fn launch_line(video: Option<StreamFormat>, audio: Option<StreamFormat>) -> (line: String)
    ensures
        line@ == launch_text(video, audio),
{
    let parts: Vec<&str> =
        vec!["( ", VIDEO_ELEMENT, video_branch(video), AUDIO_ELEMENT, audio_branch(audio), ")"];
    proof {
        assert(contents(parts@) == seq![
            "( "@,
            VIDEO_ELEMENT@,
            video_branch_text(video),
            AUDIO_ELEMENT@,
            audio_branch_text(audio),
            ")"@,
        ]);
    }
    join(parts.as_slice(), " ")
}

/// `needle` occurs somewhere in `text`.
pub open spec fn occurs(needle: Seq<char>, text: Seq<char>) -> bool {
    exists|before: Seq<char>, after: Seq<char>| text == #[trigger] (before + needle + after)
}

/// `text` ends with `ending`.
pub open spec fn ends_with(text: Seq<char>, ending: Seq<char>) -> bool {
    exists|before: Seq<char>| text == #[trigger] (before + ending)
}

proof fn lemma_launch_text_unfolds(video: Option<StreamFormat>, audio: Option<StreamFormat>)
    ensures
        launch_text(video, audio) == "( "@ + " "@ + VIDEO_ELEMENT@ + " "@ + video_branch_text(video)
            + " "@ + AUDIO_ELEMENT@ + " "@ + audio_branch_text(audio) + " "@ + ")"@,
{
    let parts = seq![
        "( "@,
        VIDEO_ELEMENT@,
        video_branch_text(video),
        AUDIO_ELEMENT@,
        audio_branch_text(audio),
        ")"@,
    ];
    assert(parts.drop_last() == parts.take(5));
    assert(parts.take(5).drop_last() == parts.take(4));
    assert(parts.take(4).drop_last() == parts.take(3));
    assert(parts.take(3).drop_last() == parts.take(2));
    assert(parts.take(2).drop_last() == parts.take(1));
    assert(joined(parts.take(1), " "@) == "( "@);
    assert(joined(parts.take(2), " "@) == "( "@ + " "@ + VIDEO_ELEMENT@);
    assert(joined(parts.take(3), " "@) == joined(parts.take(2), " "@) + " "@ + parts[2]);
    assert(joined(parts.take(4), " "@) == joined(parts.take(3), " "@) + " "@ + parts[3]);
    assert(joined(parts.take(5), " "@) == joined(parts.take(4), " "@) + " "@ + parts[4]);
}

/// Whatever the encodings, the pipeline has an element for the video data and one for the audio
/// data, under the names by which they are looked up.
pub proof fn law_pipeline_has_both_sources(
    video: Option<StreamFormat>,
    audio: Option<StreamFormat>,
)
    ensures
        occurs("appsrc name="@ + VIDEO_SOURCE@ + " "@, launch_text(video, audio)),
        occurs("appsrc name="@ + AUDIO_SOURCE@ + " "@, launch_text(video, audio)),
{
    reveal_strlit("appsrc name=");
    reveal_strlit("vidsrc");
    reveal_strlit("audsrc");
    reveal_strlit(" ");
    reveal_strlit("appsrc name=vidsrc is-live=true block=true emit-signals=false max-bytes=52428800");
    reveal_strlit("appsrc name=audsrc is-live=true block=true emit-signals=false max-bytes=52428800");
    lemma_launch_text_unfolds(video, audio);
    let text = launch_text(video, audio);
    let video_needle = "appsrc name="@ + VIDEO_SOURCE@ + " "@;
    let audio_needle = "appsrc name="@ + AUDIO_SOURCE@ + " "@;
    assert(VIDEO_ELEMENT@ == video_needle + VIDEO_ELEMENT@.skip(19));
    assert(AUDIO_ELEMENT@ == audio_needle + AUDIO_ELEMENT@.skip(19));
    assert(text == ("( "@ + " "@) + video_needle + (VIDEO_ELEMENT@.skip(19) + " "@
        + video_branch_text(video) + " "@ + AUDIO_ELEMENT@ + " "@ + audio_branch_text(audio) + " "@
        + ")"@));
    assert(text == ("( "@ + " "@ + VIDEO_ELEMENT@ + " "@ + video_branch_text(video) + " "@)
        + audio_needle + (AUDIO_ELEMENT@.skip(19) + " "@ + audio_branch_text(audio) + " "@ + ")"@));
}

/// The encodings can be told from the pipeline: it changes whenever one of them does.
pub proof fn law_encodings_decide_pipeline(
    video: Option<StreamFormat>,
    audio: Option<StreamFormat>,
    other_video: Option<StreamFormat>,
    other_audio: Option<StreamFormat>,
)
    requires
        video is Some ==> video->0.is_video(),
        audio is Some ==> !audio->0.is_video(),
        other_video is Some ==> other_video->0.is_video(),
        other_audio is Some ==> !other_audio->0.is_video(),
    ensures
        launch_text(video, audio) == launch_text(other_video, other_audio) <==> video == other_video
            && audio == other_audio,
{
    reveal_strlit("! fakesink");
    reveal_strlit("format=GST_FORMAT_TIME ! queue silent=true max-size-bytes=10485760 ! h264parse ! rtph264pay name=pay0");
    reveal_strlit("format=GST_FORMAT_TIME ! queue silent=true  max-size-bytes=10485760 ! h265parse ! rtph265pay name=pay0");
    reveal_strlit("format=GST_FORMAT_TIME caps=audio/x-raw,format=S16LE,layout=interleaved,channels=1,rate=8000 ! queue silent=true max-size-bytes=10485760 min-threshold-bytes=10 ! audiorate ! audioconvert ! rtpL16pay name=pay1");
    reveal_strlit("format=GST_FORMAT_TIME caps=audio/mpeg,mpegversion=4,stream-format=raw ! queue silent=true max-size-bytes=10485760 min-threshold-bytes=10 ! rtpmp4apay name=pay1");
    let text = launch_text(video, audio);
    let other = launch_text(other_video, other_audio);
    lemma_launch_text_unfolds(video, audio);
    lemma_launch_text_unfolds(other_video, other_audio);
    if text == other {
        let head = "( "@ + " "@ + VIDEO_ELEMENT@ + " "@;
        let tail = " "@ + AUDIO_ELEMENT@ + " "@ + audio_branch_text(audio) + " "@ + ")"@;
        let other_tail = " "@ + AUDIO_ELEMENT@ + " "@ + audio_branch_text(other_audio) + " "@
            + ")"@;
        assert(text == head + video_branch_text(video) + tail);
        assert(other == head + video_branch_text(other_video) + other_tail);
        // The first place where two of the video branches differ.
        assert(text[head.len() as int] == video_branch_text(video)[0]);
        assert(other[head.len() as int] == video_branch_text(other_video)[0]);
        if video is Some && other_video is Some {
            assert(text[head.len() + 43int] == video_branch_text(video)[43]);
            assert(other[head.len() + 43int] == video_branch_text(other_video)[43]);
        }
        assert(video == other_video);
        let mid = head + video_branch_text(video) + " "@ + AUDIO_ELEMENT@ + " "@;
        assert(text == mid + audio_branch_text(audio) + (" "@ + ")"@));
        assert(other == mid + audio_branch_text(other_audio) + (" "@ + ")"@));
        // The first place where two of the audio branches differ.
        assert(text[mid.len() as int] == audio_branch_text(audio)[0]);
        assert(other[mid.len() as int] == audio_branch_text(other_audio)[0]);
        if audio is Some && other_audio is Some {
            assert(text[mid.len() + 34int] == audio_branch_text(audio)[34]);
            assert(other[mid.len() + 34int] == audio_branch_text(other_audio)[34]);
        }
        assert(audio == other_audio);
    }
}

/// The pipeline pays out video, as payload 0, if and only if the video encoding is known to be one
/// of pictures; else it throws the video data away.
pub proof fn law_video_is_served_or_discarded(format: Option<StreamFormat>)
    ensures
        format is Some && format->0.is_video() <==> ends_with(
            video_branch_text(format),
            " name=pay0"@,
        ),
        !(format is Some && format->0.is_video()) <==> video_branch_text(format) == DISCARD_BRANCH@,
{
    reveal_strlit(" name=pay0");
    reveal_strlit("! fakesink");
    reveal_strlit("format=GST_FORMAT_TIME ! queue silent=true max-size-bytes=10485760 ! h264parse ! rtph264pay name=pay0");
    reveal_strlit("format=GST_FORMAT_TIME ! queue silent=true  max-size-bytes=10485760 ! h265parse ! rtph265pay name=pay0");
    let text = video_branch_text(format);
    let ending = " name=pay0"@;
    if format is Some && format->0.is_video() {
        assert(text == text.take(text.len() - 10) + ending);
    } else if ends_with(text, ending) {
        let before = choose|before: Seq<char>| text == #[trigger] (before + ending);
        assert(before.len() == text.len() - ending.len() == 0);
        assert((before + ending)[9] == ending[9]);
        assert(text[9] == 'k');
    }
}

/// The pipeline pays out audio, as payload 1, if and only if the audio encoding is known to be one
/// of sound; else it throws the audio data away.
pub proof fn law_audio_is_served_or_discarded(format: Option<StreamFormat>)
    ensures
        format is Some && !format->0.is_video() <==> ends_with(
            audio_branch_text(format),
            " name=pay1"@,
        ),
        !(format is Some && !format->0.is_video()) <==> audio_branch_text(format)
            == DISCARD_BRANCH@,
{
    reveal_strlit(" name=pay1");
    reveal_strlit("! fakesink");
    reveal_strlit("format=GST_FORMAT_TIME caps=audio/x-raw,format=S16LE,layout=interleaved,channels=1,rate=8000 ! queue silent=true max-size-bytes=10485760 min-threshold-bytes=10 ! audiorate ! audioconvert ! rtpL16pay name=pay1");
    reveal_strlit("format=GST_FORMAT_TIME caps=audio/mpeg,mpegversion=4,stream-format=raw ! queue silent=true max-size-bytes=10485760 min-threshold-bytes=10 ! rtpmp4apay name=pay1");
    let text = audio_branch_text(format);
    let ending = " name=pay1"@;
    if format is Some && !format->0.is_video() {
        assert(text == text.take(text.len() - 10) + ending);
    } else if ends_with(text, ending) {
        let before = choose|before: Seq<char>| text == #[trigger] (before + ending);
        assert(before.len() == text.len() - ending.len() == 0);
        assert((before + ending)[9] == ending[9]);
        assert(text[9] == 'k');
    }
}

/// Pictures are what H.264 and H.265 encode, and sound is what AAC and ADPCM do.
pub proof fn law_each_encoding_is_of_its_kind(format: StreamFormat)
    ensures
        format.is_video() <==> format != StreamFormat::AAC && format != StreamFormat::ADPCM,
        !format.is_video() <==> format != StreamFormat::H264 && format != StreamFormat::H265,
{
}

/// The pipeline consists of the six pieces, in this order, with one space between each two of them.
/// What follows one source depends on the encoding of that source alone.
pub proof fn law_pipeline_consists_of_its_pieces(
    video: Option<StreamFormat>,
    audio: Option<StreamFormat>,
)
    ensures
        launch_text(video, audio) == "( "@ + " "@ + VIDEO_ELEMENT@ + " "@ + video_branch_text(video)
            + " "@ + AUDIO_ELEMENT@ + " "@ + audio_branch_text(audio) + " "@ + ")"@,
{
    lemma_launch_text_unfolds(video, audio);
}

/// Every encoding goes through the parser and the payloader that are made for it.
pub proof fn law_encodings_get_their_own_payloader(
    video: Option<StreamFormat>,
    audio: Option<StreamFormat>,
)
    ensures
        video_branch_text(video) == (if video == Some(StreamFormat::H264) {
            "format=GST_FORMAT_TIME ! queue silent=true max-size-bytes=10485760 ! h264parse ! rtph264pay name=pay0"@
        } else if video == Some(StreamFormat::H265) {
            "format=GST_FORMAT_TIME ! queue silent=true  max-size-bytes=10485760 ! h265parse ! rtph265pay name=pay0"@
        } else {
            "! fakesink"@
        }),
        audio_branch_text(audio) == (if audio == Some(StreamFormat::ADPCM) {
            "format=GST_FORMAT_TIME caps=audio/x-raw,format=S16LE,layout=interleaved,channels=1,rate=8000 ! queue silent=true max-size-bytes=10485760 min-threshold-bytes=10 ! audiorate ! audioconvert ! rtpL16pay name=pay1"@
        } else if audio == Some(StreamFormat::AAC) {
            "format=GST_FORMAT_TIME caps=audio/mpeg,mpegversion=4,stream-format=raw ! queue silent=true max-size-bytes=10485760 min-threshold-bytes=10 ! rtpmp4apay name=pay1"@
        } else {
            "! fakesink"@
        }),
{
}

/// The elements that take the data are live, block when they are full, and hold the same amount.
pub proof fn law_both_sources_are_set_up_alike()
    ensures
        VIDEO_ELEMENT@ == "appsrc name="@ + "vidsrc"@
            + " is-live=true block=true emit-signals=false max-bytes=52428800"@,
        AUDIO_ELEMENT@ == "appsrc name="@ + "audsrc"@
            + " is-live=true block=true emit-signals=false max-bytes=52428800"@,
        VIDEO_SOURCE@ == "vidsrc"@,
        AUDIO_SOURCE@ == "audsrc"@,
{
    reveal_strlit("appsrc name=");
    reveal_strlit("vidsrc");
    reveal_strlit("audsrc");
    reveal_strlit(" is-live=true block=true emit-signals=false max-bytes=52428800");
    reveal_strlit("appsrc name=vidsrc is-live=true block=true emit-signals=false max-bytes=52428800");
    reveal_strlit("appsrc name=audsrc is-live=true block=true emit-signals=false max-bytes=52428800");
}

} // verus!

use camera_rtsp::format::{launch_line, AUDIO_SOURCE, VIDEO_SOURCE};
use camera_rtsp::StreamFormat;

const VIDEO: &str =
    "appsrc name=vidsrc is-live=true block=true emit-signals=false max-bytes=52428800";
const AUDIO: &str =
    "appsrc name=audsrc is-live=true block=true emit-signals=false max-bytes=52428800";

#[test]
fn unknown_encodings_are_discarded() {
    assert_eq!(
        launch_line(None, None),
        "(  appsrc name=vidsrc is-live=true block=true emit-signals=false max-bytes=52428800 \
         ! fakesink appsrc name=audsrc is-live=true block=true emit-signals=false \
         max-bytes=52428800 ! fakesink )"
    );
}

#[test]
fn h264_with_aac() {
    let expected = format!(
        "(  {} format=GST_FORMAT_TIME ! queue silent=true max-size-bytes=10485760 ! h264parse ! rtph264pay name=pay0 {} format=GST_FORMAT_TIME caps=audio/mpeg,mpegversion=4,stream-format=raw ! queue silent=true max-size-bytes=10485760 min-threshold-bytes=10 ! rtpmp4apay name=pay1 )",
        VIDEO, AUDIO
    );
    assert_eq!(launch_line(Some(StreamFormat::H264), Some(StreamFormat::AAC)), expected);
}

#[test]
fn h265_with_adpcm() {
    let expected = format!(
        "(  {} format=GST_FORMAT_TIME ! queue silent=true  max-size-bytes=10485760 ! h265parse ! rtph265pay name=pay0 {} format=GST_FORMAT_TIME caps=audio/x-raw,format=S16LE,layout=interleaved,channels=1,rate=8000 ! queue silent=true max-size-bytes=10485760 min-threshold-bytes=10 ! audiorate ! audioconvert ! rtpL16pay name=pay1 )",
        VIDEO, AUDIO
    );
    assert_eq!(launch_line(Some(StreamFormat::H265), Some(StreamFormat::ADPCM)), expected);
}

#[test]
fn encodings_in_the_wrong_place_are_discarded() {
    assert_eq!(
        launch_line(Some(StreamFormat::AAC), Some(StreamFormat::H264)),
        launch_line(None, None)
    );
}

#[test]
fn every_pipeline_has_both_sources_and_its_payloads() {
    let videos = [None, Some(StreamFormat::H264), Some(StreamFormat::H265)];
    let audios = [None, Some(StreamFormat::AAC), Some(StreamFormat::ADPCM)];
    let mut seen: Vec<String> = Vec::new();
    for video in videos {
        for audio in audios {
            let line = launch_line(video, audio);
            assert!(line.contains(&format!("appsrc name={} ", VIDEO_SOURCE)));
            assert!(line.contains(&format!("appsrc name={} ", AUDIO_SOURCE)));
            assert_eq!(line.contains(" name=pay0"), video.is_some());
            assert_eq!(line.contains(" name=pay1"), audio.is_some());
            assert!(!seen.contains(&line));
            seen.push(line);
        }
    }
}

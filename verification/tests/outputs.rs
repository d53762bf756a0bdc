use camera_rtsp::format::launch_line;
use camera_rtsp::{GstOutputs, MaybeAppSrc, StreamFormat};

fn outputs() -> GstOutputs<u32> {
    let (vidsrc, _) = MaybeAppSrc::new_with_tx();
    let (audsrc, _) = MaybeAppSrc::new_with_tx();
    GstOutputs::from_appsrcs(vidsrc, audsrc)
}

#[test]
fn new_outputs_discard_everything() {
    let outputs = outputs();
    let factory = outputs.factory();
    assert_eq!(factory.launch, launch_line(None, None));
    assert!(factory.roles.is_empty());
    assert!(!factory.shared);
    assert!(!factory.clock_and_offset);
}

#[test]
fn sinks_keep_their_places() {
    let (vidsrc, vid_tx) = MaybeAppSrc::new_with_tx();
    let vid_tx = vid_tx.into_inner();
    let (audsrc, aud_tx) = MaybeAppSrc::new_with_tx();
    let aud_tx = aud_tx.into_inner();
    let mut outputs = GstOutputs::from_appsrcs(vidsrc, audsrc);
    vid_tx.send(1u32).unwrap();
    aud_tx.send(2u32).unwrap();
    assert_eq!(*outputs.vidsrc.write(&[0]).push.unwrap().src, 1);
    assert_eq!(*outputs.audsrc.write(&[0]).push.unwrap().src, 2);
}

#[test]
fn pipeline_is_described_anew_only_on_news() {
    let mut outputs = outputs();
    assert!(!outputs.set_format(None));
    assert!(outputs.set_format(Some(StreamFormat::H264)));
    assert!(!outputs.set_format(Some(StreamFormat::H264)));
    assert!(!outputs.set_format(None));
    assert_eq!(outputs.factory().launch, launch_line(Some(StreamFormat::H264), None));
    assert!(outputs.set_format(Some(StreamFormat::H265)));
    assert_eq!(outputs.factory().launch, launch_line(Some(StreamFormat::H265), None));
    assert!(outputs.set_format(Some(StreamFormat::ADPCM)));
    assert!(!outputs.set_format(Some(StreamFormat::ADPCM)));
    assert!(outputs.set_format(Some(StreamFormat::AAC)));
    assert_eq!(
        outputs.factory().launch,
        launch_line(Some(StreamFormat::H265), Some(StreamFormat::AAC))
    );
}

#[test]
fn order_of_video_and_audio_does_not_matter() {
    let mut one = outputs();
    one.set_format(Some(StreamFormat::H264));
    one.set_format(Some(StreamFormat::AAC));
    let mut other = outputs();
    other.set_format(Some(StreamFormat::AAC));
    other.set_format(Some(StreamFormat::H264));
    assert_eq!(one.factory().launch, other.factory().launch);
}

#[test]
fn timestamps_reach_both_sinks() {
    let (vidsrc, vid_tx) = MaybeAppSrc::new_with_tx();
    let vid_tx = vid_tx.into_inner();
    let (audsrc, aud_tx) = MaybeAppSrc::new_with_tx();
    let aud_tx = aud_tx.into_inner();
    let mut outputs = GstOutputs::from_appsrcs(vidsrc, audsrc);
    vid_tx.send(1u32).unwrap();
    aud_tx.send(2u32).unwrap();
    outputs.set_timestamp(None);
    assert_eq!(outputs.vidsrc.write(&[0]).push.unwrap().pts, None);
    assert_eq!(outputs.audsrc.write(&[0]).push.unwrap().pts, None);
    outputs.set_timestamp(Some(50));
    outputs.set_timestamp(Some(80));
    outputs.set_timestamp(None);
    assert_eq!(outputs.vidsrc.write(&[0]).push.unwrap().pts, Some(30));
    assert_eq!(outputs.audsrc.write(&[0]).push.unwrap().pts, Some(30));
}

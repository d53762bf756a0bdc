use camera_rtsp::channel::SOURCE_BACKLOG;
use camera_rtsp::MaybeAppSrc;

#[test]
fn data_is_discarded_until_a_source_comes() {
    let (mut sink, tx) = MaybeAppSrc::<u32>::new_with_tx();
    let tx = tx.into_inner();
    sink.set_timestamp(Some(1_000));
    let step = sink.write(&[1, 2, 3]);
    assert_eq!(step.written, 3);
    assert!(step.push.is_none());
    tx.send(7).unwrap();
    let step = sink.write(&[4, 5]);
    assert_eq!(step.written, 2);
    let push = step.push.unwrap();
    assert_eq!(*push.src, 7);
    assert_eq!(push.data, &[4, 5]);
}

#[test]
fn first_push_to_a_new_source_keeps_the_old_time() {
    let (mut sink, tx) = MaybeAppSrc::<u32>::new_with_tx();
    let tx = tx.into_inner();
    sink.set_timestamp(Some(1_000));
    sink.set_timestamp(Some(1_400));
    tx.send(7).unwrap();
    assert_eq!(sink.write(&[0]).push.unwrap().pts, Some(400));
    // The zero time is gone until the next timestamp.
    assert!(!sink.has_basetime());
    assert_eq!(sink.write(&[0]).push.unwrap().pts, None);
    sink.set_timestamp(Some(5_000));
    assert!(sink.has_basetime());
    assert_eq!(sink.write(&[0]).push.unwrap().pts, Some(0));
    sink.set_timestamp(Some(7_500));
    assert_eq!(sink.write(&[0]).push.unwrap().pts, Some(2_500));
}

#[test]
fn data_without_a_timestamp_has_no_pts() {
    let (mut sink, tx) = MaybeAppSrc::<u32>::new_with_tx();
    let tx = tx.into_inner();
    tx.send(1).unwrap();
    assert_eq!(sink.write(&[9]).push.unwrap().pts, None);
    assert!(!sink.has_basetime());
    sink.set_timestamp(Some(10));
    sink.set_timestamp(None);
    assert!(sink.has_basetime());
    assert_eq!(sink.write(&[9]).push.unwrap().pts, None);
    sink.set_timestamp(Some(12));
    assert_eq!(sink.write(&[9]).push.unwrap().pts, Some(2));
}

#[test]
fn empty_writes_are_pushed_too() {
    let (mut sink, tx) = MaybeAppSrc::<u32>::new_with_tx();
    let tx = tx.into_inner();
    tx.send(1).unwrap();
    let step = sink.write(&[]);
    assert_eq!(step.written, 0);
    assert_eq!(step.push.unwrap().data.len(), 0);
}

#[test]
fn refused_source_is_dropped_until_another_comes() {
    let (mut sink, tx) = MaybeAppSrc::<u32>::new_with_tx();
    let tx = tx.into_inner();
    tx.send(1).unwrap();
    assert_eq!(*sink.write(&[1]).push.unwrap().src, 1);
    sink.push_finished(true);
    assert_eq!(*sink.write(&[2]).push.unwrap().src, 1);
    sink.push_finished(false);
    let step = sink.write(&[3]);
    assert_eq!(step.written, 1);
    assert!(step.push.is_none());
    tx.send(2).unwrap();
    assert_eq!(*sink.write(&[4]).push.unwrap().src, 2);
}

#[test]
fn last_of_several_sources_stays() {
    let (mut sink, tx) = MaybeAppSrc::<u32>::new_with_tx();
    let tx = tx.into_inner();
    tx.send(1).unwrap();
    tx.send(2).unwrap();
    tx.send(3).unwrap();
    assert_eq!(*sink.write(&[1]).push.unwrap().src, 3);
    drop(tx);
    assert_eq!(*sink.write(&[1]).push.unwrap().src, 3);
}

#[test]
fn looking_again_changes_nothing() {
    let (mut sink, tx) = MaybeAppSrc::<u32>::new_with_tx();
    let tx = tx.into_inner();
    tx.send(4).unwrap();
    assert_eq!(sink.on_stream_error(), Some(&4));
    sink.set_timestamp(Some(30));
    assert_eq!(sink.on_stream_error(), Some(&4));
    assert!(sink.has_basetime());
    sink.set_timestamp(Some(45));
    assert_eq!(sink.write(&[1]).push.unwrap().pts, Some(15));
}

#[test]
fn senders_feed_their_own_sinks() {
    let (mut one, one_tx) = MaybeAppSrc::<u32>::new_with_tx();
    let (mut other, other_tx) = MaybeAppSrc::<u32>::new_with_tx();
    one_tx.into_inner().send(1).unwrap();
    assert_eq!(other.on_stream_error(), None);
    other_tx.into_inner().send(2).unwrap();
    assert_eq!(one.on_stream_error(), Some(&1));
    assert_eq!(other.on_stream_error(), Some(&2));
}

#[test]
fn sender_holds_three_sources() {
    let (mut sink, tx) = MaybeAppSrc::<u32>::new_with_tx();
    let tx = tx.into_inner();
    assert_eq!(SOURCE_BACKLOG, 3);
    for i in 0..3 {
        assert!(tx.try_send(i).is_ok());
    }
    assert!(tx.try_send(3).is_err());
    assert_eq!(*sink.write(&[0]).push.unwrap().src, 2);
    // The write has emptied the channel.
    for i in 4..7 {
        assert!(tx.try_send(i).is_ok());
    }
    assert!(tx.try_send(7).is_err());
}

#[test]
fn stream_error_names_the_source_to_end() {
    let (mut sink, tx) = MaybeAppSrc::<u32>::new_with_tx();
    let tx = tx.into_inner();
    assert_eq!(sink.on_stream_error(), None);
    tx.send(5).unwrap();
    assert_eq!(sink.on_stream_error(), Some(&5));
    assert_eq!(sink.on_stream_error(), Some(&5));
}

#[test]
fn stream_error_takes_new_sources_over() {
    let (mut sink, tx) = MaybeAppSrc::<u32>::new_with_tx();
    let tx = tx.into_inner();
    sink.set_timestamp(Some(100));
    tx.send(5).unwrap();
    assert_eq!(sink.on_stream_error(), Some(&5));
    assert!(!sink.has_basetime());
}

#[test]
fn given_arrivals_decide_the_write() {
    let (mut sink, _tx) = MaybeAppSrc::<u32>::new_with_tx();
    sink.set_timestamp(Some(3));
    assert!(sink.write_after(vec![], &[1]).push.is_none());
    let push = sink.write_after(vec![8, 9], &[1, 2]).push.unwrap();
    assert_eq!((*push.src, push.pts, push.data.to_vec()), (9, Some(0), vec![1, 2]));
    assert_eq!(sink.src_after(vec![]), Some(&9));
    assert_eq!(sink.src_after(vec![4]), Some(&4));
}

#[test]
fn clock_that_goes_back_is_noticed() {
    let (mut sink, _tx) = MaybeAppSrc::<u32>::new_with_tx();
    assert!(sink.is_in_order());
    sink.set_timestamp(Some(10));
    assert!(sink.is_in_order());
    sink.set_timestamp(Some(9));
    assert!(!sink.is_in_order());
    sink.set_timestamp(Some(u64::MAX));
    assert!(sink.is_in_order());
}

#[test]
fn clock_that_runs_forward_always_allows_writes() {
    let (mut sink, tx) = MaybeAppSrc::<u32>::new_with_tx();
    let tx = tx.into_inner();
    for (i, time) in [0u64, 5, 5, 9, 40].iter().enumerate() {
        sink.set_timestamp(Some(*time));
        assert!(sink.is_in_order());
        if i % 2 == 1 {
            tx.send(i as u32).unwrap();
        }
        let accepted = sink.write(&[0]).push.is_some();
        sink.push_finished(accepted && i != 3);
        assert!(sink.is_in_order());
    }
}

#[test]
fn pushes_are_performed_between_write_and_report() {
    let (mut sink, tx) = MaybeAppSrc::<Vec<u8>>::new_with_tx();
    let tx = tx.into_inner();
    tx.send(vec![1]).unwrap();
    let mut pushed: Vec<(Vec<u8>, Vec<u8>)> = Vec::new();
    for data in [[1u8, 2], [3, 4], [5, 6]] {
        let step = sink.write(&data);
        assert_eq!(step.written, 2);
        if let Some(push) = step.push {
            pushed.push((push.src.clone(), push.data.to_vec()));
            let accepted = push.data[0] != 3;
            sink.push_finished(accepted);
        }
    }
    assert_eq!(pushed, vec![(vec![1], vec![1, 2]), (vec![1], vec![3, 4])]);
}

use camera_rtsp::access::access_notice;
use camera_rtsp::format::launch_line;
use camera_rtsp::text::join;
use camera_rtsp::{ClientAuth, MediaFactory, NewStream, Role, RtspServer, StreamFormat};

fn rights(roles: &[Role]) -> Vec<(&str, bool, bool)> {
    roles.iter().map(|role| (role.name.as_str(), role.access, role.construct)).collect()
}

fn factory() -> MediaFactory {
    MediaFactory {
        launch: "x".to_string(),
        roles: Vec::new(),
        shared: false,
        clock_and_offset: true,
    }
}

#[test]
fn new_server_has_no_settings() {
    let server = RtspServer::new();
    assert!(server.auth().is_none());
    assert!(server.address().is_none());
    assert!(server.service().is_none());
}

#[test]
fn anonymous_learns_of_streams_it_may_not_watch() {
    let mut factory = factory();
    RtspServer::new().add_permitted_roles(&mut factory, &["me", "you"]);
    assert_eq!(
        rights(&factory.roles),
        vec![("me", true, true), ("you", true, true), ("anonymous", true, false)]
    );
    assert_eq!(factory.launch, "x");
    assert!(!factory.shared);
    assert!(factory.clock_and_offset);
}

#[test]
fn permitted_anonymous_watches() {
    let mut factory = factory();
    RtspServer::new().add_permitted_roles(&mut factory, &["me", "anonymous"]);
    assert_eq!(rights(&factory.roles), vec![("me", true, true), ("anonymous", true, true)]);
}

#[test]
fn nobody_permitted() {
    let mut factory = factory();
    RtspServer::new().add_permitted_roles(&mut factory, &[]);
    assert_eq!(rights(&factory.roles), vec![("anonymous", true, false)]);
}

#[test]
fn roles_are_added_to_those_that_there_are() {
    let mut factory = factory();
    let server = RtspServer::new();
    server.add_permitted_roles(&mut factory, &["anonymous"]);
    server.add_permitted_roles(&mut factory, &["me"]);
    assert_eq!(
        rights(&factory.roles),
        vec![("anonymous", true, true), ("me", true, true), ("anonymous", true, false)]
    );
}

#[test]
fn new_stream() {
    let server = RtspServer::new();
    let stream: NewStream<u32> = server.add_stream(&["/cam", "/cam/main"], &["me"]).unwrap();
    let NewStream { mut outputs, video, audio, paths } = stream;
    assert_eq!((video.element, audio.element), ("vidsrc", "audsrc"));
    let (video_tx, audio_tx) = (video.tx.into_inner(), audio.tx.into_inner());
    assert_eq!(paths, vec!["/cam".to_string(), "/cam/main".to_string()]);
    let factory = outputs.factory();
    assert_eq!(factory.launch, launch_line(None, None));
    assert_eq!(rights(&factory.roles), vec![("me", true, true), ("anonymous", true, false)]);
    assert!(factory.shared);
    assert!(factory.clock_and_offset);
    assert!(outputs.vidsrc.write(&[1]).push.is_none());
    video_tx.send(10).unwrap();
    audio_tx.send(20).unwrap();
    assert_eq!(*outputs.vidsrc.write(&[1]).push.unwrap().src, 10);
    assert_eq!(*outputs.audsrc.write(&[1]).push.unwrap().src, 20);
}

#[test]
fn notice_of_who_may_watch_what() {
    assert_eq!(
        access_notice(&["/a", "/b"], &["me", "you", "them"]),
        "Permitting me, you, them to access /a, /b"
    );
    assert_eq!(access_notice(&["/a"], &["me"]), "Permitting me to access /a");
    assert_eq!(access_notice(&[], &[]), "Permitting  to access ");
}

#[test]
fn joined_texts() {
    assert_eq!(join(&[], "-"), "");
    assert_eq!(join(&["a"], "-"), "a");
    assert_eq!(join(&["a", "", "b"], "-"), "a--b");
}

#[test]
fn credentials_sign_in_under_their_own_name() {
    let mut server = RtspServer::new();
    assert_eq!(server.set_credentials(&[("me", "secret"), ("you", "")]), Ok(()));
    let auth = server.auth().unwrap();
    assert!(auth.basic);
    assert_eq!(auth.default_role.as_deref(), Some("anonymous"));
    let listed: Vec<(&str, &str, &str)> = auth
        .credentials
        .iter()
        .map(|c| (c.user.as_str(), c.pass.as_str(), c.role.as_str()))
        .collect();
    assert_eq!(listed, vec![("me", "secret", "me"), ("you", "", "you")]);
    assert!(auth.tls.is_none());
}

#[test]
fn credentials_add_up() {
    let mut server = RtspServer::new();
    server.set_credentials(&[("a", "1")]).unwrap();
    server.set_credentials(&[]).unwrap();
    server.set_credentials(&[("b", "2"), ("a", "3")]).unwrap();
    let users: Vec<&str> =
        server.auth().unwrap().credentials.iter().map(|c| c.user.as_str()).collect();
    assert_eq!(users, vec!["a", "b", "a"]);
}

#[test]
fn tls_keeps_credentials_and_the_other_way_round() {
    let mut one = RtspServer::new();
    one.set_credentials(&[("a", "1")]).unwrap();
    assert_eq!(one.set_tls("PEM", ClientAuth::Requested), Ok(()));
    let mut other = RtspServer::new();
    other.set_tls("PEM", ClientAuth::Requested).unwrap();
    other.set_credentials(&[("a", "1")]).unwrap();
    for server in [&one, &other] {
        let auth = server.auth().unwrap();
        assert!(auth.basic);
        assert_eq!(auth.default_role.as_deref(), Some("anonymous"));
        assert_eq!(auth.credentials.len(), 1);
        let tls = auth.tls.as_ref().unwrap();
        assert_eq!(tls.certificate, "PEM");
        assert_eq!(tls.client_auth, ClientAuth::Requested);
    }
}

#[test]
fn tls_alone_leaves_signing_in_as_it_is() {
    let mut server = RtspServer::new();
    server.set_tls("PEM", ClientAuth::Ignored).unwrap();
    let auth = server.auth().unwrap();
    assert!(!auth.basic);
    assert!(auth.default_role.is_none());
    assert!(auth.credentials.is_empty());
}

#[test]
fn address_and_port() {
    for (port, text) in
        [(0u16, "0"), (9, "9"), (10, "10"), (554, "554"), (8554, "8554"), (65535, "65535")]
    {
        let mut server = RtspServer::new();
        server.run("0.0.0.0", port);
        assert_eq!(server.address().map(|a| a.as_str()), Some("0.0.0.0"));
        assert_eq!(server.service().map(|s| s.as_str()), Some(text));
        assert!(server.auth().is_none());
    }
}

#[test]
fn streams_are_separate() {
    let server = RtspServer::new();
    let mut one: NewStream<u32> = server.add_stream(&["/a", "/b"], &["me"]).unwrap();
    let other: NewStream<u32> = server.add_stream(&["/b"], &["you"]).unwrap();
    assert!(one.outputs.set_format(Some(StreamFormat::H264)));
    assert_eq!(other.outputs.factory().launch, launch_line(None, None));
    let roles = rights(&one.outputs.factory().roles);
    assert_eq!(roles, vec![("me", true, true), ("anonymous", true, false)]);
    let roles = rights(&other.outputs.factory().roles);
    assert_eq!(roles, vec![("you", true, true), ("anonymous", true, false)]);
}

#[test]
fn sources_of_pipelines_made_early_do_not_wait() {
    let stream: NewStream<u32> = RtspServer::new().add_stream(&["/a"], &[]).unwrap();
    let NewStream { mut outputs, video, audio, .. } = stream;
    let (video_tx, audio_tx) = (video.tx.into_inner(), audio.tx.into_inner());
    for run in 1..4 {
        assert!(video_tx.try_send(run).is_ok());
        assert!(audio_tx.try_send(10 * run).is_ok());
    }
    assert_eq!(*outputs.vidsrc.write(&[0]).push.unwrap().src, 3);
    assert_eq!(*outputs.audsrc.write(&[0]).push.unwrap().src, 30);
}

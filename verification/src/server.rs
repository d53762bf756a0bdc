//! The settings of the server, and the streams that it serves.

use vstd::prelude::*;

use crate::access::{grant, granted, law_reply_to_viewers, reply, role_states, Reply, ANONYMOUS};
use crate::channel::{SourceSender, SOURCE_BACKLOG};
use crate::format::{
    launch_text, law_pipeline_consists_of_its_pieces, StreamFormat, AUDIO_ELEMENT, AUDIO_SOURCE,
    VIDEO_ELEMENT, VIDEO_SOURCE,
};
use crate::outputs::{FactoryState, GstOutputs, MediaFactory, OutputsState};
use crate::source::{MaybeAppSrc, SourceState};
use crate::text::{
    contents, decimal, decimal_text, decimal_value, is_plain_decimal, own, strings,
};

verus! {

/// A name and a password by which a viewer signs in.
pub struct Credential {
    pub user: String,
    pub pass: String,
    /// The role that the viewer is then in.
    pub role: String,
}

/// The contents of a [`Credential`].
pub struct CredentialState {
    pub user: Seq<char>,
    pub pass: Seq<char>,
    pub role: Seq<char>,
}

impl View for Credential {
    type V = CredentialState;

    open spec fn view(&self) -> CredentialState {
        CredentialState { user: self.user@, pass: self.pass@, role: self.role@ }
    }
}

/// What the server wants to know of the certificate of a client.
#[derive(Debug, PartialEq, Eq, Copy, Clone, Structural)]
pub enum ClientAuth {
    /// Nothing.
    Ignored,
    /// It is asked for.
    Requested,
    /// Without a valid one there is no connection.
    Required,
    /// Another mode, by its number.
    Other(i32),
}

/// The settings of an encrypted connection.
pub struct Tls {
    /// The certificate of the server, in PEM.
    pub certificate: String,
    pub client_auth: ClientAuth,
}

/// The contents of a [`Tls`].
pub struct TlsState {
    pub certificate: Seq<char>,
    pub client_auth: ClientAuth,
}

impl View for Tls {
    type V = TlsState;

    open spec fn view(&self) -> TlsState {
        TlsState { certificate: self.certificate@, client_auth: self.client_auth }
    }
}

/// How viewers sign in.
pub struct Auth {
    /// Whether the basic method is the one that is supported.
    pub basic: bool,
    /// The role of viewers who have not signed in.
    pub default_role: Option<String>,
    pub credentials: Vec<Credential>,
    pub tls: Option<Tls>,
}

/// The contents of an [`Auth`].
pub struct AuthState {
    pub basic: bool,
    pub default_role: Option<Seq<char>>,
    pub credentials: Seq<CredentialState>,
    pub tls: Option<TlsState>,
}

impl View for Auth {
    type V = AuthState;

    open spec fn view(&self) -> AuthState {
        AuthState {
            basic: self.basic,
            default_role: match self.default_role {
                Some(role) => Some(role@),
                None => None,
            },
            credentials: self.credentials@.map_values(|credential: Credential| credential@),
            tls: match self.tls {
                Some(tls) => Some(tls@),
                None => None,
            },
        }
    }
}

/// The contents of a list of names with passwords.
pub open spec fn pairs(credentials: Seq<(&str, &str)>) -> Seq<(Seq<char>, Seq<char>)> {
    credentials.map_values(|credential: (&str, &str)| (credential.0@, credential.1@))
}

/// What a viewer sends to sign in by the basic method: the name and the password, joined by a
/// colon.
pub open spec fn joined_credential(user: Seq<char>, pass: Seq<char>) -> Seq<char> {
    user + seq![':'] + pass
}

/// The role of a viewer who sends `joined`, if that is known.  Of credentials that come out the
/// same when they are joined, the last one decides.
pub open spec fn role_for(credentials: Seq<CredentialState>, joined: Seq<char>) -> Option<Seq<char>>
    decreases credentials.len(),
{
    if credentials.len() == 0 {
        None
    } else if joined_credential(credentials.last().user, credentials.last().pass) == joined {
        Some(credentials.last().role)
    } else {
        role_for(credentials.drop_last(), joined)
    }
}

impl AuthState {
    /// Nothing is set.
    pub open spec fn initial() -> Self {
        AuthState { basic: false, default_role: None, credentials: Seq::empty(), tls: None }
    }

    /// Viewers sign in by the basic method, with `credentials` beside those that there are.  Each
    /// gets the role with the name of the user; without signing in, viewers are anonymous.
    pub open spec fn with_credentials(self, credentials: Seq<(Seq<char>, Seq<char>)>) -> Self {
        AuthState {
            basic: true,
            default_role: Some(ANONYMOUS@),
            credentials: self.credentials + credentials.map_values(
                |credential: (Seq<char>, Seq<char>)|
                    CredentialState {
                        user: credential.0,
                        pass: credential.1,
                        role: credential.0,
                    },
            ),
            ..self
        }
    }

    /// Connections are encrypted, with this certificate.
    pub open spec fn with_tls(self, certificate: Seq<char>, client_auth: ClientAuth) -> Self {
        AuthState { tls: Some(TlsState { certificate, client_auth }), ..self }
    }

    /// A viewer can sign in with this name and password, and is then in this role.
    pub open spec fn signs_in(self, user: Seq<char>, pass: Seq<char>, role: Seq<char>) -> bool {
        role_for(self.credentials, joined_credential(user, pass)) == Some(role)
    }

    /// No other name comes out the same as `user` when it is joined with its password.
    pub open spec fn tells_apart(self, user: Seq<char>, pass: Seq<char>) -> bool {
        forall|i: int|
            0 <= i < self.credentials.len() && joined_credential(
                (#[trigger] self.credentials[i]).user,
                self.credentials[i].pass,
            ) == joined_credential(user, pass) ==> self.credentials[i].user == user
    }

    /// Whoever signs in gets the role with their own name.
    pub open spec fn roles_are_users(self) -> bool {
        forall|i: int|
            0 <= i < self.credentials.len() ==> (#[trigger] self.credentials[i]).role
                == self.credentials[i].user
    }
}

/// The settings of a server.
pub struct RtspServer {
    auth: Option<Auth>,
    address: Option<String>,
    service: Option<String>,
}

/// The contents of an [`RtspServer`].
pub struct ServerState {
    /// How viewers sign in.
    pub auth: Option<AuthState>,
    /// The address to listen at.
    pub address: Option<Seq<char>>,
    /// The port to listen at, in decimal.
    pub service: Option<Seq<char>>,
}

impl View for RtspServer {
    type V = ServerState;

    closed spec fn view(&self) -> ServerState {
        ServerState {
            auth: match self.auth {
                Some(auth) => Some(auth@),
                None => None,
            },
            address: match self.address {
                Some(address) => Some(address@),
                None => None,
            },
            service: match self.service {
                Some(service) => Some(service@),
                None => None,
            },
        }
    }
}

impl ServerState {
    /// How viewers sign in, or nothing set if that has not been said.
    pub open spec fn auth_or_new(self) -> AuthState {
        match self.auth {
            Some(auth) => auth,
            None => AuthState::initial(),
        }
    }
}

/// Where the source comes from that a sink writes to.
#[verifier::reject_recursive_types(S)]
pub struct Feed<S> {
    /// The name of the element of a pipeline that is the source.
    pub element: &'static str,
    /// Takes that element of each pipeline that is made.
    pub tx: SourceSender<S>,
}

/// A stream that is to be served.
#[verifier::reject_recursive_types(S)]
pub struct NewStream<S> {
    /// Where the data of the stream goes, and the settings of its pipelines.
    pub outputs: GstOutputs<S>,
    /// Where the source for the video data comes from.
    pub video: Feed<S>,
    /// Where the source for the audio data comes from.
    pub audio: Feed<S>,
    /// The paths under which to serve the stream.
    pub paths: Vec<String>,
}

impl RtspServer {
    /// Makes the settings of a server of which nothing has been said.
    pub fn new() -> (res: RtspServer)
        ensures
            res@ == (ServerState { auth: None, address: None, service: None }),
    {
        RtspServer { auth: None, address: None, service: None }
    }

    /// Makes a stream that `permitted_users` may watch under each of `paths`.
    pub fn add_stream<S>(&self, paths: &[&str], permitted_users: &[&str]) -> (res: Result<
        NewStream<S>,
        (),
    >)
        ensures
            res is Ok,
            res->Ok_0.outputs.vidsrc@ == SourceState::<S>::initial(
                res->Ok_0.video.tx.channel(),
            ),
            res->Ok_0.outputs.audsrc@ == SourceState::<S>::initial(
                res->Ok_0.audio.tx.channel(),
            ),
            res->Ok_0.outputs@ == new_outputs(contents(permitted_users@)),
            res->Ok_0.outputs.vidsrc.answers() == Seq::<Option<S>>::empty(),
            res->Ok_0.outputs.audsrc.answers() == Seq::<Option<S>>::empty(),
            res->Ok_0.video.tx.bound() == SOURCE_BACKLOG,
            res->Ok_0.audio.tx.bound() == SOURCE_BACKLOG,
            res->Ok_0.video.element@ == VIDEO_SOURCE@,
            res->Ok_0.audio.element@ == AUDIO_SOURCE@,
            strings(res->Ok_0.paths@) == contents(paths@),
            res->Ok_0.paths@.len() == paths@.len(),
            forall|i: int|
                0 <= i < paths@.len() ==> (#[trigger] res->Ok_0.paths@[i])@ == paths@[i]@,
            res->Ok_0.outputs@.wf(),
            res->Ok_0.outputs@.video_format is None,
            res->Ok_0.outputs@.audio_format is None,
            res->Ok_0.outputs@.factory.launch == launch_text(None, None),
            res->Ok_0.outputs@.factory.roles == granted(contents(permitted_users@)),
            res->Ok_0.outputs@.factory.shared,
            res->Ok_0.outputs@.factory.clock_and_offset,
    {
        let (maybe_app_src, video_tx) = MaybeAppSrc::new_with_tx();
        let (maybe_app_src_aud, audio_tx) = MaybeAppSrc::new_with_tx();
        let mut outputs = GstOutputs::from_appsrcs(maybe_app_src, maybe_app_src_aud);
        let factory = outputs.factory_mut();
        self.add_permitted_roles(factory, permitted_users);
        factory.shared = true;
        factory.clock_and_offset = true;
        let video = Feed { element: VIDEO_SOURCE, tx: video_tx };
        let audio = Feed { element: AUDIO_SOURCE, tx: audio_tx };
        let paths = own(paths);
        Ok(NewStream { outputs, video, audio, paths })
    }

    /// Lets `permitted_roles` watch the stream that `factory` makes the pipelines of.
    pub fn add_permitted_roles(&self, factory: &mut MediaFactory, permitted_roles: &[&str])
        ensures
            final(factory)@ == (FactoryState {
                roles: old(factory)@.roles + granted(contents(permitted_roles@)),
                ..old(factory)@
            }),
            final(factory)@.launch == old(factory)@.launch,
            final(factory)@.shared == old(factory)@.shared,
            final(factory)@.clock_and_offset == old(factory)@.clock_and_offset,
            final(factory)@.roles.take(old(factory)@.roles.len() as int) == old(factory)@.roles,
            final(factory)@.roles.skip(old(factory)@.roles.len() as int) == granted(
                contents(permitted_roles@),
            ),
    {
        let mut roles = grant(permitted_roles);
        let ghost new_roles = roles@;
        factory.roles.append(&mut roles);
        assert(role_states(factory.roles@) == role_states(old(factory).roles@) + role_states(
            new_roles,
        ));
    }

    /// Lets viewers sign in with `credentials`, each a name and a password.
    pub fn set_credentials(&mut self, credentials: &[(&str, &str)]) -> (res: Result<(), ()>)
        ensures
            res is Ok,
            final(self)@ == (ServerState {
                auth: Some(old(self)@.auth_or_new().with_credentials(pairs(credentials@))),
                ..old(self)@
            }),
            final(self)@.auth->0.basic,
            final(self)@.auth->0.default_role == Some("anonymous"@),
            final(self)@.auth->0.tls == old(self)@.auth_or_new().tls,
            final(self)@.auth->0.credentials.len() == old(self)@.auth_or_new().credentials.len()
                + credentials@.len(),
            forall|i: int|
                #![trigger credentials@[i]]
                0 <= i < credentials@.len() ==> {
                    let entry = final(self)@.auth->0.credentials[old(
                        self,
                    )@.auth_or_new().credentials.len() + i];
                    entry.user == credentials@[i].0@ && entry.pass == credentials@[i].1@
                        && entry.role == credentials@[i].0@
                },
            final(self)@.address == old(self)@.address,
            final(self)@.service == old(self)@.service,
    {
        let mut auth = self.take_auth();
        let ghost before = auth@;
        auth.basic = true;
        auth.default_role = Some(String::from_str(ANONYMOUS));
        let mut i: usize = 0;
        while i < credentials.len()
            invariant
                i <= credentials@.len(),
                auth@ == before.with_credentials(pairs(credentials@.take(i as int))),
            decreases credentials@.len() - i,
        {
            let (user, pass) = credentials[i];
            let ghost listed = auth@.credentials;
            let credential = Credential {
                user: String::from_str(user),
                pass: String::from_str(pass),
                role: String::from_str(user),
            };
            auth.credentials.push(credential);
            assert(pairs(credentials@.take(i + 1)) == pairs(credentials@.take(i as int)).push(
                (user@, pass@),
            ));
            assert(auth@.credentials == listed.push(credential@));
            assert(auth@.credentials == before.with_credentials(
                pairs(credentials@.take(i + 1)),
            ).credentials);
            i = i + 1;
        }
        assert(credentials@.take(i as int) == credentials@);
        self.auth = Some(auth);
        Ok(())
    }

    /// Encrypts connections with `certificate`, which is in PEM, and asks of clients what
    /// `client_auth` says.
    pub fn set_tls(&mut self, certificate: &str, client_auth: ClientAuth) -> (res: Result<(), ()>)
        ensures
            res is Ok,
            final(self)@ == (ServerState {
                auth: Some(old(self)@.auth_or_new().with_tls(certificate@, client_auth)),
                ..old(self)@
            }),
            final(self)@.auth->0.tls == Some(TlsState { certificate: certificate@, client_auth }),
            final(self)@.auth->0.basic == old(self)@.auth_or_new().basic,
            final(self)@.auth->0.default_role == old(self)@.auth_or_new().default_role,
            final(self)@.auth->0.credentials == old(self)@.auth_or_new().credentials,
            final(self)@.address == old(self)@.address,
            final(self)@.service == old(self)@.service,
    {
        let mut auth = self.take_auth();
        auth.tls = Some(Tls { certificate: String::from_str(certificate), client_auth });
        self.auth = Some(auth);
        Ok(())
    }

    /// Takes what has been said of how viewers sign in out of the settings.
    fn take_auth(&mut self) -> (auth: Auth)
        ensures
            auth@ == old(self)@.auth_or_new(),
            final(self)@ == (ServerState { auth: None, ..old(self)@ }),
    {
        match self.auth.take() {
            Some(auth) => auth,
            None => {
                let auth = Auth {
                    basic: false,
                    default_role: None,
                    credentials: Vec::new(),
                    tls: None,
                };
                assert(auth@.credentials == Seq::<CredentialState>::empty());
                auth
            },
        }
    }

    /// Makes the server listen at this address and port.
    pub fn run(&mut self, bind_addr: &str, bind_port: u16)
        ensures
            final(self)@ == (ServerState {
                address: Some(bind_addr@),
                service: Some(decimal(bind_port as nat)),
                ..old(self)@
            }),
            final(self)@.address == Some(bind_addr@),
            final(self)@.service is Some,
            is_plain_decimal(final(self)@.service->0),
            decimal_value(final(self)@.service->0) == bind_port,
            final(self)@.auth == old(self)@.auth,
    {
        self.address = Some(String::from_str(bind_addr));
        self.service = Some(decimal_text(bind_port));
    }

    /// How viewers sign in, if that has been said.
    pub fn auth(&self) -> (auth: Option<&Auth>)
        ensures
            self@.auth == match auth {
                Some(auth) => Some(auth@),
                None => None,
            },
    {
        self.auth.as_ref()
    }

    /// The address to listen at, if that has been said.
    pub fn address(&self) -> (address: Option<&String>)
        ensures
            self@.address == match address {
                Some(address) => Some(address@),
                None => None,
            },
    {
        self.address.as_ref()
    }

    /// The port to listen at, in decimal, if that has been said.
    pub fn service(&self) -> (service: Option<&String>)
        ensures
            self@.service == match service {
                Some(service) => Some(service@),
                None => None,
            },
    {
        self.service.as_ref()
    }
}

/// Credentials and encryption do not get in each other's way: they can be set in either order.
pub proof fn law_credentials_and_tls_commute(
    auth: AuthState,
    credentials: Seq<(Seq<char>, Seq<char>)>,
    certificate: Seq<char>,
    client_auth: ClientAuth,
)
    ensures
        auth.with_credentials(credentials).with_tls(certificate, client_auth) == auth.with_tls(
            certificate,
            client_auth,
        ).with_credentials(credentials),
{
}

/// Credentials add up: to set some and then more is to set all of them.
pub proof fn law_credentials_add_up(
    auth: AuthState,
    first: Seq<(Seq<char>, Seq<char>)>,
    second: Seq<(Seq<char>, Seq<char>)>,
)
    ensures
        auth.with_credentials(first).with_credentials(second) == auth.with_credentials(
            first + second,
        ),
{
    assert(auth.with_credentials(first).with_credentials(second).credentials
        == auth.with_credentials(first + second).credentials);
}

/// At the beginning, and whatever is set then, whoever signs in gets the role with their own name.
pub proof fn law_roles_are_users(
    auth: AuthState,
    credentials: Seq<(Seq<char>, Seq<char>)>,
    certificate: Seq<char>,
    client_auth: ClientAuth,
)
    requires
        auth.roles_are_users(),
    ensures
        AuthState::initial().roles_are_users(),
        auth.with_credentials(credentials).roles_are_users(),
        auth.with_tls(certificate, client_auth).roles_are_users(),
{
}

proof fn lemma_role_for_is_an_entry(credentials: Seq<CredentialState>, joined: Seq<char>)
    ensures
        role_for(credentials, joined) is Some <==> exists|i: int|
            0 <= i < credentials.len() && joined_credential(
                (#[trigger] credentials[i]).user,
                credentials[i].pass,
            ) == joined,
        role_for(credentials, joined) is Some ==> exists|i: int|
            0 <= i < credentials.len() && joined_credential(
                (#[trigger] credentials[i]).user,
                credentials[i].pass,
            ) == joined && role_for(credentials, joined) == Some(credentials[i].role),
    decreases credentials.len(),
{
    if credentials.len() > 0 {
        let before = credentials.drop_last();
        let last = credentials.last();
        assert(credentials[credentials.len() - 1] == last);
        lemma_role_for_is_an_entry(before, joined);
        if joined_credential(last.user, last.pass) != joined && role_for(before, joined) is Some {
            let i = choose|i: int|
                0 <= i < before.len() && joined_credential(
                    (#[trigger] before[i]).user,
                    before[i].pass,
                ) == joined && role_for(before, joined) == Some(before[i].role);
            assert(credentials[i] == before[i]);
        }
        assert forall|i: int|
            0 <= i < credentials.len() && joined_credential(
                (#[trigger] credentials[i]).user,
                credentials[i].pass,
            ) == joined implies role_for(credentials, joined) is Some by {
            if i < before.len() {
                assert(before[i] == credentials[i]);
            }
        }
    }
}

proof fn lemma_joined_credential_gives_pass(user: Seq<char>, pass: Seq<char>, other: Seq<char>)
    requires
        joined_credential(user, pass) == joined_credential(user, other),
    ensures
        pass == other,
{
    let joined = joined_credential(user, pass);
    assert(pass == joined.skip(user.len() + 1int));
    assert(other == joined_credential(user, other).skip(user.len() + 1int));
}

proof fn lemma_signs_in(auth: AuthState, user: Seq<char>, pass: Seq<char>, role: Seq<char>)
    requires
        auth.roles_are_users(),
        auth.tells_apart(user, pass),
    ensures
        auth.signs_in(user, pass, role) <==> role == user && auth.credentials.contains(
            CredentialState { user, pass, role: user },
        ),
{
    let entry = CredentialState { user, pass, role: user };
    let joined = joined_credential(user, pass);
    lemma_role_for_is_an_entry(auth.credentials, joined);
    if auth.credentials.contains(entry) {
        let k = choose|k: int| 0 <= k < auth.credentials.len() && auth.credentials[k] == entry;
        assert(joined_credential(auth.credentials[k].user, auth.credentials[k].pass) == joined);
    }
    if role_for(auth.credentials, joined) is Some {
        let i = choose|i: int|
            0 <= i < auth.credentials.len() && joined_credential(
                (#[trigger] auth.credentials[i]).user,
                auth.credentials[i].pass,
            ) == joined && role_for(auth.credentials, joined) == Some(auth.credentials[i].role);
        lemma_joined_credential_gives_pass(user, pass, auth.credentials[i].pass);
        assert(auth.credentials[i] == entry);
    }
}

/// Names without a colon can be told apart, whatever the passwords.
pub proof fn law_names_without_colon_are_told_apart(
    auth: AuthState,
    user: Seq<char>,
    pass: Seq<char>,
)
    requires
        !user.contains(':'),
        forall|i: int|
            0 <= i < auth.credentials.len() ==> !(#[trigger] auth.credentials[i]).user.contains(
                ':',
            ),
    ensures
        auth.tells_apart(user, pass),
{
    assert forall|i: int|
        0 <= i < auth.credentials.len() && joined_credential(
            (#[trigger] auth.credentials[i]).user,
            auth.credentials[i].pass,
        ) == joined_credential(user, pass) implies auth.credentials[i].user == user by {
        let other = auth.credentials[i].user;
        let joined = joined_credential(user, pass);
        let other_joined = joined_credential(other, auth.credentials[i].pass);
        assert(joined[user.len() as int] == ':');
        assert(other_joined[other.len() as int] == ':');
        if user.len() < other.len() {
            assert(other[user.len() as int] == other_joined[user.len() as int]);
        } else if other.len() < user.len() {
            assert(user[other.len() as int] == joined[other.len() as int]);
        }
        assert(user == joined.take(user.len() as int));
        assert(other == other_joined.take(other.len() as int));
    }
}

/// As long as names can be told apart, a viewer can sign in with exactly the credentials that were
/// set, and then watches a stream if and only if their name is among those that may; otherwise they
/// are told that they are not authorised.  A viewer who does not sign in watches it if and only if
/// the anonymous role may.
pub proof fn law_reply_to_requests(
    auth: AuthState,
    credentials: Seq<(Seq<char>, Seq<char>)>,
    permitted: Seq<Seq<char>>,
    user: Seq<char>,
    pass: Seq<char>,
    role: Seq<char>,
)
    requires
        auth.roles_are_users(),
        auth.with_credentials(credentials).tells_apart(user, pass),
    ensures
        auth.with_credentials(credentials).signs_in(user, pass, role) <==> role == user && (
        auth.signs_in(user, pass, user) || credentials.contains((user, pass))),
        auth.with_credentials(credentials).signs_in(user, pass, role) ==> reply(
            granted(permitted),
            role,
        ) == (if permitted.contains(user) {
            Reply::Played
        } else {
            Reply::NotAuthorised
        }),
        auth.with_credentials(credentials).default_role == Some(ANONYMOUS@),
        reply(granted(permitted), ANONYMOUS@) == (if permitted.contains(ANONYMOUS@) {
            Reply::Played
        } else {
            Reply::NotAuthorised
        }),
{
    let after = auth.with_credentials(credentials);
    let entry = CredentialState { user, pass, role: user };
    law_reply_to_viewers(permitted, user);
    law_reply_to_viewers(permitted, ANONYMOUS@);
    law_roles_are_users(auth, credentials, Seq::empty(), ClientAuth::Ignored);
    assert(auth.tells_apart(user, pass)) by {
        assert forall|i: int|
            0 <= i < auth.credentials.len() && joined_credential(
                (#[trigger] auth.credentials[i]).user,
                auth.credentials[i].pass,
            ) == joined_credential(user, pass) implies auth.credentials[i].user == user by {
            assert(after.credentials[i] == auth.credentials[i]);
        }
    }
    lemma_signs_in(auth, user, pass, user);
    lemma_signs_in(after, user, pass, role);
    if auth.credentials.contains(entry) {
        let k = choose|k: int| 0 <= k < auth.credentials.len() && auth.credentials[k] == entry;
        assert(after.credentials[k] == entry);
    }
    if credentials.contains((user, pass)) {
        let k = choose|k: int| 0 <= k < credentials.len() && credentials[k] == (user, pass);
        assert(after.credentials[auth.credentials.len() + k] == entry);
    }
    if after.credentials.contains(entry) {
        let k = choose|k: int| 0 <= k < after.credentials.len() && after.credentials[k] == entry;
        if k < auth.credentials.len() {
            assert(auth.credentials[k] == entry);
        } else {
            assert(credentials[k - auth.credentials.len()] == (user, pass));
        }
    }
}

/// The outputs of a new stream that `permitted` may watch.
pub open spec fn new_outputs(permitted: Seq<Seq<char>>) -> OutputsState {
    OutputsState {
        video_format: None,
        audio_format: None,
        factory: FactoryState {
            launch: launch_text(None, None),
            roles: granted(permitted),
            shared: true,
            clock_and_offset: true,
        },
    }
}

/// A stream that a server serves.
pub struct ServedStream {
    /// The paths that it was added under.
    pub paths: Seq<Seq<char>>,
    pub outputs: OutputsState,
}

/// The streams of a server once one more has been added.
pub open spec fn with_stream(
    streams: Seq<ServedStream>,
    paths: Seq<Seq<char>>,
    permitted: Seq<Seq<char>>,
) -> Seq<ServedStream> {
    streams.push(ServedStream { paths, outputs: new_outputs(permitted) })
}

/// The streams of a server once the `n`th is known to have `format`.
pub open spec fn with_stream_format(
    streams: Seq<ServedStream>,
    n: int,
    format: Option<StreamFormat>,
) -> Seq<ServedStream> {
    streams.update(
        n,
        ServedStream { outputs: streams[n].outputs.with_format(format), ..streams[n] },
    )
}

/// Which of the streams, in the order in which they were added, is served under `path`: the last
/// one that was added under it.
pub open spec fn stream_at(streams: Seq<ServedStream>, path: Seq<char>) -> Option<int>
    decreases streams.len(),
{
    if streams.len() == 0 {
        None
    } else if streams.last().paths.contains(path) {
        Some(streams.len() - 1)
    } else {
        stream_at(streams.drop_last(), path)
    }
}

/// Two streams of a server have nothing to do with each other: each is watched by those whom it was
/// added for, and what becomes known of one leaves the other as it is.  A path that both were added
/// under serves the later one, and any other path serves what it did.
pub proof fn law_streams_are_separate(
    streams: Seq<ServedStream>,
    first_paths: Seq<Seq<char>>,
    first_users: Seq<Seq<char>>,
    second_paths: Seq<Seq<char>>,
    second_users: Seq<Seq<char>>,
    format: Option<StreamFormat>,
    path: Seq<char>,
)
    ensures
        ({
            let n = streams.len() as int;
            let before = with_stream(streams, first_paths, first_users);
            let both = with_stream(before, second_paths, second_users);
            let first_told = with_stream_format(both, n, format);
            let second_told = with_stream_format(both, n + 1, format);
            &&& first_told[n].outputs.factory.roles == granted(first_users)
            &&& second_told[n + 1].outputs.factory.roles == granted(second_users)
            &&& first_told[n + 1] == both[n + 1]
            &&& second_told[n] == both[n]
            &&& second_paths.contains(path) ==> stream_at(both, path) == Some(n + 1)
            &&& !second_paths.contains(path) ==> stream_at(both, path) == stream_at(before, path)
            &&& first_paths.contains(path) && !second_paths.contains(path) ==> stream_at(both, path)
                == Some(n)
        }),
{
    let before = with_stream(streams, first_paths, first_users);
    let both = with_stream(before, second_paths, second_users);
    assert(both.drop_last() == before);
    assert(before.drop_last() == streams);
}

/// The contents of the settings are what their fields hold, one for one.
pub proof fn law_auth_state_is_the_settings(auth: Auth)
    ensures
        auth@.basic == auth.basic,
        auth@.default_role is Some <==> auth.default_role is Some,
        auth.default_role is Some ==> auth@.default_role->0 == auth.default_role->0@,
        auth@.credentials.len() == auth.credentials@.len(),
        forall|i: int|
            0 <= i < auth.credentials@.len() ==> (#[trigger] auth@.credentials[i]).user
                == auth.credentials@[i].user@ && auth@.credentials[i].pass
                == auth.credentials@[i].pass@ && auth@.credentials[i].role
                == auth.credentials@[i].role@,
        auth@.tls is Some <==> auth.tls is Some,
        auth.tls is Some ==> auth@.tls->0.certificate == auth.tls->0.certificate@
            && auth@.tls->0.client_auth == auth.tls->0.client_auth,
{
}

/// Names with passwords keep their places and their contents.
pub proof fn law_pairs_one_for_one(credentials: Seq<(&str, &str)>)
    ensures
        pairs(credentials).len() == credentials.len(),
        forall|i: int|
            0 <= i < credentials.len() ==> (#[trigger] pairs(credentials)[i]).0
                == credentials[i].0@ && pairs(credentials)[i].1 == credentials[i].1@,
{
}

/// Of a server of which nothing has been said, nobody can sign in, and nothing is encrypted;
/// otherwise what has been said holds.
pub proof fn law_what_was_said_holds(state: ServerState)
    ensures
        state.auth is Some ==> state.auth_or_new() == state.auth->0,
        state.auth is None ==> {
            &&& !state.auth_or_new().basic
            &&& state.auth_or_new().default_role is None
            &&& state.auth_or_new().credentials.len() == 0
            &&& state.auth_or_new().tls is None
        },
{
}

/// Credentials that are set come after those that there are, each with its own name and password
/// and with the name as its role.  Viewers sign in by the basic method, and are anonymous until
/// they do.  Encryption stays as it is.
pub proof fn law_credentials_are_kept_in_full(
    auth: AuthState,
    credentials: Seq<(Seq<char>, Seq<char>)>,
)
    ensures
        ({
            let after = auth.with_credentials(credentials);
            let known = auth.credentials.len() as int;
            &&& after.basic
            &&& after.default_role == Some("anonymous"@)
            &&& after.tls == auth.tls
            &&& after.credentials.len() == known + credentials.len()
            &&& forall|i: int|
                0 <= i < known ==> #[trigger] after.credentials[i] == auth.credentials[i]
            &&& forall|i: int|
                #![trigger credentials[i]]
                0 <= i < credentials.len() ==> after.credentials[known + i].user == credentials[i].0
                    && after.credentials[known + i].pass == credentials[i].1
                    && after.credentials[known + i].role == credentials[i].0
        }),
{
}

/// The certificate and the mode that are set are the ones that hold then, whatever was set before
/// and whichever mode it is.  Signing in stays as it is.
pub proof fn law_tls_is_kept_in_full(
    auth: AuthState,
    certificate: Seq<char>,
    client_auth: ClientAuth,
)
    ensures
        auth.with_tls(certificate, client_auth).tls is Some,
        auth.with_tls(certificate, client_auth).tls->0.certificate == certificate,
        auth.with_tls(certificate, client_auth).tls->0.client_auth == client_auth,
        auth.with_tls(certificate, client_auth).basic == auth.basic,
        auth.with_tls(certificate, client_auth).default_role == auth.default_role,
        auth.with_tls(certificate, client_auth).credentials == auth.credentials,
{
}

/// What a viewer sends to sign in begins with the name, goes on with a colon, and ends with the
/// password.
pub proof fn law_joined_credential_has_both(user: Seq<char>, pass: Seq<char>)
    ensures
        joined_credential(user, pass).len() == user.len() + 1 + pass.len(),
        joined_credential(user, pass).take(user.len() as int) == user,
        joined_credential(user, pass)[user.len() as int] == ':',
        joined_credential(user, pass).skip(user.len() + 1int) == pass,
{
}

/// The role of a viewer is that of the last credential that comes out as what they send, and
/// without one they have none.
pub proof fn law_last_credential_decides(
    auth: AuthState,
    user: Seq<char>,
    pass: Seq<char>,
    role: Seq<char>,
    at: int,
)
    ensures
        0 <= at < auth.credentials.len() && auth.credentials[at].user == user
            && auth.credentials[at].pass == pass && (forall|j: int|
            at < j < auth.credentials.len() ==> joined_credential(
                (#[trigger] auth.credentials[j]).user,
                auth.credentials[j].pass,
            ) != joined_credential(user, pass)) ==> (auth.signs_in(user, pass, role) <==> role
            == auth.credentials[at].role),
        (forall|j: int|
            0 <= j < auth.credentials.len() ==> joined_credential(
                (#[trigger] auth.credentials[j]).user,
                auth.credentials[j].pass,
            ) != joined_credential(user, pass)) ==> !auth.signs_in(user, pass, role),
    decreases auth.credentials.len(),
{
    if auth.credentials.len() > 0 {
        let before = AuthState { credentials: auth.credentials.drop_last(), ..auth };
        assert(auth.credentials[auth.credentials.len() - 1] == auth.credentials.last());
        assert(forall|j: int|
            0 <= j < before.credentials.len() ==> #[trigger] before.credentials[j]
                == auth.credentials[j]);
        law_last_credential_decides(before, user, pass, role, at);
    }
}

/// Whoever may watch it and however many they are, a new stream has one pipeline for all viewers,
/// publishes the clock and its offset, and throws its data away until an encoding is known.
pub proof fn law_new_stream_is_shared(permitted: Seq<Seq<char>>)
    ensures
        new_outputs(permitted).wf(),
        new_outputs(permitted).video_format is None,
        new_outputs(permitted).audio_format is None,
        new_outputs(permitted).factory.shared,
        new_outputs(permitted).factory.clock_and_offset,
        new_outputs(permitted).factory.launch == "( "@ + " "@ + VIDEO_ELEMENT@ + " "@
            + "! fakesink"@ + " "@ + AUDIO_ELEMENT@ + " "@ + "! fakesink"@ + " "@ + ")"@,
        forall|name: Seq<char>|
            reply(new_outputs(permitted).factory.roles, name) is Played <==> #[trigger] permitted.contains(
                name,
            ),
{
    law_pipeline_consists_of_its_pieces(None, None);
    assert forall|name: Seq<char>|
        reply(new_outputs(permitted).factory.roles, name) is Played
            <==> #[trigger] permitted.contains(name) by {
        law_reply_to_viewers(permitted, name);
    }
}

/// A path serves the last stream that was added under it, and one that no stream was added under
/// serves none.
pub proof fn law_path_serves_last_stream(streams: Seq<ServedStream>, path: Seq<char>, n: int)
    ensures
        stream_at(streams, path) == Some(n) <==> 0 <= n < streams.len()
            && streams[n].paths.contains(path) && forall|j: int|
            n < j < streams.len() ==> !(#[trigger] streams[j]).paths.contains(path),
        stream_at(streams, path) is None <==> forall|j: int|
            0 <= j < streams.len() ==> !(#[trigger] streams[j]).paths.contains(path),
    decreases streams.len(),
{
    if streams.len() > 0 {
        let before = streams.drop_last();
        assert(streams[streams.len() - 1] == streams.last());
        assert(forall|j: int|
            #![trigger before[j]]
            #![trigger streams[j]]
            0 <= j < before.len() ==> before[j] == streams[j]);
        law_path_serves_last_stream(before, path, n);
    }
}

} // verus!

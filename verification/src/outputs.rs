//! The outputs of one stream.

use vstd::prelude::*;

use crate::access::{role_states, Role, RoleState};
use crate::format::{law_encodings_decide_pipeline, launch_line, launch_text, StreamFormat};
use crate::source::{MaybeAppSrc, SourceState};

verus! {

/// The settings of what makes the pipelines of one stream.
pub struct MediaFactory {
    /// The description of the pipeline.
    pub launch: String,
    /// What viewers may do, role by role.
    pub roles: Vec<Role>,
    /// Whether all viewers share one pipeline.
    pub shared: bool,
    /// Whether the clock and its offset are published to viewers.
    pub clock_and_offset: bool,
}

/// The contents of a [`MediaFactory`].
pub struct FactoryState {
    pub launch: Seq<char>,
    pub roles: Seq<RoleState>,
    pub shared: bool,
    pub clock_and_offset: bool,
}

impl View for MediaFactory {
    type V = FactoryState;

    open spec fn view(&self) -> FactoryState {
        FactoryState {
            launch: self.launch@,
            roles: role_states(self.roles@),
            shared: self.shared,
            clock_and_offset: self.clock_and_offset,
        }
    }
}

/// The sinks for the data of one stream, and what is known of the stream.
#[verifier::reject_recursive_types(S)]
pub struct GstOutputs<S> {
    pub audsrc: MaybeAppSrc<S>,
    pub vidsrc: MaybeAppSrc<S>,
    pub settings: StreamSettings,
}

/// What is known of a stream.
pub struct StreamSettings {
    video_format: Option<StreamFormat>,
    audio_format: Option<StreamFormat>,
    factory: MediaFactory,
}

/// The contents of a [`StreamSettings`].
pub struct OutputsState {
    pub video_format: Option<StreamFormat>,
    pub audio_format: Option<StreamFormat>,
    pub factory: FactoryState,
}

impl<S> View for GstOutputs<S> {
    type V = OutputsState;

    open spec fn view(&self) -> OutputsState {
        self.settings@
    }
}

impl View for StreamSettings {
    type V = OutputsState;

    closed spec fn view(&self) -> OutputsState {
        OutputsState {
            video_format: self.video_format,
            audio_format: self.audio_format,
            factory: self.factory@,
        }
    }
}

impl OutputsState {
    /// The video encoding is one of pictures, the audio encoding one of sound, and the pipeline is
    /// the one that serves them.
    pub open spec fn wf(self) -> bool {
        &&& self.video_format is Some ==> self.video_format->0.is_video()
        &&& self.audio_format is Some ==> !self.audio_format->0.is_video()
        &&& self.factory.launch == launch_text(self.video_format, self.audio_format)
    }

    /// The state once the camera is known to send `format`.
    pub open spec fn with_format(self, format: Option<StreamFormat>) -> Self {
        let video_format = if format is Some && format->0.is_video() {
            format
        } else {
            self.video_format
        };
        let audio_format = if format is Some && !format->0.is_video() {
            format
        } else {
            self.audio_format
        };
        OutputsState {
            video_format,
            audio_format,
            factory: FactoryState {
                launch: launch_text(video_format, audio_format),
                ..self.factory
            },
        }
    }
}

impl<S> GstOutputs<S> {
    /// Makes the outputs of a stream of which no encoding is known yet, so that its data is thrown
    /// away.
    pub fn from_appsrcs(vidsrc: MaybeAppSrc<S>, audsrc: MaybeAppSrc<S>) -> (res: GstOutputs<S>)
        ensures
            res@.wf(),
            res.vidsrc == vidsrc,
            res.audsrc == audsrc,
            res@ == (OutputsState {
                video_format: None,
                audio_format: None,
                factory: FactoryState {
                    launch: launch_text(None, None),
                    roles: Seq::empty(),
                    shared: false,
                    clock_and_offset: false,
                },
            }),
    {
        let mut result = GstOutputs {
            vidsrc,
            audsrc,
            settings: StreamSettings {
                video_format: None,
                audio_format: None,
                factory: MediaFactory {
                    launch: String::new(),
                    roles: Vec::new(),
                    shared: false,
                    clock_and_offset: false,
                },
            },
        };
        result.apply_format();
        assert(result@.factory.roles == Seq::<RoleState>::empty());
        result
    }

    /// The settings of what makes the pipelines of the stream.
    pub fn factory(&self) -> (factory: &MediaFactory)
        ensures
            factory@ == self@.factory,
            factory.launch@ == self@.factory.launch,
            factory.shared == self@.factory.shared,
            factory.clock_and_offset == self@.factory.clock_and_offset,
            role_states(factory.roles@) == self@.factory.roles,
    {
        &self.settings.factory
    }

    /// The same settings, to be changed.
    pub(crate) fn factory_mut(&mut self) -> (factory: &mut MediaFactory)
        ensures
            factory@ == old(self)@.factory,
            final(self)@ == (OutputsState { factory: final(factory)@, ..old(self)@ }),
            final(self).vidsrc == old(self).vidsrc,
            final(self).audsrc == old(self).audsrc,
    {
        &mut self.settings.factory
    }

    /// Notes that the camera sends `format`.  Returns whether this is news, in which case the
    /// pipeline is described anew.
    pub fn set_format(&mut self, format: Option<StreamFormat>) -> (changed: bool)
        requires
            old(self)@.wf(),
        ensures
            final(self)@.wf(),
            final(self)@ == old(self)@.with_format(format),
            final(self)@.video_format == (if format == Some(StreamFormat::H264) || format == Some(
                StreamFormat::H265,
            ) {
                format
            } else {
                old(self)@.video_format
            }),
            final(self)@.audio_format == (if format == Some(StreamFormat::AAC) || format == Some(
                StreamFormat::ADPCM,
            ) {
                format
            } else {
                old(self)@.audio_format
            }),
            final(self)@.factory.roles == old(self)@.factory.roles,
            final(self)@.factory.shared == old(self)@.factory.shared,
            final(self)@.factory.clock_and_offset == old(self)@.factory.clock_and_offset,
            final(self).vidsrc == old(self).vidsrc,
            final(self).audsrc == old(self).audsrc,
            changed == (format is Some && format != old(self)@.video_format && format != old(
                self,
            )@.audio_format),
            changed == (final(self)@.factory.launch != old(self)@.factory.launch),
    {
        proof {
            law_encodings_decide_pipeline(
                old(self)@.video_format,
                old(self)@.audio_format,
                old(self)@.with_format(format).video_format,
                old(self)@.with_format(format).audio_format,
            );
        }
        match format {
            Some(StreamFormat::H264) | Some(StreamFormat::H265) => {
                if format != self.settings.video_format {
                    self.settings.video_format = format;
                    self.apply_format();
                    return true;
                }
            },
            Some(StreamFormat::AAC) | Some(StreamFormat::ADPCM) => {
                if format != self.settings.audio_format {
                    self.settings.audio_format = format;
                    self.apply_format();
                    return true;
                }
            },
            None => {},
        }
        false
    }

    /// Describes the pipeline that serves the present encodings.
    fn apply_format(&mut self)
        ensures
            final(self)@ == (OutputsState {
                factory: FactoryState {
                    launch: launch_text(old(self)@.video_format, old(self)@.audio_format),
                    ..old(self)@.factory
                },
                ..old(self)@
            }),
            final(self).vidsrc == old(self).vidsrc,
            final(self).audsrc == old(self).audsrc,
    {
        self.settings.factory.launch = launch_line(self.settings.video_format, self.settings.audio_format);
    }

    /// Sets the time of the data to come, for sound and pictures alike, if it is known.
    pub fn set_timestamp(&mut self, timestamp: Option<u64>)
        ensures
            final(self)@ == old(self)@,
            timestamp is Some ==> final(self).audsrc@ == old(self).audsrc@.with_timestamp(
                timestamp,
            ) && final(self).vidsrc@ == old(self).vidsrc@.with_timestamp(timestamp),
            timestamp is Some ==> final(self).audsrc@.timestamp == timestamp && final(self).vidsrc@.timestamp == timestamp,
            timestamp is Some && old(self).audsrc@.basetime is Some ==> final(self).audsrc@.basetime
                == old(self).audsrc@.basetime,
            timestamp is Some && old(self).vidsrc@.basetime is Some ==> final(self).vidsrc@.basetime
                == old(self).vidsrc@.basetime,
            final(self).audsrc@.app_src == old(self).audsrc@.app_src,
            final(self).vidsrc@.app_src == old(self).vidsrc@.app_src,
            final(self).audsrc.answers() == old(self).audsrc.answers(),
            final(self).vidsrc.answers() == old(self).vidsrc.answers(),
            timestamp is None ==> final(self).audsrc == old(self).audsrc && final(self).vidsrc
                == old(self).vidsrc,
    {
        if timestamp.is_some() {
            self.audsrc.set_timestamp(timestamp);
            self.vidsrc.set_timestamp(timestamp);
        }
    }
}

/// Sound and pictures can have encodings side by side: the order in which they become known does
/// not matter.
pub proof fn law_video_and_audio_are_independent(
    state: OutputsState,
    video: StreamFormat,
    audio: StreamFormat,
)
    requires
        video.is_video(),
        !audio.is_video(),
    ensures
        state.with_format(Some(video)).with_format(Some(audio)) == state.with_format(
            Some(audio),
        ).with_format(Some(video)),
        state.with_format(Some(video)).with_format(Some(audio)).video_format == Some(video),
        state.with_format(Some(video)).with_format(Some(audio)).audio_format == Some(audio),
{
}

/// To be told the same encoding again changes nothing, nor does to be told none.
pub proof fn law_known_format_changes_nothing(state: OutputsState, format: Option<StreamFormat>)
    requires
        state.wf(),
    ensures
        state.with_format(format).with_format(format) == state.with_format(format),
        state.with_format(None) == state,
{
}

/// Sound and pictures whose sources came at the same moment get the same presentation times.
pub proof fn law_sound_and_pictures_stay_together<S>(
    audio: SourceState<S>,
    video: SourceState<S>,
    timestamp: u64,
)
    requires
        audio.basetime == video.basetime,
    ensures
        audio.with_timestamp(Some(timestamp)).basetime == video.with_timestamp(
            Some(timestamp),
        ).basetime,
        audio.with_timestamp(Some(timestamp)).pts() == video.with_timestamp(Some(timestamp)).pts(),
{
}

/// The contents of the settings are what their fields hold.
pub proof fn law_factory_state_is_the_settings(factory: MediaFactory)
    ensures
        factory@.launch == factory.launch@,
        factory@.roles == role_states(factory.roles@),
        factory@.shared == factory.shared,
        factory@.clock_and_offset == factory.clock_and_offset,
{
}

/// An encoding that becomes known replaces the one of its own kind and leaves the other alone; the
/// pipeline follows both, and no other setting changes.
pub proof fn law_format_replaces_its_own_kind(state: OutputsState, format: Option<StreamFormat>)
    ensures
        format == Some(StreamFormat::H264) || format == Some(StreamFormat::H265) ==> {
            &&& state.with_format(format).video_format == format
            &&& state.with_format(format).audio_format == state.audio_format
        },
        format == Some(StreamFormat::AAC) || format == Some(StreamFormat::ADPCM) ==> {
            &&& state.with_format(format).audio_format == format
            &&& state.with_format(format).video_format == state.video_format
        },
        format is None ==> {
            &&& state.with_format(format).video_format == state.video_format
            &&& state.with_format(format).audio_format == state.audio_format
        },
        state.with_format(format).factory.launch == launch_text(
            state.with_format(format).video_format,
            state.with_format(format).audio_format,
        ),
        state.with_format(format).factory.roles == state.factory.roles,
        state.with_format(format).factory.shared == state.factory.shared,
        state.with_format(format).factory.clock_and_offset == state.factory.clock_and_offset,
{
}

/// The encodings of well-formed outputs are of the right kinds, and the pipeline is theirs; any
/// encoding that becomes known keeps it so.
pub proof fn law_outputs_stay_well_formed(state: OutputsState, format: Option<StreamFormat>)
    requires
        state.wf(),
    ensures
        state.with_format(format).wf(),
        state.video_format is None || state.video_format == Some(StreamFormat::H264)
            || state.video_format == Some(StreamFormat::H265),
        state.audio_format is None || state.audio_format == Some(StreamFormat::AAC)
            || state.audio_format == Some(StreamFormat::ADPCM),
        state.factory.launch == launch_text(state.video_format, state.audio_format),
{
}

} // verus!

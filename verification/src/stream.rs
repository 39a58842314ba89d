//! Running one stream through a codec: what to do on each event that the
//! codec sends.
//!
//! The codec is driven from outside. Here it is decided, event by event, what
//! is asked of it next and what is recorded of its output, and when the stream
//! is over.

use vstd::prelude::*;

verus! {

/// How a stream is run.
#[derive(Clone, Copy, Debug, PartialEq, Eq)]
pub struct StreamOptions {
    /// Whether format details are queued for the stream before its input. If
    /// not, the stream has the format details that its codec was made with.
    pub queue_format_details: bool,
    pub release_input_buffers_at_end: bool,
    pub release_output_buffers_at_end: bool,
}

impl StreamOptions {
    /// The usual options: format details are queued, and buffers are kept.
    pub fn default() -> (options: StreamOptions)
        ensures
            options == (StreamOptions {
                queue_format_details: true,
                release_input_buffers_at_end: false,
                release_output_buffers_at_end: false,
            }),
    {
        StreamOptions {
            queue_format_details: true,
            release_input_buffers_at_end: false,
            release_output_buffers_at_end: false,
        }
    }
}

/// Whether the stream goes on after an event.
#[derive(Clone, Copy, Debug, PartialEq, Eq, Structural)]
pub enum StreamControlFlow {
    Continue,
    Stop,
}

/// What the codec sends, as far as the stream's course depends on it.
#[derive(Clone, Copy, Debug, PartialEq, Eq)]
pub enum StreamEvent {
    /// The codec says what input buffers it needs.
    InputConstraints,
    /// The codec says what output buffers it needs, and whether buffers must
    /// be set up anew for that.
    OutputConstraints { buffer_constraints_action_required: bool },
    /// The codec is done with an input packet.
    FreeInputPacket,
    /// The codec says what format its output has.
    OutputFormat { stream_lifetime_ordinal: u64 },
    /// The codec has filled an output packet.
    OutputPacket {
        error_detected_before: bool,
        error_detected_during: bool,
        buffer_lifetime_ordinal: u64,
        packet_index: u32,
    },
    /// The codec has put out all of the stream.
    OutputEndOfStream { stream_lifetime_ordinal: u64, error_detected_before: bool },
    /// Anything else.
    Other,
}

/// What is to be done on an event, step by step.
#[derive(Clone, Copy, Debug, PartialEq, Eq)]
pub enum StreamAction {
    /// Set up the input buffers, as the codec's constraints ask.
    AllocateInputBuffers,
    /// Set up the output buffers, as the codec's constraints ask.
    AllocateOutputBuffers,
    /// Tell the codec the format of the stream's input.
    QueueInputFormatDetails { stream_lifetime_ordinal: u64, format_details_version_ordinal: u64 },
    /// Begin to cut the stream into input packets.
    OpenInputPacketStream { stream_lifetime_ordinal: u64 },
    /// Hand the freed packet back to the input packets.
    AddFreePacket,
    /// Send the codec the next input packet, or the end of the stream, if
    /// either is ready.
    SendAvailableInput,
    /// Keep the format for the output packets to come.
    KeepOutputFormat,
    /// Read the packet from the output buffers and keep it with its format.
    KeepOutputPacket,
    /// Give the output packet back to the codec.
    RecycleOutputPacket { buffer_lifetime_ordinal: u64, packet_index: u32 },
    /// Note the end of the stream in the output.
    KeepEndOfStream { stream_lifetime_ordinal: u64 },
    /// Close the stream at the codec.
    CloseCurrentStream {
        stream_lifetime_ordinal: u64,
        release_input_buffers: bool,
        release_output_buffers: bool,
    },
    /// Wait until the codec has taken in all that was sent.
    Sync,
}

/// Why a stream cannot go on.
#[derive(Clone, Copy, Debug, PartialEq, Eq, Structural)]
pub enum FatalError {
    /// An output packet came before the output buffers were set up.
    NoOutputBufferSet,
    /// An output packet came before the output format was known.
    NoOutputFormat,
}

/// What is known of a stream while it runs.
#[derive(Clone, Copy, Debug, PartialEq, Eq)]
pub struct Stream {
    pub format_details_version_ordinal: u64,
    pub stream_lifetime_ordinal: u64,
    /// Whether the stream is being cut into input packets.
    pub has_input_packet_stream: bool,
    /// Whether output buffers are set up.
    pub has_output_buffer_set: bool,
    /// Whether the format of the output is known.
    pub has_output_format: bool,
    pub options: StreamOptions,
}

/// What the next input is.
#[derive(Clone, Copy, Debug, PartialEq, Eq, Structural)]
pub enum PacketPoll {
    /// A packet is ready to be sent.
    Ready,
    /// The input is at its end.
    Eos,
    /// No packet is free to carry input.
    NotReady,
}

/// What is sent to the codec.
#[derive(Clone, Copy, Debug, PartialEq, Eq)]
pub enum InputSend {
    QueueInputPacket,
    QueueInputEndOfStream { stream_lifetime_ordinal: u64 },
    Nothing,
}

/// The outcome of an event: what is to be done, and whether the stream goes on.
pub struct Outcome {
    pub actions: Seq<StreamAction>,
    pub flow: StreamControlFlow,
}

impl Stream {
    /// Whether the codec may send `event` in the stream's present state. An
    /// event that it may not send shows a fault of the codec: output with an
    /// error in it, output of another stream, or a freed packet of a stream
    /// that sent none.
    pub open spec fn admits(&self, event: StreamEvent) -> bool {
        match event {
            StreamEvent::FreeInputPacket => self.has_input_packet_stream,
            StreamEvent::OutputFormat { stream_lifetime_ordinal } => stream_lifetime_ordinal
                == self.stream_lifetime_ordinal,
            StreamEvent::OutputPacket { error_detected_before, error_detected_during, .. } =>
                !error_detected_before && !error_detected_during,
            StreamEvent::OutputEndOfStream { error_detected_before, .. } => !error_detected_before,
            _ => true,
        }
    }

    /// What is to be done to start the stream.
    pub open spec fn start_plan(&self) -> Seq<StreamAction> {
        if self.options.queue_format_details && self.has_input_packet_stream {
            seq![
                StreamAction::QueueInputFormatDetails {
                    stream_lifetime_ordinal: self.stream_lifetime_ordinal,
                    format_details_version_ordinal: self.format_details_version_ordinal,
                },
                StreamAction::SendAvailableInput,
            ]
        } else {
            seq![StreamAction::SendAvailableInput]
        }
    }

    /// What is to be done on `event`, or why the stream cannot go on.
    pub open spec fn plan(&self, event: StreamEvent) -> Result<Outcome, FatalError> {
        match event {
            StreamEvent::InputConstraints => Ok(
                Outcome {
                    actions: seq![
                        StreamAction::AllocateInputBuffers,
                        StreamAction::QueueInputFormatDetails {
                            stream_lifetime_ordinal: self.stream_lifetime_ordinal,
                            format_details_version_ordinal: self.format_details_version_ordinal,
                        },
                        StreamAction::OpenInputPacketStream {
                            stream_lifetime_ordinal: self.stream_lifetime_ordinal,
                        },
                        StreamAction::SendAvailableInput,
                    ],
                    flow: StreamControlFlow::Continue,
                },
            ),
            StreamEvent::OutputConstraints { buffer_constraints_action_required } => Ok(
                Outcome {
                    actions: if buffer_constraints_action_required {
                        seq![StreamAction::AllocateOutputBuffers]
                    } else {
                        Seq::empty()
                    },
                    flow: StreamControlFlow::Continue,
                },
            ),
            StreamEvent::FreeInputPacket => Ok(
                Outcome {
                    actions: seq![StreamAction::AddFreePacket, StreamAction::SendAvailableInput],
                    flow: StreamControlFlow::Continue,
                },
            ),
            StreamEvent::OutputFormat { .. } => Ok(
                Outcome {
                    actions: seq![StreamAction::KeepOutputFormat],
                    flow: StreamControlFlow::Continue,
                },
            ),
            StreamEvent::OutputPacket { buffer_lifetime_ordinal, packet_index, .. } => {
                if !self.has_output_buffer_set {
                    Err(FatalError::NoOutputBufferSet)
                } else if !self.has_output_format {
                    Err(FatalError::NoOutputFormat)
                } else {
                    Ok(
                        Outcome {
                            actions: seq![
                                StreamAction::KeepOutputPacket,
                                StreamAction::RecycleOutputPacket {
                                    buffer_lifetime_ordinal,
                                    packet_index,
                                },
                            ],
                            flow: StreamControlFlow::Continue,
                        },
                    )
                }
            },
            StreamEvent::OutputEndOfStream { stream_lifetime_ordinal, .. } => Ok(
                Outcome {
                    actions: seq![
                        StreamAction::KeepEndOfStream { stream_lifetime_ordinal },
                        StreamAction::CloseCurrentStream {
                            stream_lifetime_ordinal: self.stream_lifetime_ordinal,
                            release_input_buffers: self.options.release_input_buffers_at_end,
                            release_output_buffers: self.options.release_output_buffers_at_end,
                        },
                        StreamAction::Sync,
                    ],
                    flow: StreamControlFlow::Stop,
                },
            ),
            StreamEvent::Other => Ok(
                Outcome { actions: Seq::empty(), flow: StreamControlFlow::Continue },
            ),
        }
    }

    /// The stream's state after `event`, where the event's plan was carried
    /// out.
    pub open spec fn after(&self, event: StreamEvent) -> Stream {
        match event {
            StreamEvent::InputConstraints => Stream { has_input_packet_stream: true, ..*self },
            StreamEvent::OutputConstraints { buffer_constraints_action_required } => Stream {
                has_output_buffer_set: self.has_output_buffer_set
                    || buffer_constraints_action_required,
                ..*self
            },
            StreamEvent::OutputFormat { .. } => Stream { has_output_format: true, ..*self },
            _ => *self,
        }
    }

    /// Whether the codec may send `event` in the stream's present state.
    pub fn accepts(&self, event: StreamEvent) -> (admitted: bool)
        ensures
            admitted == self.admits(event),
    {
        match event {
            StreamEvent::FreeInputPacket => self.has_input_packet_stream,
            StreamEvent::OutputFormat { stream_lifetime_ordinal } => stream_lifetime_ordinal
                == self.stream_lifetime_ordinal,
            StreamEvent::OutputPacket { error_detected_before, error_detected_during, .. } =>
                !error_detected_before && !error_detected_during,
            StreamEvent::OutputEndOfStream { error_detected_before, .. } => !error_detected_before,
            _ => true,
        }
    }

    /// A stream that has not started: nothing is set up yet.
    pub fn new(
        stream_lifetime_ordinal: u64,
        format_details_version_ordinal: u64,
        options: StreamOptions,
    ) -> (stream: Stream)
        ensures
            stream == (Stream {
                format_details_version_ordinal,
                stream_lifetime_ordinal,
                has_input_packet_stream: false,
                has_output_buffer_set: false,
                has_output_format: false,
                options,
            }),
    {
        Stream {
            format_details_version_ordinal,
            stream_lifetime_ordinal,
            has_input_packet_stream: false,
            has_output_buffer_set: false,
            has_output_format: false,
            options,
        }
    }

    /// Says what is to be done to start the stream: the format details are
    /// queued where the options ask for it and input packets can be sent
    /// already, and the input that is ready is sent.
    pub fn start(&self) -> (actions: Vec<StreamAction>)
        ensures
            actions@ == self.start_plan(),
    {
        let mut actions: Vec<StreamAction> = Vec::new();
        if self.options.queue_format_details && self.has_input_packet_stream {
            actions.push(
                StreamAction::QueueInputFormatDetails {
                    stream_lifetime_ordinal: self.stream_lifetime_ordinal,
                    format_details_version_ordinal: self.format_details_version_ordinal,
                },
            );
        }
        actions.push(StreamAction::SendAvailableInput);
        assert(actions@ =~= self.start_plan());
        actions
    }

    /// Says what is to be done on `event` and whether the stream goes on, and
    /// notes what the event sets up.
    pub fn handle_event(&mut self, event: StreamEvent) -> (handled: Result<
        (Vec<StreamAction>, StreamControlFlow),
        FatalError,
    >)
        requires
            old(self).admits(event),
        ensures
            match handled {
                Ok((actions, flow)) => {
                    &&& old(self).plan(event) == Ok::<Outcome, FatalError>(
                        Outcome { actions: actions@, flow },
                    )
                    &&& *final(self) == old(self).after(event)
                },
                Err(error) => {
                    &&& old(self).plan(event) == Err::<Outcome, FatalError>(error)
                    &&& *final(self) == *old(self)
                },
            },
    {
        let mut actions: Vec<StreamAction> = Vec::new();
        match event {
            StreamEvent::InputConstraints => {
                actions.push(StreamAction::AllocateInputBuffers);
                actions.push(
                    StreamAction::QueueInputFormatDetails {
                        stream_lifetime_ordinal: self.stream_lifetime_ordinal,
                        format_details_version_ordinal: self.format_details_version_ordinal,
                    },
                );
                actions.push(
                    StreamAction::OpenInputPacketStream {
                        stream_lifetime_ordinal: self.stream_lifetime_ordinal,
                    },
                );
                actions.push(StreamAction::SendAvailableInput);
                self.has_input_packet_stream = true;
            },
            StreamEvent::OutputConstraints { buffer_constraints_action_required } => {
                if buffer_constraints_action_required {
                    actions.push(StreamAction::AllocateOutputBuffers);
                    self.has_output_buffer_set = true;
                }
            },
            StreamEvent::FreeInputPacket => {
                actions.push(StreamAction::AddFreePacket);
                actions.push(StreamAction::SendAvailableInput);
            },
            StreamEvent::OutputFormat { .. } => {
                actions.push(StreamAction::KeepOutputFormat);
                self.has_output_format = true;
            },
            StreamEvent::OutputPacket { buffer_lifetime_ordinal, packet_index, .. } => {
                if !self.has_output_buffer_set {
                    return Err(FatalError::NoOutputBufferSet);
                }
                if !self.has_output_format {
                    return Err(FatalError::NoOutputFormat);
                }
                actions.push(StreamAction::KeepOutputPacket);
                actions.push(
                    StreamAction::RecycleOutputPacket { buffer_lifetime_ordinal, packet_index },
                );
            },
            StreamEvent::OutputEndOfStream { stream_lifetime_ordinal, .. } => {
                actions.push(StreamAction::KeepEndOfStream { stream_lifetime_ordinal });
                actions.push(
                    StreamAction::CloseCurrentStream {
                        stream_lifetime_ordinal: self.stream_lifetime_ordinal,
                        release_input_buffers: self.options.release_input_buffers_at_end,
                        release_output_buffers: self.options.release_output_buffers_at_end,
                    },
                );
                actions.push(StreamAction::Sync);
                assert(actions@ =~= old(self).plan(event)->Ok_0.actions);
                return Ok((actions, StreamControlFlow::Stop));
            },
            StreamEvent::Other => {},
        }
        assert(actions@ =~= old(self).plan(event)->Ok_0.actions);
        Ok((actions, StreamControlFlow::Continue))
    }

    /// Says what is sent to the codec, given what the next input is. Where the
    /// stream is not being cut into input packets yet, nothing is sent and
    /// `next` is not looked at.
    pub fn send_available_input(&self, next: PacketPoll) -> (send: InputSend)
        ensures
            send == if !self.has_input_packet_stream {
                InputSend::Nothing
            } else {
                match next {
                    PacketPoll::Ready => InputSend::QueueInputPacket,
                    PacketPoll::Eos => InputSend::QueueInputEndOfStream {
                        stream_lifetime_ordinal: self.stream_lifetime_ordinal,
                    },
                    PacketPoll::NotReady => InputSend::Nothing,
                }
            },
    {
        if !self.has_input_packet_stream {
            return InputSend::Nothing;
        }
        match next {
            PacketPoll::Ready => InputSend::QueueInputPacket,
            PacketPoll::Eos => InputSend::QueueInputEndOfStream {
                stream_lifetime_ordinal: self.stream_lifetime_ordinal,
            },
            PacketPoll::NotReady => InputSend::Nothing,
        }
    }
}

} // verus!

use component_runtime::stream::{
    FatalError, InputSend, PacketPoll, Stream, StreamAction, StreamControlFlow, StreamEvent,
    StreamOptions,
};

fn fresh() -> Stream {
    Stream::new(1, 3, StreamOptions::default())
}

#[test]
fn default_options_queue_format_details_and_keep_buffers() {
    let options = StreamOptions::default();
    assert!(options.queue_format_details);
    assert!(!options.release_input_buffers_at_end);
    assert!(!options.release_output_buffers_at_end);
}

#[test]
fn a_stream_without_input_packets_starts_by_waiting() {
    let stream = fresh();
    assert_eq!(stream.start(), vec![StreamAction::SendAvailableInput]);
    assert_eq!(stream.send_available_input(PacketPoll::Ready), InputSend::Nothing);
}

#[test]
fn a_stream_with_input_packets_starts_by_queueing_its_format() {
    let mut stream = fresh();
    stream.handle_event(StreamEvent::InputConstraints).unwrap();
    assert_eq!(
        stream.start(),
        vec![
            StreamAction::QueueInputFormatDetails {
                stream_lifetime_ordinal: 1,
                format_details_version_ordinal: 3
            },
            StreamAction::SendAvailableInput,
        ]
    );
    let mut quiet = Stream::new(
        1,
        3,
        StreamOptions { queue_format_details: false, ..StreamOptions::default() },
    );
    quiet.handle_event(StreamEvent::InputConstraints).unwrap();
    assert_eq!(quiet.start(), vec![StreamAction::SendAvailableInput]);
}

#[test]
fn input_constraints_set_up_the_input() {
    let mut stream = fresh();
    let (actions, flow) = stream.handle_event(StreamEvent::InputConstraints).unwrap();
    assert_eq!(
        actions,
        vec![
            StreamAction::AllocateInputBuffers,
            StreamAction::QueueInputFormatDetails {
                stream_lifetime_ordinal: 1,
                format_details_version_ordinal: 3
            },
            StreamAction::OpenInputPacketStream { stream_lifetime_ordinal: 1 },
            StreamAction::SendAvailableInput,
        ]
    );
    assert_eq!(flow, StreamControlFlow::Continue);
    assert!(stream.has_input_packet_stream);
    assert_eq!(stream.send_available_input(PacketPoll::Ready), InputSend::QueueInputPacket);
    assert_eq!(
        stream.send_available_input(PacketPoll::Eos),
        InputSend::QueueInputEndOfStream { stream_lifetime_ordinal: 1 }
    );
    assert_eq!(stream.send_available_input(PacketPoll::NotReady), InputSend::Nothing);
}

#[test]
fn output_buffers_are_set_up_only_where_the_codec_asks() {
    let mut stream = fresh();
    let (actions, flow) = stream
        .handle_event(StreamEvent::OutputConstraints { buffer_constraints_action_required: false })
        .unwrap();
    assert!(actions.is_empty());
    assert_eq!(flow, StreamControlFlow::Continue);
    assert!(!stream.has_output_buffer_set);
    let (actions, _) = stream
        .handle_event(StreamEvent::OutputConstraints { buffer_constraints_action_required: true })
        .unwrap();
    assert_eq!(actions, vec![StreamAction::AllocateOutputBuffers]);
    assert!(stream.has_output_buffer_set);
}

fn packet() -> StreamEvent {
    StreamEvent::OutputPacket {
        error_detected_before: false,
        error_detected_during: false,
        buffer_lifetime_ordinal: 9,
        packet_index: 4,
    }
}

#[test]
fn an_output_packet_needs_buffers_and_a_format() {
    let mut stream = fresh();
    assert_eq!(stream.handle_event(packet()), Err(FatalError::NoOutputBufferSet));
    stream
        .handle_event(StreamEvent::OutputConstraints { buffer_constraints_action_required: true })
        .unwrap();
    assert_eq!(stream.handle_event(packet()), Err(FatalError::NoOutputFormat));
    let (actions, _) =
        stream.handle_event(StreamEvent::OutputFormat { stream_lifetime_ordinal: 1 }).unwrap();
    assert_eq!(actions, vec![StreamAction::KeepOutputFormat]);
    let (actions, flow) = stream.handle_event(packet()).unwrap();
    assert_eq!(
        actions,
        vec![
            StreamAction::KeepOutputPacket,
            StreamAction::RecycleOutputPacket { buffer_lifetime_ordinal: 9, packet_index: 4 },
        ]
    );
    assert_eq!(flow, StreamControlFlow::Continue);
}

#[test]
fn a_freed_packet_is_used_again() {
    let mut stream = fresh();
    stream.handle_event(StreamEvent::InputConstraints).unwrap();
    let (actions, flow) = stream.handle_event(StreamEvent::FreeInputPacket).unwrap();
    assert_eq!(actions, vec![StreamAction::AddFreePacket, StreamAction::SendAvailableInput]);
    assert_eq!(flow, StreamControlFlow::Continue);
}

#[test]
fn the_end_of_the_output_stops_the_stream() {
    let mut stream = Stream::new(
        5,
        3,
        StreamOptions {
            queue_format_details: true,
            release_input_buffers_at_end: true,
            release_output_buffers_at_end: false,
        },
    );
    let before = stream;
    let (actions, flow) = stream
        .handle_event(StreamEvent::OutputEndOfStream {
            stream_lifetime_ordinal: 7,
            error_detected_before: false,
        })
        .unwrap();
    assert_eq!(
        actions,
        vec![
            StreamAction::KeepEndOfStream { stream_lifetime_ordinal: 7 },
            StreamAction::CloseCurrentStream {
                stream_lifetime_ordinal: 5,
                release_input_buffers: true,
                release_output_buffers: false
            },
            StreamAction::Sync,
        ]
    );
    assert_eq!(flow, StreamControlFlow::Stop);
    assert_eq!(stream, before);
}

#[test]
fn other_events_change_nothing() {
    let mut stream = fresh();
    let (actions, flow) = stream.handle_event(StreamEvent::Other).unwrap();
    assert!(actions.is_empty());
    assert_eq!(flow, StreamControlFlow::Continue);
    assert_eq!(stream, fresh());
}

#[test]
fn faulty_events_are_not_accepted() {
    let mut stream = fresh();
    assert!(!stream.accepts(StreamEvent::FreeInputPacket));
    stream.handle_event(StreamEvent::InputConstraints).unwrap();
    assert!(stream.accepts(StreamEvent::FreeInputPacket));
    assert!(stream.accepts(StreamEvent::OutputFormat { stream_lifetime_ordinal: 1 }));
    assert!(!stream.accepts(StreamEvent::OutputFormat { stream_lifetime_ordinal: 2 }));
    assert!(stream.accepts(packet()));
    assert!(!stream.accepts(StreamEvent::OutputPacket {
        error_detected_before: true,
        error_detected_during: false,
        buffer_lifetime_ordinal: 9,
        packet_index: 4,
    }));
    assert!(!stream.accepts(StreamEvent::OutputPacket {
        error_detected_before: false,
        error_detected_during: true,
        buffer_lifetime_ordinal: 9,
        packet_index: 4,
    }));
    assert!(!stream.accepts(StreamEvent::OutputEndOfStream {
        stream_lifetime_ordinal: 1,
        error_detected_before: true,
    }));
    assert!(stream.accepts(StreamEvent::Other));
    assert!(stream.accepts(StreamEvent::InputConstraints));
}

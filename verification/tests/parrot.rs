use lib::parrot::{State, Status};
use lib::{RADIO_INVALID_ARGUMENT, RADIO_OK};

const RADIO_FRAME_COUNT_EXCEEDED: i32 = -3;

/// A radio's native-parrot entry points over one recorder: absent arguments
/// are `None`, and spans longer than the radio's maximum frame count are
/// refused before the recorder sees them.
struct Radio {
    parrot: State<f32>,
    maximum_frame_count: u32,
}

fn create_radio() -> Option<Radio> {
    Some(Radio { parrot: State::new(), maximum_frame_count: 4 })
}

fn radio_native_parrot_bind_f32(radio: Option<&mut Radio>, storage: Option<&[f32]>, capacity: u32) -> i32 {
    let (Some(radio), Some(storage)) = (radio, storage) else {
        return RADIO_INVALID_ARGUMENT;
    };
    match radio.parrot.bind(storage[..capacity as usize].to_vec()) {
        Ok(()) => RADIO_OK,
        Err(code) => code,
    }
}

fn radio_native_parrot_rx_transition(radio: &mut Radio, was: u32, is: u32, started: Option<&mut u32>) -> i32 {
    let Some(started) = started else {
        return RADIO_INVALID_ARGUMENT;
    };
    *started = u32::from(radio.parrot.rx_transition(was, is));
    RADIO_OK
}

fn radio_native_parrot_record_f32(
    radio: &mut Radio,
    input: Option<&[f32]>,
    frame_count: u32,
    limit: u32,
    recorded: &mut u32,
) -> i32 {
    *recorded = 0;
    if frame_count != 0 && input.is_none() {
        return RADIO_INVALID_ARGUMENT;
    }
    if frame_count > radio.maximum_frame_count {
        return RADIO_FRAME_COUNT_EXCEEDED;
    }
    let span = match input {
        Some(input) => &input[..frame_count as usize],
        None => &[],
    };
    match radio.parrot.record(span, limit) {
        Ok(count) => {
            *recorded = count;
            RADIO_OK
        }
        Err(code) => code,
    }
}

fn radio_native_parrot_play_f32(
    radio: &mut Radio,
    output: Option<&mut [f32]>,
    frame_count: u32,
    played: Option<&mut u32>,
) -> i32 {
    let Some(played) = played else {
        return RADIO_INVALID_ARGUMENT;
    };
    *played = 0;
    if frame_count > radio.maximum_frame_count {
        return RADIO_FRAME_COUNT_EXCEEDED;
    }
    match output {
        Some(output) => {
            let mut span = output[..frame_count as usize].to_vec();
            *played = radio.parrot.play(&mut span);
            output[..frame_count as usize].copy_from_slice(&span);
            RADIO_OK
        }
        None if frame_count == 0 => RADIO_OK,
        None => {
            if radio.parrot.status().playing == 0 {
                RADIO_OK
            } else {
                RADIO_INVALID_ARGUMENT
            }
        }
    }
}

fn radio_native_parrot_status(radio: Option<&Radio>, status: Option<&mut Status>) -> i32 {
    let (Some(radio), Some(status)) = (radio, status) else {
        return RADIO_INVALID_ARGUMENT;
    };
    *status = radio.parrot.status();
    RADIO_OK
}

fn radio_native_parrot_reset(radio: &mut Radio) -> i32 {
    radio.parrot.reset();
    RADIO_OK
}

#[test]
fn native_parrot_preserves_legacy_recording_playback_and_transition_behavior() {
    let mut radio = create_radio().unwrap();
    let storage = [0.0_f32; 6];
    let input = [0.125_f32, -0.25, 0.5, -0.75];
    let mut output = [-1.0_f32; 4];
    let mut playback_started = u32::MAX;
    let mut recorded = u32::MAX;
    let mut played = u32::MAX;
    let mut status = Status { recorded_samples: u64::MAX, playback_offset: u64::MAX, playing: u32::MAX, truncated: u32::MAX };

    assert_eq!(radio_native_parrot_bind_f32(Some(&mut radio), Some(&storage), storage.len() as u32), RADIO_OK);
    assert_eq!(radio_native_parrot_rx_transition(&mut radio, 0, 7, Some(&mut playback_started)), RADIO_OK);
    assert_eq!(playback_started, 0);
    assert_eq!(radio_native_parrot_record_f32(&mut radio, Some(&input), 4, 6, &mut recorded), RADIO_OK);
    assert_eq!(recorded, 4);
    assert_eq!(radio_native_parrot_status(Some(&radio), Some(&mut status)), RADIO_OK);
    assert_eq!(status.recorded_samples, 4);
    assert_eq!(status.playback_offset, 0);
    assert_eq!(status.playing, 0);
    assert_eq!(status.truncated, 0);

    assert_eq!(radio_native_parrot_rx_transition(&mut radio, 1, 0, Some(&mut playback_started)), RADIO_OK);
    assert_eq!(playback_started, 1);
    assert_eq!(radio_native_parrot_play_f32(&mut radio, Some(&mut output), 2, Some(&mut played)), RADIO_OK);
    assert_eq!(played, 2);
    assert_eq!(&output[..2], &input[..2]);
    assert_eq!(&output[2..], &[-1.0_f32; 2]);
    assert_eq!(radio_native_parrot_status(Some(&radio), Some(&mut status)), RADIO_OK);
    assert_eq!(status.playback_offset, 2);
    assert_eq!(status.playing, 1);

    assert_eq!(radio_native_parrot_play_f32(&mut radio, Some(&mut output[2..]), 2, Some(&mut played)), RADIO_OK);
    assert_eq!(played, 2);
    assert_eq!(output, input);
    assert_eq!(radio_native_parrot_status(Some(&radio), Some(&mut status)), RADIO_OK);
    assert_eq!(status.playback_offset, 4);
    assert_eq!(status.playing, 0);

    output[0] = 0.25;
    assert_eq!(radio_native_parrot_play_f32(&mut radio, Some(&mut output), 1, Some(&mut played)), RADIO_OK);
    assert_eq!(played, 0);
    assert_eq!(output[0], 0.25);

    assert_eq!(radio_native_parrot_rx_transition(&mut radio, 0, 1, Some(&mut playback_started)), RADIO_OK);
    assert_eq!(radio_native_parrot_record_f32(&mut radio, Some(&input), 4, 2, &mut recorded), RADIO_OK);
    assert_eq!(recorded, 2);
    assert_eq!(radio_native_parrot_status(Some(&radio), Some(&mut status)), RADIO_OK);
    assert_eq!(status.recorded_samples, 2);
    assert_eq!(status.truncated, 1);
    assert_eq!(radio_native_parrot_reset(&mut radio), RADIO_OK);
    assert_eq!(radio_native_parrot_status(Some(&radio), Some(&mut status)), RADIO_OK);
    assert_eq!((status.recorded_samples, status.playback_offset, status.playing, status.truncated), (0, 0, 0, 0));
}

#[test]
fn native_parrot_validates_storage_state_and_bounded_callbacks() {
    let mut radio = create_radio().unwrap();
    let storage = [0.0_f32; 4];
    let mut storage_output = [0.0_f32; 5];
    let input = [0.25_f32; 5];
    let mut playback_started = 99_u32;
    let mut recorded = 99_u32;
    let mut played = 99_u32;
    let mut status = Status { recorded_samples: 0, playback_offset: 0, playing: 0, truncated: 0 };

    assert_eq!(radio_native_parrot_bind_f32(None, Some(&storage), 4), RADIO_INVALID_ARGUMENT);
    assert_eq!(radio_native_parrot_bind_f32(Some(&mut radio), None, 4), RADIO_INVALID_ARGUMENT);
    assert_eq!(radio_native_parrot_bind_f32(Some(&mut radio), Some(&storage), 0), RADIO_INVALID_ARGUMENT);
    assert_eq!(radio_native_parrot_record_f32(&mut radio, Some(&input), 1, 1, &mut recorded), RADIO_INVALID_ARGUMENT);
    assert_eq!(recorded, 0);
    assert_eq!(radio_native_parrot_record_f32(&mut radio, Some(&input), 1, 0, &mut recorded), RADIO_INVALID_ARGUMENT);
    assert_eq!(recorded, 0);
    assert_eq!(radio_native_parrot_bind_f32(Some(&mut radio), Some(&storage), 4), RADIO_OK);
    assert_eq!(radio_native_parrot_rx_transition(&mut radio, 0, 1, None), RADIO_INVALID_ARGUMENT);
    assert_eq!(radio_native_parrot_rx_transition(&mut radio, 0, 0, Some(&mut playback_started)), RADIO_OK);
    assert_eq!(playback_started, 0);
    assert_eq!(radio_native_parrot_rx_transition(&mut radio, 1, 1, Some(&mut playback_started)), RADIO_OK);
    assert_eq!(playback_started, 0);
    assert_eq!(radio_native_parrot_rx_transition(&mut radio, 1, 0, Some(&mut playback_started)), RADIO_OK);
    assert_eq!(playback_started, 0);
    assert_eq!(radio_native_parrot_record_f32(&mut radio, None, 1, 4, &mut recorded), RADIO_INVALID_ARGUMENT);
    assert_eq!(recorded, 0);
    assert_eq!(
        radio_native_parrot_record_f32(&mut radio, Some(&input), 5, 4, &mut recorded),
        RADIO_FRAME_COUNT_EXCEEDED
    );
    assert_eq!(radio_native_parrot_record_f32(&mut radio, Some(&input), 1, 5, &mut recorded), RADIO_INVALID_ARGUMENT);
    assert_eq!(radio_native_parrot_record_f32(&mut radio, Some(&input), 1, 4, &mut recorded), RADIO_OK);
    assert_eq!(radio_native_parrot_bind_f32(Some(&mut radio), Some(&storage), 4), RADIO_INVALID_ARGUMENT);
    assert_eq!(radio_native_parrot_rx_transition(&mut radio, 1, 0, Some(&mut playback_started)), RADIO_OK);
    assert_eq!(playback_started, 1);
    assert_eq!(radio_native_parrot_play_f32(&mut radio, None, 1, Some(&mut played)), RADIO_INVALID_ARGUMENT);
    assert_eq!(played, 0);
    assert_eq!(radio_native_parrot_play_f32(&mut radio, None, 0, Some(&mut played)), RADIO_OK);
    assert_eq!(played, 0);
    assert_eq!(
        radio_native_parrot_play_f32(&mut radio, Some(&mut storage_output), 5, Some(&mut played)),
        RADIO_FRAME_COUNT_EXCEEDED
    );
    assert_eq!(radio_native_parrot_play_f32(&mut radio, Some(&mut storage_output), 1, None), RADIO_INVALID_ARGUMENT);
    assert_eq!(radio_native_parrot_status(None, Some(&mut status)), RADIO_INVALID_ARGUMENT);
    assert_eq!(radio_native_parrot_status(Some(&radio), None), RADIO_INVALID_ARGUMENT);
    assert_eq!(radio_native_parrot_reset(&mut radio), RADIO_OK);
    assert_eq!(radio_native_parrot_record_f32(&mut radio, Some(&input), 1, 0, &mut recorded), RADIO_OK);
    assert_eq!(recorded, 0);
    assert_eq!(radio_native_parrot_bind_f32(Some(&mut radio), Some(&storage), 4), RADIO_INVALID_ARGUMENT);
    assert_eq!(radio_native_parrot_reset(&mut radio), RADIO_OK);
    assert_eq!(radio_native_parrot_record_f32(&mut radio, None, 0, 4, &mut recorded), RADIO_OK);
    assert_eq!(recorded, 0);
}

use lib::receive_qualification::SignalMode;
use lib::signal_mode::{MODE_CTCSS, MODE_DCS, MODE_NONE};
use lib::signaling_engine::{
    component_invariant, qualification_mode, Edges, Error, PublicationClock, Status, DEFAULT_PUBLICATION_INTERVAL_MS,
};

#[test]
fn status_reports_edges_even_when_the_final_state_returns_to_its_start() {
    let mut previous = Status::default();
    let mut edges = Edges::default();
    Status { carrier: true, subaudible: true, receiver_keyed: true, ctcss: 11, dcs: true, ptt: true }
        .accumulate(&mut previous, &mut edges);
    Status::default().accumulate(&mut previous, &mut edges);
    assert_eq!(previous, Status::default());
    assert_eq!(
        edges,
        Edges { carrier: true, subaudible: true, receiver_keyed: true, ctcss: true, dcs: true, ptt: true }
    );
}

#[test]
fn bad_pcm_and_restored_internal_saver_are_rejected() {
    assert_eq!(qualification_mode(MODE_DCS), SignalMode::Dcs);
    assert_eq!(qualification_mode(-1), SignalMode::Other);
    assert_eq!(qualification_mode(MODE_NONE), SignalMode::Inactive);
    assert_eq!(qualification_mode(MODE_CTCSS), SignalMode::Ctcss);
    assert_eq!(component_invariant(()), Error::ComponentInvariant);
}

#[test]
fn construction_rejects_invalid_policy_before_any_tick() {
    assert_eq!(PublicationClock::new(0), Err(Error::InvalidConfiguration));
}

#[test]
fn periodic_status_clock_stays_on_its_grid_across_partitions() {
    let mut whole = PublicationClock::new(DEFAULT_PUBLICATION_INTERVAL_MS).unwrap();
    assert_eq!(whole.interval_frames, 2_400);
    assert!(!whole.advance(2_399));
    assert!(whole.advance(2));
    assert_eq!(whole.remaining_frames, 2_399);
    let mut split = PublicationClock::new(DEFAULT_PUBLICATION_INTERVAL_MS).unwrap();
    let mut due = false;
    for frames in [1_000, 1_000, 401] {
        due |= split.advance(frames);
    }
    assert!(due);
    assert_eq!(split, whole);
    assert!(whole.advance(7_200));
    assert_eq!(whole.remaining_frames, 2_399);
}

# lib — verified fixed-point radio signaling core

A Verus library for a two-way radio interface: receive filtering and
detection, CTCSS and DCS signaling, carrier qualification, transmit
signaling timers and output mixing.  Every stage works on signed-16 PCM
codes and integer state, and every public function carries a contract that
Verus proves.

## Layout

- `src/` — the verified library, one module per stage:
  - filters and detectors: `fir`, `center_slicer`, `deemphasis_integrator`,
    `delay_line`, `envelope_meter`, `receive_frontend` (integer steps of the
    native frontend), `receive_path` (setup, decimation timing, VOX hold,
    delay gating and the owned detector pipeline after the frontend);
  - signaling: `ctcss_receive`, `ctcss_transmit`, `ctcss_render_state`,
    `dcs_code`, `dcs_receive`, `dcs_transmit`, `dcs_turnoff`, `signal_mode`;
  - timing and policy: `timer`, `rx_blanking`, `rx_cpu_saver`,
    `receive_qualification`, `signaling_engine`, `session`, `parrot`;
  - the session callbacks' decisions: `session_flow` (admission, setup,
    warm-up order, receive qualification and gating, stage order, program
    ring validation, keyed transmit frames and event bookkeeping);
  - configuration: `config_parse`, `receive_profiles`;
  - `transmit_renderer` (output routing and saturating mix) and
    `fixed_point` (truncating division facts).
- `tests/` — behavioural tests of the library.
- `app/` — the unverified adapters: canonical `f32` PCM conversion, the
  floating-point MICOR squelch, RSSI and turn-off tone measurements, tone
  oscillators and the C string boundary, composed around the library;
  `app/session.rs` runs a session's ports and meters around the decisions
  of `session_flow`.

Partition laws (a stream processed in two callbacks behaves as in one) are
public proof functions in the modules they govern, mostly named
`lemma_*_partition` or `lemma_*_join`; the law for the whole receive path,
`lemma_receive_path_partition`, is in `receive_partition` with the delay,
envelope, voice and CTCSS joins it is built from.

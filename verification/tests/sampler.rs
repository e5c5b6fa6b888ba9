use netspeed::{
    counter_delta, note_speed_error, parse_args, select, snapshot, sort_interface_list,
    update_stats, Stats,
};

#[test]
fn default_stats_have_no_baseline() {
    let stats = Stats::default();
    assert_eq!(stats.selected, 0);
    assert_eq!(stats.prev_selected, 0);
    assert_eq!(stats.prev_rx_bits, 0);
    assert_eq!(stats.prev_tx_bits, 0);
    assert_eq!(stats.rx_bits, 0);
    assert_eq!(stats.tx_bits, 0);
    assert_eq!(stats.speed, 0);
    assert_eq!(stats.address, "Unknown");
    assert!(!stats.speed_error_logged);
}

#[test]
fn first_tick_uses_fresh_reading_as_baseline() {
    let mut stats = Stats::default();
    update_stats(&mut stats, 1000, 2000, 100, String::from("aa:bb"));
    assert_eq!(stats.prev_rx_bits, 1000);
    assert_eq!(stats.rx_bits, 1000);
    assert_eq!(stats.prev_tx_bits, 2000);
    assert_eq!(stats.tx_bits, 2000);
    assert_eq!(stats.speed, 100);
    assert_eq!(stats.address, "aa:bb");
    assert_eq!(counter_delta(stats.prev_rx_bits, stats.rx_bits), 0);
}

#[test]
fn second_tick_shifts_current_into_baseline() {
    let mut stats = Stats::default();
    update_stats(&mut stats, 1000, 2000, 100, String::from("aa:bb"));
    update_stats(&mut stats, 1500, 2600, 100, String::from("aa:bb"));
    assert_eq!(stats.prev_rx_bits, 1000);
    assert_eq!(stats.rx_bits, 1500);
    assert_eq!(counter_delta(stats.prev_rx_bits, stats.rx_bits), 500);
    assert_eq!(stats.prev_tx_bits, 2000);
    assert_eq!(stats.tx_bits, 2600);
    assert_eq!(counter_delta(stats.prev_tx_bits, stats.tx_bits), 600);
}

#[test]
fn selection_change_settles_with_zero_delta() {
    // The end-to-end walk: enumerate, sort for display, then switch the
    // selection twice; each switch settles with deltas reset to zero on the
    // tick right after it.
    let mut interfaces = vec![
        String::from("wlp2s0"),
        String::from("eth0"),
        String::from("lo"),
    ];
    sort_interface_list(&mut interfaces);
    assert_eq!(
        interfaces,
        vec![
            String::from("wlp2s0"),
            String::from("eth0"),
            String::from("lo"),
        ]
    );

    let mut stats = Stats::default();
    update_stats(&mut stats, 1000, 2000, 100, String::from("aa"));
    update_stats(&mut stats, 4000, 9000, 100, String::from("aa"));
    assert_eq!(counter_delta(stats.prev_rx_bits, stats.rx_bits), 3000);

    select(&mut stats, 1, interfaces.len());
    assert_eq!(stats.selected, 1);
    update_stats(&mut stats, 70, 80, 0, String::from("bb"));
    assert_eq!(stats.prev_selected, 1);
    assert_eq!(counter_delta(stats.prev_rx_bits, stats.rx_bits), 0);
    assert_eq!(counter_delta(stats.prev_tx_bits, stats.tx_bits), 0);

    select(&mut stats, 0, interfaces.len());
    update_stats(&mut stats, 5000, 9500, 100, String::from("aa"));
    assert_eq!(stats.prev_selected, 0);
    assert_eq!(counter_delta(stats.prev_rx_bits, stats.rx_bits), 0);
    assert_eq!(counter_delta(stats.prev_tx_bits, stats.tx_bits), 0);
}

#[test]
fn snapshot_formats_all_fields() {
    let mut stats = Stats::default();
    update_stats(&mut stats, 1000, 2000, 100, String::from("aa:bb"));
    update_stats(&mut stats, 9000, 2500, 100, String::from("aa:bb"));
    let snap = snapshot(&stats, 1000);
    assert_eq!(snap.selected, 0);
    assert_eq!(snap.rx_rate, "8.00 Kb/s");
    assert_eq!(snap.tx_rate, "0.50 Kb/s");
    assert_eq!(snap.total_rx, "9.00 Kb");
    assert_eq!(snap.total_tx, "2.50 Kb");
    assert_eq!(snap.max_speed, "100.00 b/s");
    assert_eq!(snap.address, "aa:bb");
}

#[test]
fn snapshot_shows_unknown_for_zero_speed() {
    let mut stats = Stats::default();
    update_stats(&mut stats, 100, 100, 0, String::from("aa:bb"));
    let snap = snapshot(&stats, 1000);
    assert_eq!(snap.max_speed, "Unknown");
}

#[test]
fn snapshot_with_zero_interval_shows_zero_rates() {
    let mut stats = Stats::default();
    update_stats(&mut stats, 1000, 2000, 0, String::from("aa"));
    update_stats(&mut stats, 8000, 9000, 0, String::from("aa"));
    let snap = snapshot(&stats, 0);
    assert_eq!(snap.rx_rate, "0.00 b/s");
    assert_eq!(snap.tx_rate, "0.00 b/s");
}

#[test]
fn speed_error_reported_only_once() {
    let mut stats = Stats::default();
    assert!(note_speed_error(&mut stats));
    assert!(!note_speed_error(&mut stats));
    assert!(!note_speed_error(&mut stats));
}

#[test]
fn args_without_file() {
    let cli = parse_args(&Vec::new());
    assert_eq!(cli.file, None);
}

#[test]
fn args_with_file() {
    let cli = parse_args(&vec![String::from("out.log"), String::from("rest")]);
    assert_eq!(cli.file, Some(String::from("out.log")));
}

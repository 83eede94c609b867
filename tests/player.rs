use wav_denoise::{format_time, split_even_odd, zero_pad, Command, Controls, Key};

#[test]
fn zero_pad_to_power_of_two() {
    assert_eq!(zero_pad(&[1.0, 2.0, 3.0, 4.0, 5.0], 0.0), vec![1.0, 2.0, 3.0, 4.0, 5.0, 0.0, 0.0, 0.0]);
    assert_eq!(zero_pad(&[1, 2, 3, 4], 0), vec![1, 2, 3, 4]);
    assert_eq!(zero_pad(&[9], 0), vec![9]);
    assert_eq!(zero_pad(&[7, 7, 7], 0), vec![7, 7, 7, 0]);
    assert_eq!(zero_pad::<f64>(&[], 0.0), Vec::<f64>::new());
}

#[test]
fn split_into_even_and_odd() {
    assert_eq!(split_even_odd(&[0, 1, 2, 3, 4]), (vec![0, 2, 4], vec![1, 3]));
    assert_eq!(split_even_odd::<u8>(&[]), (vec![], vec![]));
}

#[test]
fn time_is_minutes_and_seconds() {
    assert_eq!(format_time(65, 600), "01:05/10:00");
    assert_eq!(format_time(0, 59), "00:00/00:59");
    assert_eq!(format_time(6000, 3599), "100:00/59:59");
}

#[test]
fn threshold_stays_in_range() {
    let mut c = Controls::new(2);
    assert_eq!(c.threshold_hundredths, 1);
    c.handle_key_event(Key::Left);
    c.handle_key_event(Key::Left);
    assert_eq!(c.threshold_hundredths, 0);
    for _ in 0..15 {
        c.handle_key_event(Key::Right);
    }
    assert_eq!(c.threshold_hundredths, 10);
}

#[test]
fn selection_moves_within_list() {
    let mut c = Controls::new(3);
    c.handle_key_event(Key::Up);
    assert_eq!(c.selected, 0);
    c.handle_key_event(Key::Down);
    c.handle_key_event(Key::Down);
    c.handle_key_event(Key::Down);
    assert_eq!(c.selected, 2);
    assert_eq!(c.selected_file(), Some(2));
    c.previous();
    assert_eq!(c.selected, 1);
    c.next();
    assert_eq!(c.selected, 2);
    assert_eq!(Controls::new(0).selected_file(), None);
}

#[test]
fn play_then_switch_tracks() {
    let mut c = Controls::new(2);
    c.handle_key_event(Key::Down);
    assert_eq!(
        c.handle_key_event(Key::Play),
        Command::StartPlayback { file: 1, threshold_hundredths: 1 }
    );
    assert!(!c.ready_to_play);
    assert_eq!(c.handle_key_event(Key::Play), Command::Nothing);
    assert_eq!(c.handle_key_event(Key::Switch), Command::Nothing);
    c.tracks_ready = true;
    assert_eq!(c.handle_key_event(Key::Switch), Command::Listen { denoised: true });
    assert!(c.denoised_audible);
    assert_eq!(c.handle_key_event(Key::Switch), Command::Listen { denoised: false });
    assert_eq!(c.handle_key_event(Key::Other), Command::Nothing);
    c.handle_key_event(Key::Quit);
    assert!(c.exit);
}

#[test]
fn nothing_to_play_without_files() {
    let mut c = Controls::new(0);
    assert!(!c.ready_to_play);
    assert_eq!(c.handle_key_event(Key::Play), Command::Nothing);
}

use talktype::capture::{
    check_sample_format, devices_from_names, negotiate_settings, preferred_settings,
    resolve_device, AudioDevice, CaptureError, CaptureSession, DeviceChoice, SampleFormat,
    StreamSettings,
};

fn names(list: &[&str]) -> Vec<String> {
    list.iter().map(|s| s.to_string()).collect()
}

#[test]
fn stop_before_start_returns_empty_and_default_rate() {
    let mut session: CaptureSession<f32> = CaptureSession::new();
    let (samples, rate) = session.stop_recording();
    assert!(samples.is_empty());
    assert_eq!(rate, 16000);
    assert!(!session.is_recording());
}

#[test]
fn second_start_opens_no_stream() {
    let mut session: CaptureSession<f32> = CaptureSession::new();
    assert!(session.begin_start());
    session.mark_recording(48000);
    session.append_samples(&[0.5, -0.25]);
    assert!(!session.begin_start());
    assert!(session.is_recording());
    assert_eq!(session.sample_count(), 2);
    let (samples, rate) = session.stop_recording();
    assert_eq!(samples, vec![0.5, -0.25]);
    assert_eq!(rate, 48000);
}

#[test]
fn two_seconds_of_silence_at_48k_have_zero_peak() {
    let mut session: CaptureSession<f32> = CaptureSession::new();
    assert!(session.begin_start());
    session.mark_recording(48000);
    for _ in 0..100 {
        session.append_samples(&[0.0f32; 960]);
    }
    let (samples, rate) = session.stop_recording();
    assert_eq!(rate, 48000);
    assert_eq!(samples.len(), 96000);
    let peak = samples.iter().fold(0.0f32, |m, s| m.max(s.abs()));
    assert_eq!(peak, 0.0);
    assert!(peak < 0.01);
}

#[test]
fn samples_arriving_while_idle_are_dropped() {
    let mut session: CaptureSession<i16> = CaptureSession::new();
    session.append_samples(&[1, 2, 3]);
    assert_eq!(session.sample_count(), 0);
}

#[test]
fn stop_drains_and_a_new_start_begins_empty() {
    let mut session: CaptureSession<i16> = CaptureSession::new();
    session.begin_start();
    session.mark_recording(16000);
    session.append_samples(&[7, 8]);
    assert_eq!(session.stop_recording(), (vec![7, 8], 16000));
    assert_eq!(session.stop_recording(), (vec![], 16000));
    session.begin_start();
    session.mark_recording(44100);
    assert_eq!(session.stop_recording(), (vec![], 44100));
}

#[test]
fn selected_device_is_kept_for_the_next_start() {
    let mut session: CaptureSession<f32> = CaptureSession::new();
    assert_eq!(session.get_current_device(), None);
    session.set_current_device("USB Mic".to_string());
    assert_eq!(session.get_current_device(), Some("USB Mic".to_string()));
}

#[test]
fn devices_mark_the_host_default() {
    let devices = devices_from_names(&names(&["Built-in", "USB Mic"]), &Some("USB Mic".to_string()));
    assert_eq!(
        devices,
        vec![
            AudioDevice { name: "Built-in".to_string(), id: "Built-in".to_string(), is_default: false },
            AudioDevice { name: "USB Mic".to_string(), id: "USB Mic".to_string(), is_default: true },
        ]
    );
    let none = devices_from_names(&names(&["A"]), &None);
    assert!(!none[0].is_default);
}

#[test]
fn device_resolution_follows_the_selection() {
    let available = names(&["A", "B", "B"]);
    assert_eq!(resolve_device(&Some("B".to_string()), &available, true), Ok(DeviceChoice::Listed(1)));
    assert_eq!(resolve_device(&Some("C".to_string()), &available, true), Err(CaptureError::DeviceNotFound));
    assert_eq!(resolve_device(&None, &available, true), Ok(DeviceChoice::HostDefault));
    assert_eq!(resolve_device(&None, &available, false), Err(CaptureError::NoDefaultDevice));
}

#[test]
fn only_known_sample_formats_are_accepted() {
    assert_eq!(check_sample_format(SampleFormat::F32), Ok(SampleFormat::F32));
    assert_eq!(check_sample_format(SampleFormat::I16), Ok(SampleFormat::I16));
    assert_eq!(check_sample_format(SampleFormat::U16), Ok(SampleFormat::U16));
    assert_eq!(check_sample_format(SampleFormat::Other), Err(CaptureError::UnsupportedSampleFormat));
}

#[test]
fn settings_fall_back_to_the_device_default() {
    let native = StreamSettings { channels: 2, sample_rate: 44100 };
    assert_eq!(preferred_settings(), StreamSettings { channels: 1, sample_rate: 16000 });
    assert_eq!(negotiate_settings(true, native), preferred_settings());
    assert_eq!(negotiate_settings(false, native), native);
}

#[test]
fn start_while_opening_a_stream_is_a_no_op() {
    let mut session: CaptureSession<f32> = CaptureSession::new();
    assert!(session.begin_start());
    assert!(!session.begin_start());
    session.mark_recording(16000);
    assert!(!session.begin_start());
    assert!(session.is_recording());
}

#[test]
fn failed_start_leaves_the_session_idle() {
    let mut session: CaptureSession<f32> = CaptureSession::new();
    assert!(session.begin_start());
    session.abandon_start();
    assert!(!session.is_recording());
    session.append_samples(&[0.5]);
    assert_eq!(session.stop_recording(), (vec![], 16000));
    assert!(session.begin_start());
}

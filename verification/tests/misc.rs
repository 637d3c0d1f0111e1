use screen_lib::archive::is_directory_entry;
use screen_lib::config::{app_folder, ffmpeg_archive, ffmpeg_binary, ffmpeg_dir, received_file};
use screen_lib::event::{menu_command, IpConfig, MenuCommand, RustEvent, RustEventType};
use screen_lib::streaming::{
    ffmpeg_capture_args, relay_step, retain_delivered, RelayAction, RelayInput, StreamEvt,
    StreamEvtType,
};

#[test]
fn folder_layout() {
    assert_eq!(app_folder("/home/u"), vec!["/home/u", "Keychron_Screen"]);
    assert_eq!(ffmpeg_dir("/home/u"), vec!["/home/u", "Keychron_Screen", "ffmpeg"]);
    assert_eq!(ffmpeg_archive("/h"), vec!["/h", "Keychron_Screen", "ffmpeg", "ffmpeg.zip"]);
    assert_eq!(ffmpeg_binary("/h"), vec!["/h", "Keychron_Screen", "ffmpeg", "ffmpeg"]);
    assert_eq!(received_file("/h", "a.txt"), vec!["/h", "Keychron_Screen", "a.txt"]);
}

#[test]
fn directory_entries_end_with_slash() {
    assert!(is_directory_entry("bin/"));
    assert!(!is_directory_entry("bin/ffmpeg"));
    assert!(!is_directory_entry(""));
    assert!(is_directory_entry("数据/"));
}

#[test]
fn rust_event_new_keeps_fields() {
    let e = RustEvent::new(RustEventType::Download, 42u64);
    assert_eq!(e.evt_type, RustEventType::Download);
    assert_eq!(e.evt_data, 42);
}

#[test]
fn ip_config_default_is_unset() {
    let c = IpConfig::default();
    assert_eq!(c.main(), "0.0.0.0");
    assert_eq!(c.sub(), "0.0.0.0");
    let d = IpConfig::new("1.2.3.4".to_string(), "5.6.7.8".to_string());
    assert_eq!(d.main(), "1.2.3.4");
    assert_eq!(d.sub(), "5.6.7.8");
}

#[test]
fn menu_quit_only_on_quit_id() {
    assert_eq!(menu_command("quit"), MenuCommand::Quit);
    assert_eq!(menu_command("Quit"), MenuCommand::Ignore);
    assert_eq!(menu_command(""), MenuCommand::Ignore);
}

#[test]
fn relay_forwards_datagrams_only() {
    let buf = [1u8, 2, 3, 4, 5];
    let e = StreamEvt::from_datagram(&buf, 3);
    assert_eq!(e.evt_type(), StreamEvtType::UDP);
    assert_eq!(e.evt_data(), &vec![1, 2, 3]);
    match relay_step(RelayInput::Event(e)) {
        RelayAction::Forward(d) => assert_eq!(d, vec![1, 2, 3]),
        _ => panic!("datagram not forwarded"),
    }
    let w = StreamEvt::new(StreamEvtType::WS, vec![9]);
    assert!(matches!(relay_step(RelayInput::Event(w)), RelayAction::Skip));
    assert!(matches!(relay_step(RelayInput::Lagged(4)), RelayAction::ReportLag(4)));
    assert!(matches!(relay_step(RelayInput::Closed), RelayAction::Stop));
}

#[test]
fn retain_delivered_drops_failed_clients() {
    let kept = retain_delivered(vec!["a", "b", "c"], &vec![true, false, true]);
    assert_eq!(kept, vec!["a", "c"]);
    assert!(retain_delivered(vec![1, 2], &vec![false, false]).is_empty());
}

#[test]
fn encoder_arguments() {
    let args = ffmpeg_capture_args();
    assert_eq!(
        args,
        vec![
            "-f", "avfoundation", "-capture_cursor", "1", "-framerate", "30", "-i", "0", "-c:v",
            "mpeg1video", "-b:v", "1000k", "-f", "mpegts", "udp://127.0.0.1:30002"
        ]
    );
}

use screen_lib::capture::{
    ffmpeg_installed, scp_check_if, scp_request_permission, DownloadProgress, ScreenCap,
    ServerSlot, LIVE_SERVER_NOT_RUNNING,
};

#[test]
fn screen_cap_fields() {
    let c = ScreenCap::new(true, false);
    assert!(c.support());
    assert!(!c.has_permission());
}

#[test]
fn capability_report_and_permission() {
    let c = scp_check_if();
    assert!(!c.support() && !c.has_permission());
    assert!(scp_request_permission());
}

#[test]
fn ffmpeg_installed_needs_both() {
    assert!(ffmpeg_installed(true, true));
    assert!(!ffmpeg_installed(true, false));
    assert!(!ffmpeg_installed(false, true));
}

#[test]
fn progress_notifies_only_on_change() {
    let mut p = DownloadProgress::new();
    p.record_chunk(100);
    p.record_chunk(50);
    assert_eq!(p.downloaded, 150);
    assert!(!p.should_notify(0));
    assert!(p.should_notify(12));
    assert!(!p.should_notify(12));
    assert!(p.should_notify(13));
    assert_eq!(p.last_percent, 13);
}

#[test]
fn slot_start_then_stop() {
    let mut slot: ServerSlot<u32> = ServerSlot::new();
    assert_eq!(slot.install(1), None);
    assert_eq!(slot.install(2), Some(1));
    assert_eq!(slot.take_running(), Ok(2));
    assert_eq!(slot.take_running(), Err(LIVE_SERVER_NOT_RUNNING.to_string()));
    assert_eq!(LIVE_SERVER_NOT_RUNNING, "❌ Live server is not running");
}

#[test]
fn progress_over_whole_download_reports_each_value_once() {
    let mut p = DownloadProgress::new();
    let percents = [0u64, 0, 3, 3, 50, 100, 100];
    let reported: Vec<u64> = percents.iter().copied().filter(|x| p.should_notify(*x)).collect();
    assert_eq!(reported, vec![3, 50, 100]);
}

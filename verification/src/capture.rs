//! Screen-capture commands: capability report, the encoder's presence and
//! download progress, and the slot that holds the running live-stream server.
use vstd::prelude::*;

verus! {

/// Whether screen capture is supported here and permitted.
pub struct ScreenCap {
    support: bool,
    has_permission: bool,
}

impl ScreenCap {
    pub closed spec fn spec_support(&self) -> bool {
        self.support
    }

    pub closed spec fn spec_has_permission(&self) -> bool {
        self.has_permission
    }

    /// A capability report.
    pub fn new(support: bool, has_permission: bool) -> (r: Self)
        ensures
            r.spec_support() == support,
            r.spec_has_permission() == has_permission,
    {
        ScreenCap { support, has_permission }
    }

    /// Whether screen capture is supported.
    pub fn support(&self) -> (r: bool)
        ensures
            r == self.spec_support(),
    {
        self.support
    }

    /// Whether screen capture is permitted.
    pub fn has_permission(&self) -> (r: bool)
        ensures
            r == self.spec_has_permission(),
    {
        self.has_permission
    }
}

/// The capability report: capture is reported neither supported nor permitted.
pub fn scp_check_if() -> (r: ScreenCap)
    ensures
        !r.spec_support(),
        !r.spec_has_permission(),
{
    ScreenCap::new(false, false)
}

/// The answer to a permission request: always granted.
pub fn scp_request_permission() -> (r: bool)
    ensures
        r,
{
    true
}

/// Whether the encoder counts as installed, given whether the application
/// folder and the encoder folder inside it exist.
pub fn ffmpeg_installed(app_folder_exists: bool, ffmpeg_exists: bool) -> (r: bool)
    ensures
        r == (app_folder_exists && ffmpeg_exists),
{
    app_folder_exists && ffmpeg_exists
}

/// Progress of the encoder download: bytes received so far, and the last
/// percentage reported.
#[derive(Debug, Clone, Copy, PartialEq, Eq, Structural)]
pub struct DownloadProgress {
    pub downloaded: u64,
    pub last_percent: u64,
}

impl DownloadProgress {
    /// Nothing received, nothing reported (0 %).
    pub fn new() -> (r: Self)
        ensures
            r.downloaded == 0,
            r.last_percent == 0,
    {
        DownloadProgress { downloaded: 0, last_percent: 0 }
    }

    /// Counts a received chunk of `len` bytes.
    pub fn record_chunk(&mut self, len: u64)
        requires
            old(self).downloaded + len <= u64::MAX,
        ensures
            final(self).downloaded == old(self).downloaded + len,
            final(self).last_percent == old(self).last_percent,
    {
        self.downloaded = self.downloaded + len;
    }

    /// Whether the percentage `percent` is to be reported: exactly when it
    /// differs from the last one reported, which it then becomes.
    pub fn should_notify(&mut self, percent: u64) -> (r: bool)
        ensures
            (*final(self), r) == spec_should_notify(*old(self), percent),
            final(self).downloaded == old(self).downloaded,
            final(self).last_percent == percent,
            r == (percent != old(self).last_percent),
    {
        if percent != self.last_percent {
            self.last_percent = percent;
            true
        } else {
            false
        }
    }
}

/// Answer given when asked to stop a live server that is not running.
pub const LIVE_SERVER_NOT_RUNNING: &'static str = "❌ Live server is not running";

/// Holds the running live-stream server, if any.
pub struct ServerSlot<T> {
    pub server: Option<T>,
}

impl<T> ServerSlot<T> {
    /// An empty slot.
    pub fn new() -> (r: Self)
        ensures
            r.server is None,
    {
        ServerSlot { server: None }
    }

    /// Stores a newly started server; the one it replaces, if any, is handed
    /// back (and is not stopped).
    pub fn install(&mut self, server: T) -> (r: Option<T>)
        ensures
            (final(self).server, r) == spec_install(old(self).server, server),
    {
        let mut next = Some(server);
        std::mem::swap(&mut next, &mut self.server);
        next
    }

    /// Takes the running server out of the slot to stop it; fails when none
    /// is running.
    pub fn take_running(&mut self) -> (r: Result<T, String>)
        ensures
            final(self).server == spec_take_running(old(self).server).0,
            spec_take_running(old(self).server).1 matches Some(s) ==> r == Ok::<T, String>(s),
            old(self).server is None ==> (r matches Err(e) && e@ == LIVE_SERVER_NOT_RUNNING@),
    {
        let mut taken: Option<T> = None;
        std::mem::swap(&mut taken, &mut self.server);
        match taken {
            Some(s) => Ok(s),
            None => Err(LIVE_SERVER_NOT_RUNNING.to_owned()),
        }
    }
}

/// The slot after a start (new content, replaced server).
pub open spec fn spec_install<T>(slot: Option<T>, server: T) -> (Option<T>, Option<T>) {
    (Some(server), slot)
}

/// The slot after a stop request (new content, the server taken out if one ran).
pub open spec fn spec_take_running<T>(slot: Option<T>) -> (Option<T>, Option<T>) {
    (None, slot)
}

/// Stopping right after a start hands back the server just started and leaves
/// the slot empty; a second stop request is then refused.
pub proof fn law_slot_start_then_stop<T>(slot: Option<T>, server: T)
    ensures
        spec_take_running(spec_install(slot, server).0) == (None::<T>, Some(server)),
        spec_take_running(spec_take_running(spec_install(slot, server).0).0).1 is None,
{
}

/// The download state after the percentage `percent` is computed, with whether
/// it is reported.
pub open spec fn spec_should_notify(p: DownloadProgress, percent: u64) -> (DownloadProgress, bool) {
    (DownloadProgress { last_percent: percent, ..p }, percent != p.last_percent)
}

/// Deciding whether to report a percentage touches only the last reported
/// percentage: the byte count stays what the recorded chunks add up to, the
/// last reported percentage becomes the one given, and the answer is whether
/// it differed. Recording a chunk adds its length and leaves the last report.
pub proof fn law_notify_keeps_byte_count(p: DownloadProgress, percent: u64, len: u64, q: DownloadProgress)
    requires
        q.downloaded == p.downloaded + len,
        q.last_percent == p.last_percent,
    ensures
        spec_should_notify(p, percent).0.downloaded == p.downloaded,
        spec_should_notify(p, percent).0.last_percent == percent,
        spec_should_notify(p, percent).1 == (percent != p.last_percent),
        spec_should_notify(q, percent).0.downloaded == p.downloaded + len,
        spec_should_notify(spec_should_notify(p, percent).0, percent).0.downloaded == p.downloaded,
{
}

/// A percentage is reported only when it changes: the same percentage computed
/// twice in a row is reported at most once, and a different one always is.
pub proof fn law_progress_reports_changes_only(p: DownloadProgress, percent: u64, next: u64)
    ensures
        !spec_should_notify(spec_should_notify(p, percent).0, percent).1,
        next != percent ==> spec_should_notify(spec_should_notify(p, percent).0, next).1,
{
}

/// The percentages reported, in order, when the percentages `ps` are computed
/// one after the other from the download state `p`.
pub open spec fn spec_notified(p: DownloadProgress, ps: Seq<u64>) -> Seq<u64>
    decreases ps.len(),
{
    if ps.len() == 0 {
        Seq::empty()
    } else {
        let (q, report) = spec_should_notify(p, ps[0]);
        let rest = spec_notified(q, ps.drop_first());
        if report {
            seq![ps[0]] + rest
        } else {
            rest
        }
    }
}

/// Over a whole download whose percentages never go down (and start no lower
/// than the last one reported), the reported percentages rise strictly, each
/// is above the last one reported before (0 at the start, so 0 is never
/// reported), each is one of the computed percentages, and every computed
/// percentage other than that starting one is reported.
pub proof fn law_progress_sequence(p: DownloadProgress, ps: Seq<u64>)
    requires
        forall|i: int, j: int| 0 <= i <= j < ps.len() ==> ps[i] <= ps[j],
        forall|i: int| 0 <= i < ps.len() ==> p.last_percent <= #[trigger] ps[i],
    ensures
        forall|i: int, j: int|
            0 <= i < j < spec_notified(p, ps).len() ==> spec_notified(p, ps)[i] < spec_notified(
                p,
                ps,
            )[j],
        forall|i: int|
            0 <= i < spec_notified(p, ps).len() ==> p.last_percent < #[trigger] spec_notified(
                p,
                ps,
            )[i],
        forall|i: int|
            0 <= i < spec_notified(p, ps).len() ==> ps.contains(#[trigger] spec_notified(p, ps)[i]),
        forall|k: int|
            0 <= k < ps.len() && ps[k] != p.last_percent ==> spec_notified(p, ps).contains(
                #[trigger] ps[k],
            ),
    decreases ps.len(),
{
    if ps.len() > 0 {
        let (q, report) = spec_should_notify(p, ps[0]);
        let tail = ps.drop_first();
        assert forall|i: int| 0 <= i < tail.len() implies q.last_percent <= #[trigger] tail[i] by {
            assert(tail[i] == ps[i + 1]);
        }
        assert forall|i: int, j: int| 0 <= i <= j < tail.len() implies tail[i] <= tail[j] by {
            assert(tail[i] == ps[i + 1] && tail[j] == ps[j + 1]);
        }
        law_progress_sequence(q, tail);
        let rest = spec_notified(q, tail);
        let r = spec_notified(p, ps);
        assert forall|i: int| 0 <= i < rest.len() implies ps.contains(#[trigger] rest[i]) by {
            let k = choose|k: int| 0 <= k < tail.len() && tail[k] == rest[i];
            assert(ps[k + 1] == tail[k]);
        }
        assert forall|k: int| 0 <= k < ps.len() && ps[k] != p.last_percent implies r.contains(
            #[trigger] ps[k],
        ) by {
            if k == 0 {
                assert(r[0] == ps[0]);
            } else {
                assert(ps[k] == tail[k - 1]);
                if ps[k] != q.last_percent {
                    assert(rest.contains(tail[k - 1]));
                    let j = choose|j: int| 0 <= j < rest.len() && rest[j] == tail[k - 1];
                    if report {
                        assert(r[j + 1] == rest[j]);
                    } else {
                        assert(r[j] == rest[j]);
                    }
                } else {
                    assert(report);
                    assert(r[0] == ps[0]);
                }
            }
        }
        if report {
            assert(r =~= seq![ps[0]] + rest);
            assert(ps.contains(ps[0]));
            assert forall|i: int| 0 <= i < r.len() implies ps.contains(#[trigger] r[i]) by {
                if i > 0 {
                    assert(r[i] == rest[i - 1]);
                }
            }
        }
    }
}

} // verus!

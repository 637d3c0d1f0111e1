//! Fixed names, addresses, and the layout of the application's folder.
use vstd::prelude::*;
use crate::text::string_views;

verus! {

/// Folder, below the user's home directory, that holds everything the
/// application stores.
pub const APP_FOLDER: &'static str = "Keychron_Screen";

/// Address on which the live-stream relay receives the encoder's datagrams.
pub const LIVE_ADDR_UDP: &'static str = "0.0.0.0:30002";

/// Address on which the live-stream relay accepts WebSocket viewers.
pub const LIVE_ADDR_WS: &'static str = "0.0.0.0:30003";

/// Where the encoder sends its output.
pub const FFMPEG_UP_ADDR: &'static str = "udp://127.0.0.1:30002";

/// Download location of the encoder bundle on macOS.
pub const FFMPEG_DOWNLOAD_URL_MACOS: &'static str = "http://192.168.0.28:4001/api/ffmpeg-mac.zip";

/// Download location of the encoder bundle on Windows.
pub const FFMPEG_DOWNLOAD_URL_WINDOWS: &'static str = "https://launcher.keychron.cn/api/ffmpeg-win.zip";

/// Name of the folder (inside the application folder) that holds the encoder,
/// and of the encoder binary inside it.
pub const FFMPEG_NAME: &'static str = "ffmpeg";

/// Name under which the downloaded encoder bundle is saved.
pub const FFMPEG_ARCHIVE_NAME: &'static str = "ffmpeg.zip";

/// Address the file receiver listens on.
pub const TRANSFER_LISTEN_ADDR: &'static str = "0.0.0.0:30006";

/// Address the file sender connects to.
pub const TRANSFER_PEER_ADDR: &'static str = "192.178.0.200:30006";

/// Address the keyboard/mouse master listens on.
pub const KM_LISTEN_ADDR: &'static str = "0.0.0.0:12345";

/// Address of the keyboard/mouse master, as the slave reaches it.
pub const KM_MASTER_ADDR: &'static str = "192.168.0.200:12345";

/// The application folder: `home` followed by [`APP_FOLDER`], as path components.
pub open spec fn spec_app_folder(home: Seq<char>) -> Seq<Seq<char>> {
    seq![home, APP_FOLDER@]
}

/// The folder that holds the encoder.
pub open spec fn spec_ffmpeg_dir(home: Seq<char>) -> Seq<Seq<char>> {
    spec_app_folder(home).push(FFMPEG_NAME@)
}

fn component(s: &str) -> (r: String)
    ensures
        r@ == s@,
{
    s.to_owned()
}

/// Where the downloaded encoder bundle is saved.
pub open spec fn spec_ffmpeg_archive(home: Seq<char>) -> Seq<Seq<char>> {
    spec_ffmpeg_dir(home).push(FFMPEG_ARCHIVE_NAME@)
}

/// The encoder binary.
pub open spec fn spec_ffmpeg_binary(home: Seq<char>) -> Seq<Seq<char>> {
    spec_ffmpeg_dir(home).push(FFMPEG_NAME@)
}

/// Where a received file named `name` is saved.
pub open spec fn spec_received_file(home: Seq<char>, name: Seq<char>) -> Seq<Seq<char>> {
    spec_app_folder(home).push(name)
}

/// Path components of the application folder.
pub fn app_folder(home: &str) -> (r: Vec<String>)
    ensures
        string_views(r@) == spec_app_folder(home@),
{
    let mut r: Vec<String> = Vec::new();
    r.push(component(home));
    r.push(component(APP_FOLDER));
    assert(string_views(r@) =~= spec_app_folder(home@));
    r
}

/// Path components of the encoder folder; its presence, with that of the
/// application folder, tells that the encoder is installed.
pub fn ffmpeg_dir(home: &str) -> (r: Vec<String>)
    ensures
        string_views(r@) == spec_ffmpeg_dir(home@),
{
    let mut r = app_folder(home);
    r.push(component(FFMPEG_NAME));
    assert(string_views(r@) =~= spec_ffmpeg_dir(home@));
    r
}

/// Path components of the downloaded encoder bundle.
pub fn ffmpeg_archive(home: &str) -> (r: Vec<String>)
    ensures
        string_views(r@) == spec_ffmpeg_archive(home@),
{
    let mut r = ffmpeg_dir(home);
    r.push(component(FFMPEG_ARCHIVE_NAME));
    assert(string_views(r@) =~= spec_ffmpeg_archive(home@));
    r
}

/// Path components of the encoder binary.
pub fn ffmpeg_binary(home: &str) -> (r: Vec<String>)
    ensures
        string_views(r@) == spec_ffmpeg_binary(home@),
{
    let mut r = ffmpeg_dir(home);
    r.push(component(FFMPEG_NAME));
    assert(string_views(r@) =~= spec_ffmpeg_binary(home@));
    r
}

/// Path components under which a received file named `name` is saved.
pub fn received_file(home: &str, name: &str) -> (r: Vec<String>)
    ensures
        string_views(r@) == spec_received_file(home@, name@),
{
    let mut r = app_folder(home);
    r.push(component(name));
    assert(string_views(r@) =~= spec_received_file(home@, name@));
    r
}

} // verus!

//! What the graphical front end keeps apart from its widgets: the results
//! of the current search, the list of downloads, the texts of the
//! connection status, and the settings.

use vstd::prelude::*;
use crate::profiles::Profile;
use crate::text::{chars_end_with, chars_of, decimal, push_decimal, spec_lowercase, to_lowercase};

verus! {

/// A search result as the front end lists it.
#[derive(Debug, Clone)]
pub struct SearchResult {
    pub token: u32,
    pub username: String,
    pub filename: String,
    pub size: u64,
}

/// The kind of a file, as its extension tells it.
#[derive(Debug, Clone, Copy, PartialEq, Eq, Structural)]
pub enum FileKind {
    Audio,
    Video,
    Image,
    Other,
}

/// Whether the name `low` (lowercase) ends with one of `exts`.
pub open spec fn ends_with_any(low: Seq<char>, exts: Seq<Seq<char>>) -> bool {
    exists|k: int| 0 <= k < exts.len() && (#[trigger] exts[k]).is_suffix_of(low)
}

/// The endings of audio files.
pub open spec fn audio_endings() -> Seq<Seq<char>> {
    seq![".mp3"@, ".flac"@, ".wav"@, ".ogg"@, ".m4a"@]
}

/// The endings of video files.
pub open spec fn video_endings() -> Seq<Seq<char>> {
    seq![".avi"@, ".mkv"@, ".mp4"@, ".mov"@]
}

/// The endings of image files.
pub open spec fn image_endings() -> Seq<Seq<char>> {
    seq![".jpg"@, ".png"@, ".gif"@]
}

/// The kind of the file named `name`, by the ending of its lowercase name:
/// audio first, then video, then image, else other.
pub open spec fn file_kind_of(name: Seq<char>) -> FileKind {
    let low = spec_lowercase(name);
    if ends_with_any(low, audio_endings()) {
        FileKind::Audio
    } else if ends_with_any(low, video_endings()) {
        FileKind::Video
    } else if ends_with_any(low, image_endings()) {
        FileKind::Image
    } else {
        FileKind::Other
    }
}

/// The icon shown for a kind of file.
pub open spec fn icon_of(k: FileKind) -> Seq<char> {
    match k {
        FileKind::Audio => "audio-x-generic"@,
        FileKind::Video => "video-x-generic"@,
        FileKind::Image => "image-x-generic"@,
        FileKind::Other => "text-x-generic"@,
    }
}

fn ends_with_literal(low: &Vec<char>, ending: &str) -> (r: bool)
    ensures
        r == ending@.is_suffix_of(low@),
{
    let e = chars_of(ending);
    chars_end_with(low, &e)
}

/// Whether `low` ends with one of the endings in `exts`.
fn ends_with_one_of(low: &Vec<char>, exts: &Vec<&str>) -> (r: bool)
    ensures
        r == exists|k: int| 0 <= k < exts@.len() && (#[trigger] exts@[k])@.is_suffix_of(low@),
{
    let mut i: usize = 0;
    while i < exts.len()
        invariant
            i <= exts@.len(),
            forall|k: int| 0 <= k < i ==> !(#[trigger] exts@[k])@.is_suffix_of(low@),
        decreases exts@.len() - i,
    {
        if ends_with_literal(low, exts[i]) {
            return true;
        }
        i = i + 1;
    }
    false
}

/// The kind of the file named `filename`, by its ending, ignoring case.
pub fn file_kind(filename: &str) -> (k: FileKind)
    ensures
        k == file_kind_of(filename@),
{
    let low_s = to_lowercase(filename);
    let low = chars_of(low_s.as_str());
    let ghost l = spec_lowercase(filename@);
    let audio: Vec<&str> = vec![".mp3", ".flac", ".wav", ".ogg", ".m4a"];
    let video: Vec<&str> = vec![".avi", ".mkv", ".mp4", ".mov"];
    let image: Vec<&str> = vec![".jpg", ".png", ".gif"];
    let ghost av = Seq::new(audio@.len(), |k: int| audio@[k]@);
    let ghost vv = Seq::new(video@.len(), |k: int| video@[k]@);
    let ghost iv = Seq::new(image@.len(), |k: int| image@[k]@);
    assert(av =~= audio_endings());
    assert(vv =~= video_endings());
    assert(iv =~= image_endings());
    let is_audio = ends_with_one_of(&low, &audio);
    assert(is_audio == ends_with_any(l, audio_endings())) by {
        if is_audio {
            let k = choose|k: int| 0 <= k < audio@.len() && (#[trigger] audio@[k])@.is_suffix_of(low@);
            assert(av[k] == audio@[k]@);
        } else {
            assert forall|k: int| 0 <= k < av.len() implies !(#[trigger] av[k]).is_suffix_of(l) by {
                assert(av[k] == audio@[k]@);
            }
        }
    }
    if is_audio {
        return FileKind::Audio;
    }
    let is_video = ends_with_one_of(&low, &video);
    assert(is_video == ends_with_any(l, video_endings())) by {
        if is_video {
            let k = choose|k: int| 0 <= k < video@.len() && (#[trigger] video@[k])@.is_suffix_of(low@);
            assert(vv[k] == video@[k]@);
        } else {
            assert forall|k: int| 0 <= k < vv.len() implies !(#[trigger] vv[k]).is_suffix_of(l) by {
                assert(vv[k] == video@[k]@);
            }
        }
    }
    if is_video {
        return FileKind::Video;
    }
    let is_image = ends_with_one_of(&low, &image);
    assert(is_image == ends_with_any(l, image_endings())) by {
        if is_image {
            let k = choose|k: int| 0 <= k < image@.len() && (#[trigger] image@[k])@.is_suffix_of(low@);
            assert(iv[k] == image@[k]@);
        } else {
            assert forall|k: int| 0 <= k < iv.len() implies !(#[trigger] iv[k]).is_suffix_of(l) by {
                assert(iv[k] == image@[k]@);
            }
        }
    }
    if is_image {
        FileKind::Image
    } else {
        FileKind::Other
    }
}

impl FileKind {
    /// The name of the icon shown for the kind.
    pub fn icon_name(&self) -> (r: &'static str)
        ensures
            r@ == icon_of(*self),
    {
        match self {
            FileKind::Audio => "audio-x-generic",
            FileKind::Video => "video-x-generic",
            FileKind::Image => "image-x-generic",
            FileKind::Other => "text-x-generic",
        }
    }
}

/// The results of the search under way.
#[derive(Debug)]
pub struct SearchResults {
    current_token: u32,
    results: Vec<SearchResult>,
}

/// Whether `r` lists a file of `username` named `filename`.
pub open spec fn listed(r: Seq<SearchResult>, username: Seq<char>, filename: Seq<char>) -> bool {
    exists|k: int|
        0 <= k < r.len() && (#[trigger] r[k]).username@ == username && r[k].filename@ == filename
}

/// The text shown while a search runs.
pub open spec fn searching_text(query: Seq<char>) -> Seq<char> {
    "Searching for \""@ + query + "\"..."@
}

/// The count of results as shown: `1 result`, `N results`.
pub open spec fn count_text(n: nat) -> Seq<char> {
    decimal(n) + (if n == 1 {
        " result"@
    } else {
        " results"@
    })
}

impl SearchResults {
    /// No search yet.
    pub fn new() -> (r: Self)
        ensures
            r.token() == 0,
            r.items().len() == 0,
    {
        SearchResults { current_token: 0, results: Vec::new() }
    }

    /// The token of the search under way.
    pub closed spec fn token(&self) -> u32 {
        self.current_token
    }

    /// The results listed.
    pub closed spec fn items(&self) -> Seq<SearchResult> {
        self.results@
    }

    /// A new search under `token` starts: the list is emptied. Gives the
    /// text to show.
    pub fn on_search_started(&mut self, token: u32, query: &str) -> (text: String)
        ensures
            final(self).token() == token,
            final(self).items().len() == 0,
            text@ == searching_text(query@),
    {
        self.current_token = token;
        self.results = Vec::new();
        let mut t = String::from_str("Searching for \"");
        t.append(query);
        t.append("\"...");
        t
    }

    /// Lists a result unless it belongs to another search or its user's
    /// file is listed already; tells whether it was listed.
    pub fn add_result(&mut self, result: SearchResult) -> (added: bool)
        ensures
            final(self).token() == old(self).token(),
            added == (result.token == old(self).token() && !listed(
                old(self).items(),
                result.username@,
                result.filename@,
            )),
            added ==> final(self).items() == old(self).items().push(result),
            !added ==> final(self).items() == old(self).items(),
    {
        if result.token != self.current_token {
            return false;
        }
        let mut i: usize = 0;
        while i < self.results.len()
            invariant
                i <= self.results@.len(),
                forall|k: int|
                    0 <= k < i ==> !((#[trigger] self.results@[k]).username@ == result.username@
                        && self.results@[k].filename@ == result.filename@),
            decreases self.results@.len() - i,
        {
            if self.results[i].username == result.username && self.results[i].filename
                == result.filename {
                return false;
            }
            i = i + 1;
        }
        self.results.push(result);
        true
    }

    /// The results listed.
    pub fn results(&self) -> (r: &Vec<SearchResult>)
        ensures
            r@ == self.items(),
    {
        &self.results
    }

    /// The count of results as shown.
    pub fn status_text(&self) -> (t: String)
        ensures
            t@ == count_text(self.items().len()),
    {
        let n = self.results.len();
        let mut t = String::new();
        push_decimal(&mut t, n as u64);
        if n == 1 {
            t.append(" result");
        } else {
            t.append(" results");
        }
        t
    }
}

/// A search lists each file of a user once, and only results of the search
/// under way.
pub proof fn law_results_unique(r: Seq<SearchResult>, token: u32, x: SearchResult)
    requires
        forall|i: int, j: int|
            0 <= i < j < r.len() ==> !((#[trigger] r[i]).username@ == (#[trigger] r[j]).username@
                && r[i].filename@ == r[j].filename@),
        forall|i: int| 0 <= i < r.len() ==> (#[trigger] r[i]).token == token,
        x.token == token,
        !listed(r, x.username@, x.filename@),
    ensures
        forall|i: int, j: int|
            0 <= i < j < r.push(x).len() ==> !((#[trigger] r.push(x)[i]).username@ == (
            #[trigger] r.push(x)[j]).username@ && r.push(x)[i].filename@ == r.push(x)[j].filename@),
        forall|i: int| 0 <= i < r.push(x).len() ==> (#[trigger] r.push(x)[i]).token == token,
{
    assert forall|i: int, j: int| 0 <= i < j < r.push(x).len() implies !((
    #[trigger] r.push(x)[i]).username@ == (#[trigger] r.push(x)[j]).username@ && r.push(x)[i].filename@
        == r.push(x)[j].filename@) by {
        if j == r.len() {
            assert(r.push(x)[i] == r[i]);
            if r[i].username@ == x.username@ && r[i].filename@ == x.filename@ {
                assert(listed(r, x.username@, x.filename@));
            }
        } else {
            assert(r.push(x)[i] == r[i] && r.push(x)[j] == r[j]);
        }
    }
    assert forall|i: int| 0 <= i < r.push(x).len() implies (#[trigger] r.push(x)[i]).token
        == token by {
        if i < r.len() {
            assert(r.push(x)[i] == r[i]);
        }
    }
}

/// A download as the front end lists it.
#[derive(Debug, Clone)]
pub struct DownloadItem {
    pub id: u64,
    pub filename: String,
    pub username: String,
    pub size: u64,
    pub downloaded: u64,
    pub speed_bps: u64,
    pub state: String,
}

/// The downloads listed.
#[derive(Debug)]
pub struct DownloadList {
    items: Vec<DownloadItem>,
}

/// The index of the first download with `id`, or the length.
pub open spec fn index_of_id(items: Seq<DownloadItem>, id: u64, i: int) -> int
    decreases items.len() - i,
{
    if i < 0 || i >= items.len() {
        items.len() as int
    } else if items[i].id == id {
        i
    } else {
        index_of_id(items, id, i + 1)
    }
}

proof fn lemma_index_of_id(items: Seq<DownloadItem>, id: u64, i: int)
    requires
        0 <= i <= items.len(),
        forall|m: int| 0 <= m < i ==> (#[trigger] items[m]).id != id,
    ensures
        index_of_id(items, id, 0) == index_of_id(items, id, i),
    decreases i,
{
    if i > 0 {
        lemma_index_of_id(items, id, i - 1);
    }
}

proof fn lemma_index_of_id_hit(items: Seq<DownloadItem>, id: u64, i: int)
    requires
        0 <= i <= items.len(),
    ensures
        index_of_id(items, id, i) < items.len() ==> items[index_of_id(items, id, i)].id == id,
    decreases items.len() - i,
{
    if i < items.len() && items[i].id != id {
        lemma_index_of_id_hit(items, id, i + 1);
    }
}

impl DownloadList {
    /// No download.
    pub fn new() -> (r: Self)
        ensures
            r.items().len() == 0,
    {
        DownloadList { items: Vec::new() }
    }

    /// The downloads listed.
    pub closed spec fn items(&self) -> Seq<DownloadItem> {
        self.items@
    }

    /// The downloads listed.
    pub fn downloads(&self) -> (r: &Vec<DownloadItem>)
        ensures
            r@ == self.items(),
    {
        &self.items
    }

    /// The index of the first download with `id`.
    pub fn find(&self, id: u64) -> (r: Option<usize>)
        ensures
            match r {
                Some(i) => i < self.items().len() && i == index_of_id(self.items(), id, 0),
                None => index_of_id(self.items(), id, 0) == self.items().len(),
            },
    {
        let mut i: usize = 0;
        while i < self.items.len()
            invariant
                i <= self.items@.len(),
                forall|m: int| 0 <= m < i ==> (#[trigger] self.items@[m]).id != id,
            decreases self.items@.len() - i,
        {
            if self.items[i].id == id {
                proof {
                    lemma_index_of_id(self.items@, id, i as int);
                }
                return Some(i);
            }
            i = i + 1;
        }
        proof {
            lemma_index_of_id(self.items@, id, i as int);
        }
        None
    }

    /// Lists a new download, queued, with nothing received.
    pub fn add_download(&mut self, id: u64, filename: &str, username: &str, size: u64)
        ensures
            final(self).items().len() == old(self).items().len() + 1,
            final(self).items().drop_last() == old(self).items(),
            final(self).items().last().id == id,
            final(self).items().last().filename@ == filename@,
            final(self).items().last().username@ == username@,
            final(self).items().last().size == size,
            final(self).items().last().downloaded == 0,
            final(self).items().last().speed_bps == 0,
            final(self).items().last().state@ == "queued"@,
    {
        self.items.push(
            DownloadItem {
                id,
                filename: filename.to_owned(),
                username: username.to_owned(),
                size,
                downloaded: 0,
                speed_bps: 0,
                state: String::from_str("queued"),
            },
        );
        assert(self.items@.drop_last() =~= old(self).items@);
    }

    /// Records the progress of the download with `id`, if it is listed.
    pub fn update_progress(&mut self, id: u64, downloaded: u64, speed_bps: u64, state: &str)
        ensures
            final(self).items().len() == old(self).items().len(),
            forall|k: int|
                0 <= k < old(self).items().len() && k != index_of_id(old(self).items(), id, 0)
                    ==> #[trigger] final(self).items()[k] == old(self).items()[k],
            index_of_id(old(self).items(), id, 0) < old(self).items().len() ==> {
                let k = index_of_id(old(self).items(), id, 0);
                &&& final(self).items()[k].id == id
                &&& final(self).items()[k].downloaded == downloaded
                &&& final(self).items()[k].speed_bps == speed_bps
                &&& final(self).items()[k].state@ == state@
                &&& final(self).items()[k].filename == old(self).items()[k].filename
                &&& final(self).items()[k].username == old(self).items()[k].username
                &&& final(self).items()[k].size == old(self).items()[k].size
            },
    {
        proof {
            lemma_index_of_id_hit(self.items@, id, 0);
        }
        match self.find(id) {
            Some(i) => {
                let old_item = self.items.remove(i);
                let item = DownloadItem {
                    id: old_item.id,
                    filename: old_item.filename,
                    username: old_item.username,
                    size: old_item.size,
                    downloaded,
                    speed_bps,
                    state: state.to_owned(),
                };
                self.items.insert(i, item);
            },
            None => {},
        }
    }

    /// Removes the download with `id`, if it is listed.
    pub fn remove_download(&mut self, id: u64)
        ensures
            index_of_id(old(self).items(), id, 0) < old(self).items().len() ==> final(self).items()
                == old(self).items().remove(index_of_id(old(self).items(), id, 0)),
            index_of_id(old(self).items(), id, 0) == old(self).items().len() ==> final(self).items()
                == old(self).items(),
    {
        match self.find(id) {
            Some(i) => {
                self.items.remove(i);
            },
            None => {},
        }
    }
}

/// Where connecting stands, as the login view shows it.
#[derive(Debug, Clone)]
pub enum ConnectionStatus {
    Connecting,
    ResolvingHost,
    ConnectingToServer,
    ConnectionRefused,
    ConnectionFailed(String),
    LoginFailed(String),
    Connected,
}

/// The text shown for a status.
pub open spec fn status_text_of(s: ConnectionStatus) -> Seq<char> {
    match s {
        ConnectionStatus::Connecting => "Connecting..."@,
        ConnectionStatus::ResolvingHost => "Resolving server.slsknet.org..."@,
        ConnectionStatus::ConnectingToServer => "Connecting to server..."@,
        ConnectionStatus::ConnectionRefused => "Connection refused \u{2014} is the server address correct?"@,
        ConnectionStatus::ConnectionFailed(e) => "Connection failed: "@ + e@,
        ConnectionStatus::LoginFailed(e) => "Login failed: "@ + e@,
        ConnectionStatus::Connected => "Connected!"@,
    }
}

impl ConnectionStatus {
    /// The text shown for the status.
    pub fn text(&self) -> (t: String)
        ensures
            t@ == status_text_of(*self),
    {
        match self {
            ConnectionStatus::Connecting => String::from_str("Connecting..."),
            ConnectionStatus::ResolvingHost => String::from_str("Resolving server.slsknet.org..."),
            ConnectionStatus::ConnectingToServer => String::from_str("Connecting to server..."),
            ConnectionStatus::ConnectionRefused => String::from_str(
                "Connection refused \u{2014} is the server address correct?",
            ),
            ConnectionStatus::ConnectionFailed(e) => {
                let mut t = String::from_str("Connection failed: ");
                t.append(e.as_str());
                t
            },
            ConnectionStatus::LoginFailed(e) => {
                let mut t = String::from_str("Login failed: ");
                t.append(e.as_str());
                t
            },
            ConnectionStatus::Connected => String::from_str("Connected!"),
        }
    }

    /// Whether connecting is over and the user may try again: after a
    /// refusal or a failure.
    pub fn allows_retry(&self) -> (r: bool)
        ensures
            r == (*self is ConnectionRefused || *self is ConnectionFailed || *self is LoginFailed),
    {
        match self {
            ConnectionStatus::ConnectionRefused => true,
            ConnectionStatus::ConnectionFailed(_) => true,
            ConnectionStatus::LoginFailed(_) => true,
            _ => false,
        }
    }

    /// Whether the waiting is over: after a refusal, a failure or success.
    pub fn ends_wait(&self) -> (r: bool)
        ensures
            r == (*self is ConnectionRefused || *self is ConnectionFailed || *self is LoginFailed
                || *self is Connected),
    {
        match self {
            ConnectionStatus::ConnectionRefused => true,
            ConnectionStatus::ConnectionFailed(_) => true,
            ConnectionStatus::LoginFailed(_) => true,
            ConnectionStatus::Connected => true,
            _ => false,
        }
    }
}

/// What the login form does with the user name and password typed.
#[derive(Debug)]
pub enum LoginAttempt {
    /// A field is empty: show `message` and stay on the form.
    Refused { message: String },
    /// Connect as `username` with `password`, showing `status`; `save` is
    /// the profile to store first, when the user asked for it.
    Connect { username: String, password: String, status: String, save: Option<Profile> },
}

/// The message shown when a field of the login form is empty.
pub open spec fn empty_field_message() -> Seq<char> {
    "Please enter username and password"@
}

/// Whether `p` is the profile stored for a login as `user` with `pass`:
/// named after the user, and holding the password.
pub open spec fn login_profile(p: Profile, user: Seq<char>, pass: Seq<char>) -> bool {
    &&& p.name@ == user
    &&& p.username@ == user
    &&& p.password matches Some(pw) && pw@ == pass
}

/// What the login form does when the user connects with `username` and
/// `password`, asking (`save`) or not that the profile be stored: an empty
/// field is refused with a message; otherwise it connects with what was
/// typed, shows `Connecting...`, and stores the profile when asked.
pub fn login_form_attempt(username: &str, password: &str, save: bool) -> (r: LoginAttempt)
    ensures
        match r {
            LoginAttempt::Refused { message } => (username@.len() == 0 || password@.len() == 0)
                && message@ == empty_field_message(),
            LoginAttempt::Connect { username: u, password: p, status, save: s } => {
                &&& username@.len() > 0 && password@.len() > 0
                &&& u@ == username@ && p@ == password@
                &&& status@ == "Connecting..."@
                &&& save ==> (s matches Some(prof) && login_profile(prof, username@, password@))
                &&& !save ==> s is None
            },
        },
{
    if username.is_empty() || password.is_empty() {
        return LoginAttempt::Refused {
            message: String::from_str("Please enter username and password"),
        };
    }
    let save_profile = if save {
        Some(
            Profile {
                name: username.to_owned(),
                username: username.to_owned(),
                password: Some(password.to_owned()),
            },
        )
    } else {
        None
    };
    LoginAttempt::Connect {
        username: username.to_owned(),
        password: password.to_owned(),
        status: String::from_str("Connecting..."),
        save: save_profile,
    }
}

/// The text shown while connecting with a saved profile.
pub open spec fn connecting_as_text(user: Seq<char>) -> Seq<char> {
    "Connecting as "@ + user + "..."@
}

/// What choosing the saved profile at `idx` does: nothing when there is no
/// such profile; otherwise it connects as the profile's user with its
/// password (empty when none is saved), showing `Connecting as <user>...`.
/// Gives the user name, the password and the text.
pub fn saved_profile_login(profiles: &Vec<Profile>, idx: usize) -> (r: Option<(String, String, String)>)
    ensures
        idx >= profiles@.len() ==> r is None,
        idx < profiles@.len() ==> (r matches Some((u, p, t)) && {
            let prof = profiles@[idx as int];
            &&& u@ == prof.username@
            &&& p@ == (match prof.password {
                Some(pw) => pw@,
                None => Seq::<char>::empty(),
            })
            &&& t@ == connecting_as_text(prof.username@)
        }),
{
    if idx >= profiles.len() {
        return None;
    }
    let prof = &profiles[idx];
    let pass = match &prof.password {
        Some(pw) => pw.clone(),
        None => String::new(),
    };
    let mut text = String::from_str("Connecting as ");
    text.append(prof.username.as_str());
    text.append("...");
    Some((prof.username.clone(), pass, text))
}

/// The front end's settings.
#[derive(Debug, Clone)]
pub struct Settings {
    pub username: String,
    pub password: String,
    pub server_host: String,
    pub server_port: u32,
    pub listen_port: u32,
    pub download_dir: String,
    pub upload_slots: u8,
    pub download_slots: u8,
    pub dark_mode: bool,
    pub auto_reconnect: bool,
}

impl Settings {
    /// The default settings, downloading to `download_dir` (the current
    /// directory, as the front end finds it): no user yet, the public
    /// server on port 2242, listening on 2234, three upload and three
    /// download slots, light mode, reconnecting on its own.
    pub fn defaults(download_dir: String) -> (s: Self)
        ensures
            s.username@.len() == 0,
            s.password@.len() == 0,
            s.server_host@ == "server.slsknet.org"@,
            s.server_port == 2242,
            s.listen_port == 2234,
            s.download_dir == download_dir,
            s.upload_slots == 3,
            s.download_slots == 3,
            !s.dark_mode,
            s.auto_reconnect,
    {
        Settings {
            username: String::new(),
            password: String::new(),
            server_host: String::from_str("server.slsknet.org"),
            server_port: 2242,
            listen_port: 2234,
            download_dir,
            upload_slots: 3,
            download_slots: 3,
            dark_mode: false,
            auto_reconnect: true,
        }
    }
}

} // verus!

//! The host shell's decision logic: playback state, window state, sidebar
//! geometry, the tray menu's composition, and the small texts shown in
//! notifications and presence updates. The windowing, tray and IPC calls
//! themselves live outside the library; these functions decide what those
//! calls are given.

use vstd::prelude::*;


verus! {

/// The player's state as the web player reports it (`none`, `paused` or
/// `playing`) and the song currently loaded, if any.
pub struct PlaybackState {
    state: String,
    current_song: Option<(String, String)>,
}

impl PlaybackState {
    /// The state string.
    pub closed spec fn state_spec(self) -> Seq<char> {
        self.state@
    }

    /// The current song as a title/artist pair.
    pub closed spec fn song_spec(self) -> Option<(Seq<char>, Seq<char>)> {
        match self.current_song {
            Some((t, a)) => Some((t@, a@)),
            None => None,
        }
    }

    /// A fresh state: nothing playing, no song loaded.
    pub fn new() -> (r: Self)
        ensures
            r.state_spec() == "none"@,
            r.song_spec() is None,
    {
        PlaybackState { state: "none".to_owned(), current_song: None }
    }

    /// Replaces the state string.
    pub fn set_state(&mut self, new_state: String)
        ensures
            final(self).state_spec() == new_state@,
            final(self).song_spec() == old(self).song_spec(),
    {
        self.state = new_state;
    }

    /// The state string.
    pub fn get_state(&self) -> (r: String)
        ensures
            r@ == self.state_spec(),
    {
        self.state.clone()
    }

    /// Records the song now loaded.
    pub fn set_current_song(&mut self, title: String, artist: String)
        ensures
            final(self).song_spec() == Some((title@, artist@)),
            final(self).state_spec() == old(self).state_spec(),
    {
        self.current_song = Some((title, artist));
    }

    /// Forgets the current song.
    pub fn clear_current_song(&mut self)
        ensures
            final(self).song_spec() is None,
            final(self).state_spec() == old(self).state_spec(),
    {
        self.current_song = None;
    }

    /// The current song, if one is loaded.
    pub fn get_current_song(&self) -> (r: Option<(String, String)>)
        ensures
            match r {
                Some(p) => self.song_spec() == Some((p.0@, p.1@)),
                None => self.song_spec() is None,
            },
    {
        match &self.current_song {
            Some((t, a)) => Some((t.clone(), a.clone())),
            None => None,
        }
    }

    /// Whether the player reports itself playing.
    pub fn is_playing(&self) -> (r: bool)
        ensures
            r == (self.state_spec() == "playing"@),
    {
        let playing: String = "playing".to_owned();
        self.state == playing
    }

    /// Applies a tooltip update: a song with both fields non-empty is
    /// recorded, anything else clears the current song.
    pub fn update_current_song(&mut self, title: String, artist: String)
        ensures
            final(self).song_spec() == if title@.len() > 0 && artist@.len() > 0 {
                Some((title@, artist@))
            } else {
                None::<(Seq<char>, Seq<char>)>
            },
            final(self).state_spec() == old(self).state_spec(),
    {
        if title.as_str().unicode_len() > 0 && artist.as_str().unicode_len() > 0 {
            self.set_current_song(title, artist);
        } else {
            self.clear_current_song();
        }
    }
}

impl Default for PlaybackState {
    /// The same fresh state `new` gives.
    fn default() -> (r: Self)
        ensures
            r.state_spec() == "none"@,
            r.song_spec() is None,
    {
        PlaybackState::new()
    }
}

/// The persisted window geometry and sidebar preferences.
pub struct WindowState {
    pub width: u32,
    pub height: u32,
    pub x: i32,
    pub y: i32,
    pub maximized: bool,
    pub monitor_index: Option<usize>,
    pub sidebar_visible: bool,
    pub sidebar_width: u32,
    pub sidebar_font_size: u32,
}

impl Default for WindowState {
    /// The geometry used before any state was ever persisted.
    fn default() -> (r: Self)
        ensures
            r.width == 1280 && r.height == 720,
            r.x == 100 && r.y == 100,
            !r.maximized,
            r.monitor_index is None,
            !r.sidebar_visible,
            r.sidebar_width == 400,
            r.sidebar_font_size == 14,
    {
        WindowState {
            width: 1280,
            height: 720,
            x: 100,
            y: 100,
            maximized: false,
            monitor_index: None,
            sidebar_visible: false,
            sidebar_width: 400,
            sidebar_font_size: 14,
        }
    }
}

impl WindowState {
    /// Shows or hides the sidebar.
    pub fn set_sidebar_visible(&mut self, visible: bool)
        ensures
            *final(self) == (WindowState { sidebar_visible: visible, ..*old(self) }),
    {
        self.sidebar_visible = visible;
    }

    /// Remembers a new sidebar width.
    pub fn set_sidebar_width(&mut self, width: u32)
        ensures
            *final(self) == (WindowState { sidebar_width: width, ..*old(self) }),
    {
        self.sidebar_width = width;
    }

    /// Remembers a new sidebar font size.
    pub fn set_sidebar_font_size(&mut self, font_size: u32)
        ensures
            *final(self) == (WindowState { sidebar_font_size: font_size, ..*old(self) }),
    {
        self.sidebar_font_size = font_size;
    }
}

/// Where the two windows go after a sidebar toggle or resize. Positions
/// are wide enough that no sum of a screen coordinate and a width can
/// overflow.
pub struct SidebarLayout {
    pub player_width: u32,
    pub player_height: u32,
    pub sidebar_x: i64,
    pub sidebar_y: i64,
    pub sidebar_width: u32,
    pub sidebar_height: u32,
    pub show_sidebar: bool,
}

/// The geometry for showing or hiding the sidebar beside the player
/// window: shown, the player shrinks by the sidebar's width (never below
/// zero) and the sidebar takes the freed strip; hidden, the player keeps
/// the full width.
pub fn sidebar_toggle_layout(
    main_width: u32,
    main_height: u32,
    main_x: i32,
    main_y: i32,
    sidebar_width: u32,
    visible: bool,
) -> (r: SidebarLayout)
    ensures
        r.show_sidebar == visible,
        r.player_height == main_height,
        r.sidebar_height == main_height,
        r.sidebar_width == sidebar_width,
        visible ==> r.player_width == if sidebar_width > main_width {
            0u32
        } else {
            (main_width - sidebar_width) as u32
        },
        !visible ==> r.player_width == main_width,
        r.sidebar_x == main_x + r.player_width,
        r.sidebar_y == main_y as i64,
{
    let player_width: u32 = if visible {
        if sidebar_width > main_width {
            0
        } else {
            main_width - sidebar_width
        }
    } else {
        main_width
    };
    SidebarLayout {
        player_width,
        player_height: main_height,
        sidebar_x: main_x as i64 + player_width as i64,
        sidebar_y: main_y as i64,
        sidebar_width,
        sidebar_height: main_height,
        show_sidebar: visible,
    }
}

/// The geometry after dragging the sidebar to a new width: the player
/// window keeps its width and the sidebar is laid to its right with the
/// new width.
pub fn sidebar_resize_layout(
    player_width: u32,
    player_height: u32,
    player_x: i32,
    player_y: i32,
    new_width: u32,
) -> (r: SidebarLayout)
    ensures
        r.show_sidebar,
        r.player_width == player_width,
        r.player_height == player_height,
        r.sidebar_width == new_width,
        r.sidebar_height == player_height,
        r.sidebar_x == player_x + player_width,
        r.sidebar_y == player_y as i64,
{
    SidebarLayout {
        player_width,
        player_height,
        sidebar_x: player_x as i64 + player_width as i64,
        sidebar_y: player_y as i64,
        sidebar_width: new_width,
        sidebar_height: player_height,
        show_sidebar: true,
    }
}

/// One entry of the tray menu, in display order.
#[derive(Clone, Copy, PartialEq, Eq, Structural, Debug)]
pub enum TrayEntry {
    /// The disabled line showing the current song.
    NowPlaying,
    Separator,
    ShowHide,
    PreviousTrack,
    Play,
    Pause,
    Stop,
    NextTrack,
    Quit,
}

/// The tray menu's composition for a playback state and the presence of a
/// loaded song: a now-playing line when a song is loaded, then the window
/// toggle, then the transport controls the state allows, then quit.
pub open spec fn tray_menu_spec(state: Seq<char>, has_song: bool) -> Seq<TrayEntry> {
    let head: Seq<TrayEntry> = if has_song {
        seq![TrayEntry::NowPlaying, TrayEntry::Separator]
    } else {
        Seq::<TrayEntry>::empty()
    };
    let controls: Seq<TrayEntry> = if state == "playing"@ {
        seq![TrayEntry::Pause, TrayEntry::Stop, TrayEntry::NextTrack]
    } else if state == "paused"@ {
        seq![TrayEntry::Play, TrayEntry::Stop, TrayEntry::NextTrack]
    } else {
        seq![TrayEntry::Play, TrayEntry::NextTrack]
    };
    head + seq![TrayEntry::ShowHide, TrayEntry::Separator, TrayEntry::PreviousTrack] + controls
        + seq![TrayEntry::Separator, TrayEntry::Quit]
}

/// Composes the tray menu for the given state and song presence.
pub fn tray_menu_layout(state: &str, has_song: bool) -> (r: Vec<TrayEntry>)
    ensures
        r@ == tray_menu_spec(state@, has_song),
{
    let mut r: Vec<TrayEntry> = Vec::new();
    if has_song {
        r.push(TrayEntry::NowPlaying);
        r.push(TrayEntry::Separator);
    }
    r.push(TrayEntry::ShowHide);
    r.push(TrayEntry::Separator);
    r.push(TrayEntry::PreviousTrack);
    let s: String = state.to_owned();
    let playing: String = "playing".to_owned();
    let paused: String = "paused".to_owned();
    if s == playing {
        r.push(TrayEntry::Pause);
        r.push(TrayEntry::Stop);
        r.push(TrayEntry::NextTrack);
    } else if s == paused {
        r.push(TrayEntry::Play);
        r.push(TrayEntry::Stop);
        r.push(TrayEntry::NextTrack);
    } else {
        r.push(TrayEntry::Play);
        r.push(TrayEntry::NextTrack);
    }
    r.push(TrayEntry::Separator);
    r.push(TrayEntry::Quit);
    proof {
        assert(r@ =~= tray_menu_spec(state@, has_song));
    }
    r
}

/// The disabled menu line naming the current song.
pub fn now_playing_text(title: &str, artist: &str) -> (r: String)
    ensures
        r@ == "\u{266a} "@ + title@ + " - "@ + artist@,
{
    let mut r: String = "\u{266a} ".to_owned();
    r.append(title);
    r.append(" - ");
    r.append(artist);
    r
}

/// The two presence lines shown while a song plays: the title, and `by`
/// with the artist.
pub fn presence_texts(title: &str, artist: &str) -> (r: (String, String))
    ensures
        r.0@ == title@,
        r.1@ == "by "@ + artist@,
{
    let mut state_text: String = "by ".to_owned();
    state_text.append(artist);
    (title.to_owned(), state_text)
}

/// What the notification body says for an artist and the optional album
/// and duration lines, joined with bullet separators; empty parts are
/// left out.
pub open spec fn notification_body_spec(
    artist: Seq<char>,
    album: Option<Seq<char>>,
    duration: Option<Seq<char>>,
) -> Seq<char> {
    let base = "by "@ + artist;
    let with_album = match album {
        Some(a) => if a.len() > 0 {
            base + " \u{2022} from "@ + a
        } else {
            base
        },
        None => base,
    };
    match duration {
        Some(d) => if d.len() > 0 {
            with_album + " \u{2022} "@ + d
        } else {
            with_album
        },
        None => with_album,
    }
}

/// Builds the notification body.
pub fn notification_body(artist: &str, album: Option<String>, duration: Option<String>) -> (r:
    String)
    ensures
        r@ == notification_body_spec(
            artist@,
            match album {
                Some(a) => Some(a@),
                None => None,
            },
            match duration {
                Some(d) => Some(d@),
                None => None,
            },
        ),
{
    let mut r: String = "by ".to_owned();
    r.append(artist);
    match album {
        Some(a) => {
            if a.as_str().unicode_len() > 0 {
                r.append(" \u{2022} from ");
                r.append(a.as_str());
            }
        },
        None => {},
    }
    match duration {
        Some(d) => {
            if d.as_str().unicode_len() > 0 {
                r.append(" \u{2022} ");
                r.append(d.as_str());
            }
        },
        None => {},
    }
    r
}

/// The notification headline naming the song.
pub fn notification_summary(title: &str) -> (r: String)
    ensures
        r@ == "\u{1f3b5} "@ + title@,
{
    let mut r: String = "\u{1f3b5} ".to_owned();
    r.append(title);
    r
}

/// What the host reports about itself to the page.
pub struct AppMetadata {
    pub name: String,
    pub version: String,
    pub identifier: String,
}

/// Fills the metadata from the host's configuration, with the fixed
/// fallbacks where a field is absent.
pub fn app_metadata_from_config(
    product_name: Option<String>,
    version: Option<String>,
    identifier: String,
) -> (r: AppMetadata)
    ensures
        match product_name {
            Some(n) => r.name == n,
            None => r.name@ == "Basitune"@,
        },
        match version {
            Some(v) => r.version == v,
            None => r.version@ == "Unknown"@,
        },
        r.identifier == identifier,
{
    AppMetadata {
        name: match product_name {
            Some(n) => n,
            None => "Basitune".to_owned(),
        },
        version: match version {
            Some(v) => v,
            None => "Unknown".to_owned(),
        },
        identifier,
    }
}

/// What an update check concluded.
pub struct UpdateInfo {
    pub available: bool,
    pub current_version: String,
    pub latest_version: String,
}

/// Summarizes an update check: a found update carries its two versions;
/// none found reports the current version on both sides.
pub fn update_info_from_check(current_version: String, found: Option<(String, String)>) -> (r:
    UpdateInfo)
    ensures
        match found {
            Some(p) => r.available && r.current_version == p.0 && r.latest_version == p.1,
            None => !r.available && r.current_version == current_version && r.latest_version
                == current_version,
        },
{
    match found {
        Some((cur, latest)) => UpdateInfo { available: true, current_version: cur, latest_version: latest },
        None => UpdateInfo {
            available: false,
            current_version: current_version.clone(),
            latest_version: current_version,
        },
    }
}

/// Each character escaped as it must stand inside a double-quoted
/// JavaScript string literal: backslashes and double quotes get a leading
/// backslash, everything else passes through.
pub open spec fn js_escape_spec(s: Seq<char>) -> Seq<char>
    decreases s.len(),
{
    if s.len() == 0 {
        s
    } else {
        let head = js_escape_spec(s.subrange(0, s.len() - 1));
        let c = s[s.len() - 1];
        if c == '\\' {
            head + seq!['\\', '\\']
        } else if c == '"' {
            head + seq!['\\', '"']
        } else {
            head + seq![c]
        }
    }
}

/// Escapes a string for embedding in a double-quoted JavaScript literal.
pub fn js_string_escape(s: &str) -> (r: String)
    ensures
        r@ == js_escape_spec(s@),
{
    let cs = crate::text::str_to_chars(s);
    let mut out: Vec<char> = Vec::new();
    let mut i: usize = 0;
    while i < cs.len()
        invariant
            i <= cs@.len(),
            out@ == js_escape_spec(cs@.subrange(0, i as int)),
        decreases cs@.len() - i,
    {
        let c = cs[i];
        proof {
            assert(cs@.subrange(0, i + 1).subrange(0, i as int) =~= cs@.subrange(0, i as int));
            assert(cs@.subrange(0, i + 1)[i as int] == cs@[i as int]);
        }
        if c == '\\' {
            out.push('\\');
            out.push('\\');
            proof {
                assert(out@ =~= js_escape_spec(cs@.subrange(0, i + 1)));
            }
        } else if c == '"' {
            out.push('\\');
            out.push('"');
            proof {
                assert(out@ =~= js_escape_spec(cs@.subrange(0, i + 1)));
            }
        } else {
            out.push(c);
            proof {
                assert(out@ =~= js_escape_spec(cs@.subrange(0, i + 1)));
            }
        }
        i = i + 1;
    }
    proof {
        assert(cs@.subrange(0, cs@.len() as int) =~= cs@);
    }
    crate::text::chars_to_string(&out)
}

} // verus!

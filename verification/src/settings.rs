//! The settings dialog: how stored settings map to the rows that show them,
//! and what the updates page shows for the outcome of a check.

use vstd::prelude::*;
use vstd::string::StringExecFns;
use crate::text::str_eq;
use crate::updater::UpdateStatus;

verus! {

/// The settings that the dialog shows as a choice among three values.
#[derive(Clone, Copy, Debug, PartialEq, Eq)]
pub enum SettingChoice {
    PlayerBitrate,
    AudioBackend,
    ThemePreference,
}

/// The stored values of a choice, in the order of the rows' entries.
pub open spec fn choice_values(choice: SettingChoice) -> Seq<Seq<char>> {
    match choice {
        SettingChoice::PlayerBitrate => seq!["96"@, "160"@, "320"@],
        SettingChoice::AudioBackend => seq!["pulseaudio"@, "alsa"@, "gstreamer"@],
        SettingChoice::ThemePreference => seq!["light"@, "dark"@, "system"@],
    }
}

/// The entry that shows a stored value, if the value is one of the choice's.
pub open spec fn index_of_value(choice: SettingChoice, value: Seq<char>) -> Option<u32> {
    let values = choice_values(choice);
    if value == values[0] {
        Some(0)
    } else if value == values[1] {
        Some(1)
    } else if value == values[2] {
        Some(2)
    } else {
        None
    }
}

/// The stored value of an entry, if there is such an entry.
pub open spec fn value_of_index(choice: SettingChoice, index: u32) -> Option<Seq<char>> {
    if index < 3 {
        Some(choice_values(choice)[index as int])
    } else {
        None
    }
}

/// The key under which the choice is stored.
pub fn settings_key(choice: SettingChoice) -> (r: &'static str)
    ensures
        r@ == match choice {
            SettingChoice::PlayerBitrate => "player-bitrate"@,
            SettingChoice::AudioBackend => "audio-backend"@,
            SettingChoice::ThemePreference => "theme-preference"@,
        },
{
    match choice {
        SettingChoice::PlayerBitrate => "player-bitrate",
        SettingChoice::AudioBackend => "audio-backend",
        SettingChoice::ThemePreference => "theme-preference",
    }
}

fn values_of(choice: SettingChoice) -> (r: (&'static str, &'static str, &'static str))
    ensures
        choice_values(choice) == seq![r.0@, r.1@, r.2@],
{
    match choice {
        SettingChoice::PlayerBitrate => ("96", "160", "320"),
        SettingChoice::AudioBackend => ("pulseaudio", "alsa", "gstreamer"),
        SettingChoice::ThemePreference => ("light", "dark", "system"),
    }
}

/// The entry that shows a stored value; `None` for a value that the choice
/// does not have.
pub fn selected_index(choice: SettingChoice, value: &str) -> (r: Option<u32>)
    ensures
        r == index_of_value(choice, value@),
{
    let (a, b, c) = values_of(choice);
    if str_eq(value, a) {
        Some(0)
    } else if str_eq(value, b) {
        Some(1)
    } else if str_eq(value, c) {
        Some(2)
    } else {
        None
    }
}

/// The value to store for an entry; `None` for an entry that the choice does
/// not have.
pub fn stored_value(choice: SettingChoice, index: u32) -> (r: Option<&'static str>)
    ensures
        r is Some <==> index < 3,
        r matches Some(v) ==> value_of_index(choice, index) == Some(v@),
{
    let (a, b, c) = values_of(choice);
    match index {
        0 => Some(a),
        1 => Some(b),
        2 => Some(c),
        _ => None,
    }
}

/// The three stored values of each choice are distinct.
proof fn lemma_choice_values_distinct(choice: SettingChoice)
    ensures
        choice_values(choice)[0] != choice_values(choice)[1],
        choice_values(choice)[0] != choice_values(choice)[2],
        choice_values(choice)[1] != choice_values(choice)[2],
{
    reveal_strlit("96");
    reveal_strlit("160");
    reveal_strlit("320");
    reveal_strlit("pulseaudio");
    reveal_strlit("alsa");
    reveal_strlit("gstreamer");
    reveal_strlit("light");
    reveal_strlit("dark");
    reveal_strlit("system");
    match choice {
        SettingChoice::PlayerBitrate => {
            assert("96"@.len() != "160"@.len());
            assert("96"@.len() != "320"@.len());
            assert("160"@[0] != "320"@[0]);
        },
        SettingChoice::AudioBackend => {
            assert("pulseaudio"@.len() != "alsa"@.len());
            assert("pulseaudio"@.len() != "gstreamer"@.len());
            assert("alsa"@.len() != "gstreamer"@.len());
        },
        SettingChoice::ThemePreference => {
            assert("light"@.len() != "dark"@.len());
            assert("light"@[0] != "system"@[0]);
            assert("dark"@.len() != "system"@.len());
        },
    }
}

/// Reading a stored value into the row and writing the row back stores the
/// same value, and writing an entry then reading it selects the same entry.
pub proof fn law_choice_round_trip(choice: SettingChoice, value: Seq<char>, index: u32)
    ensures
        index_of_value(choice, value) matches Some(i) ==> value_of_index(choice, i) == Some(value),
        index < 3 ==> index_of_value(choice, choice_values(choice)[index as int]) == Some(index),
{
    lemma_choice_values_distinct(choice);
}

/// The colour scheme that a theme entry asks for.
#[derive(Clone, Copy, Debug, PartialEq, Eq)]
pub enum ColorScheme {
    ForceLight,
    ForceDark,
    Default,
}

/// The colour scheme for the selected theme entry: light, dark, or the
/// system's for any other entry.
pub fn color_scheme_for(selected: u32) -> (r: ColorScheme)
    ensures
        r == (if selected == 0 {
            ColorScheme::ForceLight
        } else if selected == 1 {
            ColorScheme::ForceDark
        } else {
            ColorScheme::Default
        }),
{
    match selected {
        0 => ColorScheme::ForceLight,
        1 => ColorScheme::ForceDark,
        _ => ColorScheme::Default,
    }
}

/// The ALSA device row is shown exactly when the selected backend entry is 1.
pub fn alsa_device_visible(selected_backend: u32) -> (r: bool)
    ensures
        r == (selected_backend == 1),
{
    selected_backend == 1
}

/// The ALSA device row is shown exactly when the backend stored for the
/// selected entry is `alsa`, and the theme entries that store `light` and
/// `dark` force that scheme.
pub proof fn law_rows_follow_stored_values(index: u32)
    ensures
        (index == 1) <==> value_of_index(SettingChoice::AudioBackend, index) == Some("alsa"@),
        value_of_index(SettingChoice::ThemePreference, index) == Some("light"@) ==> index == 0,
        value_of_index(SettingChoice::ThemePreference, index) == Some("dark"@) ==> index == 1,
{
    lemma_choice_values_distinct(SettingChoice::AudioBackend);
    lemma_choice_values_distinct(SettingChoice::ThemePreference);
}

/// The settings that the player reads, as the dialog stores them: every
/// stored setting but the theme.
#[derive(Debug, Clone)]
pub struct StoredPlayerSettings {
    pub bitrate: String,
    pub audio_backend: String,
    pub alsa_device: String,
    pub gapless_playback: bool,
    pub ap_port: u32,
}

/// Two sets of player settings that the player treats alike.
pub open spec fn same_player_settings(a: StoredPlayerSettings, b: StoredPlayerSettings) -> bool {
    &&& a.bitrate@ == b.bitrate@
    &&& a.audio_backend@ == b.audio_backend@
    &&& a.alsa_device@ == b.alsa_device@
    &&& a.gapless_playback == b.gapless_playback
    &&& a.ap_port == b.ap_port
}

/// Player settings are alike exactly when every one of them is: the bitrate,
/// the audio backend, the ALSA device, gapless playback and the port. A
/// change of any one of them (the backend included) makes them differ.
pub proof fn law_player_settings_compared_whole(a: StoredPlayerSettings, b: StoredPlayerSettings)
    ensures
        same_player_settings(a, b) <==> (a.bitrate@ == b.bitrate@ && a.audio_backend@
            == b.audio_backend@ && a.alsa_device@ == b.alsa_device@ && a.gapless_playback
            == b.gapless_playback && a.ap_port == b.ap_port),
{
}

/// What closing the dialog does.
#[derive(Debug, Clone, Copy, PartialEq, Eq)]
pub struct CloseActions {
    /// Stop the player, so that it starts again with the new settings.
    pub stop_player: bool,
    /// Load the stored settings into the application.
    pub apply_settings: bool,
}

/// What closing the dialog does, given the player settings in use and those
/// now stored: the player is stopped exactly when they differ, and the stored
/// settings are always applied.
pub fn close_actions(in_use: &StoredPlayerSettings, stored: &StoredPlayerSettings) -> (r: CloseActions)
    ensures
        r.stop_player == !same_player_settings(*in_use, *stored),
        r.stop_player <==> (in_use.bitrate@ != stored.bitrate@ || in_use.audio_backend@
            != stored.audio_backend@ || in_use.alsa_device@ != stored.alsa_device@
            || in_use.gapless_playback != stored.gapless_playback || in_use.ap_port
            != stored.ap_port),
        r.apply_settings,
{
    proof {
        law_player_settings_compared_whole(*in_use, *stored);
    }
    let same = str_eq(in_use.bitrate.as_str(), stored.bitrate.as_str()) && str_eq(
        in_use.audio_backend.as_str(),
        stored.audio_backend.as_str(),
    ) && str_eq(in_use.alsa_device.as_str(), stored.alsa_device.as_str())
        && in_use.gapless_playback == stored.gapless_playback && in_use.ap_port == stored.ap_port;
    CloseActions { stop_player: !same, apply_settings: true }
}

/// Title while a check runs (a message to translate).
pub const CHECKING_TITLE: &'static str = "Checking for updates...";

/// Subtitle while a check runs (a message to translate).
pub const CHECKING_SUBTITLE: &'static str = "Connecting to GitHub to verify the latest release.";

/// Title when the running version is the latest (a message to translate).
pub const UP_TO_DATE_TITLE: &'static str = "Spotdora is up to date";

/// Title when a newer release exists (a message to translate).
pub const NEW_VERSION_TITLE: &'static str = "New version available!";

/// Title when the check failed (a message to translate).
pub const CHECK_FAILED_TITLE: &'static str = "Check failed";

/// What the updates page shows for the outcome of a check.
#[derive(Debug, Clone)]
pub struct UpdatePresentation {
    /// The status row's title, before translation.
    pub title: &'static str,
    /// The status row's subtitle.
    pub subtitle: String,
    /// The address that the download button opens; no button without one.
    pub download_url: Option<String>,
    /// The release page that the release button opens; no button without one.
    pub release_url: Option<String>,
    /// The release notes to show; no notes row without them.
    pub notes: Option<String>,
}

pub open spec fn up_to_date_subtitle(version: Seq<char>) -> Seq<char> {
    "Version "@ + version + " is the latest release available for Fedora Workstation."@
}

pub open spec fn new_version_subtitle(version: Seq<char>) -> Seq<char> {
    "Spotdora "@ + version + " is ready to download and install."@
}

/// What the updates page shows for `status`.
pub fn update_presentation(status: &UpdateStatus) -> (r: UpdatePresentation)
    ensures
        match status {
            UpdateStatus::UpToDate(version) => {
                &&& r.title@ == UP_TO_DATE_TITLE@
                &&& r.subtitle@ == up_to_date_subtitle(version@)
                &&& r.download_url is None
                &&& r.release_url is None
                &&& r.notes is None
            },
            UpdateStatus::NewVersionAvailable { version, rpm_url, html_url, notes } => {
                &&& r.title@ == NEW_VERSION_TITLE@
                &&& r.subtitle@ == new_version_subtitle(version@)
                &&& r.download_url == *rpm_url
                &&& r.release_url == Some(*html_url)
                &&& r.notes == Some(*notes)
            },
            UpdateStatus::Error(err) => {
                &&& r.title@ == CHECK_FAILED_TITLE@
                &&& r.subtitle@ == err@
                &&& r.download_url is None
                &&& r.release_url is None
                &&& r.notes is None
            },
        },
{
    match status {
        UpdateStatus::UpToDate(version) => {
            let mut subtitle = "Version ".to_owned();
            subtitle.append(version.as_str());
            subtitle.append(" is the latest release available for Fedora Workstation.");
            UpdatePresentation {
                title: UP_TO_DATE_TITLE,
                subtitle,
                download_url: None,
                release_url: None,
                notes: None,
            }
        },
        UpdateStatus::NewVersionAvailable { version, rpm_url, html_url, notes } => {
            let mut subtitle = "Spotdora ".to_owned();
            subtitle.append(version.as_str());
            subtitle.append(" is ready to download and install.");
            let download_url = match rpm_url {
                Some(u) => Some(u.clone()),
                None => None,
            };
            UpdatePresentation {
                title: NEW_VERSION_TITLE,
                subtitle,
                download_url,
                release_url: Some(html_url.clone()),
                notes: Some(notes.clone()),
            }
        },
        UpdateStatus::Error(err) => UpdatePresentation {
            title: CHECK_FAILED_TITLE,
            subtitle: err.clone(),
            download_url: None,
            release_url: None,
            notes: None,
        },
    }
}

pub open spec fn version_row_subtitle(version: Seq<char>) -> Seq<char> {
    "Spotdora "@ + version + " (Fedora Workstation)"@
}

/// The subtitle of the row that names the running version.
pub fn current_version_subtitle(version: &str) -> (r: String)
    ensures
        r@ == version_row_subtitle(version@),
{
    let mut s = "Spotdora ".to_owned();
    s.append(version);
    s.append(" (Fedora Workstation)");
    s
}

} // verus!

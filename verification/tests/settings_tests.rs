use spotdora::settings::{
    close_actions, StoredPlayerSettings,
    alsa_device_visible, color_scheme_for, current_version_subtitle, selected_index,
    settings_key, stored_value, update_presentation, ColorScheme, SettingChoice,
};
use spotdora::updater::UpdateStatus;

#[test]
fn bitrate_values_map_to_rows() {
    assert_eq!(selected_index(SettingChoice::PlayerBitrate, "96"), Some(0));
    assert_eq!(selected_index(SettingChoice::PlayerBitrate, "160"), Some(1));
    assert_eq!(selected_index(SettingChoice::PlayerBitrate, "320"), Some(2));
    assert_eq!(selected_index(SettingChoice::PlayerBitrate, "128"), None);
    assert_eq!(stored_value(SettingChoice::PlayerBitrate, 0), Some("96"));
    assert_eq!(stored_value(SettingChoice::PlayerBitrate, 2), Some("320"));
    assert_eq!(stored_value(SettingChoice::PlayerBitrate, 3), None);
}

#[test]
fn backend_and_theme_values_map_to_rows() {
    assert_eq!(selected_index(SettingChoice::AudioBackend, "pulseaudio"), Some(0));
    assert_eq!(selected_index(SettingChoice::AudioBackend, "alsa"), Some(1));
    assert_eq!(selected_index(SettingChoice::AudioBackend, "gstreamer"), Some(2));
    assert_eq!(stored_value(SettingChoice::AudioBackend, 1), Some("alsa"));
    assert_eq!(selected_index(SettingChoice::ThemePreference, "light"), Some(0));
    assert_eq!(selected_index(SettingChoice::ThemePreference, "dark"), Some(1));
    assert_eq!(selected_index(SettingChoice::ThemePreference, "system"), Some(2));
    assert_eq!(selected_index(SettingChoice::ThemePreference, "Dark"), None);
    assert_eq!(stored_value(SettingChoice::ThemePreference, 2), Some("system"));
}

#[test]
fn round_trip_on_every_row() {
    for choice in [SettingChoice::PlayerBitrate, SettingChoice::AudioBackend, SettingChoice::ThemePreference] {
        for i in 0..3u32 {
            let v = stored_value(choice, i).unwrap();
            assert_eq!(selected_index(choice, v), Some(i));
        }
    }
}

#[test]
fn keys_of_the_choices() {
    assert_eq!(settings_key(SettingChoice::PlayerBitrate), "player-bitrate");
    assert_eq!(settings_key(SettingChoice::AudioBackend), "audio-backend");
    assert_eq!(settings_key(SettingChoice::ThemePreference), "theme-preference");
}

#[test]
fn theme_rows_choose_the_scheme() {
    assert_eq!(color_scheme_for(0), ColorScheme::ForceLight);
    assert_eq!(color_scheme_for(1), ColorScheme::ForceDark);
    assert_eq!(color_scheme_for(2), ColorScheme::Default);
    assert_eq!(color_scheme_for(7), ColorScheme::Default);
}

#[test]
fn alsa_row_follows_backend() {
    assert!(!alsa_device_visible(0));
    assert!(alsa_device_visible(1));
    assert!(!alsa_device_visible(2));
}

#[test]
fn presentation_of_each_outcome() {
    let p = update_presentation(&UpdateStatus::UpToDate("0.5.1".to_string()));
    assert_eq!(p.title, "Spotdora is up to date");
    assert_eq!(
        p.subtitle,
        "Version 0.5.1 is the latest release available for Fedora Workstation."
    );
    assert!(p.download_url.is_none() && p.release_url.is_none() && p.notes.is_none());

    let p = update_presentation(&UpdateStatus::NewVersionAvailable {
        version: "v0.6.0".to_string(),
        rpm_url: Some("https://a/x.rpm".to_string()),
        html_url: "https://a/page".to_string(),
        notes: "Notes".to_string(),
    });
    assert_eq!(p.title, "New version available!");
    assert_eq!(p.subtitle, "Spotdora v0.6.0 is ready to download and install.");
    assert_eq!(p.download_url, Some("https://a/x.rpm".to_string()));
    assert_eq!(p.release_url, Some("https://a/page".to_string()));
    assert_eq!(p.notes, Some("Notes".to_string()));

    let p = update_presentation(&UpdateStatus::Error("boom".to_string()));
    assert_eq!(p.title, "Check failed");
    assert_eq!(p.subtitle, "boom");
    assert!(p.download_url.is_none() && p.release_url.is_none() && p.notes.is_none());
}

#[test]
fn version_row_subtitle() {
    assert_eq!(current_version_subtitle("0.5.1"), "Spotdora 0.5.1 (Fedora Workstation)");
}

fn player(bitrate: &str, port: u32) -> StoredPlayerSettings {
    StoredPlayerSettings {
        bitrate: bitrate.to_string(),
        audio_backend: "pulseaudio".to_string(),
        alsa_device: "default".to_string(),
        gapless_playback: true,
        ap_port: port,
    }
}

#[test]
fn closing_stops_the_player_only_when_its_settings_changed() {
    let same = close_actions(&player("160", 0), &player("160", 0));
    assert!(!same.stop_player && same.apply_settings);
    let bitrate = close_actions(&player("160", 0), &player("320", 0));
    assert!(bitrate.stop_player && bitrate.apply_settings);
    let port = close_actions(&player("160", 0), &player("160", 4070));
    assert!(port.stop_player);
    let mut gapless = player("160", 0);
    gapless.gapless_playback = false;
    assert!(close_actions(&player("160", 0), &gapless).stop_player);
}

//! Verified core of the Spotdora client: release-version comparison, the
//! update-check decisions, the OAuth callback handling and the settings
//! value mappings.

pub mod text;
pub mod version;
pub mod updater;
pub mod settings;
pub mod callback;
pub mod oauth;

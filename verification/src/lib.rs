//! Decisions of Brick's replay desk: what a recording shows, which provider pages may
//! open, when playback commands count as done, and what the native windows must do next.

pub mod address;
pub mod capture;
pub mod clock;
pub mod cooldown_editor;
pub mod cooldowns;
pub mod diagnostics;
pub mod fullscreen;
pub mod login_window;
pub mod native_window;
pub mod occlusion;
pub mod order;
pub mod playback;
pub mod player_address;
pub mod provider;
pub mod provider_login;
pub mod raid;
pub mod raid_text;
pub mod review;
pub mod review_controls;
pub mod review_menus;
pub mod review_outcome;
pub mod review_playback;
pub mod review_state;
pub mod review_timeline;
pub mod review_workspace;
pub mod session;
pub mod single_instance;
pub mod stream_player;
pub mod text;
pub mod viewing_profile;

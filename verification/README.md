# Brick's replay desk

Brick plays a guild's raid recordings beside what the combat logs say of them. This crate
holds the decisions behind it, each with a contract that Verus proves:

- which provider pages may open, load with the bearer header, or leave for the system
  browser (`address`, `player_address`, `login_window`, `viewing_profile`);
- when a playback command counts as done, is sent again or is given up, and how often the
  player is asked (`playback`, `stream_player`);
- how a picture of the video is bracketed between two readings of the player's clock
  (`capture`);
- whose browser session is kept, for how long, and what signing out undoes (`session`,
  `provider_login`);
- which pull, moment and view are shown, and how they survive a change of recording
  (`raid`, `review*`);
- which spells the timeline tracks (`cooldowns`, `cooldown_editor`);
- where windows stand and what is cut out of them (`native_window`, `occlusion`,
  `fullscreen`), and which of two starts runs (`single_instance`).

Positions and clock readings are whole microseconds; moments of an encounter are Unix
milliseconds.

`app/` is the desktop around it: files, threads, drawing, and the traits through which a
platform hands in its browser engine, its credential vault and the log service.

use brick::provider::Provider;
use brick::raid::{Status, Stream};
use brick::raid_text::{pov_hint, pov_key, pov_row_label, RecordingLabel};
use brick::review_menus::{
    arrange_rows, confirm, empty_list_text, keep_covered, matching_povs, menu_rows, move_cursor, pick, pull_menu,
    pull_step, Pick, PovRow, PullKeys, Step,
};

const NONE: PullKeys = PullKeys { down: false, up: false, home: false, end: false, enter: false };

struct PullHarness {
    count: usize,
    current: Option<usize>,
    cursor: Option<usize>,
    open: bool,
}

impl PullHarness {
    fn new() -> Self {
        PullHarness { count: 36, current: Some(20), cursor: None, open: false }
    }

    fn frame(&mut self, keys: PullKeys) -> Option<usize> {
        let menu = pull_menu(self.open, self.current, self.cursor, self.count, keys);
        self.cursor = menu.cursor;
        if menu.chosen.is_some() {
            self.open = false;
        }
        menu.chosen
    }

    fn open(&mut self) {
        self.frame(NONE);
        self.open = true;
    }
}

#[test]
fn pull_menu_keyboard_selection_stays_in_bounds_and_closes_immediately() {
    let mut menu = PullHarness::new();
    menu.open();
    menu.frame(PullKeys { down: true, ..NONE });
    assert_eq!(menu.frame(PullKeys { enter: true, ..NONE }), Some(21));
    assert!(!menu.open);
    menu.open();
    menu.frame(PullKeys { end: true, ..NONE });
    menu.frame(PullKeys { down: true, ..NONE });
    assert_eq!(menu.frame(PullKeys { enter: true, ..NONE }), Some(35));
    menu.open();
    menu.frame(PullKeys { home: true, ..NONE });
    menu.frame(PullKeys { up: true, ..NONE });
    assert_eq!(menu.frame(PullKeys { enter: true, ..NONE }), Some(0));
}

#[test]
fn pull_menu_handles_reports_changing_while_open() {
    let mut menu = PullHarness::new();
    menu.open();
    menu.count = 2;
    menu.frame(NONE);
    assert_eq!(menu.cursor, Some(0));
    menu.frame(PullKeys { end: true, ..NONE });
    assert_eq!(menu.frame(PullKeys { enter: true, ..NONE }), Some(1));
    assert!(!menu.open);
    menu.open();
    menu.count = 0;
    assert_eq!(menu.frame(PullKeys { enter: true, ..NONE }), None);
    assert_eq!(menu.cursor, None);
}

#[test]
fn neighbouring_pulls_are_reached_and_the_ends_are_not_passed() {
    assert_eq!(pull_step(Some(3), 5, true, false, None), Some(2));
    assert_eq!(pull_step(Some(3), 5, false, true, None), Some(4));
    assert_eq!(pull_step(Some(4), 5, false, true, None), None);
    assert_eq!(pull_step(Some(0), 5, true, false, None), None);
    assert_eq!(pull_step(Some(3), 5, false, false, Some(1)), Some(1));
    assert_eq!(pull_step(Some(3), 5, false, false, Some(3)), None);
    assert_eq!(pull_step(None, 5, false, false, Some(7)), None);
}

fn stream(index: usize) -> Stream {
    Stream {
        replay_start_ms: None,
        replay_end_ms: None,
        recording_id: None,
        user_id: (index + 100).to_string(),
        role_order: 0,
        name: format!("Player {index:02}"),
        provider: if index % 2 == 0 { Provider::Youtube } else { Provider::Twitch },
        channel_id: "abcDEF_12-3".to_string(),
        url: String::new(),
        status: Status::Live,
        broadcast_state: None,
    }
}

struct PovHarness {
    povs: Vec<Stream>,
    current: Stream,
    search: String,
    cursor: Option<String>,
    covered: Option<Vec<bool>>,
    open: bool,
}

impl PovHarness {
    fn new() -> Self {
        PovHarness {
            povs: (0..30).map(stream).collect(),
            current: stream(0),
            search: String::new(),
            cursor: None,
            covered: None,
            open: false,
        }
    }

    fn open(&mut self) {
        self.search.clear();
        self.cursor = Some(pov_key(&self.current));
        self.open = true;
        self.frame(false, Step::Stay, false);
    }

    fn frame(&mut self, changed: bool, step: Step, enter: bool) -> Option<usize> {
        let places = keep_covered(&matching_povs(&self.povs, &self.search), &self.covered);
        let (available, keys) = menu_rows(&self.povs, &places, &self.current);
        self.cursor = move_cursor(&keys, &available, &self.cursor, changed, step);
        if !enter {
            return None;
        }
        let chosen = confirm(&self.povs, &places, &self.current, &self.cursor);
        if let Some(index) = chosen {
            self.current = stream_of(&self.povs[index]);
        }
        if self.cursor.is_some() {
            self.open = false;
        }
        chosen
    }

    fn type_text(&mut self, text: &str) {
        self.search.push_str(text);
        self.frame(true, Step::Stay, false);
    }

    fn down(&mut self) {
        self.frame(false, Step::Down, false);
    }

    fn enter(&mut self) -> Option<usize> {
        self.frame(false, Step::Stay, true)
    }
}

fn stream_of(pov: &Stream) -> Stream {
    Stream {
        replay_start_ms: pov.replay_start_ms,
        replay_end_ms: pov.replay_end_ms,
        recording_id: pov.recording_id.clone(),
        user_id: pov.user_id.clone(),
        role_order: pov.role_order,
        name: pov.name.clone(),
        provider: pov.provider,
        channel_id: pov.channel_id.clone(),
        url: pov.url.clone(),
        status: pov.status,
        broadcast_state: pov.broadcast_state.clone(),
    }
}

#[test]
fn pov_menu_removes_uncovered_views_from_mouse_and_keyboard_choices() {
    let mut menu = PovHarness::new();
    let mut covered = vec![false; menu.povs.len()];
    covered[0] = true;
    covered[4] = true;
    menu.covered = Some(covered);
    menu.open();
    menu.down();
    assert_eq!(menu.enter(), Some(4));
    // An ended current recording keeps its selector label, but cannot
    // re-enable itself as a menu choice when the canonical moment advances.
    menu.covered.as_mut().unwrap()[4] = false;
    menu.open();
    assert_eq!(menu.enter(), Some(0));
    menu.covered = Some(vec![false; menu.povs.len()]);
    menu.open();
    assert_eq!(menu.enter(), None);
    assert_eq!(empty_list_text("  ", true), "No other VODs cover this moment.");
    assert_eq!(empty_list_text("x", true), "No matching players.");
}

#[test]
fn thirty_povs_fit_one_control_and_search_selects_the_matching_player() {
    let mut menu = PovHarness::new();
    menu.open();
    menu.type_text("PLAYER 29 tWiTch");
    assert_eq!(menu.search, "PLAYER 29 tWiTch");
    assert_eq!(menu.enter(), Some(29));
    assert_eq!(menu.current.name, "Player 29");
    assert!(!menu.open);
    menu.open();
    assert!(menu.search.is_empty(), "Opening the menu should show all POVs again");
    assert_eq!(menu.enter(), None, "Choosing the current POV should preserve the player");
    assert!(!menu.open);
}

#[test]
fn pov_search_keyboard_navigation_skips_unavailable_streams() {
    let mut menu = PovHarness::new();
    menu.povs[3].status = Status::Offline;
    menu.open();
    menu.type_text("twitch");
    menu.down();
    assert_eq!(menu.enter(), Some(5));
    menu.open();
    menu.type_text("Player 03");
    assert_eq!(menu.enter(), None);
    assert!(menu.open);
    menu.povs[3].status = Status::Live;
    menu.frame(false, Step::Stay, false);
    assert_eq!(menu.enter(), Some(3));
}

#[test]
fn pov_search_keeps_player_identity_when_streams_reorder() {
    let mut menu = PovHarness::new();
    menu.open();
    menu.type_text("Player 29");
    menu.povs.reverse();
    menu.frame(false, Step::Stay, false);
    assert_eq!(menu.enter(), Some(0));
    assert_eq!(menu.current.name, "Player 29");
    menu.open();
    menu.type_text("Nobody matches");
    assert_eq!(menu.enter(), None);
    assert!(menu.open);
}

#[test]
fn views_are_listed_by_role_then_name_and_equal_ones_keep_their_places() {
    let mut povs: Vec<Stream> = (0..4).map(stream).collect();
    povs[0].role_order = 2;
    povs[1].name = "alpha".to_string();
    povs[2].name = "Beta".to_string();
    povs[3].name = "ALPHA".to_string();
    assert_eq!(matching_povs(&povs, ""), vec![1, 3, 2, 0]);
    assert_eq!(matching_povs(&povs, " alpha  twitch "), vec![1, 3]);
    let row = |name: &str| PovRow {
        role_order: 0,
        name: name.to_string(),
        provider: String::new(),
        user_id: String::new(),
        haystack: name.to_string(),
    };
    assert_eq!(arrange_rows(&vec![row("b"), row("a"), row("b")], "b"), vec![0, 2]);
}

#[test]
fn rows_say_what_choosing_them_does() {
    let (current, mut other) = (stream(0), stream(1));
    assert_eq!(pov_row_label(&current, &current), "Player 00 · YouTube. Watching this POV");
    assert_eq!(
        pov_row_label(&other, &current),
        "Player 01 · Twitch. Switch to this POV at the same pull time"
    );
    other.status = Status::Offline;
    assert_eq!(pov_row_label(&other, &current), "Player 01 · Twitch. This player is offline.");
    other.recording_id = Some("123".to_string());
    let labels = vec![RecordingLabel {
        video: "twitch:123".to_string(),
        when: "Tuesday".to_string(),
        title: "Raid night".to_string(),
    }];
    assert_eq!(pov_hint(&labels, &other), "Player 01 · Twitch · Tuesday\nRaid night");
    assert_eq!(pov_hint(&labels, &current), "Player 00 · YouTube");
}

#[test]
fn a_further_word_only_narrows_the_list() {
    let povs: Vec<Stream> = (0..30).map(stream).collect();
    let (ones, twitch) = (matching_povs(&povs, "1"), matching_povs(&povs, "twitch"));
    let both: Vec<usize> = ones.iter().copied().filter(|place| twitch.contains(place)).collect();
    assert!(!both.is_empty() && both.len() < ones.len());
    for search in ["1 twitch", "twitch 1", "  TWITCH   1 ", "1\tTwitch"] {
        assert_eq!(matching_povs(&povs, search), both, "{search}");
    }
    assert!(matching_povs(&povs, "1 twitch nobody").is_empty());
}

#[test]
fn of_several_rows_with_one_name_the_last_is_chosen() {
    let povs = vec![stream(1), stream(2), stream(1)];
    let (places, current) = (vec![0, 1, 2], stream(0));
    let cursor = Some(pov_key(&povs[0]));
    assert_eq!(confirm(&povs, &places, &current, &cursor), Some(2));
    assert_eq!(confirm(&povs, &vec![0, 1], &current, &cursor), Some(0));
    assert_eq!(confirm(&povs, &places, &current, &None), None);
}

#[test]
fn clicked_rows_close_the_menu_and_switch_unless_watched() {
    let povs = vec![stream(0), stream(1)];
    let (places, current) = (vec![0, 1], stream(0));
    let none = Pick { chosen: None, closes: false };
    assert_eq!(pick(&povs, &places, &current, &None, None), none);
    assert_eq!(pick(&povs, &places, &current, &None, Some(1)), Pick { chosen: Some(1), closes: true });
    assert_eq!(pick(&povs, &places, &current, &None, Some(0)), Pick { chosen: None, closes: true });
    assert_eq!(pick(&povs, &places, &current, &Some("elsewhere".to_string()), None), none);
}

#[test]
fn blank_searches_of_any_white_space_list_every_view() {
    let povs: Vec<Stream> = (0..5).map(stream).collect();
    for search in ["", "   ", "\u{a0}\u{2003}", "\t\u{3000}\n"] {
        assert_eq!(matching_povs(&povs, search).len(), 5);
    }
}

//! The words that the review shows.
use crate::address::text_of;
use crate::raid::{EventKind, Pull, PullView, RaidEvent, Status, Stream};
use crate::text::{
    begins, decimal, decimal_text, digit, digit_value, holds, lemma_decimal_number, lemma_digit_value, number, same_text,
};
use vstd::prelude::*;

verus! {

/// The name of a pull in requests and menus.
pub open spec fn pull_key_text(pull: PullView) -> Seq<char> {
    pull.report + ":"@ + decimal(pull.id as nat)
}

pub fn pull_key(pull: &Pull) -> (key: String)
    ensures
        key@ == pull_key_text(pull@),
{
    pull.report.clone().concat(":").concat(&decimal_text(pull.id))
}

/// The identity of one view: the member, the provider, the channel and the recording.
pub open spec fn pov_key_text(stream: Stream) -> Seq<char> {
    stream.user_id@ + ":"@ + stream.provider.spec_key() + ":"@ + stream.channel_id@ + ":"@ + match stream.recording_id {
        Some(id) => id@,
        None => Seq::empty(),
    }
}

pub fn pov_key(stream: &Stream) -> (key: String)
    ensures
        key@ == pov_key_text(*stream),
{
    let front = stream.user_id.clone().concat(":").concat(stream.provider.key()).concat(":").concat(
        &stream.channel_id,
    ).concat(":");
    match &stream.recording_id {
        Some(id) => front.concat(id),
        None => {
            assert(front@ =~= pov_key_text(*stream));
            front
        },
    }
}

/// When a recording was made, and what it is called.
#[derive(Debug)]
pub struct RecordingLabel {
    pub video: String,
    pub when: String,
    pub title: String,
}

/// The name of a video in the list of labels.
pub open spec fn video_key(stream: Stream) -> Option<Seq<char>> {
    match stream.spec_video() {
        Some(id) => Some(stream.provider.spec_key() + ":"@ + id),
        None => None,
    }
}

/// The first label for a video.
pub open spec fn label_place(labels: Seq<RecordingLabel>, video: Seq<char>) -> Option<int>
    decreases labels.len(),
{
    if labels.len() == 0 {
        None
    } else if labels[0].video@ == video {
        Some(0)
    } else {
        match label_place(labels.skip(1), video) {
            Some(i) => Some(i + 1),
            None => None,
        }
    }
}

pub open spec fn label_of(labels: Seq<RecordingLabel>, stream: Stream) -> Option<int> {
    match video_key(stream) {
        Some(video) => label_place(labels, video),
        None => None,
    }
}

/// Where the label of a stream's recording stands.
pub fn recording_label(labels: &Vec<RecordingLabel>, stream: &Stream) -> (place: Option<usize>)
    ensures
        match place {
            Some(i) => i < labels@.len() && label_of(labels@, *stream) == Some(i as int),
            None => label_of(labels@, *stream) is None,
        },
{
    let video = match stream.video_id() {
        Some(id) => String::from_str(stream.provider.key()).concat(":").concat(&id),
        None => {
            return None;
        },
    };
    let mut i: usize = 0;
    assert(labels@.skip(0) =~= labels@);
    while i < labels.len()
        invariant
            i <= labels@.len(),
            label_of(labels@, *stream) == label_place(labels@, video@),
            label_place(labels@, video@) == match label_place(labels@.skip(i as int), video@) {
                Some(k) => Some(k + i),
                None => None,
            },
        decreases labels.len() - i,
    {
        if same_text(&labels[i].video, &video) {
            return Some(i);
        }
        assert(labels@.skip(i as int).skip(1) =~= labels@.skip(i as int + 1));
        i += 1;
    }
    None
}

/// The member and the provider.
pub open spec fn pov_base(stream: Stream) -> Seq<char> {
    stream.name@ + " · "@ + stream.provider.spec_label()
}

/// The member, the provider and, where it is known, when the recording was made.
pub open spec fn pov_label(labels: Seq<RecordingLabel>, stream: Stream) -> Seq<char> {
    match label_of(labels, stream) {
        Some(i) => pov_base(stream) + " · "@ + labels[i].when@,
        None => pov_base(stream),
    }
}

pub fn pov_display_label(labels: &Vec<RecordingLabel>, stream: &Stream) -> (label: String)
    ensures
        label@ == pov_label(labels@, *stream),
{
    let base = stream.name.clone().concat(" · ").concat(stream.provider.label());
    match recording_label(labels, stream) {
        Some(i) => base.concat(" · ").concat(&labels[i].when),
        None => base,
    }
}

/// Why a view cannot be switched to: the one being watched and recordings always can.
pub open spec fn unavailable_text(stream: Stream, current: Stream) -> Option<Seq<char>> {
    if pov_key_text(stream) == pov_key_text(current) || stream.recording_id is Some {
        None
    } else {
        match stream.status {
            Status::Live => None,
            Status::Checking => Some("Brick is checking whether this stream is live."@),
            Status::Unknown => Some("This stream's status is unavailable. Brick will check again."@),
            Status::Offline => Some(
                if text_of(stream.broadcast_state) == Some("upcoming"@) {
                    "This broadcast hasn't started yet."@
                } else if text_of(stream.broadcast_state) == Some("ended"@) {
                    "This broadcast has ended. Its replay isn't available in this view."@
                } else {
                    "This player is offline."@
                },
            ),
        }
    }
}

/// The content of an optional literal.
pub open spec fn literal_text(value: Option<&str>) -> Option<Seq<char>> {
    match value {
        Some(text) => Some(text@),
        None => None,
    }
}

pub fn pov_unavailable(stream: &Stream, current: &Stream) -> (reason: Option<&'static str>)
    ensures
        literal_text(reason) == unavailable_text(*stream, *current),
{
    if same_text(&pov_key(stream), &pov_key(current)) || stream.recording_id.is_some() {
        return None;
    }
    match stream.status {
        Status::Live => None,
        Status::Checking => Some("Brick is checking whether this stream is live."),
        Status::Unknown => Some("This stream's status is unavailable. Brick will check again."),
        Status::Offline => if holds(&stream.broadcast_state, "upcoming") {
            Some("This broadcast hasn't started yet.")
        } else if holds(&stream.broadcast_state, "ended") {
            Some("This broadcast has ended. Its replay isn't available in this view.")
        } else {
            Some("This player is offline.")
        },
    }
}

/// The state of a view in a list.
pub open spec fn status_text(stream: Stream, watching: bool) -> Seq<char> {
    if watching {
        "Watching"@
    } else if stream.recording_id is Some {
        "VOD"@
    } else {
        match stream.status {
            Status::Live => "Live"@,
            Status::Checking => "Checking…"@,
            Status::Unknown => "Status unavailable"@,
            Status::Offline => if text_of(stream.broadcast_state) == Some("upcoming"@) {
                "Scheduled"@
            } else if text_of(stream.broadcast_state) == Some("ended"@) {
                "Ended"@
            } else {
                "Offline"@
            },
        }
    }
}

pub fn pov_status(stream: &Stream, watching: bool) -> (text: &'static str)
    ensures
        text@ == status_text(*stream, watching),
{
    if watching {
        "Watching"
    } else if stream.recording_id.is_some() {
        "VOD"
    } else {
        match stream.status {
            Status::Live => "Live",
            Status::Checking => "Checking…",
            Status::Unknown => "Status unavailable",
            Status::Offline => if holds(&stream.broadcast_state, "upcoming") {
                "Scheduled"
            } else if holds(&stream.broadcast_state, "ended") {
                "Ended"
            } else {
                "Offline"
            },
        }
    }
}

/// The second line of a view in a list: the provider, its state and, where it is known, when the
/// recording was made.
pub open spec fn detail_text(labels: Seq<RecordingLabel>, stream: Stream, watching: bool) -> Seq<char> {
    let front = stream.provider.spec_label() + " · "@ + status_text(stream, watching);
    match label_of(labels, stream) {
        Some(i) => front + " · "@ + labels[i].when@,
        None => front,
    }
}

/// The second line of a view in a list.
pub fn pov_detail(labels: &Vec<RecordingLabel>, stream: &Stream, watching: bool) -> (text: String)
    ensures
        text@ == detail_text(labels@, *stream, watching),
{
    let front = String::from_str(stream.provider.label()).concat(" · ").concat(pov_status(stream, watching));
    match recording_label(labels, stream) {
        Some(i) => front.concat(" · ").concat(&labels[i].when),
        None => front,
    }
}

/// What a screen reader says of a view in a list.
pub open spec fn row_text(stream: Stream, current: Stream) -> Seq<char> {
    pov_base(stream) + ". "@ + match unavailable_text(stream, current) {
        Some(reason) => reason,
        None => if pov_key_text(stream) == pov_key_text(current) {
            "Watching this POV"@
        } else {
            "Switch to this POV at the same pull time"@
        },
    }
}

/// What a screen reader says of a view in a list.
pub fn pov_row_label(stream: &Stream, current: &Stream) -> (text: String)
    ensures
        text@ == row_text(*stream, *current),
{
    let rest: &str = match pov_unavailable(stream, current) {
        Some(reason) => reason,
        None => if same_text(&pov_key(stream), &pov_key(current)) {
            "Watching this POV"
        } else {
            "Switch to this POV at the same pull time"
        },
    };
    stream.name.clone().concat(" · ").concat(stream.provider.label()).concat(". ").concat(rest)
}

/// What a view in a list says when pointed at.
pub open spec fn hint_text(labels: Seq<RecordingLabel>, stream: Stream) -> Seq<char> {
    match label_of(labels, stream) {
        Some(i) => pov_label(labels, stream) + "\n"@ + labels[i].title@,
        None => pov_label(labels, stream),
    }
}

/// What a view in a list says when pointed at: its label and the recording's title.
pub fn pov_hint(labels: &Vec<RecordingLabel>, stream: &Stream) -> (text: String)
    ensures
        text@ == hint_text(labels@, *stream),
{
    let label = pov_display_label(labels, stream);
    match recording_label(labels, stream) {
        Some(i) => label.concat("\n").concat(&labels[i].title),
        None => label,
    }
}

/// How a pull ended; a phase is named only where it is known.
pub open spec fn outcome_text(kill: bool, last_phase: Option<u32>, intermission: bool) -> Seq<char> {
    if kill {
        "Kill"@
    } else {
        match last_phase {
            Some(phase) => "Wipe · "@ + (if intermission { "Intermission"@ } else { "Phase"@ }) + " "@ + decimal(
                phase as nat,
            ),
            None => "Wipe"@,
        }
    }
}

pub fn pull_outcome(kill: bool, last_phase: Option<u32>, intermission: bool) -> (text: String)
    ensures
        text@ == outcome_text(kill, last_phase, intermission),
{
    if kill {
        return String::from_str("Kill");
    }
    match last_phase {
        Some(phase) => {
            let stage = if intermission { "Intermission" } else { "Phase" };
            String::from_str("Wipe · ").concat(stage).concat(" ").concat(&decimal_text(phase as u64))
        },
        None => String::from_str("Wipe"),
    }
}

/// Minutes and two digits of seconds; nothing runs below zero.
pub open spec fn clock_text(micros: int) -> Seq<char> {
    let s = if micros < 0 { 0nat } else { (micros / 1_000_000) as nat };
    decimal(s / 60) + ":"@ + seq![digit(s % 60 / 10), digit(s % 60 % 10)]
}

fn whole_seconds_text(s: u64) -> (text: String)
    ensures
        text@ == decimal(s as nat / 60) + ":"@ + seq![digit(s as nat % 60 / 10), digit(s as nat % 60 % 10)],
{
    let text = decimal_text(s / 60).concat(":").concat(&decimal_text(s % 60 / 10)).concat(&decimal_text(s % 60 % 10));
    assert(text@ =~= decimal(s as nat / 60) + ":"@ + seq![digit(s as nat % 60 / 10), digit(s as nat % 60 % 10)]);
    text
}

/// A length of time on screen.
pub fn clock(micros: i64) -> (text: String)
    ensures
        text@ == clock_text(micros as int),
{
    let s: u64 = if micros < 0 { 0 } else { micros as u64 / 1_000_000 };
    whole_seconds_text(s)
}

/// A time before or after the start of a pull.
pub open spec fn relative_text(micros: i64) -> Seq<char> {
    if micros < 0 { "-"@ + clock_text(-micros) } else { clock_text(micros as int) }
}

pub fn relative_clock(micros: i64) -> (text: String)
    ensures
        text@ == relative_text(micros),
{
    if micros < 0 {
        let magnitude: i128 = -(micros as i128);
        let s: u64 = (magnitude / 1_000_000) as u64;
        String::from_str("-").concat(&whole_seconds_text(s))
    } else {
        clock(micros)
    }
}

/// The duration of a pull, in microseconds.
pub open spec fn pull_length(pull: PullView) -> int {
    (pull.end_ms - pull.start_ms) * 1000
}

pub fn pull_duration(pull: &Pull) -> (length: i64)
    ensures
        length == crate::raid::to_i64(pull_length(pull@)),
{
    crate::raid::narrow((pull.end_ms as i128 - pull.start_ms as i128) * 1000)
}

/// The words for what was left of the enemy, in tenths of a percent.
pub open spec fn remaining_text(kill: bool, remaining: Option<u32>) -> Option<Seq<char>> {
    if kill {
        None
    } else {
        match remaining {
            Some(tenths) => Some(decimal(tenths as nat / 10) + "."@ + decimal(tenths as nat % 10) + "% remaining"@),
            None => None,
        }
    }
}

/// What was left of the enemy; nothing after a kill.
pub fn remaining_label(pull: &Pull) -> (text: Option<String>)
    ensures
        text_of(text) == remaining_text(pull.kill, pull.remaining),
{
    if pull.kill {
        return None;
    }
    match pull.remaining {
        Some(tenths) => Some(
            decimal_text(tenths as u64 / 10).concat(".").concat(&decimal_text(tenths as u64 % 10)).concat(
                "% remaining",
            ),
        ),
        None => None,
    }
}

/// The colour of a class, as red, green and blue.
pub open spec fn class_rgb(class: Seq<char>) -> (u8, u8, u8) {
    if class == "DeathKnight"@ {
        (196, 30, 58)
    } else if class == "DemonHunter"@ {
        (163, 48, 201)
    } else if class == "Druid"@ {
        (255, 124, 10)
    } else if class == "Evoker"@ {
        (51, 147, 127)
    } else if class == "Hunter"@ {
        (170, 211, 114)
    } else if class == "Mage"@ {
        (63, 199, 235)
    } else if class == "Monk"@ {
        (0, 255, 152)
    } else if class == "Paladin"@ {
        (244, 140, 186)
    } else if class == "Priest"@ {
        (255, 255, 255)
    } else if class == "Rogue"@ {
        (255, 244, 104)
    } else if class == "Shaman"@ {
        (64, 133, 240)
    } else if class == "Warlock"@ {
        (135, 135, 237)
    } else if class == "Warrior"@ {
        (198, 155, 109)
    } else {
        (215, 220, 230)
    }
}

pub fn class_color(class: &str) -> (rgb: (u8, u8, u8))
    ensures
        rgb == class_rgb(class@),
{
    if same_text(class, "DeathKnight") {
        (196, 30, 58)
    } else if same_text(class, "DemonHunter") {
        (163, 48, 201)
    } else if same_text(class, "Druid") {
        (255, 124, 10)
    } else if same_text(class, "Evoker") {
        (51, 147, 127)
    } else if same_text(class, "Hunter") {
        (170, 211, 114)
    } else if same_text(class, "Mage") {
        (63, 199, 235)
    } else if same_text(class, "Monk") {
        (0, 255, 152)
    } else if same_text(class, "Paladin") {
        (244, 140, 186)
    } else if same_text(class, "Priest") {
        (255, 255, 255)
    } else if same_text(class, "Rogue") {
        (255, 244, 104)
    } else if same_text(class, "Shaman") {
        (64, 133, 240)
    } else if same_text(class, "Warlock") {
        (135, 135, 237)
    } else if same_text(class, "Warrior") {
        (198, 155, 109)
    } else {
        (215, 220, 230)
    }
}

/// The evidence of an event that was seen as a buff.
pub open spec fn evidence(event: RaidEvent) -> Seq<char> {
    if event.observed_buff { " · buff applied"@ } else { Seq::empty() }
}

pub open spec fn description(event: RaidEvent) -> Seq<char> {
    if event.kind == EventKind::Deaths {
        event.actor@ + " died"@
    } else {
        match event.target {
            Some(target) => event.actor@ + " · "@ + event.ability@ + " on "@ + target@ + evidence(event),
            None => event.actor@ + " · "@ + event.ability@ + evidence(event),
        }
    }
}

/// One event in a sentence.
pub fn event_description(event: &RaidEvent) -> (text: String)
    ensures
        text@ == description(*event),
{
    match event.kind {
        EventKind::Deaths => event.actor.clone().concat(" died"),
        EventKind::Defensives => {
            let mut text = event.actor.clone().concat(" · ").concat(&event.ability);
            if let Some(target) = &event.target {
                text = text.concat(" on ").concat(target);
            }
            if event.observed_buff {
                text = text.concat(" · buff applied");
            }
            assert(text@ =~= description(*event));
            text
        },
    }
}

/// The second line of an event in a list.
pub open spec fn detail_of(event: RaidEvent) -> Seq<char> {
    let front = if event.kind == EventKind::Deaths {
        "Died"@
    } else {
        match event.target {
            Some(target) => event.ability@ + " on "@ + target@,
            None => event.ability@,
        }
    };
    front + evidence(event)
}

/// The second line of an event in a list.
pub fn event_detail(event: &RaidEvent) -> (text: String)
    ensures
        text@ == detail_of(*event),
{
    let front = match event.kind {
        EventKind::Deaths => String::from_str("Died"),
        EventKind::Defensives => match &event.target {
            Some(target) => event.ability.clone().concat(" on ").concat(target),
            None => event.ability.clone(),
        },
    };
    if event.observed_buff {
        front.concat(" · buff applied")
    } else {
        assert(front@ + Seq::<char>::empty() =~= front@);
        front
    }
}

// ---------------------------------------------------------------- laws

/// The name of a pull tells it from every other.
pub proof fn pull_keys_identify(a: PullView, b: PullView)
    ensures
        (pull_key_text(a) == pull_key_text(b)) <==> crate::raid::same_pull(a, b),
{
    reveal_strlit(":");
    let x = decimal(a.id as nat);
    let y = decimal(b.id as nat);
    if pull_key_text(a) == pull_key_text(b) {
        let key = pull_key_text(a);
        lemma_decimal_digits(a.id as nat);
        lemma_decimal_digits(b.id as nat);
        assert(":"@.len() == 1 && ":"@[0] == ':');
        let front = a.report + ":"@;
        let other = b.report + ":"@;
        assert(key == front + x && key == other + y);
        assert(key.len() == front.len() + x.len() && key.len() == other.len() + y.len());
        if a.report.len() < b.report.len() {
            assert(key[b.report.len() as int] == other[b.report.len() as int]);
            assert((front + x)[b.report.len() as int] == x[b.report.len() - front.len()]);
            assert(false);
        }
        if b.report.len() < a.report.len() {
            assert(key[a.report.len() as int] == front[a.report.len() as int]);
            assert((other + y)[a.report.len() as int] == y[a.report.len() - other.len()]);
            assert(false);
        }
        assert(a.report =~= key.take(a.report.len() as int));
        assert(b.report =~= key.take(b.report.len() as int));
        assert(x =~= key.skip(a.report.len() as int + 1));
        assert(y =~= key.skip(b.report.len() as int + 1));
        lemma_decimal_injective(a.id as nat, b.id as nat);
    }
}

proof fn lemma_decimal_digits(n: nat)
    ensures
        decimal(n).len() > 0,
        forall|i: int| 0 <= i < decimal(n).len() ==> (#[trigger] decimal(n)[i]) != ':',
    decreases n,
{
    if n >= 10 {
        lemma_decimal_digits(n / 10);
    }
}

proof fn lemma_decimal_injective(a: nat, b: nat)
    requires
        decimal(a) == decimal(b),
    ensures
        a == b,
    decreases a,
{
    lemma_decimal_digits(a / 10);
    lemma_decimal_digits(b / 10);
    if a >= 10 && b >= 10 {
        assert(decimal(a).drop_last() =~= decimal(a / 10));
        assert(decimal(b).drop_last() =~= decimal(b / 10));
        lemma_decimal_injective(a / 10, b / 10);
        assert(decimal(a).last() == digit(a % 10));
        assert(decimal(b).last() == digit(b % 10));
        assert(a == a / 10 * 10 + a % 10);
        assert(b == b / 10 * 10 + b % 10);
    } else if a < 10 && b < 10 {
        assert(decimal(a)[0] == digit(a));
        assert(decimal(b)[0] == digit(b));
    } else if a < 10 {
        assert(decimal(b).len() > 1);
    } else {
        assert(decimal(a).len() > 1);
    }
}

/// The view that is watched, a recording and a live stream can always be switched to; any other view
/// comes with a reason why not.
pub proof fn playable_views_can_be_switched_to(stream: Stream, current: Stream)
    ensures
        unavailable_text(stream, stream) is None,
        stream.recording_id is Some ==> unavailable_text(stream, current) is None,
        stream.status == Status::Live ==> unavailable_text(stream, current) is None,
        stream.recording_id is None && stream.status != Status::Live && pov_key_text(stream) != pov_key_text(current)
            ==> unavailable_text(stream, current) is Some && unavailable_text(stream, current)->0.len() > 0,
{
    reveal_strlit("Brick is checking whether this stream is live.");
    reveal_strlit("This stream's status is unavailable. Brick will check again.");
    reveal_strlit("This broadcast hasn't started yet.");
    reveal_strlit("This broadcast has ended. Its replay isn't available in this view.");
    reveal_strlit("This player is offline.");
}

/// A clock reads back as the whole seconds that it shows, in minutes and two digits of seconds below
/// sixty; nothing runs below zero.
pub proof fn clocks_read_back(micros: int)
    ensures
        ({
            let text = clock_text(micros);
            let n = text.len() as int;
            &&& n >= 4 && text[n - 3] == ':'
            &&& number(text.skip(n - 2)) < 60
            &&& micros >= 0 ==> number(text.take(n - 3)) * 60 + number(text.skip(n - 2)) == micros / 1_000_000
            &&& micros < 0 ==> number(text.take(n - 3)) == 0 && number(text.skip(n - 2)) == 0
        }),
{
    reveal_strlit(":");
    let s = if micros < 0 { 0nat } else { (micros / 1_000_000) as nat };
    let text = clock_text(micros);
    let front = decimal(s / 60);
    let back = seq![digit(s % 60 / 10), digit(s % 60 % 10)];
    lemma_decimal_number(s / 60);
    lemma_digit_value(s % 60 / 10);
    lemma_digit_value(s % 60 % 10);
    assert(text =~= front + ":"@ + back);
    let n = text.len() as int;
    assert(n == front.len() + 3);
    assert(text.take(n - 3) =~= front);
    assert(text.skip(n - 2) =~= back);
    assert(back.drop_last() =~= seq![digit(s % 60 / 10)]);
    assert(seq![digit(s % 60 / 10)].drop_last() =~= Seq::<char>::empty());
    assert(number(Seq::<char>::empty()) == 0);
    assert(number(seq![digit(s % 60 / 10)]) == s % 60 / 10);
    assert(number(back) == s % 60);
    assert(s / 60 * 60 + s % 60 == s);
}

/// A time before the pull reads like the same time after it, behind a minus.
pub proof fn times_before_the_pull_have_a_minus(micros: i64)
    ensures
        micros >= 0 ==> relative_text(micros) == clock_text(micros as int),
        micros < 0 ==> relative_text(micros) == seq!['-'] + clock_text(-micros),
{
    reveal_strlit("-");
    assert("-"@ =~= seq!['-']);
}

/// What was left is read in tenths of a percent; after a kill nothing was.
pub proof fn remains_are_tenths(tenths: u32, kill: bool)
    ensures
        remaining_text(true, Some(tenths)) is None,
        remaining_text(kill, None) is None,
        remaining_text(false, Some(tenths)) is Some,
        ({
            let text = remaining_text(false, Some(tenths))->0;
            let whole = decimal(tenths as nat / 10).len() as int;
            &&& text.len() > whole + 1 && text[whole] == '.'
            &&& number(text.take(whole)) * 10 + digit_value(text[whole + 1]) == tenths
        }),
{
    reveal_strlit(".");
    reveal_strlit("% remaining");
    lemma_decimal_number(tenths as nat / 10);
    lemma_decimal_number(tenths as nat % 10);
    lemma_digit_value(tenths as nat % 10);
    let text = remaining_text(false, Some(tenths))->0;
    let front = decimal(tenths as nat / 10);
    let tail = decimal(tenths as nat % 10);
    assert(tail =~= seq![digit(tenths as nat % 10)]);
    assert(text =~= front + "."@ + tail + "% remaining"@);
    assert(text.take(front.len() as int) =~= front);
    assert(text[front.len() as int + 1] == tail[0]);
}

/// A kill is called so whatever its phase; wipes in different phases have different words, and so do
/// a phase and an intermission.
pub proof fn outcomes_tell_phases_apart(one: u32, other: u32, intermission: bool)
    ensures
        outcome_text(true, Some(one), intermission) == outcome_text(true, None, !intermission),
        outcome_text(false, Some(one), intermission) == outcome_text(false, Some(other), intermission) <==> one == other,
        outcome_text(false, Some(one), false) != outcome_text(false, Some(other), true),
        outcome_text(false, None, intermission) != outcome_text(true, None, intermission),
        outcome_text(false, Some(one), intermission) != outcome_text(false, None, intermission),
{
    reveal_strlit("Kill");
    reveal_strlit("Wipe");
    reveal_strlit("Wipe · ");
    reveal_strlit("Intermission");
    reveal_strlit("Phase");
    reveal_strlit(" ");
    let stage = if intermission { "Intermission"@ } else { "Phase"@ };
    let front = "Wipe · "@ + stage + " "@;
    let x = outcome_text(false, Some(one), intermission);
    let y = outcome_text(false, Some(other), intermission);
    assert(x.skip(front.len() as int) =~= decimal(one as nat));
    assert(y.skip(front.len() as int) =~= decimal(other as nat));
    if x == y {
        lemma_decimal_injective(one as nat, other as nat);
    }
    assert(outcome_text(false, Some(one), false)[7] == 'P');
    assert(outcome_text(false, Some(other), true)[7] == 'I');
    assert(outcome_text(false, None, intermission)[0] == 'W');
    assert(outcome_text(true, None, intermission)[0] == 'K');
    assert(x.len() > 4);
}

/// Two views that agree in member, provider and channel have one identity exactly where they show the
/// same recording; with the same recording, exactly where the member is the same.
pub proof fn views_are_told_apart(a: Stream, b: Stream)
    ensures
        a.user_id@ == b.user_id@ && a.provider == b.provider && a.channel_id@ == b.channel_id@ && a.recording_id is Some
            && b.recording_id is Some ==> (pov_key_text(a) == pov_key_text(b) <==> a.recording_id->0@
            == b.recording_id->0@),
        a.user_id@ == b.user_id@ && a.provider == b.provider && a.channel_id@ == b.channel_id@ && a.recording_id is Some
            && a.recording_id->0@.len() > 0 && b.recording_id is None ==> pov_key_text(a) != pov_key_text(b),
        a.provider == b.provider && a.channel_id@ == b.channel_id@ && a.recording_id is None && b.recording_id is None
            ==> (pov_key_text(a) == pov_key_text(b) <==> a.user_id@ == b.user_id@),
        a.user_id@ == b.user_id@ && a.provider == b.provider && a.recording_id is None && b.recording_id is None ==> (
        pov_key_text(a) == pov_key_text(b) <==> a.channel_id@ == b.channel_id@),
        a.user_id@ == b.user_id@ && a.channel_id@ == b.channel_id@ && a.recording_id is None && b.recording_id is None
            ==> (pov_key_text(a) == pov_key_text(b) <==> a.provider == b.provider),
{
    reveal_strlit(":");
    reveal_strlit("youtube");
    reveal_strlit("twitch");
    let x = match a.recording_id {
        Some(id) => id@,
        None => Seq::empty(),
    };
    let y = match b.recording_id {
        Some(id) => id@,
        None => Seq::empty(),
    };
    let own = a.user_id@ + ":"@ + a.provider.spec_key() + ":"@;
    let other = b.user_id@ + ":"@ + b.provider.spec_key() + ":"@;
    let (p, q) = (pov_key_text(a), pov_key_text(b));
    assert(p =~= own + a.channel_id@ + ":"@ + x);
    assert(q =~= other + b.channel_id@ + ":"@ + y);
    let front = own + a.channel_id@ + ":"@;
    assert(p.skip(front.len() as int) =~= x);
    if own == other && a.channel_id@ == b.channel_id@ {
        assert(q.skip(front.len() as int) =~= y);
    }
    if a.provider == b.provider && a.channel_id@ == b.channel_id@ && x.len() == 0 && y.len() == 0 && p == q {
        assert(p.len() == q.len());
        assert(p.take(a.user_id@.len() as int) =~= a.user_id@);
        assert(q.take(b.user_id@.len() as int) =~= b.user_id@);
    }
    if own == other && x.len() == 0 && y.len() == 0 && p == q {
        assert(p.subrange(own.len() as int, p.len() - 1) =~= a.channel_id@);
        assert(q.subrange(other.len() as int, q.len() - 1) =~= b.channel_id@);
    }
}

/// The label of a recording is the first that names its provider and video.
pub proof fn labels_are_found_by_video(labels: Seq<RecordingLabel>, video: Seq<char>)
    ensures
        match label_place(labels, video) {
            Some(i) => 0 <= i < labels.len() && labels[i].video@ == video && forall|j: int|
                0 <= j < i ==> (#[trigger] labels[j]).video@ != video,
            None => forall|j: int| 0 <= j < labels.len() ==> (#[trigger] labels[j]).video@ != video,
        },
    decreases labels.len(),
{
    if labels.len() > 0 && labels[0].video@ != video {
        let rest = labels.skip(1);
        labels_are_found_by_video(rest, video);
        assert forall|j: int| 1 <= j < labels.len() implies rest[j - 1] == #[trigger] labels[j] by {}
    }
}

/// A pull lasts from its start to its end.
pub proof fn pulls_last_from_start_to_end(pull: PullView)
    ensures
        pull_length(pull) == pull.end_ms * 1000 - pull.start_ms * 1000,
{
}

/// A description begins with who did it; of a death it says nothing else, and of a cooldown it says
/// what was used, on whom where that is known, and whether only its buff was seen.
pub proof fn descriptions_name_the_actor(event: RaidEvent)
    ensures
        description(event).len() > event.actor@.len(),
        description(event).take(event.actor@.len() as int) == event.actor@,
        event.kind == EventKind::Deaths ==> description(event) == event.actor@ + " died"@,
        event.kind == EventKind::Defensives && event.target is None && !event.observed_buff ==> description(event)
            == event.actor@ + " · "@ + event.ability@,
        event.kind == EventKind::Defensives && event.target is Some && !event.observed_buff ==> description(event)
            == event.actor@ + " · "@ + event.ability@ + " on "@ + event.target->0@,
        event.kind == EventKind::Defensives && event.target is Some && event.observed_buff ==> description(event)
            == event.actor@ + " · "@ + event.ability@ + " on "@ + event.target->0@ + " · buff applied"@,
        event.kind == EventKind::Defensives && event.target is None && event.observed_buff ==> description(event)
            == event.actor@ + " · "@ + event.ability@ + " · buff applied"@,
{
    reveal_strlit(" died");
    reveal_strlit(" · ");
    let said = description(event);
    assert(said.take(event.actor@.len() as int) =~= event.actor@);
    if event.kind == EventKind::Defensives && !event.observed_buff {
        match event.target {
            Some(target) => {
                assert(said =~= event.actor@ + " · "@ + event.ability@ + " on "@ + target@);
            },
            None => {
                assert(said =~= event.actor@ + " · "@ + event.ability@);
            },
        }
    }
}

/// A view that is watched says so; a recording is called one; any other view is called by its state, and
/// only a live one is called live.
pub proof fn views_are_called_by_their_state(stream: Stream)
    ensures
        status_text(stream, true) == "Watching"@,
        status_text(stream, false) == "VOD"@ <==> stream.recording_id is Some,
        status_text(stream, false) == "Live"@ <==> stream.recording_id is None && stream.status == Status::Live,
        status_text(stream, false) != "Watching"@,
        stream.recording_id is None && stream.status == Status::Offline ==> {
            &&& text_of(stream.broadcast_state) == Some("upcoming"@) <==> status_text(stream, false) == "Scheduled"@
            &&& text_of(stream.broadcast_state) == Some("ended"@) <==> status_text(stream, false) == "Ended"@
        },
        stream.recording_id is None && stream.status == Status::Checking <==> status_text(stream, false) == "Checking…"@,
        stream.recording_id is None && stream.status == Status::Unknown <==> status_text(stream, false)
            == "Status unavailable"@,
{
    reveal_strlit("Watching");
    reveal_strlit("VOD");
    reveal_strlit("Live");
    reveal_strlit("Checking…");
    reveal_strlit("Status unavailable");
    reveal_strlit("Scheduled");
    reveal_strlit("Ended");
    reveal_strlit("Offline");
    reveal_strlit("upcoming");
    reveal_strlit("ended");
    assert("Watching"@[0] == 'W' && "VOD"@[0] == 'V' && "Live"@[0] == 'L' && "Checking…"@[0] == 'C');
    assert("Status unavailable"@[1] == 't' && "Scheduled"@[1] == 'c' && "Scheduled"@[0] == 'S' && "Status unavailable"@[0]
        == 'S');
    assert("Ended"@[0] == 'E' && "Offline"@[0] == 'O' && "upcoming"@[0] == 'u' && "ended"@[0] == 'e');
}

/// A view's label begins with the member and the provider; when its recording was made follows where it is
/// known, and so does its title when it is pointed at.
pub proof fn labels_begin_with_the_member(labels: Seq<RecordingLabel>, stream: Stream, current: Stream, watching: bool)
    ensures
        begins(pov_label(labels, stream), stream.name@ + " · "@ + stream.provider.spec_label()),
        label_of(labels, stream) is None ==> pov_label(labels, stream) == stream.name@ + " · "@ + stream.provider.spec_label()
            && hint_text(labels, stream) == pov_label(labels, stream),
        label_of(labels, stream) is Some ==> pov_label(labels, stream) == stream.name@ + " · "@
            + stream.provider.spec_label() + " · "@ + labels[label_of(labels, stream)->0].when@,
        begins(hint_text(labels, stream), pov_label(labels, stream)),
        label_of(labels, stream) is Some ==> hint_text(labels, stream).skip(pov_label(labels, stream).len() as int + 1)
            == labels[label_of(labels, stream)->0].title@,
        begins(detail_text(labels, stream, watching), stream.provider.spec_label()),
        begins(row_text(stream, current), stream.name@ + " · "@ + stream.provider.spec_label()),
        pov_key_text(stream) == pov_key_text(current) ==> row_text(stream, current) == stream.name@ + " · "@
            + stream.provider.spec_label() + ". "@ + "Watching this POV"@,
        unavailable_text(stream, current) is Some ==> row_text(stream, current) == stream.name@ + " · "@
            + stream.provider.spec_label() + ". "@ + unavailable_text(stream, current)->0,
{
    reveal_strlit("\n");
    let base = stream.name@ + " · "@ + stream.provider.spec_label();
    let label = pov_label(labels, stream);
    let hint = hint_text(labels, stream);
    assert(base.take(base.len() as int) =~= base);
    assert(label.take(base.len() as int) =~= base);
    assert(hint.take(label.len() as int) =~= label);
    if label_of(labels, stream) is Some {
        assert(hint.skip(label.len() as int + 1) =~= labels[label_of(labels, stream)->0].title@);
    }
    let detail = detail_text(labels, stream, watching);
    assert(detail.take(stream.provider.spec_label().len() as int) =~= stream.provider.spec_label());
    assert(row_text(stream, current).take(base.len() as int) =~= base);
}

/// A recording's label is looked up by provider and video, where a video is known.
pub proof fn labels_belong_to_a_video(labels: Seq<RecordingLabel>, stream: Stream)
    ensures
        stream.spec_video() is None ==> label_of(labels, stream) is None,
        label_of(labels, stream) is Some ==> {
            let i = label_of(labels, stream)->0;
            &&& 0 <= i < labels.len()
            &&& labels[i].video@ == stream.provider.spec_key() + ":"@ + stream.spec_video()->0
        },
        stream.spec_video() is Some && (exists|i: int|
            0 <= i < labels.len() && (#[trigger] labels[i]).video@ == stream.provider.spec_key() + ":"@
                + stream.spec_video()->0) ==> label_of(labels, stream) is Some,
{
    if stream.spec_video() is Some {
        labels_are_found_by_video(labels, stream.provider.spec_key() + ":"@ + stream.spec_video()->0);
    }
}

/// The second line of an event says that somebody died, or what was used and on whom; and whether only the
/// buff of it was seen.
pub proof fn details_say_what_happened(event: RaidEvent)
    ensures
        event.kind == EventKind::Deaths && !event.observed_buff ==> detail_of(event) == "Died"@,
        event.kind == EventKind::Defensives ==> begins(detail_of(event), event.ability@),
        event.kind == EventKind::Defensives && event.target is Some && !event.observed_buff ==> detail_of(event)
            == event.ability@ + " on "@ + event.target->0@,
        event.kind == EventKind::Defensives && event.target is None && !event.observed_buff ==> detail_of(event)
            == event.ability@,
        event.kind == EventKind::Defensives && event.target is None && event.observed_buff ==> detail_of(event)
            == event.ability@ + " · buff applied"@,
{
    let said = detail_of(event);
    if event.kind == EventKind::Defensives {
        assert(said.take(event.ability@.len() as int) =~= event.ability@);
        if !event.observed_buff {
            match event.target {
                Some(target) => {
                    assert(said =~= event.ability@ + " on "@ + target@);
                },
                None => {
                    assert(said =~= event.ability@);
                },
            }
        }
    } else if !event.observed_buff {
        assert(said =~= "Died"@);
    }
}

/// Every class has a colour of its own, and an unknown class one that no class has.
pub proof fn classes_have_their_own_colours(a: Seq<char>, b: Seq<char>)
    ensures
        class_rgb(a) == class_rgb(b) && class_rgb(a) != (215u8, 220u8, 230u8) ==> a == b,
{
}

} // verus!

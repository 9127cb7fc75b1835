//! One line of the log about a player. Nothing of an address or a token enters it.
use crate::text::{
    all_token_chars, byte_len, chars_of, decimal, decimal_text, digit, digit_value, lemma_decimal_number, lemma_digit_value,
    number, token_chars_only,
};
use vstd::prelude::*;

verus! {

/// What the player page reports of its decoder.
pub struct Stats {
    pub source: Option<String>,
    /// In hundredths of a second.
    pub buffer: Option<u64>,
    /// In hundredths of a frame per second.
    pub fps: Option<u64>,
    pub ready_state: Option<u8>,
    pub decoded_frames: Option<u64>,
    pub media_seeking: Option<bool>,
}

/// The largest figure that is logged, in hundredths.
pub const MAX_FIGURE: u64 = 60_480_000;

/// Two digits behind the point.
pub open spec fn figure_text(hundredths: nat) -> Seq<char> {
    decimal(hundredths / 100) + "."@ + seq![digit(hundredths / 10 % 10), digit(hundredths % 10)]
}

pub open spec fn shown_figure(figure: Option<u64>) -> Seq<char> {
    match figure {
        Some(n) => if n <= MAX_FIGURE { figure_text(n as nat) } else { "unknown"@ },
        None => "unknown"@,
    }
}

/// The name of the source, where it is a short plain word.
pub open spec fn shown_source(source: Option<String>) -> Seq<char> {
    match source {
        Some(name) => if name@.len() > 0 && byte_len(name@) <= 25 && all_token_chars(name@) {
            name@
        } else {
            "unknown"@
        },
        None => "unknown"@,
    }
}

pub fn source_label(source: &Option<String>) -> (label: String)
    ensures
        label@ == shown_source(*source),
{
    if let Some(name) = source {
        if !name.as_str().is_empty() && name.as_str().as_bytes().len() <= 25 && token_chars_only(&chars_of(name)) {
            return name.clone();
        }
    }
    String::from_str("unknown")
}

pub fn figure(value: Option<u64>) -> (text: String)
    ensures
        text@ == shown_figure(value),
{
    match value {
        Some(n) => if n <= MAX_FIGURE {
            let text = decimal_text(n / 100).concat(".").concat(&decimal_text(n / 10 % 10)).concat(&decimal_text(n % 10));
            assert(text@ =~= figure_text(n as nat));
            text
        } else {
            String::from_str("unknown")
        },
        None => String::from_str("unknown"),
    }
}

pub open spec fn bool_text(value: bool) -> Seq<char> {
    if value { "true"@ } else { "false"@ }
}

fn bool_word(value: bool) -> (text: &'static str)
    ensures
        text@ == bool_text(value),
{
    if value { "true" } else { "false" }
}

pub open spec fn option_number(value: Option<u64>) -> Seq<char> {
    match value {
        Some(n) => "Some("@ + decimal(n as nat) + ")"@,
        None => "None"@,
    }
}

fn option_number_text(value: Option<u64>) -> (text: String)
    ensures
        text@ == option_number(value),
{
    match value {
        Some(n) => String::from_str("Some(").concat(&decimal_text(n)).concat(")"),
        None => String::from_str("None"),
    }
}

pub open spec fn option_bool(value: Option<bool>) -> Seq<char> {
    match value {
        Some(b) => "Some("@ + bool_text(b) + ")"@,
        None => "None"@,
    }
}

fn option_bool_text(value: Option<bool>) -> (text: String)
    ensures
        text@ == option_bool(value),
{
    match value {
        Some(b) => String::from_str("Some(").concat(bool_word(b)).concat(")"),
        None => String::from_str("None"),
    }
}

/// The line for a player's state and its decoder.
pub fn record(ready: bool, playing: bool, buffering: bool, blocked: bool, stats: &Stats) -> (line: String)
    ensures
        line@ == "Player "@ + shown_source(stats.source) + ": ready="@ + bool_text(ready) + " playing="@ + bool_text(
            playing,
        ) + " buffering="@ + bool_text(buffering) + " blocked="@ + bool_text(blocked) + " buffer_seconds="@
            + shown_figure(stats.buffer) + " fps="@ + shown_figure(stats.fps) + " media_ready="@ + option_number(
            match stats.ready_state {
                Some(n) => Some(n as u64),
                None => None,
            },
        ) + " decoded_frames="@ + option_number(stats.decoded_frames) + " media_seeking="@ + option_bool(
            stats.media_seeking,
        ),
{
    let ready_state: Option<u64> = match stats.ready_state {
        Some(n) => Some(n as u64),
        None => None,
    };
    String::from_str("Player ").concat(&source_label(&stats.source)).concat(": ready=").concat(bool_word(ready)).concat(
        " playing=",
    ).concat(bool_word(playing)).concat(" buffering=").concat(bool_word(buffering)).concat(" blocked=").concat(
        bool_word(blocked),
    ).concat(" buffer_seconds=").concat(&figure(stats.buffer)).concat(" fps=").concat(&figure(stats.fps)).concat(
        " media_ready=",
    ).concat(&option_number_text(ready_state)).concat(" decoded_frames=").concat(
        &option_number_text(stats.decoded_frames),
    ).concat(" media_seeking=").concat(&option_bool_text(stats.media_seeking))
}

/// How soon after one line the next one is written.
pub const LOG_INTERVAL: u64 = 1_000_000;

pub open spec fn line_due(last: u64, now: u64) -> bool {
    crate::clock::elapsed_since(last, now) >= LOG_INTERVAL
}

/// Whether a line is written this long after the last one.
pub fn log_due(last: u64, now: u64) -> (due: bool)
    ensures
        due == line_due(last, now),
{
    crate::clock::elapsed(last, now) >= LOG_INTERVAL
}

/// A figure reads back to the hundredth; one of more than a week is not shown.
pub proof fn figures_read_back(n: u64)
    ensures
        n > 60_480_000 ==> shown_figure(Some(n)) == "unknown"@,
        n <= 60_480_000 ==> {
            let text = shown_figure(Some(n));
            let k = text.len() as int;
            &&& k >= 4 && text[k - 3] == '.'
            &&& number(text.take(k - 3)) * 100 + digit_value(text[k - 2]) * 10 + digit_value(text[k - 1]) == n
        },
        shown_figure(None) == "unknown"@,
{
    reveal_strlit(".");
    if n <= 60_480_000 {
        let h = n as nat;
        let front = decimal(h / 100);
        let text = shown_figure(Some(n));
        lemma_decimal_number(h / 100);
        lemma_digit_value(h / 10 % 10);
        lemma_digit_value(h % 10);
        assert(text =~= front + "."@ + seq![digit(h / 10 % 10), digit(h % 10)]);
        let k = text.len() as int;
        assert(text.take(k - 3) =~= front);
        assert(h / 100 * 100 + h / 10 % 10 * 10 + h % 10 == h);
    }
}

/// A source is named only by a short word of letters, digits, dashes and underscores: nothing of an
/// address or a token enters the line.
pub proof fn sources_are_plain_words(source: Option<String>)
    ensures
        shown_source(source) == "unknown"@ || {
            &&& source is Some && shown_source(source) == source->0@ && 0 < source->0@.len() && byte_len(source->0@) <= 25
            &&& forall|i: int|
                0 <= i < source->0@.len() ==> ('0' <= #[trigger] source->0@[i] <= '9' || 'a' <= source->0@[i] <= 'z' || 'A'
                    <= source->0@[i] <= 'Z' || source->0@[i] == '-' || source->0@[i] == '_')
        },
        source is Some && 0 < source->0@.len() && byte_len(source->0@) <= 25 && all_token_chars(source->0@)
            ==> shown_source(source) == source->0@,
{
}

/// A line is written at most once a second.
pub proof fn lines_are_a_second_apart(last: u64, now: u64)
    ensures
        line_due(last, now) <==> now >= last + 1_000_000,
{
}

} // verus!

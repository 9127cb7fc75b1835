//! The protected player page: which addresses name it, and what their query asks for.
use crate::address::{
    at_host, find_origin, origin_of, pair_views, parse_address, read_origin, segment_provider, text_of, url_address,
    web_origin, Address, AddressView,
};
use crate::provider::Provider;
use crate::text::{
    all_digits, all_token_chars, byte_len, chars_of, digit_value, digits_only, final_segment, first_index, holds, index_of,
    last_segment, lemma_first_index, lemma_number_bound, number, part, same_text, small_number, starts_with,
    token_chars_only,
};
use vstd::prelude::*;

verus! {

/// A list of decoded query pairs.
pub type Pairs = Seq<(Seq<char>, Seq<char>)>;

/// How many pairs have the key `key`.
pub open spec fn key_count(pairs: Pairs, key: Seq<char>) -> nat
    decreases pairs.len(),
{
    if pairs.len() == 0 {
        0
    } else {
        key_count(pairs.drop_last(), key) + if pairs.last().0 == key {
            1nat
        } else {
            0nat
        }
    }
}

/// The value of the first pair with the key `key`.
pub open spec fn first_value(pairs: Pairs, key: Seq<char>) -> Option<Seq<char>>
    decreases pairs.len(),
{
    if pairs.len() == 0 {
        None
    } else if pairs[0].0 == key {
        Some(pairs[0].1)
    } else {
        first_value(pairs.skip(1), key)
    }
}

/// Whether some pair has this key and this value.
pub open spec fn has_pair(pairs: Pairs, key: Seq<char>, value: Seq<char>) -> bool {
    exists|i: int| 0 <= i < pairs.len() && #[trigger] pairs[i] == (key, value)
}

/// The pairs of an address, none where it has no query.
pub open spec fn query_of(address: AddressView) -> Pairs {
    match address.query {
        Some(pairs) => pairs,
        None => Seq::empty(),
    }
}

/// The identifier of one recording, in the form its provider gives it.
pub open spec fn recording_id(provider: Option<Provider>, value: Seq<char>) -> bool {
    match provider {
        Some(Provider::Twitch) => 1 <= value.len() <= 30 && all_digits(value),
        Some(Provider::Youtube) => value.len() == 11 && all_token_chars(value),
        None => false,
    }
}

/// One broadcast's identifier.
pub open spec fn broadcast_id(value: Seq<char>) -> bool {
    1 <= value.len() <= 30 && all_token_chars(value)
}

/// The longest recording: a week, in milliseconds.
pub const MAX_POSITION_MS: u64 = 604_800_000;

/// What one more digit after the point is worth, in milliseconds.
pub open spec fn fraction_scale(digits: nat) -> nat {
    if digits == 1 { 100 } else if digits == 2 { 10 } else { 1 }
}

/// The milliseconds that a position writes as seconds: one to seven digits and, behind a
/// point, one to three more; at most a week.
pub open spec fn position_millis(value: Seq<char>) -> Option<nat> {
    let point = first_index(value, '.');
    let whole = value.take(point);
    let fraction = value.skip(point + 1);
    if !(1 <= whole.len() <= 7 && all_digits(whole)) {
        None
    } else if point == value.len() {
        if number(whole) * 1000 <= MAX_POSITION_MS { Some(number(whole) * 1000) } else { None }
    } else if !(1 <= fraction.len() <= 3 && all_digits(fraction)) {
        None
    } else {
        let millis = number(whole) * 1000 + number(fraction) * fraction_scale(fraction.len());
        if millis <= MAX_POSITION_MS { Some(millis) } else { None }
    }
}

/// Whether one pair of a replay query is in order.
pub open spec fn replay_pair(pair: (Seq<char>, Seq<char>)) -> bool {
    if pair.0 == "at"@ {
        position_millis(pair.1) is Some
    } else if pair.0 == "paused"@ {
        pair.1 == "1"@
    } else if pair.0 == "recording"@ {
        true
    } else {
        pair.0 == "broadcast"@ && broadcast_id(pair.1)
    }
}

/// A query names at most one recording of its provider. Beyond a lone recording it holds
/// exactly one position, one broadcast and at most one pause, and nothing else.
pub open spec fn playback_query(provider: Option<Provider>, pairs: Pairs) -> bool {
    let recordings = key_count(pairs, "recording"@);
    &&& recordings <= 1
    &&& forall|i: int|
        0 <= i < pairs.len() && (#[trigger] pairs[i]).0 == "recording"@ ==> recording_id(provider, pairs[i].1)
    &&& {
        ||| recordings == 1 && pairs.len() == 1
        ||| {
            &&& pairs.len() == 2 + recordings || pairs.len() == 3 + recordings
            &&& key_count(pairs, "at"@) == 1
            &&& key_count(pairs, "broadcast"@) == 1
            &&& key_count(pairs, "paused"@) <= 1
            &&& forall|i: int| 0 <= i < pairs.len() ==> replay_pair(#[trigger] pairs[i])
        }
    }
}

/// Whether the address has no query or a valid one.
pub open spec fn valid_query(address: AddressView) -> bool {
    address.query is Some ==> playback_query(segment_provider(last_segment(address.path)), address.query->0)
}

/// The path of one member's player at one provider.
pub open spec fn member_path(path: Seq<char>, id: Seq<char>, provider: Seq<char>) -> bool {
    &&& path == "/v1/streams/player/"@ + id + seq!['/'] + provider
    &&& 1 <= id.len() <= 32
    &&& all_digits(id)
    &&& (provider == "twitch"@ || provider == "youtube"@)
}

pub open spec fn player_path(path: Seq<char>) -> bool {
    exists|id: Seq<char>, provider: Seq<char>| #[trigger] member_path(path, id, provider)
}

/// HTTPS, or plain HTTP to this machine.
pub open spec fn protected_transport(address: AddressView) -> bool {
    address.scheme == "https"@ || (address.scheme == "http"@ && at_host(address, "127.0.0.1"@))
}

/// The addresses that may carry the bearer request, each with its origin: the player of one
/// member on the service whose origin is `base`, with no credentials or fragment and only a
/// valid query.
pub open spec fn player_page_at(address: AddressView, origin: Seq<char>, base: Option<Seq<char>>) -> bool {
    &&& protected_transport(address)
    &&& base == Some(origin)
    &&& address.username.len() == 0
    &&& !address.has_password
    &&& valid_query(address)
    &&& !address.has_fragment
    &&& player_path(address.path)
}

pub open spec fn player_page(address: AddressView, base: Option<Seq<char>>) -> bool {
    player_page_at(address, web_origin(address), base)
}

fn count_key(pairs: &Vec<(String, String)>, key: &str) -> (count: usize)
    ensures
        count == key_count(pair_views(pairs@), key@),
        count <= pairs@.len(),
{
    let mut count: usize = 0;
    let mut i: usize = 0;
    let ghost views = pair_views(pairs@);
    while i < pairs.len()
        invariant
            i <= pairs.len(),
            views == pair_views(pairs@),
            count <= i,
            count == key_count(views.take(i as int), key@),
        decreases pairs.len() - i,
    {
        assert(views.take(i as int + 1).drop_last() =~= views.take(i as int));
        if same_text(&pairs[i].0, key) {
            count += 1;
        }
        i += 1;
    }
    assert(views.take(views.len() as int) =~= views);
    count
}

/// The value of the first pair with this key.
pub fn value_of(pairs: &Vec<(String, String)>, key: &str) -> (value: Option<String>)
    ensures
        text_of(value) == first_value(pair_views(pairs@), key@),
{
    let ghost views = pair_views(pairs@);
    let mut i: usize = 0;
    assert(views.skip(0) =~= views);
    while i < pairs.len()
        invariant
            i <= pairs.len(),
            views == pair_views(pairs@),
            first_value(views, key@) == first_value(views.skip(i as int), key@),
        decreases pairs.len() - i,
    {
        if same_text(&pairs[i].0, key) {
            return Some(pairs[i].1.clone());
        }
        assert(views.skip(i as int).skip(1) =~= views.skip(i as int + 1));
        i += 1;
    }
    None
}

/// Whether some pair has this key and this value.
pub fn contains_pair(pairs: &Vec<(String, String)>, key: &str, value: &str) -> (found: bool)
    ensures
        found == has_pair(pair_views(pairs@), key@, value@),
{
    let ghost views = pair_views(pairs@);
    let mut i: usize = 0;
    while i < pairs.len()
        invariant
            i <= pairs.len(),
            views == pair_views(pairs@),
            forall|j: int| 0 <= j < i ==> #[trigger] views[j] != (key@, value@),
        decreases pairs.len() - i,
    {
        if same_text(&pairs[i].0, key) && same_text(&pairs[i].1, value) {
            assert(views[i as int] == (key@, value@));
            return true;
        }
        i += 1;
    }
    false
}

/// The milliseconds that a position in a player address stands for.
pub fn parse_position(value: &str) -> (millis: Option<u64>)
    ensures
        millis is Some == position_millis(value@) is Some,
        millis is Some ==> millis->0 == position_millis(value@)->0 && millis->0 <= MAX_POSITION_MS,
{
    let chars = chars_of(value);
    let point: usize = index_of(&chars, '.');
    proof {
        lemma_first_index(value@, '.');
    }
    let whole = chars_of(&part(&chars, 0, point));
    assert(whole@ =~= value@.take(point as int));
    if whole.len() < 1 || whole.len() > 7 || !digits_only(&whole) {
        return None;
    }
    proof {
        lemma_number_bound(whole@);
    }
    let seconds: u64 = small_number(&whole);
    let mut millis: u64 = seconds * 1000;
    if point < chars.len() {
        let fraction = chars_of(&part(&chars, point + 1, chars.len()));
        assert(fraction@ =~= value@.skip(point as int + 1));
        if fraction.len() < 1 || fraction.len() > 3 || !digits_only(&fraction) {
            return None;
        }
        proof {
            lemma_number_bound(fraction@);
        }
        let scale: u64 = if fraction.len() == 1 { 100 } else if fraction.len() == 2 { 10 } else { 1 };
        let units: u64 = small_number(&fraction);
        assert(units * scale <= 1_000 * 100) by (nonlinear_arith)
            requires
                units < 1_000,
                scale <= 100,
        ;
        millis = millis + units * scale;
    }
    if millis <= MAX_POSITION_MS {
        Some(millis)
    } else {
        None
    }
}

fn is_recording_id(provider: &Option<Provider>, value: &str) -> (fits: bool)
    ensures
        fits == recording_id(*provider, value@),
{
    let chars = chars_of(value);
    match provider {
        Some(Provider::Twitch) => 1 <= chars.len() && chars.len() <= 30 && digits_only(&chars),
        Some(Provider::Youtube) => chars.len() == 11 && token_chars_only(&chars),
        None => false,
    }
}

fn is_replay_pair(key: &str, value: &str) -> (fits: bool)
    ensures
        fits == replay_pair((key@, value@)),
{
    if same_text(key, "at") {
        parse_position(value).is_some()
    } else if same_text(key, "paused") {
        same_text(value, "1")
    } else if same_text(key, "recording") {
        true
    } else if same_text(key, "broadcast") {
        let chars = chars_of(value);
        1 <= chars.len() && chars.len() <= 30 && token_chars_only(&chars)
    } else {
        false
    }
}

fn all_replay_pairs(pairs: &Vec<(String, String)>) -> (all: bool)
    ensures
        all == forall|i: int| 0 <= i < pairs@.len() ==> replay_pair(#[trigger] pair_views(pairs@)[i]),
{
    let ghost views = pair_views(pairs@);
    let mut i: usize = 0;
    while i < pairs.len()
        invariant
            i <= pairs.len(),
            views == pair_views(pairs@),
            forall|j: int| 0 <= j < i ==> replay_pair(#[trigger] views[j]),
        decreases pairs.len() - i,
    {
        if !is_replay_pair(&pairs[i].0, &pairs[i].1) {
            assert(!replay_pair(views[i as int]));
            return false;
        }
        i += 1;
    }
    true
}

fn all_recordings_fit(provider: &Option<Provider>, pairs: &Vec<(String, String)>) -> (all: bool)
    ensures
        all == forall|i: int|
            0 <= i < pairs@.len() && (#[trigger] pair_views(pairs@)[i]).0 == "recording"@ ==> recording_id(
                *provider,
                pair_views(pairs@)[i].1,
            ),
{
    let ghost views = pair_views(pairs@);
    let mut i: usize = 0;
    while i < pairs.len()
        invariant
            i <= pairs.len(),
            views == pair_views(pairs@),
            forall|j: int|
                0 <= j < i && (#[trigger] views[j]).0 == "recording"@ ==> recording_id(*provider, views[j].1),
        decreases pairs.len() - i,
    {
        if same_text(&pairs[i].0, "recording") && !is_recording_id(provider, &pairs[i].1) {
            assert(views[i as int].0 == "recording"@);
            return false;
        }
        i += 1;
    }
    true
}

/// Whether the query of a parsed player address is absent or valid.
pub fn valid_playback_query(address: &Address) -> (valid: bool)
    ensures
        valid == valid_query(address@),
{
    match &address.query {
        None => true,
        Some(pairs) => {
            let provider = crate::address::provider(address);
            assert(pair_views(pairs@).len() == pairs@.len());
            let recordings: usize = count_key(pairs, "recording");
            if recordings > 1 || !all_recordings_fit(&provider, pairs) {
                return false;
            }
            if recordings == 1 && pairs.len() == 1 {
                return true;
            }
            if pairs.len() < 2 {
                return false;
            }
            (pairs.len() - 2 == recordings || (pairs.len() >= 3 && pairs.len() - 3 == recordings)) && count_key(pairs, "at") == 1
                && count_key(pairs, "broadcast") == 1 && count_key(pairs, "paused") <= 1 && all_replay_pairs(pairs)
        },
    }
}

/// Whether the path is that of one member's player.
pub fn is_player_path(path: &str) -> (fits: bool)
    ensures
        fits == player_path(path@),
{
    let ghost stem = "/v1/streams/player/"@;
    if !starts_with(path, "/v1/streams/player/") {
        assert forall|id: Seq<char>, provider: Seq<char>| !#[trigger] member_path(path@, id, provider) by {
            if member_path(path@, id, provider) {
                assert(path@.take(stem.len() as int) =~= stem);
            }
        }
        return false;
    }
    let chars = chars_of(path);
    let from: usize = chars_of("/v1/streams/player/").len();
    let mut slash: usize = from;
    while slash < chars.len() && chars[slash] != '/'
        invariant
            from <= slash <= chars.len(),
            forall|j: int| from <= j < slash ==> chars@[j] != '/',
        decreases chars.len() - slash,
    {
        slash += 1;
    }
    let ghost id0 = path@.subrange(from as int, slash as int);
    let ghost rest = if slash < chars@.len() { path@.skip(slash as int + 1) } else { Seq::empty() };
    assert forall|id: Seq<char>, provider: Seq<char>| #[trigger] member_path(path@, id, provider) implies slash
        < chars@.len() && id == id0 && provider == rest by {
        assert(path@[from + id.len()] == '/');
        assert forall|j: int| from <= j < from + id.len() implies path@[j] != '/' by {
            assert(path@[j] == id[j - from]);
        }
        assert(slash == from + id.len());
        assert(id =~= id0);
        assert(provider =~= rest);
    }
    if slash == chars.len() {
        return false;
    }
    let id = chars_of(&part(&chars, from, slash));
    let last = part(&chars, slash + 1, chars.len());
    let fits = 1 <= id.len() && id.len() <= 32 && digits_only(&id) && (same_text(&last, "twitch") || same_text(
        &last,
        "youtube",
    ));
    proof {
        assert(last@ =~= rest);
        if fits {
            assert(path@ =~= stem + id0 + seq!['/'] + rest) by {
                assert(path@.take(from as int) == stem);
            }
            assert(member_path(path@, id0, rest));
        }
    }
    fits
}

/// Whether a parsed address is over HTTPS, or on this machine.
pub fn is_protected_transport(address: &Address) -> (yes: bool)
    ensures
        yes == protected_transport(address@),
{
    same_text(&address.scheme, "https") || (same_text(&address.scheme, "http") && holds(&address.host, "127.0.0.1"))
}

/// Whether a parsed address with this origin is the protected player page of the service
/// whose origin is `base`.
pub fn is_player_page(address: &Address, origin: &str, base: &Option<String>) -> (valid: bool)
    ensures
        valid == player_page_at(address@, origin@, text_of(*base)),
{
    is_protected_transport(address) && holds(base, origin) && address.username.as_str().is_empty()
        && !address.has_password && valid_playback_query(address) && !address.has_fragment && is_player_path(
        &address.path,
    )
}

/// Whether `value` is a player page of the service configured as `configured`.
pub open spec fn valid_player_address(value: Seq<char>, configured: Seq<char>) -> bool {
    url_address(value) is Some && url_address(configured) is Some && player_page(
        url_address(value)->0,
        origin_of(configured),
    )
}

/// The parsed player address, or the message that refuses it.
pub fn validate_player_address(value: &str, configured: &str) -> (result: Result<Address, String>)
    ensures
        result is Ok == valid_player_address(value@, configured@),
        match result {
            Ok(address) => url_address(value@) == Some(address@),
            Err(message) => message@ == "The stream player address is invalid."@,
        },
{
    if let Some(address) = parse_address(value) {
        if is_protected_transport(&address) {
            if let Some(origin) = read_origin(value) {
                if is_player_page(&address, &origin, &find_origin(configured)) {
                    return Ok(address);
                }
            }
        }
    }
    Err(String::from_str("The stream player address is invalid."))
}

/// What a validated player address asks of the player.
#[derive(Clone, Copy, Debug)]
pub struct PlaybackRequest {
    /// The position to start at, in milliseconds.
    pub at: Option<u64>,
    pub paused: bool,
}

pub open spec fn playback_request(address: AddressView) -> PlaybackRequest {
    let pairs = query_of(address);
    PlaybackRequest {
        at: match first_value(pairs, "at"@) {
            Some(value) => match position_millis(value) {
                Some(millis) => Some(millis as u64),
                None => None,
            },
            None => None,
        },
        paused: has_pair(pairs, "paused"@, "1"@),
    }
}

/// The position and pause that the address asks for.
pub fn read_request(address: &Address) -> (request: PlaybackRequest)
    ensures
        request == playback_request(address@),
{
    match &address.query {
        None => {
            assert(query_of(address@) =~= Seq::empty());
            PlaybackRequest { at: None, paused: false }
        },
        Some(pairs) => {
            let at: Option<u64> = match value_of(pairs, "at") {
                Some(value) => parse_position(&value),
                None => None,
            };
            PlaybackRequest { at, paused: contains_pair(pairs, "paused", "1") }
        },
    }
}

/// Whether two player addresses show one video: the same provider and recording, and the
/// same known broadcast.
pub open spec fn same_video(previous: AddressView, next: AddressView) -> bool {
    &&& last_segment(previous.path) == last_segment(next.path)
    &&& first_value(query_of(previous), "broadcast"@) is Some
    &&& first_value(query_of(previous), "broadcast"@) == first_value(query_of(next), "broadcast"@)
    &&& first_value(query_of(previous), "recording"@) == first_value(query_of(next), "recording"@)
}

fn query_value(address: &Address, key: &str) -> (value: Option<String>)
    ensures
        text_of(value) == first_value(query_of(address@), key@),
{
    match &address.query {
        Some(pairs) => value_of(pairs, key),
        None => None,
    }
}

fn same_option(a: &Option<String>, b: &Option<String>) -> (same: bool)
    ensures
        same == (text_of(*a) == text_of(*b)),
{
    match (a, b) {
        (Some(x), Some(y)) => same_text(x, y),
        (None, None) => true,
        _ => false,
    }
}

/// Whether two parsed player addresses show one video.
pub fn shows_same_video(previous: &Address, next: &Address) -> (same: bool)
    ensures
        same == same_video(previous@, next@),
{
    let broadcast = query_value(previous, "broadcast");
    same_text(&final_segment(&previous.path), &final_segment(&next.path)) && broadcast.is_some() && same_option(
        &broadcast,
        &query_value(next, "broadcast"),
    ) && same_option(&query_value(previous, "recording"), &query_value(next, "recording"))
}

/// Whether a header can hold `text`: no control characters but tabs.
pub open spec fn header_text(text: Seq<char>) -> bool {
    forall|i: int| 0 <= i < text.len() ==> ((' ' <= #[trigger] text[i] && text[i] != '\u{7f}') || text[i] == '\t')
}

/// `http::HeaderValue::from_str`: it accepts exactly the texts without control
/// characters of ASCII, tabs aside.
#[verifier::external_body]
fn header_accepts(value: &str) -> (accepted: bool)
    ensures
        accepted == header_text(value@),
{
    http::HeaderValue::from_str(value).is_ok()
}

/// The bearer value of one authenticated request, or the message that refuses the token.
pub open spec fn bearer(token: Seq<char>) -> Result<Seq<char>, Seq<char>> {
    if token.len() == 0 || byte_len(token) > 2048 {
        Err("Sign in to Discord again to watch this stream."@)
    } else if !header_text("Bearer "@ + token) {
        Err("The Discord session cannot open this stream."@)
    } else {
        Ok("Bearer "@ + token)
    }
}

/// The texts of a result of strings.
pub open spec fn result_texts(result: Result<String, String>) -> Result<Seq<char>, Seq<char>> {
    match result {
        Ok(text) => Ok(text@),
        Err(text) => Err(text@),
    }
}

/// The value of the authorization header for `token`.
pub fn authorization(token: &str) -> (result: Result<String, String>)
    ensures
        result_texts(result) == bearer(token@),
{
    if token.is_empty() || token.as_bytes().len() > 2048 {
        return Err(String::from_str("Sign in to Discord again to watch this stream."));
    }
    let value = String::from_str("Bearer ").concat(token);
    if header_accepts(&value) {
        Ok(value)
    } else {
        Err(String::from_str("The Discord session cannot open this stream."))
    }
}

// ---------------------------------------------------------------- laws

/// A page that may carry the bearer request is on the configured origin, over HTTPS or on
/// this machine, names no credentials, and belongs to exactly one provider, whose name
/// ends its path.
pub proof fn player_page_is_protected(address: AddressView, base: Option<Seq<char>>)
    requires
        player_page(address, base),
    ensures
        base == Some(web_origin(address)),
        address.scheme == "https"@ || at_host(address, "127.0.0.1"@),
        address.username.len() == 0 && !address.has_password && !address.has_fragment,
        segment_provider(last_segment(address.path)) is Some,
{
    let (id, provider) = choose|id: Seq<char>, provider: Seq<char>| #[trigger] member_path(address.path, id, provider);
    reveal_strlit("twitch");
    reveal_strlit("youtube");
    lemma_last_segment("/v1/streams/player/"@ + id, provider);
    assert(address.path == "/v1/streams/player/"@ + id + seq!['/'] + provider);
}

proof fn lemma_last_segment(front: Seq<char>, segment: Seq<char>)
    requires
        forall|i: int| 0 <= i < segment.len() ==> segment[i] != '/',
    ensures
        last_segment(front + seq!['/'] + segment) == segment,
    decreases segment.len(),
{
    let whole = front + seq!['/'] + segment;
    if segment.len() == 0 {
        assert(whole.last() == '/');
        assert(last_segment(whole) =~= segment);
    } else {
        assert(whole.drop_last() =~= front + seq!['/'] + segment.drop_last());
        lemma_last_segment(front, segment.drop_last());
        assert(segment.drop_last().push(segment.last()) =~= segment);
    }
}

/// A valid query never asks for a position outside the longest recording, and a query with
/// a position always has a broadcast to hold it against.
pub proof fn query_position_is_bounded(address: AddressView)
    requires
        valid_query(address),
        first_value(query_of(address), "at"@) is Some,
    ensures
        playback_request(address).at is Some,
        playback_request(address).at->0 <= MAX_POSITION_MS,
        first_value(query_of(address), "broadcast"@) is Some,
{
    let pairs = query_of(address);
    let at = lemma_first_value(pairs, "at"@);
    assert(key_count(pairs, "recording"@) <= 1);
    if key_count(pairs, "recording"@) == 1 && pairs.len() == 1 {
        reveal_strlit("at");
        reveal_strlit("recording");
        assert(pairs.drop_last() =~= Seq::empty());
        assert("at"@.len() != "recording"@.len());
        assert(key_count(pairs.drop_last(), "recording"@) == 0);
        assert(pairs[at].0 == "at"@);
        assert(pairs.last().0 == "recording"@);
        assert(false);
    }
    assert(replay_pair(pairs[at]));
    lemma_counted_value(pairs, "broadcast"@);
}

/// The first value of a key is that of some pair with the key.
proof fn lemma_first_value(pairs: Pairs, key: Seq<char>) -> (at: int)
    requires
        first_value(pairs, key) is Some,
    ensures
        0 <= at < pairs.len(),
        pairs[at] == (key, first_value(pairs, key)->0),
    decreases pairs.len(),
{
    if pairs[0].0 == key {
        0
    } else {
        let at = lemma_first_value(pairs.skip(1), key);
        assert(pairs.skip(1)[at] == pairs[at + 1]);
        at + 1
    }
}

/// A key that is counted has a first value.
proof fn lemma_counted_value(pairs: Pairs, key: Seq<char>)
    requires
        key_count(pairs, key) > 0,
    ensures
        first_value(pairs, key) is Some,
    decreases pairs.len(),
{
    let at = lemma_counted_index(pairs, key);
    lemma_indexed_value(pairs, key, at);
}

proof fn lemma_counted_index(pairs: Pairs, key: Seq<char>) -> (at: int)
    requires
        key_count(pairs, key) > 0,
    ensures
        0 <= at < pairs.len(),
        pairs[at].0 == key,
    decreases pairs.len(),
{
    if pairs.last().0 == key {
        pairs.len() - 1
    } else {
        lemma_counted_index(pairs.drop_last(), key)
    }
}

proof fn lemma_indexed_value(pairs: Pairs, key: Seq<char>, at: int)
    requires
        0 <= at < pairs.len(),
        pairs[at].0 == key,
    ensures
        first_value(pairs, key) is Some,
    decreases pairs.len(),
{
    if pairs[0].0 != key {
        assert(pairs.skip(1)[at - 1] == pairs[at]);
        lemma_indexed_value(pairs.skip(1), key, at - 1);
    }
}

/// A position of whole seconds, of up to seven digits, stands for a thousand milliseconds each, up to a
/// week; a longer one is refused.
pub proof fn whole_seconds_are_thousands(whole: Seq<char>)
    requires
        all_digits(whole),
    ensures
        position_millis(whole) is Some <==> 1 <= whole.len() <= 7 && number(whole) <= 604_800,
        position_millis(whole) is Some ==> position_millis(whole)->0 == number(whole) * 1000,
{
    lemma_first_index(whole, '.');
    lemma_point_free(whole);
    assert(whole.take(whole.len() as int) =~= whole);
}

/// Digits behind a point are tenths, hundredths and thousandths of a second: one more zero changes
/// nothing, and more than three, or none, are refused.
pub proof fn fractions_are_thousandths(whole: Seq<char>, fraction: Seq<char>)
    requires
        all_digits(whole) && all_digits(fraction),
        1 <= whole.len() <= 7,
    ensures
        ({
            let value = whole + seq!['.'] + fraction;
            let millis = position_millis(value);
            &&& fraction.len() == 0 || fraction.len() > 3 ==> millis is None
            &&& fraction.len() == 3 ==> (millis is Some <==> number(whole) * 1000 + number(fraction) <= 604_800_000)
            &&& fraction.len() == 3 && millis is Some ==> millis->0 == number(whole) * 1000 + number(fraction)
            &&& 1 <= fraction.len() <= 2 ==> millis == position_millis(value.push('0'))
            &&& millis is Some ==> number(whole) * 1000 <= millis->0 && millis->0 < number(whole) * 1000 + 1000
        }),
{
    let value = whole + seq!['.'] + fraction;
    lemma_pointed(whole, fraction);
    let longer = fraction.push('0');
    assert(value.push('0') =~= whole + seq!['.'] + longer);
    assert(all_digits(longer));
    lemma_pointed(whole, longer);
    assert(longer.drop_last() =~= fraction);
    assert(number(longer) == number(fraction) * 10);
    if 1 <= fraction.len() <= 3 {
        lemma_short_number(fraction);
        let (n, m) = (number(fraction), number(longer));
        if fraction.len() == 1 {
            assert(fraction_scale(fraction.len()) == 100 && fraction_scale(longer.len()) == 10);
            assert(n * fraction_scale(fraction.len()) == n * 100 && m * fraction_scale(longer.len()) == m * 10);
        } else if fraction.len() == 2 {
            assert(fraction_scale(fraction.len()) == 10 && fraction_scale(longer.len()) == 1);
            assert(n * fraction_scale(fraction.len()) == n * 10 && m * fraction_scale(longer.len()) == m);
        } else {
            assert(fraction_scale(fraction.len()) == 1);
            assert(n * fraction_scale(fraction.len()) == n);
        }
    }
}

/// Up to three digits write a number below ten, a hundred or a thousand.
proof fn lemma_short_number(text: Seq<char>)
    requires
        all_digits(text),
        1 <= text.len() <= 3,
    ensures
        text.len() == 1 ==> number(text) < 10,
        text.len() == 2 ==> number(text) < 100,
        text.len() == 3 ==> number(text) < 1000,
    decreases text.len(),
{
    let front = text.drop_last();
    assert(text.last() == text[text.len() - 1]);
    assert(digit_value(text.last()) < 10);
    assert(number(text) == number(front) * 10 + digit_value(text.last()));
    if front.len() > 0 {
        assert(all_digits(front)) by {
            assert forall|i: int| 0 <= i < front.len() implies '0' <= #[trigger] front[i] && front[i] <= '9' by {
                assert(front[i] == text[i]);
            }
        }
        lemma_short_number(front);
    } else {
        assert(number(front) == 0);
    }
}

proof fn lemma_point_free(whole: Seq<char>)
    requires
        all_digits(whole),
    ensures
        first_index(whole, '.') == whole.len(),
{
    lemma_first_index(whole, '.');
}

proof fn lemma_pointed(whole: Seq<char>, fraction: Seq<char>)
    requires
        all_digits(whole),
    ensures
        ({
            let value = whole + seq!['.'] + fraction;
            &&& first_index(value, '.') == whole.len()
            &&& value.take(whole.len() as int) == whole
            &&& value.skip(whole.len() as int + 1) == fraction
        }),
{
    let value = whole + seq!['.'] + fraction;
    lemma_first_index(value, '.');
    assert(value[whole.len() as int] == '.');
    assert forall|i: int| 0 <= i < whole.len() implies value[i] != '.' by {
        assert(value[i] == whole[i]);
    }
    assert(value.take(whole.len() as int) =~= whole);
    assert(value.skip(whole.len() as int + 1) =~= fraction);
}

/// Anything but digits around one point is no position.
pub proof fn positions_are_digits(value: Seq<char>, i: int)
    requires
        0 <= i < value.len(),
        value[i] != '.' && !('0' <= value[i] <= '9'),
    ensures
        position_millis(value) is None,
{
    lemma_first_index(value, '.');
    let point = first_index(value, '.');
    if i < point {
        assert(value.take(point)[i] == value[i]);
    } else {
        assert(value.skip(point + 1)[i - point - 1] == value[i]);
    }
}

/// A valid query holds no key twice and no key but the four; a position in it is one, a pause is written
/// `1`, and its recording has the form of its provider.
pub proof fn queries_hold_known_keys_once(provider: Option<Provider>, pairs: Pairs, i: int)
    requires
        playback_query(provider, pairs),
        0 <= i < pairs.len(),
    ensures
        pairs[i].0 == "at"@ || pairs[i].0 == "paused"@ || pairs[i].0 == "recording"@ || pairs[i].0 == "broadcast"@,
        key_count(pairs, "recording"@) <= 1,
        pairs.len() > 1 ==> key_count(pairs, "at"@) == 1 && key_count(pairs, "broadcast"@) == 1 && key_count(
            pairs,
            "paused"@,
        ) <= 1,
        pairs.len() <= 4,
        pairs.len() == 1 ==> pairs[0].0 == "recording"@,
        pairs[i].0 == "recording"@ ==> recording_id(provider, pairs[i].1),
        pairs.len() > 1 && pairs[i].0 == "at"@ ==> position_millis(pairs[i].1) is Some,
        pairs.len() > 1 && pairs[i].0 == "paused"@ ==> pairs[i].1 == "1"@,
        pairs.len() > 1 && pairs[i].0 == "broadcast"@ ==> 1 <= pairs[i].1.len() <= 30,
{
    reveal_strlit("at");
    reveal_strlit("paused");
    reveal_strlit("recording");
    reveal_strlit("broadcast");
    assert("at"@.len() == 2 && "paused"@.len() == 6 && "recording"@.len() == 9 && "broadcast"@.len() == 9);
    assert("recording"@[0] == 'r' && "broadcast"@[0] == 'b');
    if pairs.len() == 1 {
        assert(pairs.drop_last() =~= Seq::empty());
        assert(key_count(pairs.drop_last(), "recording"@) == 0);
        assert(key_count(pairs.drop_last(), "at"@) == 0 && key_count(pairs.drop_last(), "broadcast"@) == 0);
        assert(pairs.last() == pairs[0]);
    } else if key_count(pairs, "recording"@) == 1 && pairs.len() == 1 {
    } else {
        assert(replay_pair(pairs[i]));
    }
}

/// A query of a position and a broadcast is valid, in either order; so is a lone recording of the
/// provider, and an empty query is not.
pub proof fn ordinary_queries_are_valid(
    provider: Option<Provider>,
    at: Seq<char>,
    broadcast: Seq<char>,
    recording: Seq<char>,
)
    ensures
        playback_query(provider, seq![("at"@, at), ("broadcast"@, broadcast)]) <==> position_millis(at) is Some
            && 1 <= broadcast.len() <= 30 && all_token_chars(broadcast),
        playback_query(provider, seq![("broadcast"@, broadcast), ("at"@, at)]) <==> playback_query(
            provider,
            seq![("at"@, at), ("broadcast"@, broadcast)],
        ),
        playback_query(provider, seq![("recording"@, recording)]) <==> recording_id(provider, recording),
        !playback_query(provider, Seq::empty()),
{
    reveal_strlit("at");
    reveal_strlit("paused");
    reveal_strlit("recording");
    reveal_strlit("broadcast");
    assert("at"@.len() == 2 && "paused"@.len() == 6 && "recording"@.len() == 9 && "broadcast"@.len() == 9);
    assert("recording"@[0] == 'r' && "broadcast"@[0] == 'b');
    let one = seq![("at"@, at), ("broadcast"@, broadcast)];
    let other = seq![("broadcast"@, broadcast), ("at"@, at)];
    let lone = seq![("recording"@, recording)];
    let none: Pairs = Seq::empty();
    assert forall|key: Seq<char>| #[trigger] key_count(none, key) == 0 by {}
    assert(lone.drop_last() =~= none);
    assert forall|key: Seq<char>| #[trigger] key_count(one, key) == (if key == "at"@ || key == "broadcast"@ {
        1nat
    } else {
        0
    }) by {
        lemma_two_counts(("at"@, at), ("broadcast"@, broadcast), key);
    }
    assert forall|key: Seq<char>| #[trigger] key_count(other, key) == (if key == "at"@ || key == "broadcast"@ {
        1nat
    } else {
        0
    }) by {
        lemma_two_counts(("broadcast"@, broadcast), ("at"@, at), key);
    }
    assert(key_count(none, "recording"@) == 0 && lone.last() == ("recording"@, recording));
    assert(key_count(lone, "recording"@) == 1);
    assert(one[0] == ("at"@, at) && one[1] == ("broadcast"@, broadcast));
    assert(other[1] == ("at"@, at) && other[0] == ("broadcast"@, broadcast));
    assert(lone[0] == ("recording"@, recording));
    assert(key_count(none, "at"@) == 0);
    if playback_query(provider, one) {
        assert(replay_pair(one[0]) && replay_pair(one[1]));
    }
    if playback_query(provider, other) {
        assert(replay_pair(other[0]) && replay_pair(other[1]));
    }
    if playback_query(provider, lone) {
        assert(recording_id(provider, lone[0].1));
    }
}

proof fn lemma_two_counts(a: (Seq<char>, Seq<char>), b: (Seq<char>, Seq<char>), key: Seq<char>)
    ensures
        key_count(seq![a, b], key) == (if a.0 == key { 1nat } else { 0 }) + (if b.0 == key { 1nat } else { 0 }),
{
    let pairs = seq![a, b];
    let front = pairs.drop_last();
    let none: Pairs = Seq::empty();
    assert(front =~= seq![a]);
    assert(front.drop_last() =~= none);
    assert(key_count(none, key) == 0);
    assert(key_count(front, key) == (if a.0 == key { 1nat } else { 0 }));
    assert(pairs.last() == b);
}

/// A recording of Twitch is up to thirty digits, one of YouTube eleven letters, digits, dashes or
/// underscores; without a provider there is none.
pub proof fn recordings_have_their_providers_form(value: Seq<char>)
    ensures
        recording_id(Some(Provider::Twitch), value) <==> 1 <= value.len() <= 30 && forall|i: int|
            0 <= i < value.len() ==> '0' <= #[trigger] value[i] <= '9',
        recording_id(Some(Provider::Youtube), value) <==> value.len() == 11 && forall|i: int|
            0 <= i < value.len() ==> ('0' <= #[trigger] value[i] <= '9' || 'a' <= value[i] <= 'z' || 'A' <= value[i] <= 'Z'
                || value[i] == '-' || value[i] == '_'),
        !recording_id(None, value),
{
}

/// The first value of a key is that of the first pair with it; a key that no pair has is not there.
pub proof fn first_values_come_first(pairs: Pairs, key: Seq<char>, i: int)
    requires
        0 <= i < pairs.len(),
        forall|j: int| 0 <= j < i ==> (#[trigger] pairs[j]).0 != key,
    ensures
        pairs[i].0 == key ==> first_value(pairs, key) == Some(pairs[i].1),
        i == pairs.len() - 1 && pairs[i].0 != key ==> first_value(pairs, key) is None,
    decreases i,
{
    if i > 0 {
        let rest = pairs.skip(1);
        assert forall|j: int| 0 <= j < i - 1 implies (#[trigger] rest[j]).0 != key by {
            assert(rest[j] == pairs[j + 1]);
        }
        assert(rest[i - 1] == pairs[i]);
        first_values_come_first(rest, key, i - 1);
        assert(pairs[0].0 != key);
    } else if pairs.len() == 1 {
        assert(pairs.skip(1).len() == 0);
        assert(first_value(pairs.skip(1), key) is None);
    }
}

/// An address asks for the position that its query writes, and pauses only where the query says so;
/// without a query it asks for neither.
pub proof fn addresses_ask_what_they_write(address: AddressView)
    ensures
        address.query is None ==> playback_request(address).at is None && !playback_request(address).paused,
        address.query is Some && first_value(address.query->0, "at"@) is None ==> playback_request(address).at is None,
        address.query is Some && first_value(address.query->0, "at"@) is Some ==> match position_millis(
            first_value(address.query->0, "at"@)->0,
        ) {
            Some(millis) => playback_request(address).at is Some && playback_request(address).at->0 == millis,
            None => playback_request(address).at is None,
        },
        playback_request(address).paused <==> address.query is Some && exists|i: int|
            0 <= i < address.query->0.len() && (#[trigger] address.query->0[i]).0 == "paused"@ && address.query->0[i].1
                == "1"@,
{
    if address.query is Some {
        let pairs = address.query->0;
        if exists|i: int| 0 <= i < pairs.len() && (#[trigger] pairs[i]).0 == "paused"@ && pairs[i].1 == "1"@ {
            let i = choose|i: int| 0 <= i < pairs.len() && (#[trigger] pairs[i]).0 == "paused"@ && pairs[i].1 == "1"@;
            assert(pairs[i] == ("paused"@, "1"@));
        }
        if has_pair(pairs, "paused"@, "1"@) {
            let i = choose|i: int| 0 <= i < pairs.len() && #[trigger] pairs[i] == ("paused"@, "1"@);
            assert(pairs[i].0 == "paused"@);
        }
    }
}

/// Two addresses show one video only where provider, broadcast and recording agree and the broadcast is
/// known; it makes no difference which comes first, nor what else they ask for.
pub proof fn videos_are_told_by_broadcast(a: AddressView, b: AddressView)
    ensures
        same_video(a, b) == same_video(b, a),
        first_value(query_of(a), "broadcast"@) is None ==> !same_video(a, b),
        first_value(query_of(a), "broadcast"@) != first_value(query_of(b), "broadcast"@) ==> !same_video(a, b),
        first_value(query_of(a), "recording"@) != first_value(query_of(b), "recording"@) ==> !same_video(a, b),
        last_segment(a.path) != last_segment(b.path) ==> !same_video(a, b),
        first_value(query_of(a), "broadcast"@) is Some ==> same_video(a, a),
        a.path == b.path && first_value(query_of(a), "broadcast"@) is Some && first_value(query_of(a), "broadcast"@)
            == first_value(query_of(b), "broadcast"@) && first_value(query_of(a), "recording"@) == first_value(
            query_of(b),
            "recording"@,
        ) ==> same_video(a, b),
{
}

/// A token is sent as it is behind its word; one that is empty, longer than 2,048 bytes, or holds a
/// control character is refused.
pub proof fn tokens_are_sent_as_they_are(token: Seq<char>)
    ensures
        bearer(token) is Ok ==> bearer(token) == Ok::<Seq<char>, Seq<char>>("Bearer "@ + token) && token.len() > 0
            && byte_len(token) <= 2048,
        token.len() == 0 || byte_len(token) > 2048 ==> bearer(token) is Err,
        token.len() > 0 && byte_len(token) <= 2048 && (forall|i: int| 0 <= i < token.len() ==> ' ' <= #[trigger] token[i] <= '~')
            ==> bearer(token) is Ok,
        (exists|i: int| 0 <= i < token.len() && #[trigger] token[i] < ' ' && token[i] != '\t') ==> bearer(token) is Err,
{
    reveal_strlit("Bearer ");
    let value = "Bearer "@ + token;
    assert forall|i: int| 0 <= i < token.len() implies value[i + 7] == #[trigger] token[i] by {}
    if token.len() > 0 && byte_len(token) <= 2048 && (forall|i: int|
        0 <= i < token.len() ==> ' ' <= #[trigger] token[i] <= '~') {
        assert forall|i: int| 0 <= i < value.len() implies ((' ' <= #[trigger] value[i] && value[i] != '\u{7f}')
            || value[i] == '\t') by {
            if i >= 7 {
                assert(value[i] == token[i - 7]);
            }
        }
    }
    if exists|i: int| 0 <= i < token.len() && #[trigger] token[i] < ' ' && token[i] != '\t' {
        let i = choose|i: int| 0 <= i < token.len() && #[trigger] token[i] < ' ' && token[i] != '\t';
        assert(value[i + 7] == token[i]);
        assert(!header_text(value));
    }
}

/// A player's path names one member, of up to thirty-two digits, and one of the two providers.
pub proof fn player_paths_name_a_member(id: Seq<char>, provider: Provider)
    requires
        all_digits(id),
        1 <= id.len() <= 32,
    ensures
        player_path("/v1/streams/player/"@ + id + seq!['/'] + provider.spec_key()),
        segment_provider(last_segment("/v1/streams/player/"@ + id + seq!['/'] + provider.spec_key())) == Some(provider),
{
    reveal_strlit("twitch");
    reveal_strlit("youtube");
    let path = "/v1/streams/player/"@ + id + seq!['/'] + provider.spec_key();
    assert(member_path(path, id, provider.spec_key()));
    lemma_last_segment("/v1/streams/player/"@ + id, provider.spec_key());
    crate::address::players_are_named_by_provider(provider, provider.spec_key());
}

/// The bearer request goes only to the configured service, over HTTPS or to this machine, without
/// credentials or a fragment; and every such address of a member's player with a valid query may
/// carry it.
pub proof fn protected_pages_may_carry_the_token(address: AddressView, base: Option<Seq<char>>)
    ensures
        player_page(address, base) ==> player_path(address.path) && valid_query(address) && base == Some(
            web_origin(address),
        ) && (address.scheme == "https"@ || address.scheme == "http"@),
        address.scheme == "http"@ && address.host != Some("127.0.0.1"@) ==> !player_page(address, base),
        (address.scheme == "https"@ || address.scheme == "http"@ && address.host == Some("127.0.0.1"@)) && base == Some(
            web_origin(address),
        ) && address.username.len() == 0 && !address.has_password && !address.has_fragment && player_path(address.path) && (
        address.query is None || playback_query(segment_provider(last_segment(address.path)), address.query->0))
            ==> player_page(address, base),
        address.has_fragment || address.has_password || address.username.len() > 0 ==> !player_page(address, base),
{
    reveal_strlit("http");
    reveal_strlit("https");
    assert("http"@.len() == 4 && "https"@.len() == 5);
}

/// Only an address of the configured service is taken: it parses, and its origin is the one that the
/// configured address stands for.
pub proof fn players_are_of_the_configured_service(value: Seq<char>, configured: Seq<char>)
    ensures
        valid_player_address(value, configured) ==> url_address(value) is Some && url_address(configured) is Some
            && origin_of(configured) == Some(web_origin(url_address(value)->0)) && player_path(url_address(value)->0.path)
            && !url_address(value)->0.has_fragment && !url_address(value)->0.has_password,
        url_address(value) is None || url_address(configured) is None ==> !valid_player_address(value, configured),
        origin_of(configured) is None ==> !valid_player_address(value, configured),
{
}

} // verus!

//! The private browser profile of one viewing session.
use crate::address::{at_host, parse_address, read_origin, text_of, url_address, web_origin, Address, AddressView};
use crate::provider::Provider;
use crate::text::{after, begins, chars_of, holds, push_char, same_text, small, small_text};
use vstd::prelude::*;

verus! {

pub open spec fn hex_digit(c: char) -> bool {
    ('0' <= c && c <= '9') || ('a' <= c && c <= 'f') || ('A' <= c && c <= 'F')
}

/// The name of a profile of this app: its stem and 32 hexadecimal digits.
pub open spec fn profile_name(name: Seq<char>) -> bool {
    begins(name, "BrickViewer"@) && ({
        let suffix = name.skip("BrickViewer"@.len() as int);
        suffix.len() == 32 && forall|i: int| 0 <= i < suffix.len() ==> hex_digit(#[trigger] suffix[i])
    })
}

fn all_hex(text: &str) -> (yes: bool)
    ensures
        yes == forall|i: int| 0 <= i < text@.len() ==> hex_digit(#[trigger] text@[i]),
{
    let chars = chars_of(text);
    let mut i: usize = 0;
    while i < chars.len()
        invariant
            i <= chars.len(),
            chars@ == text@,
            forall|j: int| 0 <= j < i ==> hex_digit(#[trigger] text@[j]),
        decreases chars.len() - i,
    {
        let c = chars[i];
        let hex = ('0' <= c && c <= '9') || ('a' <= c && c <= 'f') || ('A' <= c && c <= 'F');
        if !hex {
            assert(!hex_digit(text@[i as int]));
            return false;
        }
        i += 1;
    }
    true
}

pub fn is_profile_name(name: &str) -> (valid: bool)
    ensures
        valid == profile_name(name@),
{
    match after(name, "BrickViewer") {
        None => false,
        Some(suffix) => chars_of(&suffix).len() == 32 && all_hex(&suffix),
    }
}

/// Whether an origin may hold the embedded player: HTTPS or this machine, without
/// credentials, and with a host that a rule can name.
pub open spec fn player_origin(origin: AddressView) -> bool {
    &&& origin.scheme == "https"@ || (origin.scheme == "http"@ && at_host(origin, "127.0.0.1"@))
    &&& origin.username.len() == 0 && !origin.has_password
    &&& origin.host is Some && origin.host->0.len() > 0
    &&& no_pattern(origin.host->0)
}

/// No character that a rule would read as a pattern or as its end.
pub open spec fn no_pattern(host: Seq<char>) -> bool {
    forall|i: int| 0 <= i < host.len() ==> (#[trigger] host[i]) != '*' && host[i] != ','
}

fn is_free_of_patterns(host: &str) -> (yes: bool)
    ensures
        yes == no_pattern(host@),
{
    let chars = chars_of(host);
    let mut i: usize = 0;
    while i < chars.len()
        invariant
            i <= chars.len(),
            chars@ == host@,
            forall|j: int| 0 <= j < i ==> (#[trigger] host@[j]) != '*' && host@[j] != ',',
        decreases chars.len() - i,
    {
        if chars[i] == '*' || chars[i] == ',' {
            assert(host@[i as int] == chars@[i as int]);
            return false;
        }
        i += 1;
    }
    true
}

pub fn is_player_origin(origin: &Address) -> (valid: bool)
    ensures
        valid == player_origin(origin@),
{
    let transport = same_text(&origin.scheme, "https") || (same_text(&origin.scheme, "http") && holds(
        &origin.host,
        "127.0.0.1",
    ));
    if !transport || !origin.username.as_str().is_empty() || origin.has_password {
        return false;
    }
    match &origin.host {
        None => false,
        Some(host) => !host.as_str().is_empty() && is_free_of_patterns(host),
    }
}

/// The rule that lets the provider's cookies into the player of one origin.
pub open spec fn cookie_rule(provider: Provider, origin: Seq<char>) -> Seq<char> {
    let pattern = match provider {
        Provider::Youtube => "https://[*.]youtube.com"@,
        Provider::Twitch => "https://[*.]twitch.tv"@,
    };
    pattern + ","@ + origin
}

pub fn cookie_exception(provider: &Provider, origin: &str) -> (rule: String)
    ensures
        rule@ == cookie_rule(*provider, origin@),
{
    let pattern = match provider {
        Provider::Youtube => "https://[*.]youtube.com",
        Provider::Twitch => "https://[*.]twitch.tv",
    };
    String::from_str(pattern).concat(",").concat(origin)
}

/// `text` as a JSON string, as `serde_json` writes it: nothing where it fails.
pub uninterp spec fn json_string(text: Seq<char>) -> Option<Seq<char>>;

/// Text of which JSON escapes nothing: no quotation mark, no backslash, no control character.
pub open spec fn plain_json(text: Seq<char>) -> bool {
    forall|i: int| 0 <= i < text.len() ==> ' ' <= #[trigger] text[i] && text[i] != '"' && text[i] != '\\'
}

/// `text` between quotation marks.
pub open spec fn quoted(text: Seq<char>) -> Seq<char> {
    seq!['"'] + text + seq!['"']
}

/// `serde_json::to_string` of a string. The contract names the outcome, which depends on the
/// text alone, and says what it is where nothing is escaped: the text in quotation marks.
#[verifier::external_body]
fn write_json_string(text: &str) -> (json: Option<String>)
    ensures
        text_of(json) == json_string(text@),
        plain_json(text@) ==> text_of(json) == Some(quoted(text@)),
{
    serde_json::to_string(text).ok()
}

/// The settings of a profile, given its one cookie rule as JSON.
pub open spec fn settings_text(rule: Option<Seq<char>>) -> Seq<char> {
    "{\"profile\":{\"content_settings\":{\"exceptions\":{\"cookies\":{"@ + match rule {
        Some(json) => json + ":{\"setting\":1}"@,
        None => Seq::empty(),
    } + "}}}}}"@
}

/// The settings of a profile that admits one cookie rule, or none.
pub fn settings(rule: &Option<String>) -> (text: String)
    ensures
        text@ == settings_text(text_of(*rule)),
{
    let open = String::from_str("{\"profile\":{\"content_settings\":{\"exceptions\":{\"cookies\":{");
    let middle = match rule {
        Some(json) => json.clone().concat(":{\"setting\":1}"),
        None => String::new(),
    };
    let text = open.concat(&middle).concat("}}}}}");
    assert(text@ =~= settings_text(text_of(*rule)));
    text
}

/// The content of an optional text.
pub open spec fn literal(text: Option<&str>) -> Option<Seq<char>> {
    match text {
        Some(text) => Some(text@),
        None => None,
    }
}

/// Whether this is the answer to a request for the settings of a new profile.
pub open spec fn prepared(
    result: Result<String, String>,
    name: Seq<char>,
    provider: Provider,
    player: Option<Seq<char>>,
) -> bool {
    if !profile_name(name) {
        result is Err && result->Err_0@ == "Invalid private viewing profile."@
    } else if player is None {
        result is Ok && result->Ok_0@ == settings_text(None)
    } else if url_address(player->0) is None || !player_origin(url_address(player->0)->0) {
        result is Err && result->Err_0@ == "Invalid viewing player origin."@
    } else {
        match json_string(cookie_rule(provider, web_origin(url_address(player->0)->0))) {
            Some(json) => result is Ok && result->Ok_0@ == settings_text(Some(json)),
            None => result is Err && result->Err_0@ == "The viewing player cookie settings could not be prepared."@,
        }
    }
}

/// The settings that a new profile starts with, or why there can be none.
/// The player's address is given as text; one that cannot be parsed is refused too.
pub fn prepare(name: &str, provider: &Provider, player: Option<&str>) -> (result: Result<String, String>)
    ensures
        prepared(result, name@, *provider, literal(player)),
        ({
            let rule = cookie_rule(*provider, web_origin(url_address(player->0@)->0));
            profile_name(name@) && player is Some && url_address(player->0@) is Some && player_origin(
                url_address(player->0@)->0,
            ) && plain_json(rule) ==> result is Ok && result->Ok_0@ == settings_text(Some(quoted(rule)))
        }),
{
    if !is_profile_name(name) {
        return Err(String::from_str("Invalid private viewing profile."));
    }
    let player = match player {
        Some(player) => player,
        None => {
            return Ok(settings(&None));
        },
    };
    if let Some(address) = parse_address(player) {
        if is_player_origin(&address) {
            if let Some(origin) = read_origin(player) {
                return match write_json_string(&cookie_exception(provider, &origin)) {
                    Some(json) => Ok(settings(&Some(json))),
                    None => Err(String::from_str("The viewing player cookie settings could not be prepared.")),
                };
            }
        }
    }
    Err(String::from_str("Invalid viewing player origin."))
}

/// The directory of a profile, below the browser's data.
pub fn profile_directory(name: &str) -> (directory: String)
    ensures
        directory@ == "WV2Profile_"@ + small_text(name@),
{
    let chars = chars_of(name);
    let mut directory = String::from_str("WV2Profile_");
    let mut i: usize = 0;
    while i < chars.len()
        invariant
            i <= chars.len(),
            chars@ == name@,
            directory@ == "WV2Profile_"@ + small_text(name@.take(i as int)),
        decreases chars.len() - i,
    {
        let c = chars[i];
        let lowered = if 'A' <= c && c <= 'Z' { (c as u8 + 32) as char } else { c };
        push_char(&mut directory, lowered);
        proof {
            let front = small_text(name@.take(i as int));
            assert(small_text(name@.take(i as int + 1)) =~= front.push(small(c)));
            assert(directory@ =~= "WV2Profile_"@ + small_text(name@.take(i as int + 1)));
        }
        i += 1;
    }
    assert(name@.take(name@.len() as int) =~= name@);
    directory
}

/// Whether a browser view may join a session.
pub open spec fn joins(retired: bool, private: bool, reported: Seq<char>, expected: Seq<char>) -> bool {
    !retired && private && reported == expected
}

/// Whether a browser view may join a session: the session goes on, the view is private, and
/// its profile is the session's own.
pub fn check_view(retired: bool, private: bool, reported: &str, expected: &str) -> (result: Result<(), String>)
    ensures
        result is Ok == joins(retired, private, reported@, expected@),
        result is Err ==> result->Err_0@ == if retired {
            "This provider session has ended."@
        } else if !private {
            "The provider session requires private browsing."@
        } else {
            "The provider session requires its own private profile."@
        },
{
    if retired {
        Err(String::from_str("This provider session has ended."))
    } else if !private {
        Err(String::from_str("The provider session requires private browsing."))
    } else if !same_text(reported, expected) {
        Err(String::from_str("The provider session requires its own private profile."))
    } else {
        Ok(())
    }
}

/// A profile's settings never name another provider than its own.
pub proof fn rules_name_their_provider(origin: Seq<char>)
    ensures
        cookie_rule(Provider::Youtube, origin) != cookie_rule(Provider::Twitch, origin),
{
    reveal_strlit("https://[*.]youtube.com");
    reveal_strlit("https://[*.]twitch.tv");
    assert(cookie_rule(Provider::Youtube, origin)[12] == 'y');
    assert(cookie_rule(Provider::Twitch, origin)[12] == 't');
}

/// A profile's name is the app's word and thirty-two hexadecimal digits, so that no other profile's
/// name is taken for one.
pub proof fn profiles_are_named_by_the_app(suffix: Seq<char>, name: Seq<char>)
    ensures
        suffix.len() == 32 && (forall|i: int| 0 <= i < suffix.len() ==> '0' <= #[trigger] suffix[i] <= '9' || 'a'
            <= suffix[i] <= 'f' || 'A' <= suffix[i] <= 'F') ==> profile_name("BrickViewer"@ + suffix),
        profile_name(name) ==> name.len() == 43 && name.take(11) == "BrickViewer"@ && forall|i: int|
            11 <= i < 43 ==> '0' <= #[trigger] name[i] <= '9' || 'a' <= name[i] <= 'f' || 'A' <= name[i] <= 'F',
{
    reveal_strlit("BrickViewer");
    let whole = "BrickViewer"@ + suffix;
    assert(whole.take(11) =~= "BrickViewer"@);
    assert(whole.skip(11) =~= suffix);
    if profile_name(name) {
        assert forall|i: int| 11 <= i < 43 implies '0' <= #[trigger] name[i] <= '9' || 'a' <= name[i] <= 'f' || 'A'
            <= name[i] <= 'F' by {
            assert(hex_digit(name.skip(11)[i - 11]));
        }
    }
}

/// The player's cookies are admitted for one origin, over HTTPS or on this machine, that holds no
/// credentials and no sign of a rule; every such origin is admitted.
pub proof fn cookies_are_admitted_for_one_origin(origin: AddressView)
    ensures
        player_origin(origin) ==> (origin.scheme == "https"@ || origin.host == Some("127.0.0.1"@)) && origin.username.len()
            == 0 && !origin.has_password && origin.host is Some && origin.host->0.len() > 0 && !origin.host->0.contains('*')
            && !origin.host->0.contains(','),
        origin.scheme == "https"@ && origin.username.len() == 0 && !origin.has_password && origin.host is Some
            && origin.host->0.len() > 0 && !origin.host->0.contains('*') && !origin.host->0.contains(',')
            ==> player_origin(origin),
{
    if origin.host is Some {
        let host = origin.host->0;
        assert forall|i: int| 0 <= i < host.len() && !host.contains('*') && !host.contains(',') implies (
        #[trigger] host[i]) != '*' && host[i] != ',' by {
            assert(host.contains(host[i]));
        }
    }
}

/// A profile is prepared only under a name of the app; without a player it admits no cookies, and with
/// one only where the player's origin may hold it.
pub proof fn profiles_are_prepared_for_players(
    result: Result<String, String>,
    name: Seq<char>,
    provider: Provider,
    player: Option<Seq<char>>,
)
    requires
        prepared(result, name, provider, player),
    ensures
        result is Ok ==> profile_name(name),
        profile_name(name) && player is None ==> result is Ok,
        player is Some && url_address(player->0) is None ==> result is Err,
        player is Some && url_address(player->0) is Some && !player_origin(url_address(player->0)->0) ==> result is Err,
        result is Ok && player is Some ==> result->Ok_0@ == settings_text(
            json_string(cookie_rule(provider, web_origin(url_address(player->0)->0))),
        ),
        begins(cookie_rule(provider, web_origin(url_address(player->0)->0)), "https://[*.]"@),
{
    reveal_strlit("https://[*.]youtube.com");
    reveal_strlit("https://[*.]twitch.tv");
    reveal_strlit("https://[*.]");
    let rule = cookie_rule(provider, web_origin(url_address(player->0)->0));
    assert(rule.take(12) =~= "https://[*.]"@);
}

/// Only a private view with the session's own profile joins, while the session goes on.
pub proof fn only_private_views_join(retired: bool, private: bool, reported: Seq<char>, expected: Seq<char>)
    ensures
        joins(false, true, expected, expected),
        retired || !private || reported != expected ==> !joins(retired, private, reported, expected),
{
}

/// The settings hold the one rule that is admitted, as it is written, and nothing else; without a rule
/// they admit none.
pub proof fn settings_hold_one_rule(rule: Seq<char>, other: Seq<char>)
    ensures
        settings_text(Some(rule)) == settings_text(Some(other)) <==> rule == other,
        settings_text(None) != settings_text(Some(rule)),
        quoted(rule).len() == rule.len() + 2 && quoted(rule).first() == '"' && quoted(rule).last() == '"',
        quoted(rule).subrange(1, rule.len() as int + 1) == rule,
{
    reveal_strlit("{\"profile\":{\"content_settings\":{\"exceptions\":{\"cookies\":{");
    reveal_strlit(":{\"setting\":1}");
    reveal_strlit("}}}}}");
    let front = "{\"profile\":{\"content_settings\":{\"exceptions\":{\"cookies\":{"@;
    let (x, y) = (settings_text(Some(rule)), settings_text(Some(other)));
    let tail = ":{\"setting\":1}"@.len() + "}}}}}"@.len();
    assert(x.len() == front.len() + rule.len() + tail);
    assert(y.len() == front.len() + other.len() + tail);
    assert(x.subrange(front.len() as int, x.len() - tail) =~= rule);
    assert(y.subrange(front.len() as int, y.len() - tail) =~= other);
    assert(settings_text(None).len() == front.len() + "}}}}}"@.len());
    assert(quoted(rule).subrange(1, rule.len() as int + 1) =~= rule);
}

} // verus!

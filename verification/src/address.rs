//! Which addresses the media view and the account windows may open.
use crate::provider::{google_account, google_account_host, Provider};
use crate::text::{
    begins, byte_len, chars_of, decimal, final_segment, holds, last_segment, part, same_text, starts_with,
};
use vstd::prelude::*;

verus! {

/// What the navigation rules read of a parsed address.
#[derive(Clone, Debug)]
pub struct Address {
    pub text: String,
    pub scheme: String,
    pub username: String,
    pub has_password: bool,
    pub host: Option<String>,
    pub port: Option<u16>,
    pub path: String,
    /// The decoded pairs of the query, where the address has a query at all.
    pub query: Option<Vec<(String, String)>>,
    pub has_fragment: bool,
}

/// The mathematical content of an `Address`.
pub struct AddressView {
    pub text: Seq<char>,
    pub scheme: Seq<char>,
    pub username: Seq<char>,
    pub has_password: bool,
    pub host: Option<Seq<char>>,
    pub port: Option<u16>,
    pub path: Seq<char>,
    pub query: Option<Seq<(Seq<char>, Seq<char>)>>,
    pub has_fragment: bool,
}

/// The contents of a list of pairs of strings.
pub open spec fn pair_views(pairs: Seq<(String, String)>) -> Seq<(Seq<char>, Seq<char>)> {
    Seq::new(pairs.len(), |i: int| (pairs[i].0@, pairs[i].1@))
}

impl View for Address {
    type V = AddressView;

    open spec fn view(&self) -> AddressView {
        AddressView {
            text: self.text@,
            scheme: self.scheme@,
            username: self.username@,
            has_password: self.has_password,
            host: match self.host {
                Some(host) => Some(host@),
                None => None,
            },
            port: self.port,
            path: self.path@,
            query: match self.query {
                Some(pairs) => Some(pair_views(pairs@)),
                None => None,
            },
            has_fragment: self.has_fragment,
        }
    }
}

/// What `url::Url::parse` makes of a text, seen through the accessors of `Url`: nothing
/// where it refuses the text.
pub uninterp spec fn url_address(text: Seq<char>) -> Option<AddressView>;

/// `url::Url::parse`, with the parsed value read out through its accessors `as_str`,
/// `scheme`, `username`, `password`, `host_str`, `port`, `path`, `query`, `query_pairs` and
/// `fragment`. The contract only names the outcome: it depends on the text alone. The origin
/// is not among them, since `Url::origin` follows nested `blob:` addresses on the stack.
#[verifier::external_body]
pub(crate) fn parse_address(value: &str) -> (address: Option<Address>)
    ensures
        match address {
            Some(parts) => url_address(value@) == Some(parts@),
            None => url_address(value@) is None,
        },
{
    let url = url::Url::parse(value).ok()?;
    Some(Address {
        text: url.as_str().to_string(),
        scheme: url.scheme().to_string(),
        username: url.username().to_string(),
        has_password: url.password().is_some(),
        host: url.host_str().map(|host| host.to_string()),
        port: url.port(),
        path: url.path().to_string(),
        query: url.query().map(|_| url.query_pairs().into_owned().collect()),
        has_fragment: url.fragment().is_some(),
    })
}

// ---------------------------------------------------------------- origins

/// The addresses whose origin is their scheme, host and port.
pub open spec fn web_scheme(address: AddressView) -> bool {
    address.scheme == "https"@ || address.scheme == "http"@
}

/// The origin of a web address: scheme and host, and the port where it is not the scheme's own.
pub open spec fn web_origin(address: AddressView) -> Seq<char> {
    address.scheme + "://"@ + address.host->0 + match address.port {
        Some(port) => ":"@ + decimal(port as nat),
        None => Seq::empty(),
    }
}

/// `url::Url::origin` and `url::Origin::ascii_serialization`, of a text that parses to an HTTP
/// or HTTPS address: the scheme, the host and, where it is not the default one, the port. Such
/// an address always has a host. No other scheme is asked: `Url::origin` calls itself for every
/// layer of a nested `blob:` address.
#[verifier::external_body]
pub(crate) fn read_origin(value: &str) -> (origin: Option<String>)
    requires
        url_address(value@) is Some,
        web_scheme(url_address(value@)->0),
    ensures
        text_of(origin) == Some(web_origin(url_address(value@)->0)),
{
    url::Url::parse(value).ok().map(|url| url.origin().ascii_serialization())
}

/// The web origin that a text stands for. A `blob:` address has the origin of the address in
/// its path, `layers` of them at most; an address that is not of the web has none.
pub open spec fn inner_origin(text: Seq<char>, layers: nat) -> Option<Seq<char>>
    decreases layers,
{
    match url_address(text) {
        None => None,
        Some(address) => if web_scheme(address) {
            Some(web_origin(address))
        } else if address.scheme == "blob"@ && layers > 0 {
            inner_origin(address.path, (layers - 1) as nat)
        } else {
            None
        },
    }
}

/// A text has no more layers than characters.
pub open spec fn origin_of(text: Seq<char>) -> Option<Seq<char>> {
    inner_origin(text, text.len())
}

/// The web origin that a text stands for, if any. Layers are taken off one by one.
pub fn find_origin(text: &str) -> (origin: Option<String>)
    ensures
        text_of(origin) == origin_of(text@),
{
    let chars = chars_of(text);
    let mut layers: usize = chars.len();
    let mut current = part(&chars, 0, layers);
    assert(current@ =~= text@);
    loop
        invariant
            origin_of(text@) == inner_origin(current@, layers as nat),
        decreases layers,
    {
        let address = match parse_address(&current) {
            Some(address) => address,
            None => {
                return None;
            },
        };
        if same_text(&address.scheme, "https") || same_text(&address.scheme, "http") {
            return read_origin(&current);
        }
        if layers == 0 || !same_text(&address.scheme, "blob") {
            return None;
        }
        layers -= 1;
        current = address.path;
    }
}

// ---------------------------------------------------------------- shared conditions

/// HTTPS on the default port, with no user name and no password.
pub open spec fn plain_https(address: AddressView) -> bool {
    address.scheme == "https"@ && address.username.len() == 0 && !address.has_password && address.port is None
}

pub open spec fn at_host(address: AddressView, host: Seq<char>) -> bool {
    address.host == Some(host)
}

fn is_plain_https(address: &Address) -> (plain: bool)
    ensures
        plain == plain_https(address@),
{
    same_text(&address.scheme, "https") && address.username.as_str().is_empty() && !address.has_password
        && address.port.is_none()
}

fn host_is(address: &Address, host: &str) -> (same: bool)
    ensures
        same == at_host(address@, host@),
{
    holds(&address.host, host)
}

// ---------------------------------------------------------------- provider links and frames

/// The public pages of the providers, which open in the system browser.
pub open spec fn public_provider_page(address: AddressView) -> bool {
    plain_https(address) && (at_host(address, "twitch.tv"@) || at_host(address, "www.twitch.tv"@) || at_host(
        address,
        "m.twitch.tv"@,
    ) || at_host(address, "clips.twitch.tv"@) || at_host(address, "youtube.com"@) || at_host(
        address,
        "www.youtube.com"@,
    ) || at_host(address, "m.youtube.com"@) || at_host(address, "youtu.be"@))
}

/// Whether a parsed address is a public page of a provider.
pub fn is_public_provider_page(address: &Address) -> (public: bool)
    ensures
        public == public_provider_page(address@),
{
    is_plain_https(address) && (host_is(address, "twitch.tv") || host_is(address, "www.twitch.tv") || host_is(
        address,
        "m.twitch.tv",
    ) || host_is(address, "clips.twitch.tv") || host_is(address, "youtube.com") || host_is(address, "www.youtube.com")
        || host_is(address, "m.youtube.com") || host_is(address, "youtu.be"))
}

/// The address that the system browser is asked to open for `destination`, if any.
pub open spec fn spec_provider_link(destination: Seq<char>) -> Option<Seq<char>> {
    match url_address(destination) {
        Some(address) => if public_provider_page(address) {
            Some(address.text)
        } else {
            None
        },
        None => None,
    }
}

/// The text of an optional string.
pub open spec fn text_of(value: Option<String>) -> Option<Seq<char>> {
    match value {
        Some(text) => Some(text@),
        None => None,
    }
}

/// Public provider links leave through the system browser; nothing else does.
pub fn open_provider_link(destination: &str) -> (link: Option<String>)
    ensures
        text_of(link) == spec_provider_link(destination@),
{
    match parse_address(destination) {
        Some(address) => if is_public_provider_page(&address) {
            Some(address.text)
        } else {
            None
        },
        None => None,
    }
}

/// The frames that a provider's own player loads.
pub open spec fn media_frame(address: AddressView) -> bool {
    plain_https(address) && ((at_host(address, "player.twitch.tv"@) && (address.path == "/"@ || address.path
        == "/embed-error.html"@)) || ((at_host(address, "www.youtube.com"@) || at_host(
        address,
        "www.youtube-nocookie.com"@,
    )) && begins(address.path, "/embed/"@)))
}

/// Whether a parsed address is a frame of a provider's own player.
pub fn is_media_frame(address: &Address) -> (media: bool)
    ensures
        media == media_frame(address@),
{
    is_plain_https(address) && ((host_is(address, "player.twitch.tv") && (same_text(&address.path, "/") || same_text(
        &address.path,
        "/embed-error.html",
    ))) || ((host_is(address, "www.youtube.com") || host_is(address, "www.youtube-nocookie.com")) && starts_with(
        &address.path,
        "/embed/",
    )))
}

pub open spec fn provider_frame(value: Seq<char>) -> bool {
    value == "about:blank"@ || (url_address(value) is Some && media_frame(url_address(value)->0))
}

/// The blank page, and the frames of the providers' own players.
pub fn allowed_provider_frame(value: &str) -> (allowed: bool)
    ensures
        allowed == provider_frame(value@),
{
    if same_text(value, "about:blank") {
        return true;
    }
    match parse_address(value) {
        Some(address) => is_media_frame(&address),
        None => false,
    }
}

/// What the media view does with a navigation of one of its frames.
pub struct Navigation {
    pub permitted: bool,
    pub link: Option<String>,
}

/// Whether a frame of the media view may load.
pub open spec fn permits(own_page: bool, frame: bool, has_authorization: bool, user_gesture: bool) -> bool {
    own_page || (!has_authorization && !user_gesture && frame)
}

/// The link that leaves for the system browser.
pub open spec fn link_out(
    own_page: bool,
    link: Option<Seq<char>>,
    has_authorization: bool,
    user_gesture: bool,
) -> Option<Seq<char>> {
    if !own_page && !has_authorization && user_gesture { link } else { None }
}

/// The protected page itself may always load. A provider frame may load by itself, but
/// never with the bearer header. What the user clicks leaves for the system browser, as the
/// public link that it is.
pub fn navigate(own_page: bool, frame: bool, link: Option<String>, has_authorization: bool, user_gesture: bool) -> (decision:
    Navigation)
    ensures
        decision.permitted == permits(own_page, frame, has_authorization, user_gesture),
        text_of(decision.link) == link_out(own_page, text_of(link), has_authorization, user_gesture),
{
    if own_page {
        Navigation { permitted: true, link: None }
    } else if has_authorization {
        Navigation { permitted: false, link: None }
    } else if user_gesture {
        Navigation { permitted: false, link }
    } else {
        Navigation { permitted: frame, link: None }
    }
}

/// What the media view does with a navigation, given the page that it is to show.
pub fn decide_navigation(allowed: &str, destination: &str, has_authorization: bool, user_gesture: bool) -> (decision:
    Navigation)
    ensures
        decision.permitted == permits(
            destination@ == allowed@,
            provider_frame(destination@),
            has_authorization,
            user_gesture,
        ),
        text_of(decision.link) == link_out(
            destination@ == allowed@,
            spec_provider_link(destination@),
            has_authorization,
            user_gesture,
        ),
{
    navigate(
        same_text(destination, allowed),
        allowed_provider_frame(destination),
        open_provider_link(destination),
        has_authorization,
        user_gesture,
    )
}

// ---------------------------------------------------------------- account documents

/// The documents that a provider's account window may show.
pub open spec fn account_document(provider: Provider, address: AddressView) -> bool {
    plain_https(address) && match provider {
        Provider::Youtube => at_host(address, "accounts.youtube.com"@) || at_host(address, "www.youtube.com"@)
            || at_host(address, "www.google.com"@) || (address.host is Some && google_account(address.host->0)),
        Provider::Twitch => at_host(address, "www.twitch.tv"@) || at_host(address, "id.twitch.tv"@) || at_host(
            address,
            "passport.twitch.tv"@,
        ) || at_host(address, "k.twitchcdn.net"@),
    }
}

/// Whether a parsed address is a document that the provider's account window may show.
pub fn is_account_document(provider: &Provider, address: &Address) -> (permitted: bool)
    ensures
        permitted == account_document(*provider, address@),
{
    is_plain_https(address) && match provider {
        Provider::Youtube => host_is(address, "accounts.youtube.com") || host_is(address, "www.youtube.com") || host_is(
            address,
            "www.google.com",
        ) || match &address.host {
            Some(host) => google_account_host(host),
            None => false,
        },
        Provider::Twitch => host_is(address, "www.twitch.tv") || host_is(address, "id.twitch.tv") || host_is(
            address,
            "passport.twitch.tv",
        ) || host_is(address, "k.twitchcdn.net"),
    }
}

/// `path` without the slashes at its end.
pub open spec fn trim_slashes(path: Seq<char>) -> Seq<char>
    decreases path.len(),
{
    if path.len() > 0 && path.last() == '/' {
        trim_slashes(path.drop_last())
    } else {
        path
    }
}

fn without_end_slashes(path: &str) -> (out: String)
    ensures
        out@ == trim_slashes(path@),
{
    let chars = chars_of(path);
    let mut end: usize = chars.len();
    assert(chars@.take(end as int) =~= chars@);
    while end > 0 && chars[end - 1] == '/'
        invariant
            end <= chars@.len(),
            trim_slashes(chars@) == trim_slashes(chars@.take(end as int)),
        decreases end,
    {
        assert(chars@.take(end as int).drop_last() =~= chars@.take(end as int - 1));
        end -= 1;
    }
    let out = part(&chars, 0, end);
    assert(out@ =~= chars@.take(end as int));
    out
}

/// The account pages whose request opens the provider's sign-in window.
pub open spec fn login_page(provider: Provider, address: AddressView) -> bool {
    account_document(provider, address) && match provider {
        Provider::Youtube => at_host(address, "accounts.google.com"@) || at_host(address, "accounts.youtube.com"@) || (
        at_host(address, "www.youtube.com"@) && trim_slashes(address.path) == "/signin"@),
        Provider::Twitch => at_host(address, "id.twitch.tv"@) || at_host(address, "passport.twitch.tv"@) || (at_host(
            address,
            "www.twitch.tv"@,
        ) && trim_slashes(address.path) == "/login"@),
    }
}

/// Whether a parsed address is an account page whose request opens the sign-in window.
pub fn is_login_page(provider: &Provider, address: &Address) -> (login: bool)
    ensures
        login == login_page(*provider, address@),
{
    is_account_document(provider, address) && match provider {
        Provider::Youtube => host_is(address, "accounts.google.com") || host_is(address, "accounts.youtube.com") || (
        host_is(address, "www.youtube.com") && same_text(&without_end_slashes(&address.path), "/signin")),
        Provider::Twitch => host_is(address, "id.twitch.tv") || host_is(address, "passport.twitch.tv") || (host_is(
            address,
            "www.twitch.tv",
        ) && same_text(&without_end_slashes(&address.path), "/login")),
    }
}

/// The provider's home page, to which its sign-in returns.
pub open spec fn home_page(provider: Provider, address: AddressView) -> bool {
    account_document(provider, address) && address.path == "/"@ && match provider {
        Provider::Youtube => at_host(address, "www.youtube.com"@),
        Provider::Twitch => at_host(address, "www.twitch.tv"@),
    }
}

/// Whether a parsed address is the provider's home page.
pub fn is_home_page(provider: &Provider, address: &Address) -> (home: bool)
    ensures
        home == home_page(*provider, address@),
{
    is_account_document(provider, address) && same_text(&address.path, "/") && match provider {
        Provider::Youtube => host_is(address, "www.youtube.com"),
        Provider::Twitch => host_is(address, "www.twitch.tv"),
    }
}

/// The longest address, in bytes, that an account window follows.
pub const MAX_DOCUMENT_BYTES: usize = 8192;

pub open spec fn spec_allowed_document(provider: Provider, destination: Seq<char>) -> bool {
    byte_len(destination) <= 8192 && url_address(destination) is Some && account_document(
        provider,
        url_address(destination)->0,
    )
}

pub open spec fn spec_login_destination(provider: Provider, destination: Seq<char>) -> bool {
    byte_len(destination) <= 8192 && url_address(destination) is Some && login_page(
        provider,
        url_address(destination)->0,
    )
}

pub open spec fn spec_returned(provider: Provider, destination: Seq<char>) -> bool {
    byte_len(destination) <= 8192 && url_address(destination) is Some && home_page(
        provider,
        url_address(destination)->0,
    )
}

/// Account documents never navigate into Brick or to arbitrary destinations.
pub fn allowed_document(provider: &Provider, destination: &str) -> (allowed: bool)
    ensures
        allowed == spec_allowed_document(*provider, destination@),
{
    destination.as_bytes().len() <= MAX_DOCUMENT_BYTES && match parse_address(destination) {
        Some(address) => is_account_document(provider, &address),
        None => false,
    }
}

/// Whether a media view's request for `destination` asks to sign in.
pub fn login_destination(provider: &Provider, destination: &str) -> (login: bool)
    ensures
        login == spec_login_destination(*provider, destination@),
{
    destination.as_bytes().len() <= MAX_DOCUMENT_BYTES && match parse_address(destination) {
        Some(address) => is_login_page(provider, &address),
        None => false,
    }
}

/// Whether the sign-in window has come back to the provider's home page.
pub fn returned_to_provider(provider: &Provider, destination: &str) -> (returned: bool)
    ensures
        returned == spec_returned(*provider, destination@),
{
    destination.as_bytes().len() <= MAX_DOCUMENT_BYTES && match parse_address(destination) {
        Some(address) => is_home_page(provider, &address),
        None => false,
    }
}

/// The caption of an account window: the provider and, where its document is permitted,
/// the origin. No other part of an address is ever shown.
pub open spec fn caption(provider: Provider, origin: Option<Seq<char>>) -> Seq<char> {
    provider.spec_label() + " sign-in — "@ + match origin {
        Some(origin) => origin,
        None => "Connecting…"@,
    }
}

/// The caption for a known origin.
pub fn origin_caption(provider: &Provider, origin: &Option<String>) -> (text: String)
    ensures
        text@ == caption(*provider, text_of(*origin)),
{
    let mut text = String::from_str(provider.label());
    text.append(" sign-in — ");
    match origin {
        Some(origin) => text.append(origin),
        None => text.append("Connecting…"),
    }
    text
}

/// The caption of a provider's account window at `destination`.
pub open spec fn title_text(provider: Provider, destination: Seq<char>) -> Seq<char> {
    caption(
        provider,
        if spec_allowed_document(provider, destination) {
            Some(web_origin(url_address(destination)->0))
        } else {
            None
        },
    )
}

/// The caption of a provider's account window at `destination`.
pub fn title(provider: &Provider, destination: &str) -> (text: String)
    ensures
        text@ == title_text(*provider, destination@),
{
    let mut origin: Option<String> = None;
    if destination.as_bytes().len() <= MAX_DOCUMENT_BYTES {
        if let Some(address) = parse_address(destination) {
            if is_account_document(provider, &address) {
                origin = read_origin(destination);
            }
        }
    }
    origin_caption(provider, &origin)
}

/// The provider that a player address ends in.
pub open spec fn segment_provider(segment: Seq<char>) -> Option<Provider> {
    if segment == "youtube"@ {
        Some(Provider::Youtube)
    } else if segment == "twitch"@ {
        Some(Provider::Twitch)
    } else {
        None
    }
}

pub fn provider(address: &Address) -> (found: Option<Provider>)
    ensures
        found == segment_provider(last_segment(address@.path)),
{
    let segment = final_segment(&address.path);
    if same_text(&segment, "youtube") {
        Some(Provider::Youtube)
    } else if same_text(&segment, "twitch") {
        Some(Provider::Twitch)
    } else {
        None
    }
}

// ---------------------------------------------------------------- laws

/// No document belongs to the account windows of both providers.
pub proof fn accounts_stay_apart(address: AddressView)
    ensures
        !(account_document(Provider::Youtube, address) && account_document(Provider::Twitch, address)),
{
    reveal_strlit("accounts.youtube.com");
    reveal_strlit("www.youtube.com");
    reveal_strlit("www.google.com");
    reveal_strlit("accounts");
    reveal_strlit("www.twitch.tv");
    reveal_strlit("id.twitch.tv");
    reveal_strlit("passport.twitch.tv");
    reveal_strlit("k.twitchcdn.net");
    if account_document(Provider::Youtube, address) && account_document(Provider::Twitch, address) {
        let host = address.host->0;
        if begins(host, "accounts"@) {
            assert(host.take("accounts"@.len() as int)[0] == host[0]);
            assert(host[0] == 'a');
        }
        assert("www.youtube.com"@[4] == 'y' && "www.google.com"@[4] == 'g' && "www.twitch.tv"@[4] == 't');
        assert("accounts.youtube.com"@[0] == 'a');
        assert("id.twitch.tv"@[0] == 'i' && "passport.twitch.tv"@[0] == 'p' && "k.twitchcdn.net"@[0] == 'k');
        assert("www.youtube.com"@[0] == 'w' && "www.google.com"@[0] == 'w' && "www.twitch.tv"@[0] == 'w');
        assert(false);
    }
}

/// What opens a sign-in window, and what ends it, are documents that it may show; and the
/// home page never opens one.
pub proof fn login_stays_inside_the_account(provider: Provider, address: AddressView)
    ensures
        login_page(provider, address) ==> account_document(provider, address),
        home_page(provider, address) ==> account_document(provider, address),
        home_page(provider, address) ==> !login_page(provider, address),
{
    if home_page(provider, address) && login_page(provider, address) {
        reveal_strlit("/");
        reveal_strlit("/signin");
        reveal_strlit("/login");
        reveal_strlit("www.youtube.com");
        reveal_strlit("www.twitch.tv");
        reveal_strlit("accounts.google.com");
        reveal_strlit("accounts.youtube.com");
        reveal_strlit("id.twitch.tv");
        reveal_strlit("passport.twitch.tv");
        assert(address.path.drop_last() =~= Seq::empty());
        assert(trim_slashes(address.path.drop_last()) == address.path.drop_last());
        assert(trim_slashes(address.path).len() == 0);
        assert("/signin"@.len() == 7 && "/login"@.len() == 6);
        assert("www.youtube.com"@.len() == 15 && "www.twitch.tv"@.len() == 13);
        assert("accounts.google.com"@.len() == 19 && "accounts.youtube.com"@.len() == 20);
        assert("id.twitch.tv"@.len() == 12 && "passport.twitch.tv"@.len() == 18);
        assert(false);
    }
}

/// Whatever may be opened or shown is HTTPS on its default port, without a user name and without a
/// password.
pub proof fn only_plain_addresses_are_opened(provider: Provider, address: AddressView)
    requires
        public_provider_page(address) || media_frame(address) || account_document(provider, address) || login_page(
            provider,
            address,
        ) || home_page(provider, address),
    ensures
        address.scheme == "https"@ && address.username.len() == 0 && !address.has_password && address.port is None,
        address.host is Some,
{
}

/// The hosts that the system browser is asked to open, and no others.
pub proof fn links_go_to_public_pages(address: AddressView, host: Seq<char>)
    requires
        address.host == Some(host),
    ensures
        public_provider_page(address) ==> host == "twitch.tv"@ || host == "www.twitch.tv"@ || host == "m.twitch.tv"@ || host
            == "clips.twitch.tv"@ || host == "youtube.com"@ || host == "www.youtube.com"@ || host == "m.youtube.com"@ || host
            == "youtu.be"@,
        address.scheme == "https"@ && address.username.len() == 0 && !address.has_password && address.port is None && (host
            == "twitch.tv"@ || host == "www.twitch.tv"@ || host == "m.twitch.tv"@ || host == "clips.twitch.tv"@ || host
            == "youtube.com"@ || host == "www.youtube.com"@ || host == "m.youtube.com"@ || host == "youtu.be"@)
            ==> public_provider_page(address),
        media_frame(address) ==> host == "player.twitch.tv"@ || host == "www.youtube.com"@ || host
            == "www.youtube-nocookie.com"@,
        media_frame(address) && host == "player.twitch.tv"@ ==> address.path == "/"@ || address.path == "/embed-error.html"@,
        media_frame(address) && host != "player.twitch.tv"@ ==> begins(address.path, "/embed/"@),
{
    reveal_strlit("player.twitch.tv");
    reveal_strlit("www.youtube.com");
    reveal_strlit("www.youtube-nocookie.com");
    assert("player.twitch.tv"@[0] == 'p' && "www.youtube.com"@[0] == 'w' && "www.youtube-nocookie.com"@[0] == 'w');
}

/// The account windows show these hosts and, for YouTube, Google's own accounts hosts; no other.
pub proof fn account_windows_stay_at_home(address: AddressView, host: Seq<char>)
    requires
        address.host == Some(host),
    ensures
        account_document(Provider::Twitch, address) ==> host == "www.twitch.tv"@ || host == "id.twitch.tv"@ || host
            == "passport.twitch.tv"@ || host == "k.twitchcdn.net"@,
        account_document(Provider::Youtube, address) ==> host == "accounts.youtube.com"@ || host == "www.youtube.com"@ || host
            == "www.google.com"@ || begins(host, "accounts.google."@),
        address.scheme == "https"@ && address.username.len() == 0 && !address.has_password && address.port is None ==> {
            &&& host == "accounts.google.com"@ ==> login_page(Provider::Youtube, address)
            &&& host == "accounts.youtube.com"@ ==> login_page(Provider::Youtube, address)
            &&& host == "id.twitch.tv"@ || host == "passport.twitch.tv"@ ==> login_page(Provider::Twitch, address)
            &&& host == "www.google.com"@ ==> account_document(Provider::Youtube, address)
            &&& host == "k.twitchcdn.net"@ ==> account_document(Provider::Twitch, address)
            &&& host == "www.youtube.com"@ ==> account_document(Provider::Youtube, address)
            &&& host == "www.twitch.tv"@ ==> account_document(Provider::Twitch, address)
            &&& host == "www.youtube.com"@ && address.path == "/"@ ==> home_page(Provider::Youtube, address)
            &&& host == "www.twitch.tv"@ && address.path == "/"@ ==> home_page(Provider::Twitch, address)
        },
        home_page(Provider::Youtube, address) ==> host == "www.youtube.com"@ && address.path == "/"@,
        home_page(Provider::Twitch, address) ==> host == "www.twitch.tv"@ && address.path == "/"@,
{
    if google_account(host) {
        crate::provider::accounts_hosts_are_googles_own(host);
    }
    crate::provider::the_main_accounts_host_is_known();
}

/// Of a provider's own site only its sign-in page opens the window, with or without slashes behind it.
pub proof fn sign_in_pages_open_the_window(address: AddressView, slashes: Seq<char>)
    requires
        plain_https(address),
        forall|i: int| 0 <= i < slashes.len() ==> #[trigger] slashes[i] == '/',
    ensures
        at_host(address, "www.twitch.tv"@) && address.path == "/login"@ + slashes ==> login_page(Provider::Twitch, address),
        at_host(address, "www.youtube.com"@) && address.path == "/signin"@ + slashes ==> login_page(
            Provider::Youtube,
            address,
        ),
        at_host(address, "www.twitch.tv"@) && login_page(Provider::Twitch, address) ==> begins(address.path, "/login"@)
            && all_slashes(address.path.skip(6)),
        at_host(address, "www.youtube.com"@) && login_page(Provider::Youtube, address) ==> begins(
            address.path,
            "/signin"@,
        ) && all_slashes(address.path.skip(7)),
{
    reveal_strlit("/login");
    reveal_strlit("/signin");
    reveal_strlit("www.twitch.tv");
    reveal_strlit("www.youtube.com");
    reveal_strlit("id.twitch.tv");
    reveal_strlit("passport.twitch.tv");
    reveal_strlit("accounts.google.com");
    reveal_strlit("accounts.youtube.com");
    assert("id.twitch.tv"@.len() == 12 && "passport.twitch.tv"@.len() == 18 && "www.twitch.tv"@.len() == 13);
    assert("accounts.google.com"@.len() == 19 && "accounts.youtube.com"@.len() == 20 && "www.youtube.com"@.len() == 15);
    assert("/login"@.last() == 'n' && "/signin"@.last() == 'n');
    trimmed_paths_lose_only_slashes("/login"@, slashes);
    trimmed_paths_lose_only_slashes("/signin"@, slashes);
    lemma_trimmed(address.path);
}

pub open spec fn all_slashes(text: Seq<char>) -> bool {
    forall|i: int| 0 <= i < text.len() ==> #[trigger] text[i] == '/'
}

/// Slashes at the end of a path are taken off, and nothing else is.
pub proof fn trimmed_paths_lose_only_slashes(path: Seq<char>, slashes: Seq<char>)
    requires
        all_slashes(slashes),
        path.len() == 0 || path.last() != '/',
    ensures
        trim_slashes(path + slashes) == path,
    decreases slashes.len(),
{
    if slashes.len() > 0 {
        assert((path + slashes).drop_last() =~= path + slashes.drop_last());
        assert((path + slashes).last() == slashes.last());
        assert(slashes.last() == slashes[slashes.len() - 1]);
        assert(all_slashes(slashes.drop_last())) by {
            assert forall|i: int| 0 <= i < slashes.drop_last().len() implies #[trigger] slashes.drop_last()[i] == '/' by {
                assert(slashes.drop_last()[i] == slashes[i]);
            }
        }
        trimmed_paths_lose_only_slashes(path, slashes.drop_last());
    } else {
        assert(path + slashes =~= path);
    }
}

proof fn lemma_trimmed(path: Seq<char>)
    ensures
        begins(path, trim_slashes(path)),
        all_slashes(path.skip(trim_slashes(path).len() as int)),
        trim_slashes(path).len() == 0 || trim_slashes(path).last() != '/',
    decreases path.len(),
{
    if path.len() > 0 && path.last() == '/' {
        let front = path.drop_last();
        let kept = trim_slashes(front);
        lemma_trimmed(front);
        assert(path.take(kept.len() as int) =~= front.take(kept.len() as int));
        assert forall|i: int| 0 <= i < path.skip(kept.len() as int).len() implies #[trigger] path.skip(
            kept.len() as int,
        )[i] == '/' by {
            if i < front.len() - kept.len() {
                assert(path.skip(kept.len() as int)[i] == front.skip(kept.len() as int)[i]);
            }
        }
    } else {
        assert(path.take(path.len() as int) =~= path);
    }
}

/// An account window follows no address of more than 8,192 bytes, and none that does not parse.
pub proof fn long_addresses_are_not_followed(provider: Provider, destination: Seq<char>)
    ensures
        byte_len(destination) > 8192 || url_address(destination) is None ==> !spec_allowed_document(
            provider,
            destination,
        ) && !spec_login_destination(provider, destination) && !spec_returned(provider, destination),
        byte_len(destination) <= 8192 && url_address(destination) is Some ==> {
            &&& spec_allowed_document(provider, destination) == account_document(provider, url_address(destination)->0)
            &&& spec_login_destination(provider, destination) == login_page(provider, url_address(destination)->0)
            &&& spec_returned(provider, destination) == home_page(provider, url_address(destination)->0)
        },
        MAX_DOCUMENT_BYTES == 8192,
{
}

/// The page itself may always load. No other may with the account's credentials, nor by what the user
/// does; a link leaves only by what the user does, and never with the credentials.
pub proof fn credentials_stay_with_the_page(
    own_page: bool,
    frame: bool,
    link: Option<Seq<char>>,
    has_authorization: bool,
    user_gesture: bool,
)
    ensures
        permits(true, frame, has_authorization, user_gesture),
        !own_page && (has_authorization || user_gesture || !frame) ==> !permits(
            own_page,
            frame,
            has_authorization,
            user_gesture,
        ),
        permits(false, true, false, false),
        link_out(own_page, link, has_authorization, user_gesture) is Some ==> !own_page && !has_authorization && user_gesture
            && !permits(own_page, frame, has_authorization, user_gesture),
        link_out(false, link, false, true) == link,
{
}

/// Only the blank page and a player's frame load in the media view, and only a public page leaves it,
/// under the address that it was parsed to.
pub proof fn frames_and_links_are_the_providers(value: Seq<char>)
    ensures
        provider_frame(value) ==> value == "about:blank"@ || url_address(value) is Some,
        value != "about:blank"@ && url_address(value) is Some ==> provider_frame(value) == media_frame(
            url_address(value)->0,
        ),
        provider_frame("about:blank"@),
        spec_provider_link(value) is Some <==> url_address(value) is Some && public_provider_page(url_address(value)->0),
        spec_provider_link(value) is Some ==> spec_provider_link(value) == Some(url_address(value)->0.text),
{
}

/// A player's address ends in the name of its provider, and only the two names are known.
pub proof fn players_are_named_by_provider(provider: Provider, segment: Seq<char>)
    ensures
        segment_provider(provider.spec_key()) == Some(provider),
        segment_provider(segment) is Some ==> segment == segment_provider(segment)->0.spec_key(),
{
    crate::provider::providers_are_told_apart(Provider::Youtube, Provider::Twitch);
}

/// A caption shows the provider and the origin alone: two permitted documents of one origin have the
/// same, and a document that is not permitted has the one without an origin.
pub proof fn captions_show_only_the_origin(provider: Provider, one: Seq<char>, other: Seq<char>)
    ensures
        !spec_allowed_document(provider, one) ==> title_text(provider, one) == caption(provider, None),
        spec_allowed_document(provider, one) && spec_allowed_document(provider, other) && url_address(one)->0.host
            == url_address(other)->0.host ==> title_text(provider, one) == title_text(provider, other),
        spec_allowed_document(provider, one) ==> title_text(provider, one) == provider.spec_label() + " sign-in — "@
            + "https"@ + "://"@ + url_address(one)->0.host->0,
        begins(title_text(provider, one), provider.spec_label()),
{
    let label = provider.spec_label();
    let said = title_text(provider, one);
    assert(said.take(label.len() as int) =~= label);
    if spec_allowed_document(provider, one) {
        let host = url_address(one)->0.host->0;
        assert(said =~= label + " sign-in — "@ + "https"@ + "://"@ + host);
    }
}

/// A web address has its own origin, whatever its path; an address inside `blob:` layers has that of
/// the innermost, and any other address has none.
pub proof fn origins_are_of_the_web(text: Seq<char>, layers: nat)
    ensures
        url_address(text) is None ==> inner_origin(text, layers) is None,
        url_address(text) is Some && (url_address(text)->0.scheme == "https"@ || url_address(text)->0.scheme == "http"@)
            ==> inner_origin(text, layers) == Some(web_origin(url_address(text)->0)) && origin_of(text) == Some(
            web_origin(url_address(text)->0),
        ),
        url_address(text) is Some && url_address(text)->0.scheme == "blob"@ ==> inner_origin(text, layers + 1)
            == inner_origin(url_address(text)->0.path, layers) && inner_origin(text, 0) is None,
        url_address(text) is Some && url_address(text)->0.scheme != "blob"@ && url_address(text)->0.scheme != "https"@
            && url_address(text)->0.scheme != "http"@ ==> inner_origin(text, layers) is None,
{
    reveal_strlit("blob");
    reveal_strlit("https");
    reveal_strlit("http");
    assert("blob"@[0] == 'b' && "https"@[0] == 'h' && "http"@[0] == 'h');
}

/// An origin is the scheme and the host, with a port only where one was given.
pub proof fn origins_hold_scheme_host_and_port(address: AddressView, host: Seq<char>, port: u16)
    ensures
        address.host == Some(host) && address.port is None ==> web_origin(address) == address.scheme + "://"@ + host,
        address.host == Some(host) && address.port == Some(port) ==> web_origin(address) == address.scheme + "://"@ + host
            + ":"@ + decimal(port as nat),
{
    if address.host == Some(host) && address.port is None {
        assert(web_origin(address) =~= address.scheme + "://"@ + host);
    }
    if address.host == Some(host) && address.port == Some(port) {
        assert(web_origin(address) =~= address.scheme + "://"@ + host + ":"@ + decimal(port as nat));
    }
}

} // verus!

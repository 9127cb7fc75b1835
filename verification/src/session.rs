//! A provider's cookies for one account: which count, what is kept, and what is saved.
use crate::address::text_of;
use crate::order::{
    lemma_text_order_total, lemma_text_order_transitive, rank_texts, text_less, Rank,
};
use crate::provider::Provider;
use crate::text::{after, begins, byte_len, chars_of, same_text, starts_with};
use vstd::prelude::*;

verus! {

pub const MAX_COOKIES: usize = 128;

pub const MAX_BYTES: usize = 61_440;

#[derive(Debug)]
pub struct Cookie {
    pub name: String,
    pub value: String,
    pub domain: String,
    pub path: String,
    pub expires: Option<i64>,
    pub secure: bool,
    pub http_only: bool,
    /// 0 is none, 1 lax and 2 strict, on both browsers.
    pub same_site: u8,
}

/// The mathematical content of a `Cookie`.
pub struct CookieView {
    pub name: Seq<char>,
    pub value: Seq<char>,
    pub domain: Seq<char>,
    pub path: Seq<char>,
    pub expires: Option<i64>,
    pub secure: bool,
    pub http_only: bool,
    pub same_site: u8,
}

impl View for Cookie {
    type V = CookieView;

    open spec fn view(&self) -> CookieView {
        CookieView {
            name: self.name@,
            value: self.value@,
            domain: self.domain@,
            path: self.path@,
            expires: self.expires,
            secure: self.secure,
            http_only: self.http_only,
            same_site: self.same_site,
        }
    }
}

impl Clone for Cookie {
    fn clone(&self) -> (copy: Cookie)
        ensures
            copy@ == self@,
    {
        Cookie {
            name: self.name.clone(),
            value: self.value.clone(),
            domain: self.domain.clone(),
            path: self.path.clone(),
            expires: self.expires,
            secure: self.secure,
            http_only: self.http_only,
            same_site: self.same_site,
        }
    }
}

/// The contents of a list of cookies.
pub open spec fn cookie_views(cookies: Seq<Cookie>) -> Seq<CookieView> {
    Seq::new(cookies.len(), |i: int| cookies[i]@)
}

/// The separators that a cookie's name may not hold.
pub open spec fn separator(c: char) -> bool {
    c == '(' || c == ')' || c == '<' || c == '>' || c == '@' || c == ',' || c == ';' || c == ':' || c == '\\' || c
        == '"' || c == '/' || c == '[' || c == ']' || c == '?' || c == '=' || c == '{' || c == '}'
}

pub open spec fn name_char(c: char) -> bool {
    ' ' < c && c < '\u{7f}' && !separator(c)
}

pub open spec fn control(c: char) -> bool {
    c < ' ' || c == '\u{7f}'
}

pub open spec fn no_controls(text: Seq<char>) -> bool {
    forall|i: int| 0 <= i < text.len() ==> !control(#[trigger] text[i])
}

pub open spec fn name_chars(text: Seq<char>) -> bool {
    forall|i: int| 0 <= i < text.len() ==> name_char(#[trigger] text[i])
}

/// A cookie's domain without the dot in front.
pub open spec fn bare_domain(domain: Seq<char>) -> Seq<char> {
    if begins(domain, "."@) { domain.skip("."@.len() as int) } else { domain }
}

/// The provider's own domains, and no others.
pub open spec fn owned_domain(provider: Provider, domain: Seq<char>) -> bool {
    match provider {
        Provider::Youtube => domain == "youtube.com"@ || domain == "www.youtube.com"@,
        Provider::Twitch => domain == "twitch.tv"@ || domain == "www.twitch.tv"@,
    }
}

/// Whether a cookie is the provider's own, well formed, unexpired at `at`, and true to the
/// promises of its prefix.
pub open spec fn cookie_valid(cookie: CookieView, provider: Provider, at: i64) -> bool {
    &&& owned_domain(provider, bare_domain(cookie.domain))
    &&& cookie.name.len() > 0 && byte_len(cookie.name) <= 256 && name_chars(cookie.name)
    &&& byte_len(cookie.value) <= 8192 && no_controls(cookie.value)
    &&& begins(cookie.path, "/"@) && byte_len(cookie.path) <= 1024 && no_controls(cookie.path)
    &&& cookie.same_site <= 2
    &&& cookie.expires is Some ==> cookie.expires->0 > at
    &&& begins(cookie.name, "__Secure-"@) ==> cookie.secure
    &&& begins(cookie.name, "__Host-"@) ==> cookie.secure && cookie.path == "/"@ && !begins(cookie.domain, "."@)
}

fn has_name_chars(text: &str) -> (yes: bool)
    ensures
        yes == name_chars(text@),
{
    let chars = chars_of(text);
    let mut i: usize = 0;
    while i < chars.len()
        invariant
            i <= chars.len(),
            chars@ == text@,
            forall|j: int| 0 <= j < i ==> name_char(#[trigger] text@[j]),
        decreases chars.len() - i,
    {
        let c = chars[i];
        let separates = c == '(' || c == ')' || c == '<' || c == '>' || c == '@' || c == ',' || c == ';' || c == ':' || c
            == '\\' || c == '"' || c == '/' || c == '[' || c == ']' || c == '?' || c == '=' || c == '{' || c == '}';
        if c <= ' ' || c >= '\u{7f}' || separates {
            assert(!name_char(text@[i as int]));
            return false;
        }
        i += 1;
    }
    true
}

fn is_free_of_controls(text: &str) -> (yes: bool)
    ensures
        yes == no_controls(text@),
{
    let chars = chars_of(text);
    let mut i: usize = 0;
    while i < chars.len()
        invariant
            i <= chars.len(),
            chars@ == text@,
            forall|j: int| 0 <= j < i ==> !control(#[trigger] text@[j]),
        decreases chars.len() - i,
    {
        if chars[i] < ' ' || chars[i] == '\u{7f}' {
            assert(control(text@[i as int]));
            return false;
        }
        i += 1;
    }
    true
}

fn is_owned_domain(provider: &Provider, domain: &str) -> (owned: bool)
    ensures
        owned == owned_domain(*provider, domain@),
{
    match provider {
        Provider::Youtube => same_text(domain, "youtube.com") || same_text(domain, "www.youtube.com"),
        Provider::Twitch => same_text(domain, "twitch.tv") || same_text(domain, "www.twitch.tv"),
    }
}

impl Cookie {
    /// Whether the cookie is the provider's own, well formed and unexpired.
    pub fn valid(&self, provider: &Provider, at: i64) -> (valid: bool)
        ensures
            valid == cookie_valid(self@, *provider, at),
    {
        let owned = match after(&self.domain, ".") {
            Some(bare) => is_owned_domain(provider, &bare),
            None => is_owned_domain(provider, &self.domain),
        };
        let unexpired = match self.expires {
            Some(expires) => expires > at,
            None => true,
        };
        owned && !self.name.as_str().is_empty() && self.name.as_str().as_bytes().len() <= 256
            && self.value.as_str().as_bytes().len() <= 8192 && has_name_chars(&self.name) && is_free_of_controls(
            &self.value,
        ) && starts_with(&self.path, "/") && self.path.as_str().as_bytes().len() <= 1024 && is_free_of_controls(
            &self.path,
        ) && self.same_site <= 2 && unexpired && (!starts_with(&self.name, "__Secure-") || self.secure) && (
        !starts_with(&self.name, "__Host-") || (self.secure && same_text(&self.path, "/") && !starts_with(
            &self.domain,
            ".",
        )))
    }
}

/// Whether cookie `i` is a valid, non-empty cookie with this name.
pub open spec fn named_at(cookies: Seq<CookieView>, provider: Provider, name: Seq<char>, at: i64, i: int) -> bool {
    0 <= i < cookies.len() && cookies[i].name == name && cookies[i].value.len() > 0 && cookie_valid(
        cookies[i],
        provider,
        at,
    )
}

pub open spec fn has_cookie(cookies: Seq<CookieView>, provider: Provider, name: Seq<char>, at: i64) -> bool {
    exists|i: int| #[trigger] named_at(cookies, provider, name, at, i)
}

/// Whether the provider's own authentication cookies are there.
pub open spec fn session_present(provider: Provider, cookies: Seq<CookieView>, at: i64) -> bool {
    match provider {
        Provider::Youtube => has_cookie(cookies, provider, "SID"@, at) && has_cookie(cookies, provider, "HSID"@, at),
        Provider::Twitch => has_cookie(cookies, provider, "auth-token"@, at),
    }
}

fn finds_cookie(cookies: &Vec<Cookie>, provider: &Provider, name: &str, at: i64) -> (found: bool)
    ensures
        found == has_cookie(cookie_views(cookies@), *provider, name@, at),
{
    let ghost views = cookie_views(cookies@);
    let mut i: usize = 0;
    while i < cookies.len()
        invariant
            i <= cookies.len(),
            views == cookie_views(cookies@),
            forall|j: int| 0 <= j < i ==> !#[trigger] named_at(views, *provider, name@, at, j),
        decreases cookies.len() - i,
    {
        let cookie = &cookies[i];
        assert(views[i as int] == cookie@);
        if same_text(&cookie.name, name) && !cookie.value.as_str().is_empty() && cookie.valid(provider, at) {
            assert(named_at(views, *provider, name@, at, i as int));
            return true;
        }
        assert(!named_at(views, *provider, name@, at, i as int));
        i += 1;
    }
    false
}

/// Whether the browser holds a session of the provider. It neither proves a subscription
/// nor checks a token that was revoked.
pub fn signed_in(provider: &Provider, cookies: &Vec<Cookie>, at: i64) -> (present: bool)
    ensures
        present == session_present(*provider, cookie_views(cookies@), at),
{
    match provider {
        Provider::Youtube => finds_cookie(cookies, provider, "SID", at) && finds_cookie(cookies, provider, "HSID", at),
        Provider::Twitch => finds_cookie(cookies, provider, "auth-token", at),
    }
}

// ---------------------------------------------------------------- saved sessions

/// What is written to the protected store.
pub struct Saved {
    pub version: u8,
    pub account: String,
    pub provider: String,
    pub cookies: Vec<Cookie>,
}

/// Whether a restart may bring the cookie back: it has an expiry and is valid.
pub open spec fn lasting(cookie: CookieView, provider: Provider, at: i64) -> bool {
    cookie.expires is Some && cookie_valid(cookie, provider, at)
}

/// The cookies that a restart may bring back, in their order.
pub open spec fn lasting_cookies(cookies: Seq<CookieView>, provider: Provider, at: i64) -> Seq<CookieView>
    decreases cookies.len(),
{
    if cookies.len() == 0 {
        Seq::empty()
    } else {
        let rest = lasting_cookies(cookies.drop_last(), provider, at);
        if lasting(cookies.last(), provider, at) { rest.push(cookies.last()) } else { rest }
    }
}

fn keep_lasting(cookies: &Vec<Cookie>, provider: &Provider, at: i64) -> (kept: Vec<Cookie>)
    ensures
        cookie_views(kept@) == lasting_cookies(cookie_views(cookies@), *provider, at),
{
    let ghost views = cookie_views(cookies@);
    let mut kept: Vec<Cookie> = Vec::new();
    let mut i: usize = 0;
    assert(cookie_views(kept@) =~= lasting_cookies(views.take(0), *provider, at));
    while i < cookies.len()
        invariant
            i <= cookies.len(),
            views == cookie_views(cookies@),
            cookie_views(kept@) == lasting_cookies(views.take(i as int), *provider, at),
        decreases cookies.len() - i,
    {
        let ghost shorter = kept@;
        assert(views.take(i as int + 1).drop_last() =~= views.take(i as int));
        assert(views[i as int] == cookies@[i as int]@);
        if cookies[i].expires.is_some() && cookies[i].valid(provider, at) {
            kept.push(cookies[i].clone());
            assert(cookie_views(kept@) =~= cookie_views(shorter).push(views[i as int]));
        }
        i += 1;
    }
    assert(views.take(views.len() as int) =~= views);
    kept
}

/// The session to write for an account, unless it holds too many cookies.
pub fn encode(account: &str, provider: &Provider, cookies: &Vec<Cookie>, at: i64) -> (result: Result<Saved, ()>)
    ensures
        saves(result, account@, *provider, cookie_views(cookies@), at),
{
    let kept = keep_lasting(cookies, provider, at);
    assert(cookie_views(kept@).len() == kept@.len());
    if kept.len() > MAX_COOKIES {
        return Err(());
    }
    Ok(
        Saved {
            version: 1,
            account: String::from_str(account),
            provider: String::from_str(provider.key()),
            cookies: kept,
        },
    )
}

/// Whether the store takes a written session.
pub open spec fn fitting(bytes: Seq<u8>) -> bool {
    bytes.len() <= MAX_BYTES
}

/// The written session, unless it is too long for the store.
pub fn fits_store(bytes: Vec<u8>) -> (result: Result<Vec<u8>, ()>)
    ensures
        result is Ok == fitting(bytes@),
        result is Ok ==> result->Ok_0 == bytes,
{
    if bytes.len() > MAX_BYTES { Err(()) } else { Ok(bytes) }
}

/// Whether a stored session belongs to this account and provider.
pub open spec fn belongs(saved: Saved, account: Seq<char>, provider: Provider) -> bool {
    saved.version == 1 && saved.account@ == account && saved.provider@ == provider.spec_key() && saved.cookies@.len()
        <= MAX_COOKIES
}

/// Whether this is what a stored session of `length` bytes brings back.
pub open spec fn restores(
    result: Result<Vec<Cookie>, ()>,
    account: Seq<char>,
    provider: Provider,
    length: nat,
    saved: Option<Saved>,
    at: i64,
) -> bool {
    &&& result is Ok == (length <= MAX_BYTES && saved is Some && belongs(saved->0, account, provider))
    &&& result is Ok ==> cookie_views(result->Ok_0@) == lasting_cookies(cookie_views(saved->0.cookies@), provider, at)
}

/// The cookies of a stored session of `length` bytes, where it belongs to this account and
/// provider. Expired cookies are dropped, never extended.
pub fn decode(account: &str, provider: &Provider, length: usize, saved: Option<Saved>, at: i64) -> (result: Result<
    Vec<Cookie>,
    (),
>)
    ensures
        restores(result, account@, *provider, length as nat, saved, at),
{
    if length > MAX_BYTES {
        return Err(());
    }
    match saved {
        None => Err(()),
        Some(saved) => {
            if saved.version != 1 || !same_text(&saved.account, account) || !same_text(&saved.provider, provider.key())
                || saved.cookies.len() > MAX_COOKIES {
                return Err(());
            }
            Ok(keep_lasting(&saved.cookies, provider, at))
        },
    }
}

// ---------------------------------------------------------------- observed cookies

/// What tells one cookie from another.
pub open spec fn same_key(a: CookieView, b: CookieView) -> bool {
    a.domain == b.domain && a.path == b.path && a.name == b.name
}

/// The order of cookies: by domain, then path, then name.
pub open spec fn key_less(a: CookieView, b: CookieView) -> bool {
    text_less(a.domain, b.domain) || (a.domain == b.domain && (text_less(a.path, b.path) || (a.path == b.path
        && text_less(a.name, b.name))))
}

proof fn lemma_key_total(a: CookieView, b: CookieView)
    ensures
        key_less(a, b) || same_key(a, b) || key_less(b, a),
        !(key_less(a, b) && same_key(a, b)),
        !(key_less(a, b) && key_less(b, a)),
{
    lemma_text_order_total(a.domain, b.domain);
    lemma_text_order_total(a.path, b.path);
    lemma_text_order_total(a.name, b.name);
    lemma_text_order_total(a.domain, a.domain);
    lemma_text_order_total(a.path, a.path);
    lemma_text_order_total(a.name, a.name);
}

proof fn lemma_key_transitive(a: CookieView, b: CookieView, c: CookieView)
    requires
        key_less(a, b),
        key_less(b, c),
    ensures
        key_less(a, c),
{
    if text_less(a.domain, b.domain) && text_less(b.domain, c.domain) {
        lemma_text_order_transitive(a.domain, b.domain, c.domain);
    } else if a.domain == b.domain && b.domain == c.domain {
        if text_less(a.path, b.path) && text_less(b.path, c.path) {
            lemma_text_order_transitive(a.path, b.path, c.path);
        } else if a.path == b.path && b.path == c.path {
            lemma_text_order_transitive(a.name, b.name, c.name);
        }
    }
}

fn rank_cookies(a: &Cookie, b: &Cookie) -> (rank: Rank)
    ensures
        rank == if key_less(a@, b@) {
            Rank::Before
        } else if same_key(a@, b@) {
            Rank::Same
        } else {
            Rank::Behind
        },
{
    proof {
        lemma_text_order_total(a@.domain, b@.domain);
        lemma_text_order_total(a@.path, b@.path);
        lemma_text_order_total(a@.name, b@.name);
    }
    match rank_texts(&a.domain, &b.domain) {
        Rank::Same => match rank_texts(&a.path, &b.path) {
            Rank::Same => rank_texts(&a.name, &b.name),
            rank => rank,
        },
        rank => rank,
    }
}

/// Strictly in order, so that no two are the same cookie.
pub open spec fn strictly_ordered(cookies: Seq<CookieView>) -> bool {
    forall|i: int, j: int| 0 <= i < j < cookies.len() ==> key_less(#[trigger] cookies[i], #[trigger] cookies[j])
}

/// Whether `seen[i]` is valid and no valid cookie before it is the same one.
pub open spec fn first_valid(seen: Seq<CookieView>, provider: Provider, at: i64, i: int) -> bool {
    &&& 0 <= i < seen.len()
    &&& cookie_valid(seen[i], provider, at)
    &&& forall|j: int| 0 <= j < i && cookie_valid(#[trigger] seen[j], provider, at) ==> !same_key(seen[j], seen[i])
}

/// Whether `cookie` is the first valid one of its kind in `seen`.
pub open spec fn comes_from(cookie: CookieView, seen: Seq<CookieView>, provider: Provider, at: i64) -> bool {
    exists|i: int| #[trigger] first_valid(seen, provider, at, i) && seen[i] == cookie
}

/// The valid cookies of `seen`, in order, the first of each: this fixes `kept`.
pub open spec fn settled(kept: Seq<CookieView>, seen: Seq<CookieView>, provider: Provider, at: i64) -> bool {
    &&& strictly_ordered(kept)
    &&& forall|k: int| 0 <= k < kept.len() ==> comes_from(#[trigger] kept[k], seen, provider, at)
    &&& forall|i: int| #[trigger] first_valid(seen, provider, at, i) ==> kept.contains(seen[i])
}

/// What is kept of the browser's report is fixed by the report.
pub proof fn settled_is_unique(
    a: Seq<CookieView>,
    b: Seq<CookieView>,
    seen: Seq<CookieView>,
    provider: Provider,
    at: i64,
)
    requires
        settled(a, seen, provider, at),
        settled(b, seen, provider, at),
    ensures
        a == b,
{
    assert forall|x: CookieView| a.contains(x) implies b.contains(x) by {
        let k = choose|k: int| 0 <= k < a.len() && a[k] == x;
        assert(comes_from(a[k], seen, provider, at));
    }
    assert forall|x: CookieView| b.contains(x) implies a.contains(x) by {
        let k = choose|k: int| 0 <= k < b.len() && b[k] == x;
        assert(comes_from(b[k], seen, provider, at));
    }
    lemma_ordered_unique(a, b);
}

proof fn lemma_ordered_unique(a: Seq<CookieView>, b: Seq<CookieView>)
    requires
        strictly_ordered(a),
        strictly_ordered(b),
        forall|x: CookieView| #![auto] a.contains(x) ==> b.contains(x),
        forall|x: CookieView| #![auto] b.contains(x) ==> a.contains(x),
    ensures
        a == b,
    decreases a.len(),
{
    if a.len() == 0 {
        if b.len() > 0 {
            assert(b.contains(b[0]));
        }
        assert(a =~= b);
    } else {
        assert(a.contains(a.last()));
        let k = choose|k: int| 0 <= k < b.len() && b[k] == a.last();
        assert(b.contains(b.last()));
        let m = choose|m: int| 0 <= m < a.len() && a[m] == b.last();
        lemma_key_total(a.last(), b.last());
        lemma_key_total(b.last(), a.last());
        lemma_key_total(a.last(), a.last());
        if k < b.len() - 1 {
            assert(key_less(b[k], b[b.len() - 1]));
            if m < a.len() - 1 {
                assert(key_less(a[m], a[a.len() - 1]));
            }
            assert(false);
        }
        assert(a.last() == b.last());
        let front = a.drop_last();
        let other = b.drop_last();
        assert forall|x: CookieView| #![auto] front.contains(x) implies other.contains(x) by {
            let i = choose|i: int| 0 <= i < front.len() && front[i] == x;
            assert(a.contains(a[i]));
            let j = choose|j: int| 0 <= j < b.len() && b[j] == x;
            assert(key_less(a[i], a[a.len() - 1]));
            lemma_key_total(x, x);
            assert(other[j] == x);
        }
        assert forall|x: CookieView| #![auto] other.contains(x) implies front.contains(x) by {
            let i = choose|i: int| 0 <= i < other.len() && other[i] == x;
            assert(b.contains(b[i]));
            let j = choose|j: int| 0 <= j < a.len() && a[j] == x;
            assert(key_less(b[i], b[b.len() - 1]));
            lemma_key_total(x, x);
            assert(front[j] == x);
        }
        lemma_ordered_unique(front, other);
        assert(a =~= front.push(a.last()));
        assert(b =~= other.push(b.last()));
    }
}

/// The valid cookies among those that the browser reported, in order and without repeats.
pub fn settle(seen: &Vec<Cookie>, provider: &Provider, at: i64) -> (kept: Vec<Cookie>)
    ensures
        settled(cookie_views(kept@), cookie_views(seen@), *provider, at),
{
    let ghost views = cookie_views(seen@);
    let mut kept: Vec<Cookie> = Vec::new();
    let mut n: usize = 0;
    while n < seen.len()
        invariant
            n <= seen.len(),
            views == cookie_views(seen@),
            settled(cookie_views(kept@), views.take(n as int), *provider, at),
        decreases seen.len() - n,
    {
        let ghost earlier = views.take(n as int);
        let ghost longer = views.take(n as int + 1);
        let cookie = &seen[n];
        assert(longer[n as int] == cookie@);
        assert forall|i: int| 0 <= i < n implies longer[i] == earlier[i] by {}
        assert forall|i: int| 0 <= i < n implies (first_valid(longer, *provider, at, i) == first_valid(
            earlier,
            *provider,
            at,
            i,
        )) by {
            assert forall|j: int| 0 <= j < i implies longer[j] == earlier[j] by {}
        }
        let ghost old_kept = cookie_views(kept@);
        if !cookie.valid(provider, at) {
            assert(settled(old_kept, longer, *provider, at)) by {
                lemma_settled_same(old_kept, earlier, longer, *provider, at);
            }
        } else {
            let mut p: usize = 0;
            while p < kept.len() && rank_cookies(&kept[p], cookie) == Rank::Before
                invariant
                    p <= kept.len(),
                    old_kept == cookie_views(kept@),
                    forall|k: int| 0 <= k < p ==> key_less(#[trigger] old_kept[k], cookie@),
                decreases kept.len() - p,
            {
                assert(old_kept[p as int] == kept@[p as int]@);
                p += 1;
            }
            proof {
                if p < kept@.len() {
                    assert(old_kept[p as int] == kept@[p as int]@);
                    lemma_key_total(old_kept[p as int], cookie@);
                }
            }
            if p < kept.len() && rank_cookies(&kept[p], cookie) == Rank::Same {
                proof {
                    assert(comes_from(old_kept[p as int], earlier, *provider, at));
                    let i0 = choose|i: int| #[trigger] first_valid(earlier, *provider, at, i) && earlier[i]
                        == old_kept[p as int];
                    assert(same_key(longer[i0], longer[n as int]));
                    assert(!first_valid(longer, *provider, at, n as int));
                    lemma_settled_same(old_kept, earlier, longer, *provider, at);
                }
            } else {
                let copy = cookie.clone();
                kept.insert(p, copy);
                proof {
                    let new_kept = cookie_views(kept@);
                    assert(new_kept =~= old_kept.insert(p as int, cookie@));
                    lemma_settled_more(old_kept, new_kept, earlier, longer, p as int, *provider, at);
                }
            }
        }
        n += 1;
    }
    assert(views.take(views.len() as int) =~= views);
    kept
}

/// One more cookie that is not the first of its kind changes nothing.
proof fn lemma_settled_same(
    kept: Seq<CookieView>,
    earlier: Seq<CookieView>,
    longer: Seq<CookieView>,
    provider: Provider,
    at: i64,
)
    requires
        settled(kept, earlier, provider, at),
        longer.len() == earlier.len() + 1,
        longer.take(earlier.len() as int) =~= earlier,
        !first_valid(longer, provider, at, earlier.len() as int),
    ensures
        settled(kept, longer, provider, at),
{
    lemma_first_valid_prefix(earlier, longer, provider, at);
    assert forall|k: int| 0 <= k < kept.len() implies comes_from(#[trigger] kept[k], longer, provider, at) by {
        assert(comes_from(kept[k], earlier, provider, at));
        let i = choose|i: int| #[trigger] first_valid(earlier, provider, at, i) && earlier[i] == kept[k];
        assert(first_valid(longer, provider, at, i) && longer[i] == earlier[i]);
    }
    assert forall|i: int| #[trigger] first_valid(longer, provider, at, i) implies kept.contains(longer[i]) by {
        assert(i < earlier.len());
        assert(first_valid(earlier, provider, at, i));
        assert(earlier[i] == longer[i]);
    }
}

proof fn lemma_first_valid_prefix(earlier: Seq<CookieView>, longer: Seq<CookieView>, provider: Provider, at: i64)
    requires
        longer.len() == earlier.len() + 1,
        longer.take(earlier.len() as int) =~= earlier,
    ensures
        forall|i: int| 0 <= i < earlier.len() ==> longer[i] == #[trigger] earlier[i],
        forall|i: int|
            0 <= i < earlier.len() ==> (#[trigger] first_valid(longer, provider, at, i) == first_valid(
                earlier,
                provider,
                at,
                i,
            )),
{
    assert forall|i: int| 0 <= i < earlier.len() implies longer[i] == #[trigger] earlier[i] by {
        assert(longer.take(earlier.len() as int)[i] == longer[i]);
    }
    assert forall|i: int| 0 <= i < earlier.len() implies (#[trigger] first_valid(longer, provider, at, i)
        == first_valid(earlier, provider, at, i)) by {
        assert forall|j: int| 0 <= j < i implies longer[j] == earlier[j] by {}
        if first_valid(longer, provider, at, i) {
            assert forall|j: int| 0 <= j < i && cookie_valid(#[trigger] earlier[j], provider, at) implies !same_key(
                earlier[j],
                earlier[i],
            ) by {
                assert(longer[j] == earlier[j]);
            }
        }
        if first_valid(earlier, provider, at, i) {
            assert forall|j: int| 0 <= j < i && cookie_valid(#[trigger] longer[j], provider, at) implies !same_key(
                longer[j],
                longer[i],
            ) by {
                assert(longer[j] == earlier[j]);
            }
        }
    }
}

/// A valid cookie that is the first of its kind goes to its place in the order.
proof fn lemma_settled_more(
    kept: Seq<CookieView>,
    more: Seq<CookieView>,
    earlier: Seq<CookieView>,
    longer: Seq<CookieView>,
    p: int,
    provider: Provider,
    at: i64,
)
    requires
        settled(kept, earlier, provider, at),
        longer.len() == earlier.len() + 1,
        longer.take(earlier.len() as int) =~= earlier,
        cookie_valid(longer.last(), provider, at),
        0 <= p <= kept.len(),
        more == kept.insert(p, longer.last()),
        forall|k: int| 0 <= k < p ==> key_less(#[trigger] kept[k], longer.last()),
        p < kept.len() ==> key_less(longer.last(), kept[p]),
    ensures
        settled(more, longer, provider, at),
{
    let cookie = longer.last();
    lemma_first_valid_prefix(earlier, longer, provider, at);
    assert forall|k: int| p <= k < kept.len() implies key_less(cookie, #[trigger] kept[k]) by {
        if k > p {
            lemma_key_transitive(cookie, kept[p], kept[k]);
        }
    }
    assert forall|i: int, j: int| 0 <= i < j < more.len() implies key_less(
        #[trigger] more[i],
        #[trigger] more[j],
    ) by {
        if i < p {
            assert(more[i] == kept[i]);
        } else if i > p {
            assert(more[i] == kept[i - 1]);
        }
        if j < p {
            assert(more[j] == kept[j]);
        } else if j > p {
            assert(more[j] == kept[j - 1]);
        }
    }
    // Nothing seen before is the same cookie: what is first of its kind is kept, and every
    // kept one is strictly before or behind.
    assert(first_valid(longer, provider, at, longer.len() - 1)) by {
        assert forall|j: int| 0 <= j < longer.len() - 1 && cookie_valid(#[trigger] longer[j], provider, at) implies
            !same_key(longer[j], cookie) by {
            assert(longer[j] == earlier[j]);
            let f = lemma_first_of_kind(earlier, provider, at, j);
            assert(kept.contains(earlier[f]));
            let k = choose|k: int| 0 <= k < kept.len() && kept[k] == earlier[f];
            lemma_key_total(kept[k], cookie);
            lemma_key_total(cookie, kept[k]);
            if k < p {
                assert(key_less(kept[k], cookie));
            } else {
                assert(key_less(cookie, kept[k]));
            }
            assert(!same_key(kept[k], cookie));
        }
    }
    assert forall|k: int| 0 <= k < more.len() implies comes_from(#[trigger] more[k], longer, provider, at) by {
        if k == p {
            assert(first_valid(longer, provider, at, longer.len() - 1) && longer[longer.len() - 1] == more[k]);
        } else {
            let old_k = if k < p { k } else { k - 1 };
            assert(more[k] == kept[old_k]);
            assert(comes_from(kept[old_k], earlier, provider, at));
            let i = choose|i: int| #[trigger] first_valid(earlier, provider, at, i) && earlier[i] == kept[old_k];
            assert(first_valid(longer, provider, at, i) && longer[i] == earlier[i]);
        }
    }
    assert forall|i: int| #[trigger] first_valid(longer, provider, at, i) implies more.contains(longer[i]) by {
        if i == longer.len() - 1 {
            assert(more[p] == longer[i]);
        } else {
            assert(first_valid(earlier, provider, at, i));
            assert(earlier[i] == longer[i]);
            let k = choose|k: int| 0 <= k < kept.len() && kept[k] == earlier[i];
            if k < p {
                assert(more[k] == kept[k]);
            } else {
                assert(more[k + 1] == kept[k]);
            }
        }
    }
}

/// Every valid cookie has a first one that is the same.
proof fn lemma_first_of_kind(seen: Seq<CookieView>, provider: Provider, at: i64, j: int) -> (f: int)
    requires
        0 <= j < seen.len(),
        cookie_valid(seen[j], provider, at),
    ensures
        0 <= f <= j,
        first_valid(seen, provider, at, f),
        same_key(seen[f], seen[j]),
    decreases j,
{
    if first_valid(seen, provider, at, j) {
        j
    } else {
        let e = choose|e: int| 0 <= e < j && cookie_valid(#[trigger] seen[e], provider, at) && same_key(seen[e], seen[j]);
        lemma_first_of_kind(seen, provider, at, e)
    }
}

// ---------------------------------------------------------------- the jar

/// A change to the protected store.
pub enum Operation {
    Save(Vec<u8>),
    Clear,
}

/// A change with the sign-out generation it belongs to.
pub struct Job {
    pub generation: u64,
    pub operation: Operation,
}

impl Job {
    /// Whether the job is still to be done in a generation.
    pub open spec fn runs_in(self, generation: u64) -> bool {
        self.generation == generation
    }
}

pub enum ResultData {
    Loaded(Result<Vec<Cookie>, ()>),
    Saved(Result<(), ()>),
    Cleared(Result<(), ()>),
}

/// What the store's worker reports back.
pub struct Reply {
    pub generation: u64,
    pub data: ResultData,
}

/// One provider's viewing session. Its worker performs one change at a time; a sign-out
/// starts a new generation, behind which earlier saves and replies no longer count.
pub struct Jar {
    pub provider: Provider,
    pub account: Option<String>,
    pub cookies: Vec<Cookie>,
    pub ready: bool,
    pub clearing: bool,
    pub error: Option<String>,
    pub generation: u64,
    /// Whether a worker keeps the session in the protected store.
    pub stored: bool,
    pub pending: Option<Operation>,
    pub last_saved: Vec<u8>,
}

/// What became of the cookies that the browser reported.
pub enum Observed {
    /// The session is not ready, or is being cleared.
    Ignored,
    /// They are more than a session holds.
    TooMany,
    /// They are kept for this run, and nothing is to be saved.
    Kept,
    /// They are kept, and these are to be saved for the account.
    Save(Result<Saved, ()>),
}

/// The message for a store that cannot be used.
pub open spec fn storage_message(provider: Provider) -> Seq<char> {
    "Couldn't restore or save your "@ + provider.spec_label()
        + " viewing login. Unlock your device's protected credential storage and try again."@
}

pub open spec fn next_generation(n: u64) -> u64 {
    if n == u64::MAX { 0 } else { (n + 1) as u64 }
}

impl Jar {
    /// An empty session that no store keeps.
    pub open spec fn starts_in_memory(self, provider: Provider) -> bool {
        &&& self.provider == provider
        &&& self.account is None
        &&& self.cookies@.len() == 0
        &&& self.ready && !self.clearing && !self.stored
        &&& self.error is None
        &&& self.generation == 0
        &&& self.pending is None
        &&& self.last_saved@.len() == 0
    }

    /// An account's session before its store has answered.
    pub open spec fn starts_for(self, provider: Provider, account: Seq<char>, store_opened: bool) -> bool {
        &&& self.provider == provider
        &&& text_of(self.account) == Some(account)
        &&& self.cookies@.len() == 0
        &&& self.stored == store_opened
        &&& self.ready == !store_opened
        &&& !self.clearing
        &&& text_of(self.error) == if store_opened { None } else { Some(storage_message(provider)) }
        &&& self.generation == 0
        &&& self.pending is None
        &&& self.last_saved@.len() == 0
    }

    /// What signing out leaves of the session `before`.
    pub open spec fn cleared_from(self, before: Jar) -> bool {
        &&& self.generation == next_generation(before.generation)
        &&& if before.stored {
            self == (Jar {
                generation: self.generation,
                ready: false,
                clearing: true,
                pending: Some(Operation::Clear),
                ..before
            })
        } else {
            &&& self.cookies@.len() == 0
            &&& self == (Jar { generation: self.generation, cookies: self.cookies, ..before })
        }
    }

    /// A session that lives in memory alone.
    pub fn memory(provider: Provider) -> (jar: Jar)
        ensures
            jar.starts_in_memory(provider),
    {
        Jar {
            provider,
            account: None,
            cookies: Vec::new(),
            ready: true,
            clearing: false,
            error: None,
            generation: 0,
            stored: false,
            pending: None,
            last_saved: Vec::new(),
        }
    }

    /// An account's session. Where the protected store cannot be opened it says so, and
    /// works in memory; otherwise it waits for what the store has.
    pub fn new(provider: Provider, account: &str, store_opened: bool) -> (jar: Jar)
        ensures
            jar.starts_for(provider, account@, store_opened),
    {
        let mut jar = Jar::memory(provider);
        jar.account = Some(String::from_str(account));
        if store_opened {
            jar.stored = true;
            jar.ready = false;
        } else {
            jar.storage_error();
        }
        jar
    }

    /// Notes that the protected store cannot be used.
    pub fn storage_error(&mut self)
        ensures
            text_of(final(self).error) == Some(storage_message(old(self).provider)),
            *final(self) == (Jar { error: final(self).error, ..*old(self) }),
    {
        self.error = Some(
            String::from_str("Couldn't restore or save your ").concat(self.provider.label()).concat(
                " viewing login. Unlock your device's protected credential storage and try again.",
            ),
        );
    }

    /// The error after a reply: the message where the reply failed, the earlier one otherwise.
    pub open spec fn error_after(self, failed: bool) -> Option<Seq<char>> {
        if failed { Some(storage_message(self.provider)) } else { text_of(self.error) }
    }

    /// Whether this is `before` with one reply of the worker taken. One of an earlier
    /// generation changes nothing.
    pub open spec fn replied_from(self, before: Jar, reply: Reply) -> bool {
        if reply.generation != before.generation {
            self == before
        } else {
            match reply.data {
                ResultData::Loaded(result) => {
                    &&& self == (Jar {
                        ready: true,
                        cookies: if result is Ok { result->Ok_0 } else { before.cookies },
                        error: self.error,
                        ..before
                    })
                    &&& text_of(self.error) == before.error_after(result is Err)
                },
                ResultData::Saved(result) => {
                    &&& self == (Jar {
                        last_saved: self.last_saved,
                        error: self.error,
                        ..before
                    })
                    &&& text_of(self.error) == before.error_after(result is Err)
                    &&& result is Ok ==> self.last_saved == before.last_saved
                    &&& result is Err ==> self.last_saved@.len() == 0
                },
                ResultData::Cleared(result) => {
                    &&& self == (Jar {
                        ready: true,
                        clearing: false,
                        cookies: self.cookies,
                        last_saved: self.last_saved,
                        error: self.error,
                        ..before
                    })
                    &&& text_of(self.error) == before.error_after(result is Err)
                    &&& result is Ok ==> self.cookies@.len() == 0 && self.last_saved@.len() == 0
                    &&& result is Err ==> self.cookies == before.cookies && self.last_saved
                        == before.last_saved
                },
            }
        }
    }

    /// Takes one reply of the worker.
    pub fn accept(&mut self, reply: Reply)
        ensures
            final(self).replied_from(*old(self), reply),
    {
        if reply.generation != self.generation {
            return;
        }
        match reply.data {
            ResultData::Loaded(result) => {
                self.ready = true;
                match result {
                    Ok(cookies) => {
                        self.cookies = cookies;
                    },
                    Err(_) => {
                        self.storage_error();
                    },
                }
            },
            ResultData::Saved(result) => {
                if result.is_err() {
                    self.last_saved = Vec::new();
                    self.storage_error();
                }
            },
            ResultData::Cleared(result) => {
                self.clearing = false;
                self.ready = true;
                if result.is_ok() {
                    self.cookies = Vec::new();
                    self.last_saved = Vec::new();
                } else {
                    self.storage_error();
                }
            },
        }
    }

    /// The change that the worker is given next.
    pub open spec fn next_job(self) -> Option<Job> {
        if self.stored && self.pending is Some {
            Some(Job { generation: self.generation, operation: self.pending->0 })
        } else {
            None
        }
    }

    /// Hands the pending change to the worker. Without a worker it is dropped.
    pub fn enqueue(&mut self) -> (job: Option<Job>)
        ensures
            *final(self) == (Jar { pending: None, ..*old(self) }),
            job == old(self).next_job(),
    {
        match self.pending.take() {
            Some(operation) => if self.stored {
                Some(Job { generation: self.generation, operation })
            } else {
                None
            },
            None => None,
        }
    }

    /// The worker is busy: the change stays pending.
    pub fn worker_full(&mut self, job: Job)
        ensures
            *final(self) == (Jar { pending: Some(job.operation), ..*old(self) }),
    {
        self.pending = Some(job.operation);
    }

    /// Whether the worker carries out a job, given the generation at that moment.
    pub fn accepts_job(job: &Job, generation: u64) -> (accepts: bool)
        ensures
            accepts == job.runs_in(generation),
    {
        job.generation == generation
    }

    pub fn ready(&self) -> (ready: bool)
        ensures
            ready == self.ready,
    {
        self.ready
    }

    pub fn signed_in(&self, at: i64) -> (present: bool)
        ensures
            present == session_present(self.provider, cookie_views(self.cookies@), at),
    {
        signed_in(&self.provider, &self.cookies, at)
    }

    /// Hands out the error, once.
    pub fn error(&mut self) -> (message: Option<String>)
        ensures
            message == old(self).error,
            *final(self) == (Jar { error: None, ..*old(self) }),
    {
        self.error.take()
    }

    /// The cookies to put into a new browser.
    pub fn cookies(&self) -> (cookies: Vec<Cookie>)
        ensures
            cookie_views(cookies@) == cookie_views(self.cookies@),
    {
        let mut cookies: Vec<Cookie> = Vec::new();
        let mut i: usize = 0;
        while i < self.cookies.len()
            invariant
                i <= self.cookies.len(),
                cookies@.len() == i,
                forall|j: int| 0 <= j < i ==> (#[trigger] cookies@[j])@ == self.cookies@[j]@,
            decreases self.cookies.len() - i,
        {
            cookies.push(self.cookies[i].clone());
            i += 1;
        }
        assert(cookie_views(cookies@) =~= cookie_views(self.cookies@));
        cookies
    }

    /// Whether this is `before` after the browser's report, and `observed` what comes of it.
    pub open spec fn observed_from(self, before: Jar, seen: Seq<Cookie>, at: i64, observed: Observed) -> bool {
        let views = cookie_views(seen);
        let had = session_present(before.provider, cookie_views(before.cookies@), at);
        if !before.ready || before.clearing {
            observed is Ignored && self == before
        } else if observed is TooMany {
            &&& self == (Jar { error: self.error, ..before })
            &&& text_of(self.error) == Some(storage_message(before.provider))
            &&& exists|kept: Seq<CookieView>| #[trigger]
                settled(kept, views, before.provider, at) && kept.len() > MAX_COOKIES
        } else {
            let kept = cookie_views(self.cookies@);
            let has = session_present(before.provider, kept, at);
            &&& settled(kept, views, before.provider, at) && kept.len() <= MAX_COOKIES
            &&& self == (Jar { cookies: self.cookies, ..before })
            &&& observed is Save == (before.account is Some && (has || had || before.last_saved@.len() > 0))
            &&& !(observed is Ignored)
            &&& observed is Save ==> saves(
                observed->Save_0,
                before.account->0@,
                before.provider,
                if has { kept } else { Seq::empty() },
                at,
            )
        }
    }

    /// Takes the cookies that the browser reports. A session that is not ready, or is being
    /// cleared, hears nothing. An account's session is saved as long as there is one, and
    /// once more, empty, when it has ended.
    pub fn observe(&mut self, seen: &Vec<Cookie>, at: i64) -> (observed: Observed)
        ensures
            final(self).observed_from(*old(self), seen@, at, observed),
    {
        if !self.ready || self.clearing {
            return Observed::Ignored;
        }
        let kept = settle(seen, &self.provider, at);
        assert(cookie_views(kept@).len() == kept@.len());
        if kept.len() > MAX_COOKIES {
            self.storage_error();
            return Observed::TooMany;
        }
        let had = self.signed_in(at);
        let has = signed_in(&self.provider, &kept, at);
        self.cookies = kept;
        match &self.account {
            None => Observed::Kept,
            Some(account) => {
                if has || had || self.last_saved.len() > 0 {
                    if has {
                        Observed::Save(encode(account, &self.provider, &self.cookies, at))
                    } else {
                        let none: Vec<Cookie> = Vec::new();
                        assert(cookie_views(none@) =~= Seq::empty());
                        Observed::Save(encode(account, &self.provider, &none, at))
                    }
                } else {
                    Observed::Kept
                }
            },
        }
    }

    /// Whether this is `before` with the written form of a session taken.
    pub open spec fn saved_from(self, before: Jar, written: Result<Vec<u8>, ()>) -> bool {
        match written {
            Err(_) => {
                &&& self == (Jar { error: self.error, ..before })
                &&& text_of(self.error) == Some(storage_message(before.provider))
            },
            Ok(bytes) => if bytes@ == before.last_saved@ {
                self == before
            } else {
                &&& self.pending is Some && self.pending->0 is Save
                &&& self.pending->0->Save_0@ == bytes@
                &&& self.last_saved@ == bytes@
                &&& self == (Jar { pending: self.pending, last_saved: self.last_saved, ..before })
            },
        }
    }

    /// Takes the written form of a session to save. The same bytes are not saved twice.
    pub fn save(&mut self, written: Result<Vec<u8>, ()>)
        ensures
            final(self).saved_from(*old(self), written),
    {
        match written {
            Err(_) => {
                self.storage_error();
            },
            Ok(bytes) => {
                if !same_bytes(&bytes, &self.last_saved) {
                    self.last_saved = copy_bytes(&bytes);
                    self.pending = Some(Operation::Save(bytes));
                }
            },
        }
    }

    /// Signs out: a new generation begins, and the store is cleared.
    pub fn clear(&mut self)
        ensures
            final(self).cleared_from(*old(self)),
    {
        self.generation = if self.generation == u64::MAX { 0 } else { self.generation + 1 };
        if self.stored {
            self.ready = false;
            self.clearing = true;
            self.pending = Some(Operation::Clear);
        } else {
            self.cookies = Vec::new();
        }
    }
}

/// Whether this is the session to write for these cookies.
pub open spec fn saves(
    result: Result<Saved, ()>,
    account: Seq<char>,
    provider: Provider,
    cookies: Seq<CookieView>,
    at: i64,
) -> bool {
    let kept = lasting_cookies(cookies, provider, at);
    &&& result is Ok == (kept.len() <= MAX_COOKIES)
    &&& result is Ok ==> {
        &&& result->Ok_0.version == 1
        &&& result->Ok_0.account@ == account
        &&& result->Ok_0.provider@ == provider.spec_key()
        &&& cookie_views(result->Ok_0.cookies@) == kept
    }
}

fn same_bytes(a: &Vec<u8>, b: &Vec<u8>) -> (same: bool)
    ensures
        same == (a@ == b@),
{
    if a.len() != b.len() {
        return false;
    }
    let mut i: usize = 0;
    while i < a.len()
        invariant
            i <= a.len(),
            a@.len() == b@.len(),
            forall|j: int| 0 <= j < i ==> a@[j] == b@[j],
        decreases a.len() - i,
    {
        if a[i] != b[i] {
            return false;
        }
        i += 1;
    }
    assert(a@ =~= b@);
    true
}

fn copy_bytes(bytes: &Vec<u8>) -> (copy: Vec<u8>)
    ensures
        copy@ == bytes@,
{
    let mut copy: Vec<u8> = Vec::new();
    let mut i: usize = 0;
    while i < bytes.len()
        invariant
            i <= bytes.len(),
            copy@ == bytes@.take(i as int),
        decreases bytes.len() - i,
    {
        copy.push(bytes[i]);
        assert(bytes@.take(i as int + 1) =~= bytes@.take(i as int).push(bytes@[i as int]));
        i += 1;
    }
    assert(bytes@.take(bytes@.len() as int) =~= bytes@);
    copy
}

// ---------------------------------------------------------------- laws

/// No cookie counts for both providers, not even at different times.
pub proof fn cookies_belong_to_one_provider(cookie: CookieView, at: i64, other: i64)
    ensures
        !(cookie_valid(cookie, Provider::Youtube, at) && cookie_valid(cookie, Provider::Twitch, other)),
{
    reveal_strlit("youtube.com");
    reveal_strlit("www.youtube.com");
    reveal_strlit("twitch.tv");
    reveal_strlit("www.twitch.tv");
    assert("youtube.com"@[0] == 'y' && "twitch.tv"@[0] == 't');
    assert("www.youtube.com"@.len() == 15 && "www.twitch.tv"@.len() == 13);
    assert("youtube.com"@.len() == 11 && "twitch.tv"@.len() == 9);
}

/// Time never makes an invalid cookie valid, so a restart extends no session.
pub proof fn validity_only_ends(cookie: CookieView, provider: Provider, earlier: i64, later: i64)
    requires
        earlier <= later,
        cookie_valid(cookie, provider, later),
    ensures
        cookie_valid(cookie, provider, earlier),
{
}

/// What is saved for an account is what a restart brings back: the lasting cookies, less
/// those that have expired since.
pub proof fn restart_restores_the_unexpired(
    saved: Saved,
    account: Seq<char>,
    cookies: Seq<CookieView>,
    provider: Provider,
    at: i64,
    later: i64,
)
    requires
        at <= later,
        saves(Ok(saved), account, provider, cookies, at),
    ensures
        belongs(saved, account, provider),
        lasting_cookies(cookie_views(saved.cookies@), provider, later) == lasting_cookies(cookies, provider, later),
{
    assert(cookie_views(saved.cookies@).len() == saved.cookies@.len());
    lemma_lasting_later(cookies, provider, at, later);
}

proof fn lemma_lasting_later(cookies: Seq<CookieView>, provider: Provider, at: i64, later: i64)
    requires
        at <= later,
    ensures
        lasting_cookies(lasting_cookies(cookies, provider, at), provider, later) == lasting_cookies(
            cookies,
            provider,
            later,
        ),
    decreases cookies.len(),
{
    if cookies.len() > 0 {
        lemma_lasting_later(cookies.drop_last(), provider, at, later);
        let rest = lasting_cookies(cookies.drop_last(), provider, at);
        if lasting(cookies.last(), provider, at) {
            assert(rest.push(cookies.last()).drop_last() =~= rest);
        }
    }
}

/// A session saved for one account or provider is refused for another.
pub proof fn saved_sessions_are_bound(saved: Saved, account: Seq<char>, other: Seq<char>, provider: Provider)
    requires
        belongs(saved, account, provider),
    ensures
        account != other ==> !belongs(saved, other, provider),
        !belongs(
            saved,
            account,
            match provider {
                Provider::Youtube => Provider::Twitch,
                Provider::Twitch => Provider::Youtube,
            },
        ),
{
    reveal_strlit("youtube");
    reveal_strlit("twitch");
    assert("youtube"@[0] == 'y' && "twitch"@[0] == 't');
}

/// Signing out wins over everything that was under way: no earlier job still runs, no earlier
/// reply is heard, no report of the closing browser is taken, and the store is cleared next.
pub proof fn sign_out_outruns_earlier_saves(
    before: Jar,
    out: Jar,
    job: Job,
    reply: Reply,
    replied: Jar,
    seen: Seq<Cookie>,
    at: i64,
    observed: Observed,
    reported: Jar,
)
    requires
        before.stored,
        out.cleared_from(before),
        job.generation == before.generation,
        reply.generation == before.generation,
        replied.replied_from(out, reply),
        reported.observed_from(out, seen, at, observed),
    ensures
        !job.runs_in(out.generation),
        replied == out,
        reported == out,
        out.pending == Some(Operation::Clear),
{
}

/// Once the store is cleared, nobody is signed in, at any time.
pub proof fn cleared_sessions_are_signed_out(out: Jar, after: Jar, reply: Reply, at: i64)
    requires
        after.replied_from(out, reply),
        reply.generation == out.generation,
        reply.data == ResultData::Cleared(Ok(())),
    ensures
        after.ready && !after.clearing,
        !session_present(after.provider, cookie_views(after.cookies@), at),
{
    assert(cookie_views(after.cookies@).len() == 0);
}

/// A cookie that counts comes from one of the provider's two hosts, was not expired, and has a name of
/// plain characters and a path; a promise in its name is kept.
pub proof fn counted_cookies_are_the_providers_own(cookie: CookieView, provider: Provider, at: i64)
    requires
        cookie_valid(cookie, provider, at),
    ensures
        ({
            let domain = if cookie.domain.len() > 0 && cookie.domain[0] == '.' { cookie.domain.skip(1) } else { cookie.domain };
            match provider {
                Provider::Youtube => domain == "youtube.com"@ || domain == "www.youtube.com"@,
                Provider::Twitch => domain == "twitch.tv"@ || domain == "www.twitch.tv"@,
            }
        }),
        cookie.expires is Some ==> at < cookie.expires->0,
        0 < cookie.name.len() && byte_len(cookie.name) <= 256 && byte_len(cookie.value) <= 8192 && byte_len(cookie.path)
            <= 1024,
        cookie.path.len() > 0 && cookie.path[0] == '/',
        cookie.same_site == 0 || cookie.same_site == 1 || cookie.same_site == 2,
        forall|i: int|
            0 <= i < cookie.name.len() ==> #[trigger] cookie.name[i] != '=' && cookie.name[i] != ';' && cookie.name[i]
                != ' ' && cookie.name[i] != ',' && '!' <= cookie.name[i] <= '~',
        forall|i: int| 0 <= i < cookie.value.len() ==> ' ' <= #[trigger] cookie.value[i] && cookie.value[i] != '\u{7f}',
        forall|i: int| 0 <= i < cookie.path.len() ==> ' ' <= #[trigger] cookie.path[i] && cookie.path[i] != '\u{7f}',
        begins(cookie.name, "__Secure-"@) ==> cookie.secure,
        begins(cookie.name, "__Host-"@) ==> cookie.secure && cookie.path == "/"@ && cookie.domain[0] != '.',
{
    reveal_strlit(".");
    reveal_strlit("/");
    reveal_strlit("youtube.com");
    reveal_strlit("www.youtube.com");
    reveal_strlit("twitch.tv");
    reveal_strlit("www.twitch.tv");
    if cookie.domain.len() > 0 && cookie.domain[0] == '.' {
        assert(cookie.domain.take(1) =~= "."@);
    } else if cookie.domain.len() > 0 {
        if begins(cookie.domain, "."@) {
            assert(cookie.domain.take(1)[0] == "."@[0]);
        }
    }
    assert(cookie.path.take(1)[0] == "/"@[0]);
    if begins(cookie.name, "__Host-"@) {
        assert(cookie.domain.len() > 0);
    }
}

/// An ordinary cookie of the provider, with or without the dot before its domain, counts until it
/// expires, and for ever where it has no expiry.
pub proof fn ordinary_cookies_count(cookie: CookieView, provider: Provider, at: i64)
    requires
        match provider {
            Provider::Youtube => cookie.domain == ".youtube.com"@ || cookie.domain == "www.youtube.com"@
                || cookie.domain == "youtube.com"@ || cookie.domain == ".www.youtube.com"@,
            Provider::Twitch => cookie.domain == ".twitch.tv"@ || cookie.domain == "www.twitch.tv"@ || cookie.domain
                == "twitch.tv"@ || cookie.domain == ".www.twitch.tv"@,
        },
        cookie.path.len() > 0 && cookie.path[0] == '/' && byte_len(cookie.path) <= 1024,
        forall|i: int| 0 <= i < cookie.path.len() ==> ' ' <= #[trigger] cookie.path[i] <= '~',
        cookie.name.len() > 0 && byte_len(cookie.name) <= 256 && cookie.name[0] != '_',
        forall|i: int|
            0 <= i < cookie.name.len() ==> 'a' <= #[trigger] cookie.name[i] <= 'z' || 'A' <= cookie.name[i] <= 'Z'
                || cookie.name[i] == '-' || cookie.name[i] == '_' || '0' <= cookie.name[i] <= '9',
        byte_len(cookie.value) <= 8192,
        forall|i: int| 0 <= i < cookie.value.len() ==> ' ' <= #[trigger] cookie.value[i] <= '~',
        cookie.same_site <= 2,
    ensures
        cookie_valid(cookie, provider, at) <==> cookie.expires is None || cookie.expires->0 > at,
{
    reveal_strlit(".");
    reveal_strlit("/");
    reveal_strlit("__Secure-");
    reveal_strlit("__Host-");
    reveal_strlit(".twitch.tv");
    reveal_strlit("twitch.tv");
    reveal_strlit("www.twitch.tv");
    reveal_strlit(".www.twitch.tv");
    reveal_strlit(".youtube.com");
    reveal_strlit("youtube.com");
    reveal_strlit("www.youtube.com");
    reveal_strlit(".www.youtube.com");
    let dot = "."@;
    assert(".twitch.tv"@.take(1) =~= dot && ".twitch.tv"@.skip(1) =~= "twitch.tv"@);
    assert(".www.twitch.tv"@.take(1) =~= dot && ".www.twitch.tv"@.skip(1) =~= "www.twitch.tv"@);
    assert(".youtube.com"@.take(1) =~= dot && ".youtube.com"@.skip(1) =~= "youtube.com"@);
    assert(".www.youtube.com"@.take(1) =~= dot && ".www.youtube.com"@.skip(1) =~= "www.youtube.com"@);
    assert("twitch.tv"@.take(1)[0] == 't' && "www.twitch.tv"@.take(1)[0] == 'w');
    assert("youtube.com"@.take(1)[0] == 'y' && "www.youtube.com"@.take(1)[0] == 'w');
    assert(dot[0] == '.');
    assert(owned_domain(provider, bare_domain(cookie.domain)));
    assert(cookie.path.take(1) =~= "/"@);
    assert("__Secure-"@[0] == '_' && "__Host-"@[0] == '_');
    if begins(cookie.name, "__Secure-"@) {
        assert(cookie.name.take(9)[0] == '_');
    }
    if begins(cookie.name, "__Host-"@) {
        assert(cookie.name.take(7)[0] == '_');
    }
    assert(name_chars(cookie.name));
    assert(no_controls(cookie.value) && no_controls(cookie.path));
}

/// A session of YouTube needs both of its cookies, one of Twitch its token; each must be valid and hold
/// something. More cookies never end a session, and no cookies are none.
pub proof fn sessions_need_their_cookies(provider: Provider, cookies: Seq<CookieView>, more: Seq<CookieView>, at: i64)
    ensures
        session_present(provider, cookies, at) ==> session_present(provider, cookies + more, at),
        !session_present(provider, Seq::empty(), at),
        session_present(Provider::Youtube, cookies, at) ==> (exists|i: int|
            0 <= i < cookies.len() && #[trigger] cookie_valid(cookies[i], Provider::Youtube, at) && cookies[i].name
                == "SID"@ && cookies[i].value.len() > 0) && (exists|i: int|
            0 <= i < cookies.len() && #[trigger] cookie_valid(cookies[i], Provider::Youtube, at) && cookies[i].name
                == "HSID"@ && cookies[i].value.len() > 0),
        session_present(Provider::Twitch, cookies, at) ==> exists|i: int|
            0 <= i < cookies.len() && #[trigger] cookie_valid(cookies[i], Provider::Twitch, at) && cookies[i].name
                == "auth-token"@ && cookies[i].value.len() > 0,
        forall|i: int, j: int|
            0 <= i < cookies.len() && 0 <= j < cookies.len() && #[trigger] cookie_valid(cookies[i], Provider::Youtube, at)
                && #[trigger] cookie_valid(cookies[j], Provider::Youtube, at) && cookies[i].name == "SID"@
                && cookies[i].value.len() > 0 && cookies[j].name == "HSID"@ && cookies[j].value.len() > 0
                ==> session_present(Provider::Youtube, cookies, at),
{
    let all = cookies + more;
    assert forall|name: Seq<char>| #[trigger] has_cookie(cookies, provider, name, at) implies has_cookie(
        all,
        provider,
        name,
        at,
    ) by {
        let i = choose|i: int| #[trigger] named_at(cookies, provider, name, at, i);
        assert(all[i] == cookies[i]);
        assert(named_at(all, provider, name, at, i));
    }
    assert forall|name: Seq<char>, p: Provider| #[trigger] has_cookie(cookies, p, name, at) implies exists|i: int|
        0 <= i < cookies.len() && #[trigger] cookie_valid(cookies[i], p, at) && cookies[i].name == name
            && cookies[i].value.len() > 0 by {
        let i = choose|i: int| #[trigger] named_at(cookies, p, name, at, i);
        assert(cookie_valid(cookies[i], p, at));
    }
    assert forall|i: int, j: int|
        0 <= i < cookies.len() && 0 <= j < cookies.len() && #[trigger] cookie_valid(cookies[i], Provider::Youtube, at)
            && #[trigger] cookie_valid(cookies[j], Provider::Youtube, at) && cookies[i].name == "SID"@
            && cookies[i].value.len() > 0 && cookies[j].name == "HSID"@ && cookies[j].value.len() > 0 implies session_present(
        Provider::Youtube,
        cookies,
        at,
    ) by {
        assert(named_at(cookies, Provider::Youtube, "SID"@, at, i));
        assert(named_at(cookies, Provider::Youtube, "HSID"@, at, j));
    }
}

/// Of the cookies those are saved that count and have an expiry, in their order.
pub proof fn cookies_with_an_expiry_are_saved(cookies: Seq<CookieView>, cookie: CookieView, provider: Provider, at: i64)
    ensures
        lasting_cookies(cookies.push(cookie), provider, at) == if cookie.expires is Some && cookie_valid(
            cookie,
            provider,
            at,
        ) {
            lasting_cookies(cookies, provider, at).push(cookie)
        } else {
            lasting_cookies(cookies, provider, at)
        },
        lasting_cookies(Seq::empty(), provider, at) == Seq::<CookieView>::empty(),
        lasting_cookies(cookies, provider, at).len() <= cookies.len(),
    decreases cookies.len(),
{
    assert(cookies.push(cookie).drop_last() =~= cookies);
    if cookies.len() > 0 {
        cookies_with_an_expiry_are_saved(cookies.drop_last(), cookie, provider, at);
    }
}

/// Up to 128 cookies are saved, in up to 61,440 bytes, for one account and provider; a stored session
/// is read under the same limits.
pub proof fn saved_sessions_are_bounded(
    saved: Result<Saved, ()>,
    account: Seq<char>,
    provider: Provider,
    cookies: Seq<CookieView>,
    at: i64,
    bytes: Seq<u8>,
    result: Result<Vec<Cookie>, ()>,
    length: nat,
    stored: Option<Saved>,
)
    requires
        saves(saved, account, provider, cookies, at),
        restores(result, account, provider, length, stored, at),
    ensures
        saved is Ok <==> lasting_cookies(cookies, provider, at).len() <= 128,
        saved is Ok ==> saved->Ok_0.version == 1 && saved->Ok_0.account@ == account && saved->Ok_0.provider@
            == provider.spec_key() && saved->Ok_0.cookies@.len() <= 128,
        fitting(bytes) <==> bytes.len() <= 61_440,
        result is Ok ==> length <= 61_440 && stored is Some && stored->0.version == 1 && stored->0.account@ == account
            && stored->0.provider@ == provider.spec_key() && stored->0.cookies@.len() <= 128,
        length <= 61_440 && stored is Some && stored->0.version == 1 && stored->0.account@ == account
            && stored->0.provider@ == provider.spec_key() && stored->0.cookies@.len() <= 128 ==> result is Ok,
        result is Ok ==> forall|i: int|
            0 <= i < result->Ok_0@.len() ==> (#[trigger] result->Ok_0@[i]).expires is Some && result->Ok_0@[i].expires->0
                > at,
{
    if saved is Ok {
        assert(cookie_views(saved->Ok_0.cookies@).len() == saved->Ok_0.cookies@.len());
    }
    if result is Ok {
        lemma_lasting_all(cookie_views(stored->0.cookies@), provider, at);
        assert forall|i: int| 0 <= i < result->Ok_0@.len() implies (#[trigger] result->Ok_0@[i]).expires is Some
            && result->Ok_0@[i].expires->0 > at by {
            assert(cookie_views(result->Ok_0@)[i] == result->Ok_0@[i]@);
        }
    }
}

proof fn lemma_lasting_all(cookies: Seq<CookieView>, provider: Provider, at: i64)
    ensures
        forall|i: int|
            0 <= i < lasting_cookies(cookies, provider, at).len() ==> lasting(
                #[trigger] lasting_cookies(cookies, provider, at)[i],
                provider,
                at,
            ),
    decreases cookies.len(),
{
    if cookies.len() > 0 {
        lemma_lasting_all(cookies.drop_last(), provider, at);
        let rest = lasting_cookies(cookies.drop_last(), provider, at);
        let all = lasting_cookies(cookies, provider, at);
        assert forall|i: int| 0 <= i < all.len() implies lasting(#[trigger] all[i], provider, at) by {
            if i < rest.len() {
                assert(all[i] == rest[i]);
            }
        }
    }
}

/// Of what the browser reports, every valid cookie is kept once, the first of its domain, path and name;
/// nothing that is not valid or was not reported is kept.
pub proof fn reports_are_kept_without_repeats(
    kept: Seq<CookieView>,
    seen: Seq<CookieView>,
    provider: Provider,
    at: i64,
    i: int,
    k: int,
    m: int,
)
    requires
        settled(kept, seen, provider, at),
        0 <= i < seen.len(),
        0 <= k < m < kept.len(),
    ensures
        seen.contains(kept[k]) && cookie_valid(kept[k], provider, at),
        kept[k].domain != kept[m].domain || kept[k].path != kept[m].path || kept[k].name != kept[m].name,
        cookie_valid(seen[i], provider, at) ==> exists|n: int|
            0 <= n < kept.len() && (#[trigger] kept[n]).domain == seen[i].domain && kept[n].path == seen[i].path
                && kept[n].name == seen[i].name,
        cookie_valid(seen[i], provider, at) && (forall|j: int|
            0 <= j < i ==> !(cookie_valid(#[trigger] seen[j], provider, at) && same_key(seen[j], seen[i])))
            ==> kept.contains(seen[i]),
{
    assert(comes_from(kept[k], seen, provider, at));
    assert(key_less(kept[k], kept[m]));
    lemma_key_total(kept[k], kept[m]);
    lemma_key_total(kept[k], kept[k]);
    if cookie_valid(seen[i], provider, at) {
        let f = lemma_first_of_kind(seen, provider, at, i);
        assert(first_valid(seen, provider, at, f));
        assert(kept.contains(seen[f]));
        let n = choose|n: int| 0 <= n < kept.len() && kept[n] == seen[f];
        assert(kept[n].domain == seen[i].domain);
    }
}

/// A session that a store keeps waits for what the store has; one without a store works at once, and
/// only an account's says that it cannot be kept.
pub proof fn sessions_start_empty(provider: Provider, memory: Jar, opened: Jar, refused: Jar, account: Seq<char>, at: i64)
    requires
        memory.starts_in_memory(provider),
        opened.starts_for(provider, account, true),
        refused.starts_for(provider, account, false),
    ensures
        memory.ready && memory.error is None && memory.account is None,
        !opened.ready && opened.error is None && opened.stored,
        refused.ready && refused.error is Some && !refused.stored,
        !session_present(provider, cookie_views(memory.cookies@), at) && !session_present(
            provider,
            cookie_views(opened.cookies@),
            at,
        ) && !session_present(provider, cookie_views(refused.cookies@), at),
        memory.next_job() is None && opened.next_job() is None && refused.next_job() is None,
{
    sessions_need_their_cookies(provider, Seq::empty(), Seq::empty(), at);
    assert(cookie_views(memory.cookies@) =~= Seq::empty());
    assert(cookie_views(opened.cookies@) =~= Seq::empty());
    assert(cookie_views(refused.cookies@) =~= Seq::empty());
}

/// A reply of this generation is taken: what was loaded is kept, a failed save is tried again, and a
/// store that could not be cleared leaves the session; every failure is told.
pub proof fn replies_are_taken(before: Jar, after: Jar, reply: Reply)
    requires
        after.replied_from(before, reply),
    ensures
        reply.generation != before.generation ==> after == before,
        reply.generation == before.generation ==> match reply.data {
            ResultData::Loaded(result) => {
                &&& after.ready && after.clearing == before.clearing && after.pending == before.pending
                &&& result is Ok ==> after.cookies == result->Ok_0 && text_of(after.error) == text_of(before.error)
                &&& result is Err ==> after.cookies == before.cookies && after.error is Some
            },
            ResultData::Saved(result) => {
                &&& after.cookies == before.cookies && after.ready == before.ready && after.clearing == before.clearing
                &&& result is Ok ==> after.last_saved == before.last_saved
                &&& result is Err ==> after.last_saved@.len() == 0 && after.error is Some
            },
            ResultData::Cleared(result) => {
                &&& after.ready && !after.clearing
                &&& result is Ok ==> after.cookies@.len() == 0 && after.last_saved@.len() == 0
                &&& result is Err ==> after.cookies == before.cookies && after.error is Some
            },
        },
        after.generation == before.generation && after.provider == before.provider && after.account == before.account
            && after.stored == before.stored,
{
}

/// The same bytes are not saved twice; other bytes wait for the worker, and once handed out they are
/// no longer pending. A session that could not be written leaves what waits, and is told.
pub proof fn the_same_session_is_saved_once(before: Jar, after: Jar, again: Jar, written: Result<Vec<u8>, ()>)
    requires
        after.saved_from(before, written),
        again.saved_from(after, written),
    ensures
        again.pending == after.pending && again.last_saved == after.last_saved,
        written is Err ==> after.pending == before.pending && after.last_saved == before.last_saved && after.error is Some,
        written is Ok && written->Ok_0@ != before.last_saved@ && before.stored ==> after.next_job() is Some
            && after.next_job()->0.generation == before.generation && after.next_job()->0.operation is Save
            && after.next_job()->0.operation->Save_0@ == written->Ok_0@,
        written is Ok && written->Ok_0@ == before.last_saved@ ==> after == before,
        after.cookies == before.cookies && after.generation == before.generation && after.ready == before.ready,
{
}

/// What the browser reports is kept and, for an account that is or was signed in, saved: its lasting
/// cookies, or none where the session has ended. A session that is not ready, or is being cleared,
/// hears nothing.
pub proof fn reported_sessions_are_saved(before: Jar, after: Jar, seen: Seq<Cookie>, at: i64, observed: Observed)
    requires
        after.observed_from(before, seen, at, observed),
    ensures
        !before.ready || before.clearing ==> after == before && observed is Ignored,
        before.ready && !before.clearing ==> !(observed is Ignored),
        before.ready && !before.clearing && before.account is None ==> !(observed is Save),
        observed is TooMany ==> after.cookies == before.cookies && after.error is Some,
        observed is Kept || observed is Save ==> settled(
            cookie_views(after.cookies@),
            cookie_views(seen),
            before.provider,
            at,
        ) && after.cookies@.len() <= 128 && after.error == before.error,
        (observed is Kept || observed is Save) && before.account is Some && session_present(
            before.provider,
            cookie_views(after.cookies@),
            at,
        ) ==> observed is Save && saves(
            observed->Save_0,
            before.account->0@,
            before.provider,
            cookie_views(after.cookies@),
            at,
        ),
        (observed is Kept || observed is Save) && before.account is Some && !session_present(
            before.provider,
            cookie_views(after.cookies@),
            at,
        ) && session_present(before.provider, cookie_views(before.cookies@), at) ==> observed is Save
            && observed->Save_0 is Ok && observed->Save_0->Ok_0.cookies@.len() == 0,
        (observed is Kept || observed is Save) && before.account is Some && before.last_saved@.len() > 0 ==> observed is Save,
        !session_present(before.provider, cookie_views(before.cookies@), at) && before.last_saved@.len() == 0
            && !session_present(before.provider, cookie_views(after.cookies@), at) ==> !(observed is Save),
        after.generation == before.generation && after.pending == before.pending && after.last_saved == before.last_saved,
{
    if observed is Kept || observed is Save {
        assert(cookie_views(after.cookies@).len() == after.cookies@.len());
    }
    if observed is Save && observed->Save_0 is Ok {
        assert(cookie_views(observed->Save_0->Ok_0.cookies@).len() == observed->Save_0->Ok_0.cookies@.len());
    }
}

/// Signing out begins another generation; a session without a store is empty at once, and one with a
/// store is not ready until the store was cleared.
pub proof fn sign_out_begins_another_generation(before: Jar, out: Jar)
    requires
        out.cleared_from(before),
    ensures
        out.generation != before.generation,
        before.generation < u64::MAX ==> out.generation == before.generation + 1,
        !before.stored ==> out.cookies@.len() == 0 && out.ready == before.ready,
        before.stored ==> !out.ready && out.clearing && out.next_job() == Some(
            Job { generation: out.generation, operation: Operation::Clear },
        ),
{
}

} // verus!

//! The two providers that host recordings, and the fixed hosts of their accounts.
use crate::text::{after, begins, chars_of, same_text};
use vstd::prelude::*;

verus! {

#[derive(Clone, Copy, Debug, PartialEq, Eq, Structural)]
pub enum Provider {
    Youtube,
    Twitch,
}

impl Provider {
    pub open spec fn spec_key(self) -> Seq<char> {
        match self {
            Provider::Youtube => "youtube"@,
            Provider::Twitch => "twitch"@,
        }
    }

    pub open spec fn spec_label(self) -> Seq<char> {
        match self {
            Provider::Youtube => "YouTube"@,
            Provider::Twitch => "Twitch"@,
        }
    }

    /// The name that addresses and saved sessions use.
    pub fn key(&self) -> (key: &'static str)
        ensures
            key@ == self.spec_key(),
    {
        match self {
            Provider::Youtube => "youtube",
            Provider::Twitch => "twitch",
        }
    }

    /// The name that people read.
    pub fn label(&self) -> (label: &'static str)
        ensures
            label@ == self.spec_label(),
    {
        match self {
            Provider::Youtube => "YouTube",
            Provider::Twitch => "Twitch",
        }
    }
}

pub open spec fn spec_index(provider: Provider) -> int {
    match provider {
        Provider::Twitch => 0,
        Provider::Youtube => 1,
    }
}

/// The slot of a provider in the session holder.
pub fn index(provider: &Provider) -> (slot: usize)
    ensures
        slot == spec_index(*provider),
        slot < 2,
{
    match provider {
        Provider::Twitch => 0,
        Provider::Youtube => 1,
    }
}

pub open spec fn spec_start_url(provider: Provider) -> Seq<char> {
    match provider {
        Provider::Youtube => "https://accounts.google.com/ServiceLogin?service=youtube&continue=https%3A%2F%2Fwww.youtube.com%2F"@,
        Provider::Twitch => "https://www.twitch.tv/login"@,
    }
}

/// Where a provider's own sign-in begins.
pub fn start_url(provider: &Provider) -> (url: &'static str)
    ensures
        url@ == spec_start_url(*provider),
{
    match provider {
        Provider::Youtube => "https://accounts.google.com/ServiceLogin?service=youtube&continue=https%3A%2F%2Fwww.youtube.com%2F",
        Provider::Twitch => "https://www.twitch.tv/login",
    }
}

/// Country codes under `.google.`, two letters each with a space between.
pub open spec fn plain_codes() -> Seq<char> {
    "ad ae al am as at az ba be bf bg bi bj bs bt by ca cd cf cg ch ci cl cm cn cv cz de dj dk dm dz ee es fi fm fr ga ge gg gl gm gr gy hn hr ht hu ie im iq is it je jo ki kg kz la li lk lt lu lv md me mg mk ml mn mu mv mw ne nl no nr nu pl pn ps pt ro ru rw sc se sh si sk sn so sm sr st td tg tl tm tn to tt vu ws rs"@
}

/// Country codes under `.google.com.`.
pub open spec fn com_codes() -> Seq<char> {
    "af ag ar au bd bh bn bo br bz co cu cy do ec eg et fj gh gi gt hk jm kh kw lb ly mm mt mx my na ng ni np om pa pe pg ph pk pr py qa sa sb sg sl sv tj tr tw ua uy vc vn"@
}

/// Country codes under `.google.co.`.
pub open spec fn co_codes() -> Seq<char> {
    "ao bw ck cr id il in jp ke kr ls ma mz nz th tz ug uk uz ve vi za zm zw"@
}

/// Whether the two-letter `code` is entry `k` of `table`.
pub open spec fn entry_at(table: Seq<char>, code: Seq<char>, k: int) -> bool {
    0 <= k && 3 * k + 1 < table.len() && table[3 * k] == code[0] && table[3 * k + 1] == code[1]
}

pub open spec fn code_listed(table: Seq<char>, code: Seq<char>) -> bool {
    code.len() == 2 && exists|k: int| #[trigger] entry_at(table, code, k)
}

/// The domains on which Google runs its search site, with their leading dot.
pub open spec fn google_domain(domain: Seq<char>) -> bool {
    ||| domain == ".google.com"@
    ||| domain == ".google.cat"@
    ||| (begins(domain, ".google."@) && code_listed(plain_codes(), domain.skip(".google."@.len() as int)))
    ||| (begins(domain, ".google.com."@) && code_listed(com_codes(), domain.skip(".google.com."@.len() as int)))
    ||| (begins(domain, ".google.co."@) && code_listed(co_codes(), domain.skip(".google.co."@.len() as int)))
}

/// The accounts host on one of Google's own domains, and no other subdomain.
pub open spec fn google_account(host: Seq<char>) -> bool {
    begins(host, "accounts"@) && google_domain(host.skip("accounts"@.len() as int))
}

fn code_in(table: &str, code: &str) -> (listed: bool)
    ensures
        listed == code_listed(table@, code@),
{
    let list = chars_of(table);
    let letters = chars_of(code);
    if letters.len() != 2 {
        return false;
    }
    let mut i: usize = 0;
    let ghost mut k: int = 0;
    while i < list.len() && i + 1 < list.len()
        invariant
            list@ == table@,
            letters@ == code@,
            code@.len() == 2,
            i == 3 * k,
            k >= 0,
            i <= list.len() + 2,
            forall|j: int| 0 <= j < k ==> !#[trigger] entry_at(table@, code@, j),
        decreases list.len() + 3 - i,
    {
        if list[i] == letters[0] && list[i + 1] == letters[1] {
            assert(entry_at(table@, code@, k));
            return true;
        }
        assert(!entry_at(table@, code@, k));
        if list.len() - i < 3 {
            assert forall|j: int| !#[trigger] entry_at(table@, code@, j) by {
                if j > k {
                    assert(3 * j + 1 >= table@.len());
                }
            }
            return false;
        }
        i += 3;
        proof {
            k = k + 1;
        }
    }
    assert forall|j: int| !#[trigger] entry_at(table@, code@, j) by {
        if j >= k {
            assert(3 * j + 1 >= table@.len());
        }
    }
    false
}

fn code_after(domain: &str, stem: &str, table: &str) -> (listed: bool)
    ensures
        listed == (begins(domain@, stem@) && code_listed(table@, domain@.skip(stem@.len() as int))),
{
    match after(domain, stem) {
        Some(code) => code_in(table, &code),
        None => false,
    }
}

/// Whether `host` is the accounts host on one of Google's own domains.
pub fn google_account_host(host: &str) -> (known: bool)
    ensures
        known == google_account(host@),
{
    match after(host, "accounts") {
        Some(domain) => {
            same_text(&domain, ".google.com") || same_text(&domain, ".google.cat")
                || code_after(&domain, ".google.", "ad ae al am as at az ba be bf bg bi bj bs bt by ca cd cf cg ch ci cl cm cn cv cz de dj dk dm dz ee es fi fm fr ga ge gg gl gm gr gy hn hr ht hu ie im iq is it je jo ki kg kz la li lk lt lu lv md me mg mk ml mn mu mv mw ne nl no nr nu pl pn ps pt ro ru rw sc se sh si sk sn so sm sr st td tg tl tm tn to tt vu ws rs")
                || code_after(&domain, ".google.com.", "af ag ar au bd bh bn bo br bz co cu cy do ec eg et fj gh gi gt hk jm kh kw lb ly mm mt mx my na ng ni np om pa pe pg ph pk pr py qa sa sb sg sl sv tj tr tw ua uy vc vn")
                || code_after(&domain, ".google.co.", "ao bw ck cr id il in jp ke kr ls ma mz nz th tz ug uk uz ve vi za zm zw")
        },
        None => false,
    }
}

// ---------------------------------------------------------------- laws

/// Each provider has a name, a label and a slot of its own.
pub proof fn providers_are_told_apart(a: Provider, b: Provider)
    ensures
        a.spec_key() == b.spec_key() <==> a == b,
        a.spec_label() == b.spec_label() <==> a == b,
        spec_index(a) == spec_index(b) <==> a == b,
        spec_start_url(a) == spec_start_url(b) <==> a == b,
        0 <= spec_index(a) < 2,
{
    reveal_strlit("youtube");
    reveal_strlit("twitch");
    reveal_strlit("YouTube");
    reveal_strlit("Twitch");
    reveal_strlit("https://accounts.google.com/ServiceLogin?service=youtube&continue=https%3A%2F%2Fwww.youtube.com%2F");
    reveal_strlit("https://www.twitch.tv/login");
    assert("youtube"@.len() == 7 && "twitch"@.len() == 6);
    assert("YouTube"@.len() == 7 && "Twitch"@.len() == 6);
    assert("https://www.twitch.tv/login"@.len() == 27);
}

/// An accounts host begins with the very words of Google's, and what follows is one of its ends or a
/// country's two letters behind one of three stems: no longer host is one, whatever it ends in.
pub proof fn accounts_hosts_are_googles_own(host: Seq<char>)
    requires
        google_account(host),
    ensures
        begins(host, "accounts.google."@),
        ({
            let end = host.skip("accounts.google."@.len() as int);
            ||| end == "com"@
            ||| end == "cat"@
            ||| end.len() == 2
            ||| end.len() == 6 && begins(end, "com."@)
            ||| end.len() == 5 && begins(end, "co."@)
        }),
        host.len() <= 22,
{
    reveal_strlit("accounts");
    reveal_strlit("accounts.google.");
    reveal_strlit(".google.");
    reveal_strlit(".google.com");
    reveal_strlit(".google.cat");
    reveal_strlit(".google.com.");
    reveal_strlit(".google.co.");
    reveal_strlit("com");
    reveal_strlit("cat");
    reveal_strlit("com.");
    reveal_strlit("co.");
    let domain = host.skip(8);
    let end = host.skip(16);
    assert("accounts"@.len() == 8 && "accounts.google."@.len() == 16);
    assert(domain.len() >= 8 && begins(domain, ".google."@)) by {
        if domain == ".google.com"@ || domain == ".google.cat"@ {
            assert(domain.take(8) =~= ".google."@);
        } else if begins(domain, ".google.com."@) {
            assert(domain.take(8) =~= ".google.com."@.take(8)) by {
                assert(domain.take(8) =~= domain.take(12).take(8));
            }
            assert(".google.com."@.take(8) =~= ".google."@);
        } else if begins(domain, ".google.co."@) {
            assert(domain.take(8) =~= ".google.co."@.take(8)) by {
                assert(domain.take(8) =~= domain.take(11).take(8));
            }
            assert(".google.co."@.take(8) =~= ".google."@);
        }
    }
    assert(end =~= domain.skip(8));
    assert(host =~= host.take(8) + domain.take(8) + end);
    assert("accounts"@ + ".google."@ =~= "accounts.google."@);
    assert(host.take(16) =~= host.take(8) + domain.take(8));
    if domain == ".google.com"@ {
        assert(end =~= "com"@);
    } else if domain == ".google.cat"@ {
        assert(end =~= "cat"@);
    } else if begins(domain, ".google.com."@) && code_listed(com_codes(), domain.skip(".google.com."@.len() as int)) {
        assert(end.take(4) =~= domain.take(12).skip(8));
        assert(".google.com."@.skip(8) =~= "com."@);
    } else if begins(domain, ".google.co."@) && code_listed(co_codes(), domain.skip(".google.co."@.len() as int)) {
        assert(end.take(3) =~= domain.take(11).skip(8));
        assert(".google.co."@.skip(8) =~= "co."@);
    }
}

/// The accounts host that Google's own sign-in begins at is one.
pub proof fn the_main_accounts_host_is_known()
    ensures
        google_account("accounts.google.com"@),
{
    reveal_strlit("accounts");
    reveal_strlit(".google.com");
    reveal_strlit("accounts.google.com");
    let host = "accounts.google.com"@;
    assert(host.take(8) =~= "accounts"@);
    assert(host.skip(8) =~= ".google.com"@);
}

/// Every code of a table is known, and what is known is two letters of it at a code's place.
pub proof fn listed_codes_are_known(table: Seq<char>, code: Seq<char>, k: int)
    ensures
        0 <= k && 3 * k + 1 < table.len() ==> code_listed(table, seq![table[3 * k], table[3 * k + 1]]),
        code_listed(table, code) ==> code.len() == 2 && exists|j: int|
            0 <= j && 3 * j + 1 < table.len() && code[0] == #[trigger] table[3 * j] && code[1] == table[3 * j + 1],
        code.len() != 2 ==> !code_listed(table, code),
{
    if 0 <= k && 3 * k + 1 < table.len() {
        assert(entry_at(table, seq![table[3 * k], table[3 * k + 1]], k));
    }
    if code_listed(table, code) {
        let j = choose|j: int| #[trigger] entry_at(table, code, j);
        assert(code[0] == table[3 * j]);
    }
}

} // verus!

//! The configuration file's contents and the allowlist of CORS origins.
use http::HeaderValue;
use vstd::prelude::*;

use crate::devices::TapoDeviceType;
use crate::ip::IpAddr;
use crate::text;

verus! {

/// The contents of the configuration file.
#[derive(Debug, PartialEq, Eq)]
pub struct Config {
    pub tapo_credentials: TapoCredentials,
    pub devices: Vec<TapoConnectionInfos>,
    pub server_password: String,
    /// Broadcast (or unicast) target of the LAN discovery.
    pub discovery_broadcast: String,
}

/// The account that the devices are registered to.
#[derive(Debug, PartialEq, Eq)]
pub struct TapoCredentials {
    pub email: String,
    pub password: String,
}

/// A configured device.
#[derive(Debug, PartialEq, Eq)]
pub struct TapoConnectionInfos {
    /// The device's name, which is its nickname in the Tapo app.
    pub name: String,
    pub device_type: TapoDeviceType,
    /// The device's address, if the configuration or the discovery cache gives one.
    pub ip_addr: Option<IpAddr>,
}

impl Clone for TapoCredentials {
    fn clone(&self) -> (r: Self)
        ensures
            r == *self,
    {
        TapoCredentials { email: self.email.clone(), password: self.password.clone() }
    }
}

impl Clone for TapoConnectionInfos {
    fn clone(&self) -> (r: Self)
        ensures
            r == *self,
    {
        TapoConnectionInfos {
            name: self.name.clone(),
            device_type: self.device_type,
            ip_addr: self.ip_addr,
        }
    }
}

/// The broadcast target of a configuration that names none.
pub fn default_broadcast() -> (r: String)
    ensures
        r@ == "255.255.255.255"@,
{
    "255.255.255.255".to_owned()
}

/// The environment variable that holds the allowlist of CORS origins: URLs of origins, separated
/// by commas.
pub const TAPO_CORS_ORIGINS_ENV: &'static str = "TAPO_CORS_ORIGINS";

/// Text that can stand in an HTTP header: every character is a tab, or neither a control character
/// below the space nor DEL.
pub open spec fn header_text(s: Seq<char>) -> bool {
    forall|i: int| 0 <= i < s.len() ==> header_char(#[trigger] s[i])
}

/// A character of header text.
pub open spec fn header_char(c: char) -> bool {
    c == '\t' || (c >= ' ' && c != '\u{7f}')
}

/// `http::HeaderValue::from_str` on the text succeeds. It looks at the bytes of the text: each has
/// to be a tab, or at least 32 and not 127. The bytes that encode a character beyond ASCII are all
/// at least 128, and an ASCII character is its own byte, so this is a condition on the characters.
#[verifier::external_body]
fn is_header_value(s: &str) -> (r: bool)
    ensures
        r == header_text(s@),
{
    HeaderValue::from_str(s).is_ok()
}

/// An entry of the allowlist that is used: there is text in it, and it can stand in a header.
pub open spec fn usable_origin(s: Seq<char>) -> bool {
    s.len() > 0 && header_text(s)
}

/// The usable entries of a comma-separated list, trimmed.
pub open spec fn listed_origins(raw: Seq<char>) -> Seq<Seq<char>> {
    text::pieces(raw, ',').map_values(|s: Seq<char>| text::trimmed(s)).filter(
        |s: Seq<char>| usable_origin(s),
    )
}

/// The origins allowed when none is listed.
pub open spec fn default_origins() -> Seq<Seq<char>> {
    seq!["http://127.0.0.1"@, "http://localhost"@]
}

/// The origins allowed for a value of the environment variable, or for none.
pub open spec fn allowed_origins(raw: Option<Seq<char>>) -> Seq<Seq<char>> {
    let listed = listed_origins(
        match raw {
            Some(s) => s,
            None => Seq::<char>::empty(),
        },
    );
    if listed.len() > 0 {
        listed
    } else {
        default_origins()
    }
}

fn listed(raw: &str) -> (r: Vec<String>)
    ensures
        text::texts(r@) == listed_origins(raw@),
{
    let chars = text::chars_of(raw);
    let parts = text::split(&chars, ',');
    let ghost trimmed = text::pieces(raw@, ',').map_values(|s: Seq<char>| text::trimmed(s));
    let ghost usable = |s: Seq<char>| usable_origin(s);
    let mut r: Vec<String> = Vec::new();
    let mut i: usize = 0;
    proof {
        reveal(Seq::filter);
    }
    assert(trimmed.take(0).filter(usable) == Seq::<Seq<char>>::empty());
    assert(text::texts(r@) == trimmed.take(0).filter(usable));
    while i < parts.len()
        invariant
            i <= parts@.len(),
            text::views(parts@) == text::pieces(raw@, ','),
            trimmed == text::pieces(raw@, ',').map_values(|s: Seq<char>| text::trimmed(s)),
            usable == (|s: Seq<char>| usable_origin(s)),
            text::texts(r@) == trimmed.take(i as int).filter(usable),
        decreases parts@.len() - i,
    {
        let ghost before = text::texts(r@);
        let part = text::string_of(&parts[i]);
        let origin = text::trim(part.as_str()).to_owned();
        proof {
            reveal(Seq::filter);
            assert(text::views(parts@)[i as int] == parts@[i as int]@);
            assert(trimmed[i as int] == origin@);
            assert(trimmed.take(i + 1).drop_last() == trimmed.take(i as int));
            assert(trimmed.take(i + 1).last() == origin@);
        }
        if !origin.as_str().is_empty() && is_header_value(origin.as_str()) {
            r.push(origin);
            assert(text::texts(r@) == before.push(origin@));
        }
        i = i + 1;
    }
    assert(trimmed.take(trimmed.len() as int) == trimmed);
    r
}

/// The allowlist of CORS origins for the value of `TAPO_CORS_ORIGINS`, or for none. Entries that
/// cannot stand in a header are left out; with no entry left, the loopback origins are allowed.
pub fn cors_origins(raw: Option<&str>) -> (r: Vec<String>)
    ensures
        text::texts(r@) == allowed_origins(
            match raw {
                Some(s) => Some(s@),
                None => None,
            },
        ),
{
    proof {
        reveal_strlit("");
        assert(""@ == Seq::<char>::empty());
    }
    let found: Vec<String> = match raw {
        Some(s) => listed(s),
        None => listed(""),
    };
    if found.len() > 0 {
        return found;
    }
    let mut r: Vec<String> = Vec::new();
    r.push("http://127.0.0.1".to_owned());
    r.push("http://localhost".to_owned());
    assert(text::texts(r@) == default_origins());
    r
}

/// The allowlist is never empty, and every entry is trimmed, has text in it and can stand in a
/// header.
pub proof fn origins_are_usable(raw: Option<Seq<char>>)
    ensures
        allowed_origins(raw).len() > 0,
        forall|i: int|
            0 <= i < allowed_origins(raw).len() ==> usable_origin(#[trigger] allowed_origins(raw)[i])
                && text::trimmed(allowed_origins(raw)[i]) == allowed_origins(raw)[i],
{
    let value = match raw {
        Some(s) => s,
        None => Seq::<char>::empty(),
    };
    let parts = text::pieces(value, ',');
    let trimmed = parts.map_values(|s: Seq<char>| text::trimmed(s));
    let usable = |s: Seq<char>| usable_origin(s);
    let listed = listed_origins(value);
    assert(listed == trimmed.filter(usable));
    if listed.len() > 0 {
        assert forall|i: int| 0 <= i < listed.len() implies usable_origin(#[trigger] listed[i])
            && text::trimmed(listed[i]) == listed[i] by {
            filtered_from(trimmed, usable, i);
            let k = choose|k: int| 0 <= k < trimmed.len() && trimmed[k] == listed[i];
            text::trimmed_is_trim(parts[k]);
        }
    } else {
        reveal_strlit("http://127.0.0.1");
        reveal_strlit("http://localhost");
    }
}

/// The loopback origins are the fallback: they are allowed when the variable is not set, and when
/// no entry of its value is usable.
pub proof fn origins_fall_back(raw: Seq<char>)
    requires
        forall|i: int|
            0 <= i < text::pieces(raw, ',').len() ==> !usable_origin(
                text::trimmed(#[trigger] text::pieces(raw, ',')[i]),
            ),
    ensures
        allowed_origins(None) == default_origins(),
        allowed_origins(Some(raw)) == default_origins(),
{
    let none = Seq::<char>::empty();
    assert(text::pieces(none, ',') == seq![none]);
    assert(text::trimmed(none) == none);
    nothing_listed(none);
    nothing_listed(raw);
}

/// An entry that is usable is allowed.
pub proof fn usable_entry_is_allowed(raw: Seq<char>, i: int)
    requires
        0 <= i < text::pieces(raw, ',').len(),
        usable_origin(text::trimmed(text::pieces(raw, ',')[i])),
    ensures
        allowed_origins(Some(raw)).contains(text::trimmed(text::pieces(raw, ',')[i])),
{
    let trimmed = text::pieces(raw, ',').map_values(|s: Seq<char>| text::trimmed(s));
    let usable = |s: Seq<char>| usable_origin(s);
    assert(usable(trimmed[i]));
    trimmed.lemma_filter_contains(usable, i);
}

proof fn nothing_listed(raw: Seq<char>)
    requires
        forall|i: int|
            0 <= i < text::pieces(raw, ',').len() ==> !usable_origin(
                text::trimmed(#[trigger] text::pieces(raw, ',')[i]),
            ),
    ensures
        listed_origins(raw).len() == 0,
{
    let parts = text::pieces(raw, ',');
    let trimmed = parts.map_values(|s: Seq<char>| text::trimmed(s));
    let usable = |s: Seq<char>| usable_origin(s);
    if listed_origins(raw).len() > 0 {
        filtered_from(trimmed, usable, 0);
        let k = choose|k: int|
            0 <= k < trimmed.len() && trimmed[k] == trimmed.filter(usable)[0];
        assert(trimmed[k] == text::trimmed(parts[k]));
    }
}

/// What a filter lets through satisfies it and was there.
proof fn filtered_from(all: Seq<Seq<char>>, pred: spec_fn(Seq<char>) -> bool, i: int)
    requires
        0 <= i < all.filter(pred).len(),
    ensures
        pred(all.filter(pred)[i]),
        exists|k: int| 0 <= k < all.len() && all[k] == all.filter(pred)[i],
    decreases all.len(),
{
    reveal(Seq::filter);
    if all.len() > 0 {
        let before = all.drop_last().filter(pred);
        if i < before.len() {
            filtered_from(all.drop_last(), pred, i);
            let k = choose|k: int|
                0 <= k < all.drop_last().len() && all.drop_last()[k] == before[i];
            assert(all[k] == all.filter(pred)[i]);
        } else {
            assert(all[all.len() - 1] == all.filter(pred)[i]);
        }
    }
}

} // verus!

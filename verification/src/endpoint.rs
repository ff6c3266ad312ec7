use vstd::prelude::*;
use vstd::string::*;

use crate::error::{outcome, Error, Outcome, Result};
use crate::ip::{ip_read, ip_text, is_public, is_public_ip, parse_ip, write_ip, IpAddress};
use crate::text::{join2, join3, text_same};

verus! {

/// The path at which a node relays.
pub const RELAY_PATH: &'static str = "/v1/relay";

/// The path at which a node answers calls.
pub const RPC_PATH: &'static str = "/v1/rpc";

/// What `url` reads from a text: the scheme, the path, the whole address as it is written, and the
/// host.
pub uninterp spec fn url_parsed(text: Seq<char>) -> Option<
    (Seq<char>, Seq<char>, Seq<char>, Option<Seq<char>>),
>;

/// An address of the Web, in parts.
pub struct UrlParts {
    pub scheme: String,
    pub path: String,
    pub text: String,
    pub host: Option<String>,
}

impl DeepView for UrlParts {
    type V = (Seq<char>, Seq<char>, Seq<char>, Option<Seq<char>>);

    open spec fn deep_view(&self) -> (Seq<char>, Seq<char>, Seq<char>, Option<Seq<char>>) {
        (self.scheme@, self.path@, self.text@, self.host.deep_view())
    }
}

/// `url::Url::parse`, and of what it reads `scheme`, `path`, `as_str` and `host_str`: they depend on
/// the text alone. Which texts are addresses, and how they are written, is left to the crate.
#[verifier::external_body]
pub(crate) fn parse_url(text: &str) -> (r: Option<UrlParts>)
    ensures
        r.deep_view() == url_parsed(text@),
{
    match url::Url::parse(text) {
        Ok(url) => Some(
            UrlParts {
                scheme: url.scheme().to_owned(),
                path: url.path().to_owned(),
                text: url.as_str().to_owned(),
                host: url.host_str().map(str::to_owned),
            },
        ),
        Err(_) => None,
    }
}

/// Where the path of an address ends: before its query or its fragment.
pub open spec fn path_end(text: Seq<char>) -> nat
    decreases text.len(),
{
    if text.len() == 0 || text[0] == '?' || text[0] == '#' {
        0
    } else {
        1 + path_end(text.drop_first())
    }
}

fn find_path_end(text: &str) -> (r: usize)
    ensures
        r == path_end(text@),
        r <= text@.len(),
{
    let count = text.unicode_len();
    let mut i: usize = 0;
    assert(text@.skip(0) =~= text@);
    while i < count
        invariant
            i <= count,
            count == text@.len(),
            path_end(text@) == i + path_end(text@.skip(i as int)),
        decreases count - i,
    {
        let c = text.get_char(i);
        assert(text@.skip(i as int)[0] == text@[i as int]);
        assert(text@.skip(i as int).drop_first() =~= text@.skip(i + 1));
        if c == '?' || c == '#' {
            return i;
        }
        i = i + 1;
    }
    i
}

/// An address without a path, with the path that it stands for. What follows the path stays.
pub open spec fn path_completed(
    url: (Seq<char>, Seq<char>, Seq<char>, Option<Seq<char>>),
    path: Seq<char>,
) -> (Seq<char>, Seq<char>, Seq<char>, Option<Seq<char>>) {
    let end = path_end(url.2) as int;
    if url.1 == "/"@ && end > 0 && url.2[end - 1] == '/' {
        (url.0, path, url.2.take(end - 1) + path + url.2.skip(end), url.3)
    } else {
        url
    }
}

/// The WebSocket address that a text stands for.
pub open spec fn websocket_url(
    text: Seq<char>,
    path: Seq<char>,
) -> Outcome<(Seq<char>, Seq<char>, Seq<char>, Option<Seq<char>>)> {
    websocket_url_of(url_parsed(text), path)
}

/// The WebSocket address that was read from a text.
pub open spec fn websocket_url_of(
    url: Option<(Seq<char>, Seq<char>, Seq<char>, Option<Seq<char>>)>,
    path: Seq<char>,
) -> Outcome<(Seq<char>, Seq<char>, Seq<char>, Option<Seq<char>>)> {
    match url {
        None => Err("WebSocket URL is invalid"@),
        Some(url) => if url.0 != "ws"@ && url.0 != "wss"@ {
            Err("WebSocket URL must use ws:// or wss://"@)
        } else {
            Ok(path_completed(url, path))
        },
    }
}

/// Completes the WebSocket address that was read from a text.
pub fn complete_websocket_url(url: Option<UrlParts>, path: &str) -> (r: Result<UrlParts>)
    ensures
        outcome(r) == websocket_url_of(url.deep_view(), path@),
{
    match url {
        None => Err(Error::msg("WebSocket URL is invalid")),
        Some(url) => {
            if !text_same(url.scheme.as_str(), "ws") && !text_same(url.scheme.as_str(), "wss") {
                return Err(Error::msg("WebSocket URL must use ws:// or wss://"));
            }
            if text_same(url.path.as_str(), "/") {
                let count = url.text.as_str().unicode_len();
                let end = find_path_end(url.text.as_str());
                if end > 0 && url.text.as_str().get_char(end - 1) == '/' {
                    let base = url.text.as_str().substring_char(0, end - 1);
                    let rest = url.text.as_str().substring_char(end, count);
                    assert(base@ =~= url.text@.take(end - 1));
                    assert(rest@ =~= url.text@.skip(end as int));
                    return Ok(
                        UrlParts {
                            scheme: url.scheme,
                            path: path.to_owned(),
                            text: join3(base, path, rest),
                            host: url.host,
                        },
                    );
                }
            }
            Ok(url)
        },
    }
}

/// Reads a WebSocket address; one without a path gets the given one.
pub fn normalize_websocket_url(text: &str, path: &str) -> (r: Result<UrlParts>)
    ensures
        outcome(r) == websocket_url(text@, path@),
{
    complete_websocket_url(parse_url(text), path)
}

/// The endpoint that was read from a text.
pub open spec fn wss_endpoint_of(
    url: Option<(Seq<char>, Seq<char>, Seq<char>, Option<Seq<char>>)>,
) -> Outcome<(Seq<char>, Seq<char>, Seq<char>, Option<Seq<char>>)> {
    match websocket_url_of(url, RELAY_PATH@) {
        Err(refusal) => Err(refusal),
        Ok(url) => if url.0 != "wss"@ {
            Err("node endpoint must use wss://"@)
        } else if url.1 != RELAY_PATH@ {
            Err("node endpoint path must be "@ + RELAY_PATH@)
        } else {
            Ok(url)
        },
    }
}

/// The endpoint that a text stands for.
pub open spec fn wss_endpoint(text: Seq<char>) -> Outcome<
    (Seq<char>, Seq<char>, Seq<char>, Option<Seq<char>>),
> {
    wss_endpoint_of(url_parsed(text))
}

/// The endpoint of a node, as it is written.
pub open spec fn endpoint_text(text: Seq<char>) -> Outcome<Seq<char>> {
    match wss_endpoint(text) {
        Err(refusal) => Err(refusal),
        Ok(url) => Ok(url.2),
    }
}

/// Checks the endpoint that was read from a text.
pub fn check_wss_endpoint(url: Option<UrlParts>) -> (r: Result<UrlParts>)
    ensures
        outcome(r) == wss_endpoint_of(url.deep_view()),
{
    let url = complete_websocket_url(url, RELAY_PATH)?;
    if !text_same(url.scheme.as_str(), "wss") {
        return Err(Error::msg("node endpoint must use wss://"));
    }
    if !text_same(url.path.as_str(), RELAY_PATH) {
        return Err(Error::owned(join2("node endpoint path must be ", RELAY_PATH)));
    }
    Ok(url)
}

/// Reads the endpoint of a node.
pub fn parse_wss_endpoint(endpoint: &str) -> (r: Result<UrlParts>)
    ensures
        outcome(r) == wss_endpoint(endpoint@),
{
    check_wss_endpoint(parse_url(endpoint))
}

/// The address that a host is, if it is one.
pub open spec fn host_address(host: Seq<char>) -> Option<IpAddress> {
    if host.len() > 2 && host[0] == '[' {
        ip_read(host.subrange(1, host.len() - 1))
    } else {
        ip_read(host)
    }
}

fn read_host(host: &str) -> (r: Option<IpAddress>)
    ensures
        r == host_address(host@),
{
    let count = host.unicode_len();
    if count > 2 && host.get_char(0) == '[' {
        let inner = host.substring_char(1, count - 1);
        parse_ip(inner)
    } else {
        parse_ip(host)
    }
}

/// An address as one number, by which addresses of a kind are ordered.
pub open spec fn ip_number(ip: IpAddress) -> int {
    match ip {
        IpAddress::V4(a, b, c, d) => ((a * 256 + b) * 256 + c) * 256 + d,
        IpAddress::V6(a, b, c, d, e, f, g, h) => ((((((a * 65_536 + b) * 65_536 + c) * 65_536 + d)
            * 65_536 + e) * 65_536 + f) * 65_536 + g) * 65_536 + h,
    }
}

fn number_ip(ip: IpAddress) -> (r: u128)
    ensures
        r == ip_number(ip),
{
    match ip {
        IpAddress::V4(a, b, c, d) => ((a as u128 * 256 + b as u128) * 256 + c as u128) * 256
            + d as u128,
        IpAddress::V6(a, b, c, d, e, f, g, h) => ((((((a as u128 * 65_536 + b as u128) * 65_536
            + c as u128) * 65_536 + d as u128) * 65_536 + e as u128) * 65_536 + f as u128) * 65_536
            + g as u128) * 65_536 + h as u128,
    }
}

/// The lowest public address of one kind.
pub open spec fn lowest(found: Seq<IpAddress>, four: bool) -> Option<IpAddress>
    decreases found.len(),
{
    if found.len() == 0 {
        None
    } else {
        let ip = found.last();
        let met = is_public(ip) && (ip is V4) == four;
        match lowest(found.drop_last(), four) {
            None => if met {
                Some(ip)
            } else {
                None
            },
            Some(best) => if met && ip_number(ip) < ip_number(best) {
                Some(ip)
            } else {
                Some(best)
            },
        }
    }
}

fn find_lowest(found: &Vec<IpAddress>, four: bool) -> (r: Option<IpAddress>)
    ensures
        r == lowest(found@, four),
{
    let mut best: Option<IpAddress> = None;
    let mut i: usize = 0;
    while i < found.len()
        invariant
            i <= found@.len(),
            best == lowest(found@.take(i as int), four),
        decreases found@.len() - i,
    {
        assert(found@.take(i + 1).drop_last() =~= found@.take(i as int));
        let ip = found[i];
        let is_four = matches!(ip, IpAddress::V4(_, _, _, _));
        if is_public_ip(ip) && is_four == four {
            match best {
                None => {
                    best = Some(ip);
                },
                Some(known) => {
                    if number_ip(ip) < number_ip(known) {
                        best = Some(ip);
                    }
                },
            }
        }
        i = i + 1;
    }
    assert(found@.take(found@.len() as int) =~= found@);
    best
}

/// The public address of an endpoint, whose host was read, by the addresses that its name has.
pub open spec fn endpoint_address(host: Option<Seq<char>>, found: Seq<IpAddress>) -> Outcome<
    IpAddress,
> {
    match host {
        None => Err("node endpoint is missing its host"@),
        Some(host) => match host_address(host) {
            Some(ip) => if is_public(ip) {
                Ok(ip)
            } else {
                Err("endpoint must resolve to a globally routable public address"@)
            },
            None => match lowest(found, true) {
                Some(ip) => Ok(ip),
                None => match lowest(found, false) {
                    Some(ip) => Ok(ip),
                    None => Err("endpoint domain does not resolve to a public IP address"@),
                },
            },
        },
    }
}

/// What has been chosen is public.
proof fn lowest_is_public(found: Seq<IpAddress>, four: bool)
    ensures
        lowest(found, four) matches Some(ip) ==> is_public(ip) && found.contains(ip),
    decreases found.len(),
{
    if found.len() > 0 {
        lowest_is_public(found.drop_last(), four);
        if let Some(ip) = lowest(found.drop_last(), four) {
            let i = choose|i: int|
                0 <= i < found.drop_last().len() && found.drop_last()[i] == ip;
            assert(found[i] == ip);
        }
        assert(found[found.len() - 1] == found.last());
    }
}

/// The address at which a node is reached is public, and it is the host or one that the host's name
/// has.
pub proof fn endpoint_address_is_public(host: Option<Seq<char>>, found: Seq<IpAddress>)
    ensures
        endpoint_address(host, found) matches Ok(ip) ==> is_public(ip) && (host_address(host.unwrap())
            == Some(ip) || found.contains(ip)),
{
    lowest_is_public(found, true);
    lowest_is_public(found, false);
}

/// The public address of an endpoint, by the addresses that its name has.
pub fn resolve_endpoint_public_ip(endpoint: &str, found: &Vec<IpAddress>) -> (r: Result<IpAddress>)
    ensures
        outcome(r) == match wss_endpoint(endpoint@) {
            Err(refusal) => Err(refusal),
            Ok(url) => endpoint_address(url.3, found@),
        },
{
    let url = parse_wss_endpoint(endpoint)?;
    choose_endpoint_address(&url.host, found)
}

/// Chooses the public address of a host, by the addresses that its name has.
pub fn choose_endpoint_address(host: &Option<String>, found: &Vec<IpAddress>) -> (r: Result<
    IpAddress,
>)
    ensures
        outcome(r) == endpoint_address(host.deep_view(), found@),
{
    match host {
        None => Err(Error::msg("node endpoint is missing its host")),
        Some(host) => match read_host(host.as_str()) {
            Some(ip) => {
                if !is_public_ip(ip) {
                    return Err(
                        Error::msg("endpoint must resolve to a globally routable public address"),
                    );
                }
                Ok(ip)
            },
            None => match find_lowest(found, true) {
                Some(ip) => Ok(ip),
                None => match find_lowest(found, false) {
                    Some(ip) => Ok(ip),
                    None => Err(
                        Error::msg("endpoint domain does not resolve to a public IP address"),
                    ),
                },
            },
        },
    }
}

/// Whether an endpoint is still at an address, by the addresses that its name has.
pub open spec fn endpoint_at(
    host: Option<Seq<char>>,
    reward_ip: IpAddress,
    found: Seq<IpAddress>,
) -> Outcome<()> {
    match host {
        None => Err("node endpoint is missing its host"@),
        Some(host) => {
            let there = match host_address(host) {
                Some(ip) => ip == reward_ip,
                None => found.contains(reward_ip),
            };
            if there {
                Ok(())
            } else {
                Err("endpoint no longer resolves to registered public IP "@ + ip_text(reward_ip))
            }
        },
    }
}

/// Checks that an endpoint is still at an address.
pub fn verify_endpoint_ip(
    endpoint: &str,
    reward_ip: IpAddress,
    found: &Vec<IpAddress>,
) -> (r: Result<()>)
    ensures
        outcome(r) == match wss_endpoint(endpoint@) {
            Err(refusal) => Err(refusal),
            Ok(url) => endpoint_at(url.3, reward_ip, found@),
        },
{
    let url = parse_wss_endpoint(endpoint)?;
    check_host_address(&url.host, reward_ip, found)
}

/// Checks that a host is still at an address.
pub fn check_host_address(
    host: &Option<String>,
    reward_ip: IpAddress,
    found: &Vec<IpAddress>,
) -> (r: Result<()>)
    ensures
        outcome(r) == endpoint_at(host.deep_view(), reward_ip, found@),
{
    match host {
        None => Err(Error::msg("node endpoint is missing its host")),
        Some(host) => {
            let there = match read_host(host.as_str()) {
                Some(ip) => ip == reward_ip,
                None => contains_address(found, reward_ip),
            };
            if !there {
                return Err(
                    Error::owned(
                        join2(
                            "endpoint no longer resolves to registered public IP ",
                            write_ip(reward_ip).as_str(),
                        ),
                    ),
                );
            }
            Ok(())
        },
    }
}

fn contains_address(found: &Vec<IpAddress>, ip: IpAddress) -> (r: bool)
    ensures
        r == found@.contains(ip),
{
    let mut i: usize = 0;
    while i < found.len()
        invariant
            i <= found@.len(),
            forall|j: int| 0 <= j < i ==> found@[j] != ip,
        decreases found@.len() - i,
    {
        if found[i] == ip {
            return true;
        }
        i = i + 1;
    }
    false
}

} // verus!

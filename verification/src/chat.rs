//! The peer-to-peer chat: a name server found by beacon, a registration
//! service, a relay, and peers that push status reports and show what the
//! relay publishes.
use vstd::prelude::*;
use vstd::string::*;
use rand::rngs::ThreadRng;
use crate::decimal::{decimal, format_u64};
use crate::rng::roll_percent;
use crate::endpoint::{endpoint_text, tcp_endpoint};
use crate::status::{change_for_roll, lemma_roll_thresholds, state_word, status_change, StatusChange};
use crate::text::{
    find_last, lacks, last_sep_pos, lemma_last_sep_pos, lemma_last_sep_pos_at, lemma_split_cons,
    lemma_split_lacking, opt_view, split, split_on,
};

verus! {

/// Port of the name server's beacon.
pub const PORT_NAMESERVER: u16 = 9001;

/// Port on which the relay publishes chat messages.
pub const PORT_CHAT_PUBLISHER: u16 = 9002;

/// Port on which the relay collects chat messages.
pub const PORT_CHAT_COLLECTOR: u16 = 9003;

/// Port of the registration service.
pub const PORT_SUBSCRIBE: u16 = 9004;

/// How long a peer waits for a beacon, in milliseconds.
pub const BEACON_WAIT_MS: i32 = 2000;

/// The topic of beacon messages.
pub open spec fn beacon_topic_text() -> Seq<char> {
    "NAMESERVER"@
}

/// The topic of beacon messages, to subscribe to.
pub fn beacon_topic() -> (t: String)
    ensures
        t@ == beacon_topic_text(),
{
    String::from_str("NAMESERVER")
}

/// The beacon the name server publishes: `"NAMESERVER:<ip>"`.
pub open spec fn beacon_text(ip: Seq<char>) -> Seq<char> {
    beacon_topic_text() + ":"@ + ip
}

/// Builds the beacon of the name server at `ip`.
pub fn beacon_message(ip: &str) -> (m: String)
    ensures
        m@ == beacon_text(ip@),
{
    let mut m = String::from_str("NAMESERVER");
    m.append(":");
    m.append(ip);
    m
}

/// The server address a peer takes from a received message: the second
/// `:`-separated field, where the first is `"NAMESERVER"`.
pub open spec fn beacon_address(msg: Seq<char>) -> Option<Seq<char>> {
    let parts = split_on(msg, ':');
    if parts.len() >= 2 && parts[0] == beacon_topic_text() {
        Some(parts[1])
    } else {
        None
    }
}

/// Reads a beacon, as the peer's search does.
pub fn parse_beacon(msg: &str) -> (a: Option<String>)
    ensures
        opt_view(a) == beacon_address(msg@),
{
    let parts = split(msg, ':');
    let ghost views = parts@.map_values(|p: String| p@);
    if parts.len() >= 2 {
        assert(views[0] == parts@[0]@ && views[1] == parts@[1]@);
        let topic = beacon_topic();
        if parts[0] == topic {
            Some(parts[1].clone())
        } else {
            None
        }
    } else {
        None
    }
}

/// A peer reads from a beacon the address the name server put in it, for
/// every address without a `:`.
pub proof fn lemma_beacon_round_trip(ip: Seq<char>)
    requires
        lacks(ip, ':'),
    ensures
        beacon_address(beacon_text(ip)) == Some(ip),
{
    reveal_strlit("NAMESERVER");
    reveal_strlit(":");
    let topic = beacon_topic_text();
    assert(lacks(topic, ':'));
    lemma_split_lacking(ip, ':');
    assert(beacon_text(ip) =~= topic + seq![':'] + ip);
    lemma_split_cons(topic, ':', ip);
}

/// A beacon starts with the beacon topic, so a subscriber to that topic
/// receives every beacon.
pub proof fn lemma_beacon_has_topic(ip: Seq<char>)
    ensures
        beacon_topic_text().is_prefix_of(beacon_text(ip)),
{
    assert(beacon_text(ip).take(beacon_topic_text().len() as int) =~= beacon_topic_text());
}

/// The address prefix a peer searches: its address up to the last `.`, or
/// `"192.168.1"` when there is no `.`.
pub open spec fn mask_text(ip: Seq<char>) -> Seq<char> {
    match last_sep_pos(ip, '.') {
        Some(p) => ip.take(p),
        None => "192.168.1"@,
    }
}

/// The address prefix of `ip`, as
/// `ip.rsplitn(2, '.').nth(1).unwrap_or("192.168.1")` gives it.
pub fn ip_mask(ip: &str) -> (m: String)
    ensures
        m@ == mask_text(ip@),
{
    proof {
        lemma_last_sep_pos(ip@, '.');
    }
    match find_last(ip, '.') {
        Some(p) => ip.substring_char(0, p).to_owned(),
        None => String::from_str("192.168.1"),
    }
}

/// The `k`-th address a peer tries: `"tcp://<mask>.<k>:<port>"`.
pub open spec fn candidate_text(mask: Seq<char>, k: int, port: u16) -> Seq<char> {
    endpoint_text(mask + "."@ + decimal(k), port)
}

/// The endpoints a peer connects to while it looks for the name server:
/// one for each last address number from 1 to 254, in order.
pub fn nameserver_candidates(mask: &str, port: u16) -> (c: Vec<String>)
    ensures
        c.len() == 254,
        forall|i: int| 0 <= i < 254 ==> #[trigger] c[i]@ == candidate_text(mask@, i + 1, port),
{
    let mut c: Vec<String> = Vec::new();
    let mut last: u64 = 1;
    while last < 255
        invariant
            1 <= last <= 255,
            c.len() == last - 1,
            forall|i: int| 0 <= i < last - 1 ==> #[trigger] c[i]@ == candidate_text(mask@, i + 1, port),
        decreases 255 - last,
    {
        let mut host = String::from_str(mask);
        host.append(".");
        let digits = format_u64(last);
        host.append(digits.as_str());
        let e = tcp_endpoint(host.as_str(), port);
        c.push(e);
        last = last + 1;
    }
    c
}

/// A peer finds a name server on its own network: when the peer's address
/// and the server's share everything up to the last `.`, and the server's
/// last number is between 1 and 254, the candidates built from the peer's
/// prefix hold the endpoint on which the server publishes its beacon.
pub proof fn lemma_search_reaches_server(
    prefix: Seq<char>,
    peer_last: Seq<char>,
    server_last: int,
    port: u16,
)
    requires
        lacks(peer_last, '.'),
        1 <= server_last <= 254,
    ensures
        mask_text(prefix + "."@ + peer_last) == prefix,
        candidate_text(mask_text(prefix + "."@ + peer_last), server_last, port) == endpoint_text(
            prefix + "."@ + decimal(server_last),
            port,
        ),
{
    reveal_strlit(".");
    assert(prefix + "."@ + peer_last =~= prefix + seq!['.'] + peer_last);
    lemma_last_sep_pos_at(prefix, '.', peer_last);
    assert((prefix + seq!['.'] + peer_last).take(prefix.len() as int) =~= prefix);
}

/// The address a peer uses for itself: the one found, else `"127.0.0.1"`.
pub open spec fn own_address_text(found: Option<Seq<char>>) -> Seq<char> {
    match found {
        Some(a) => a,
        None => "127.0.0.1"@,
    }
}

/// The address a peer uses for itself, given what the lookup of the local
/// address found.
pub fn own_address(found: Option<String>) -> (a: String)
    ensures
        a@ == own_address_text(opt_view(found)),
{
    match found {
        Some(a) => a,
        None => String::from_str("127.0.0.1"),
    }
}

/// A peer's registration request: `"<ip>:<user>"`.
pub open spec fn registration_text(ip: Seq<char>, user: Seq<char>) -> Seq<char> {
    ip + ":"@ + user
}

/// Builds a peer's registration request.
pub fn registration_message(ip: &str, user: &str) -> (m: String)
    ensures
        m@ == registration_text(ip@, user@),
{
    let mut m = String::from_str(ip);
    m.append(":");
    m.append(user);
    m
}

/// A registration as the registration service reads it.
pub struct Registration {
    pub address: String,
    pub user: String,
}

/// The address and user the service takes from a request: the first two
/// `:`-separated fields, where there are at least two.
pub open spec fn registration_of(req: Seq<char>) -> Option<(Seq<char>, Seq<char>)> {
    let parts = split_on(req, ':');
    if parts.len() >= 2 {
        Some((parts[0], parts[1]))
    } else {
        None
    }
}

/// Reads a registration request, as the registration service does.
pub fn parse_registration(req: &str) -> (r: Option<Registration>)
    ensures
        r matches Some(g) ==> registration_of(req@) == Some((g.address@, g.user@)),
        r is None <==> registration_of(req@) is None,
{
    let parts = split(req, ':');
    let ghost views = parts@.map_values(|p: String| p@);
    if parts.len() >= 2 {
        assert(views[0] == parts@[0]@ && views[1] == parts@[1]@);
        Some(Registration { address: parts[0].clone(), user: parts[1].clone() })
    } else {
        None
    }
}

/// The registration service reads back the address and user name a peer
/// sent, when neither holds a `:`.
pub proof fn lemma_registration_round_trip(ip: Seq<char>, user: Seq<char>)
    requires
        lacks(ip, ':'),
        lacks(user, ':'),
    ensures
        registration_of(registration_text(ip, user)) == Some((ip, user)),
{
    reveal_strlit(":");
    assert(registration_text(ip, user) =~= ip + seq![':'] + user);
    lemma_split_lacking(user, ':');
    lemma_split_cons(ip, ':', user);
}

/// The reply of the registration service.
pub open spec fn registration_reply_text() -> Seq<char> {
    "ok"@
}

/// The reply the registration service sends to every request.
pub fn registration_reply() -> (r: String)
    ensures
        r@ == registration_reply_text(),
{
    String::from_str("ok")
}

/// A peer's registration succeeded exactly when the reply is `"ok"`.
pub fn registration_accepted(reply: &str) -> (b: bool)
    ensures
        b == (reply@ == registration_reply_text()),
{
    let r = String::from_str(reply);
    r == registration_reply()
}

/// The topic of relayed chat messages.
pub open spec fn relay_topic_text() -> Seq<char> {
    "RELAY"@
}

/// The topic of relayed chat messages, to subscribe to.
pub fn relay_topic() -> (t: String)
    ensures
        t@ == relay_topic_text(),
{
    String::from_str("RELAY")
}

/// What the relay publishes for a collected message: `"RELAY:<message>"`.
pub open spec fn relay_text(msg: Seq<char>) -> Seq<char> {
    relay_topic_text() + ":"@ + msg
}

/// Builds what the relay publishes for a collected message.
pub fn relay_message(msg: &str) -> (m: String)
    ensures
        m@ == relay_text(msg@),
{
    let mut m = String::from_str("RELAY");
    m.append(":");
    m.append(msg);
    m
}

/// A relayed message starts with the relay topic, so a subscriber to that
/// topic receives every relayed message.
pub proof fn lemma_relay_has_topic(msg: Seq<char>)
    ensures
        relay_topic_text().is_prefix_of(relay_text(msg)),
{
    assert(relay_text(msg).take(relay_topic_text().len() as int) =~= relay_topic_text());
}

/// What a peer shows of a received message: the second and third
/// `:`-separated fields joined by `:`, where there are at least three.
pub open spec fn shown_text(msg: Seq<char>) -> Option<Seq<char>> {
    let parts = split_on(msg, ':');
    if parts.len() >= 3 {
        Some(parts[1] + ":"@ + parts[2])
    } else {
        None
    }
}

/// What a peer shows of a received message, as `"{}:{}"` of its second
/// and third fields.
pub fn shown_message(msg: &str) -> (s: Option<String>)
    ensures
        opt_view(s) == shown_text(msg@),
{
    let parts = split(msg, ':');
    let ghost views = parts@.map_values(|p: String| p@);
    if parts.len() >= 3 {
        assert(views[1] == parts@[1]@ && views[2] == parts@[2]@);
        let mut s = parts[1].clone();
        s.append(":");
        s.append(parts[2].as_str());
        Some(s)
    } else {
        None
    }
}

/// A peer shows a relayed message whole, when the message holds exactly one
/// `:`.
pub proof fn lemma_relay_shows_message(a: Seq<char>, b: Seq<char>)
    requires
        lacks(a, ':'),
        lacks(b, ':'),
    ensures
        shown_text(relay_text(a + ":"@ + b)) == Some(a + ":"@ + b),
{
    reveal_strlit("RELAY");
    reveal_strlit(":");
    let topic = relay_topic_text();
    assert(lacks(topic, ':'));
    assert(relay_text(a + ":"@ + b) =~= topic + seq![':'] + (a + seq![':'] + b));
    lemma_split_lacking(b, ':');
    lemma_split_cons(a, ':', b);
    lemma_split_cons(topic, ':', a + seq![':'] + b);
}

/// A peer's status report: `"(<user>,<ip>:ON)"` or `"(<user>,<ip>:OFF)"`.
pub open spec fn peer_status_text(user: Seq<char>, ip: Seq<char>, activated: bool) -> Seq<char> {
    "("@ + user + ","@ + ip + ":"@ + state_word(activated) + ")"@
}

/// Builds a peer's status report.
pub fn peer_status(user: &str, ip: &str, activated: bool) -> (m: String)
    ensures
        m@ == peer_status_text(user@, ip@, activated),
{
    let mut m = String::from_str("(");
    m.append(user);
    m.append(",");
    m.append(ip);
    m.append(":");
    if activated {
        m.append("ON");
    } else {
        m.append("OFF");
    }
    m.append(")");
    assert(m@ =~= peer_status_text(user@, ip@, activated));
    m
}

/// Every peer that receives a relayed status report shows the report as its
/// sender wrote it, when neither the user name nor the address holds a `:`.
pub proof fn lemma_status_delivered(user: Seq<char>, ip: Seq<char>, activated: bool)
    requires
        lacks(user, ':'),
        lacks(ip, ':'),
    ensures
        shown_text(relay_text(peer_status_text(user, ip, activated))) == Some(
            peer_status_text(user, ip, activated),
        ),
{
    reveal_strlit("(");
    reveal_strlit(",");
    reveal_strlit(":");
    reveal_strlit(")");
    reveal_strlit("ON");
    reveal_strlit("OFF");
    let a = "("@ + user + ","@ + ip;
    let b = state_word(activated) + ")"@;
    assert forall|k: int| 0 <= k < a.len() implies a[k] != ':' by {
        if 1 <= k < 1 + user.len() {
            assert(a[k] == user[k - 1]);
        } else if k >= 2 + user.len() {
            assert(a[k] == ip[k - 2 - user.len()]);
        }
    }
    assert(lacks(b, ':'));
    assert(peer_status_text(user, ip, activated) =~= a + ":"@ + b);
    lemma_relay_shows_message(a, b);
}

/// What a peer pushes after `roll` while no message is waiting: its status
/// report for a roll below 10 ("ON") or above 90 ("OFF"), else nothing.
pub open spec fn peer_report_for_roll(user: Seq<char>, ip: Seq<char>, roll: int) -> Option<
    Seq<char>,
> {
    match change_for_roll(roll) {
        StatusChange::Activated => Some(peer_status_text(user, ip, true)),
        StatusChange::Deactivated => Some(peer_status_text(user, ip, false)),
        StatusChange::Unchanged => None,
    }
}

/// A peer pushes its status report exactly after a roll below 10 or above
/// 90: the "ON" report below 10, the "OFF" report above 90.
pub proof fn lemma_peer_report_thresholds(user: Seq<char>, ip: Seq<char>, roll: int)
    ensures
        peer_report_for_roll(user, ip, roll) is Some <==> (roll < 10 || roll > 90),
        roll < 10 ==> peer_report_for_roll(user, ip, roll) == Some(peer_status_text(user, ip, true)),
        roll > 90 ==> peer_report_for_roll(user, ip, roll) == Some(
            peer_status_text(user, ip, false),
        ),
{
    lemma_roll_thresholds(roll);
}

/// What a peer pushes after `roll`, if anything.
pub fn peer_report_after_roll(user: &str, ip: &str, roll: i32) -> (r: Option<String>)
    ensures
        opt_view(r) == peer_report_for_roll(user@, ip@, roll as int),
        r is Some <==> (roll < 10 || roll > 90),
        roll < 10 ==> opt_view(r) == Some(peer_status_text(user@, ip@, true)),
        roll > 90 ==> opt_view(r) == Some(peer_status_text(user@, ip@, false)),
{
    proof {
        lemma_peer_report_thresholds(user@, ip@, roll as int);
    }
    match status_change(roll) {
        StatusChange::Activated => Some(peer_status(user, ip, true)),
        StatusChange::Deactivated => Some(peer_status(user, ip, false)),
        StatusChange::Unchanged => None,
    }
}

/// An idle turn of a peer: it rolls the die and gives the roll and the
/// status report it pushes after it, if any.
pub fn roll_peer_report(rng: &mut ThreadRng, user: &str, ip: &str) -> (r: (i32, Option<String>))
    ensures
        1 <= r.0 <= 100,
        opt_view(r.1) == peer_report_for_roll(user@, ip@, r.0 as int),
{
    let roll = roll_percent(rng);
    let report = peer_report_after_roll(user, ip, roll);
    (roll, report)
}

} // verus!

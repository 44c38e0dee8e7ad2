//! The push/pull status clients: when no published message is waiting, a
//! client rolls a hundred-sided die and may push a status report.
use vstd::prelude::*;
use vstd::string::*;
use rand::rngs::ThreadRng;
use crate::decimal::{decimal, format_i64};
use crate::endpoint::{endpoint_text, tcp_endpoint};
use crate::rng::roll_percent;
use crate::text::opt_view;

verus! {

/// What a roll asks a client to report.
#[derive(PartialEq, Eq, Structural, Clone, Copy, Debug)]
pub enum StatusChange {
    /// Report "ON" (a roll below 10).
    Activated,
    /// Report "OFF" (a roll above 90).
    Deactivated,
    /// Report nothing.
    Unchanged,
}

/// The report a roll of the die asks for: below 10 "ON", above 90 "OFF",
/// else none.
pub open spec fn change_for_roll(roll: int) -> StatusChange {
    if roll < 10 {
        StatusChange::Activated
    } else if roll > 90 {
        StatusChange::Deactivated
    } else {
        StatusChange::Unchanged
    }
}

/// A roll asks for "ON" exactly below 10, for "OFF" exactly above 90, and
/// for nothing exactly from 10 to 90.
pub proof fn lemma_roll_thresholds(roll: int)
    ensures
        (change_for_roll(roll) == StatusChange::Activated) <==> roll < 10,
        (change_for_roll(roll) == StatusChange::Deactivated) <==> roll > 90,
        (change_for_roll(roll) == StatusChange::Unchanged) <==> 10 <= roll <= 90,
{
}

/// Decides what a roll asks to report.
pub fn status_change(roll: i32) -> (c: StatusChange)
    ensures
        c == change_for_roll(roll as int),
        (c == StatusChange::Activated) <==> roll < 10,
        (c == StatusChange::Deactivated) <==> roll > 90,
        (c == StatusChange::Unchanged) <==> 10 <= roll <= 90,
{
    proof {
        lemma_roll_thresholds(roll as int);
    }
    if roll < 10 {
        StatusChange::Activated
    } else if roll > 90 {
        StatusChange::Deactivated
    } else {
        StatusChange::Unchanged
    }
}

/// The word a report carries: `"ON"` or `"OFF"`.
pub open spec fn state_word(activated: bool) -> Seq<char> {
    if activated {
        "ON"@
    } else {
        "OFF"@
    }
}

/// The report of a client identified by `id`: `"( <id> :ON)"` or
/// `"( <id> :OFF)"`.
pub open spec fn client_report_text(id: Seq<char>, activated: bool) -> Seq<char> {
    "( "@ + id + " :"@ + state_word(activated) + ")"@
}

/// What a client with identity `id` pushes after `roll`: a report for a roll
/// below 10 or above 90, else nothing.
pub open spec fn client_report_for_roll(id: Seq<char>, roll: int) -> Option<Seq<char>> {
    match change_for_roll(roll) {
        StatusChange::Activated => Some(client_report_text(id, true)),
        StatusChange::Deactivated => Some(client_report_text(id, false)),
        StatusChange::Unchanged => None,
    }
}

/// A client pushes a report exactly after a roll below 10 or above 90: the
/// "ON" report below 10, the "OFF" report above 90.
pub proof fn lemma_client_report_thresholds(id: Seq<char>, roll: int)
    ensures
        client_report_for_roll(id, roll) is Some <==> (roll < 10 || roll > 90),
        roll < 10 ==> client_report_for_roll(id, roll) == Some(client_report_text(id, true)),
        roll > 90 ==> client_report_for_roll(id, roll) == Some(client_report_text(id, false)),
{
    lemma_roll_thresholds(roll);
}

/// The plain client sends exactly after a roll below 10, and what it sends
/// is the roll's decimal text.
pub proof fn lemma_number_report_threshold(roll: int)
    ensures
        number_report_for_roll(roll) is Some <==> roll < 10,
        number_report_for_roll(roll) matches Some(m) ==> m == decimal(roll),
{
}

/// Appends `"ON"` or `"OFF"`.
fn append_state_word(out: &mut String, activated: bool)
    ensures
        final(out)@ == old(out)@ + state_word(activated),
{
    if activated {
        out.append("ON");
    } else {
        out.append("OFF");
    }
}

/// The report a client with identity `id` pushes (`format!("( {} :ON)", id)`).
pub fn client_report(id: &str, activated: bool) -> (r: String)
    ensures
        r@ == client_report_text(id@, activated),
{
    let mut r = String::from_str("( ");
    r.append(id);
    r.append(" :");
    append_state_word(&mut r, activated);
    r.append(")");
    assert(r@ =~= client_report_text(id@, activated));
    r
}

/// What the client with identity `id` pushes after `roll`, if anything.
pub fn client_report_after_roll(id: &str, roll: i32) -> (r: Option<String>)
    ensures
        opt_view(r) == client_report_for_roll(id@, roll as int),
        r is Some <==> (roll < 10 || roll > 90),
        roll < 10 ==> opt_view(r) == Some(client_report_text(id@, true)),
        roll > 90 ==> opt_view(r) == Some(client_report_text(id@, false)),
{
    proof {
        lemma_client_report_thresholds(id@, roll as int);
    }
    match status_change(roll) {
        StatusChange::Activated => Some(client_report(id, true)),
        StatusChange::Deactivated => Some(client_report(id, false)),
        StatusChange::Unchanged => None,
    }
}

/// What the plain push client sends after `roll`: the roll's decimal text
/// for a roll below 10, else nothing.
pub open spec fn number_report_for_roll(roll: int) -> Option<Seq<char>> {
    if roll < 10 {
        Some(decimal(roll))
    } else {
        None
    }
}

/// What the plain push client sends after `roll` (`format!("{}", random)`).
pub fn number_report_after_roll(roll: i32) -> (r: Option<String>)
    ensures
        opt_view(r) == number_report_for_roll(roll as int),
        r is Some <==> roll < 10,
        r matches Some(m) ==> m@ == decimal(roll as int),
{
    proof {
        lemma_number_report_threshold(roll as int);
    }
    if roll < 10 {
        Some(format_i64(roll as i64))
    } else {
        None
    }
}

/// Port on which the status server publishes.
pub const STATUS_PUBLISH_PORT: u16 = 5557;

/// Port on which the status server collects reports.
pub const STATUS_COLLECT_PORT: u16 = 5558;

/// The endpoint on which the status server binds `port`: `"tcp://*:<port>"`.
pub fn status_bind_endpoint(port: u16) -> (e: String)
    ensures
        e@ == endpoint_text("*"@, port),
{
    tcp_endpoint("*", port)
}

/// The endpoint a status client connects to: `"tcp://localhost:<port>"`.
pub fn status_client_endpoint(port: u16) -> (e: String)
    ensures
        e@ == endpoint_text("localhost"@, port),
{
    tcp_endpoint("localhost", port)
}

/// An idle turn of the client with identity `id`: it rolls the die and
/// gives the roll and what it pushes after it, if anything.
pub fn roll_client_report(rng: &mut ThreadRng, id: &str) -> (r: (i32, Option<String>))
    ensures
        1 <= r.0 <= 100,
        opt_view(r.1) == client_report_for_roll(id@, r.0 as int),
{
    let roll = roll_percent(rng);
    let report = client_report_after_roll(id, roll);
    (roll, report)
}

/// An idle turn of the plain push client: it rolls the die and gives the
/// roll and what it pushes after it, if anything.
pub fn roll_number_report(rng: &mut ThreadRng) -> (r: (i32, Option<String>))
    ensures
        1 <= r.0 <= 100,
        opt_view(r.1) == number_report_for_roll(r.0 as int),
{
    let roll = roll_percent(rng);
    let report = number_report_after_roll(roll);
    (roll, report)
}

} // verus!

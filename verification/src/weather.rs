//! The weather publish/subscribe pair: the server publishes random
//! `"<zipcode> <temperature> <relhumidity>"` updates; the client subscribes
//! to one zip code, reads nineteen updates and prints an average.
use vstd::prelude::*;
use vstd::string::*;
use rand::rngs::ThreadRng;
use crate::decimal::{decimal, format_i64, i64_text, lemma_decimal_chars, lemma_decimal_round_trip, parse_i64};
use crate::endpoint::{endpoint_text, tcp_endpoint};
use crate::rng::random_in;
use crate::text::{lemma_split_cons, lemma_split_lacking, split, split_on};

verus! {

/// One weather update, as the server draws it.
pub struct WeatherUpdate {
    pub zipcode: i32,
    pub temperature: i32,
    pub relhumidity: i32,
}

/// The wire text of an update: the three numbers separated by single spaces.
pub open spec fn update_text(u: WeatherUpdate) -> Seq<char> {
    decimal(u.zipcode as int) + seq![' '] + decimal(u.temperature as int) + seq![' '] + decimal(
        u.relhumidity as int,
    )
}

/// The ranges from which the server draws an update.
pub open spec fn update_in_range(u: WeatherUpdate) -> bool {
    &&& 1 <= u.zipcode < 100_000
    &&& -80 <= u.temperature < 135
    &&& 10 <= u.relhumidity < 60
}

/// Draws an update: zip code from `1..100_000`, temperature from `-80..135`,
/// relative humidity from `10..60`.
pub fn random_update(rng: &mut ThreadRng) -> (u: WeatherUpdate)
    ensures
        update_in_range(u),
{
    let zipcode = random_in(rng, 1, 100_000);
    let temperature = random_in(rng, -80, 135);
    let relhumidity = random_in(rng, 10, 60);
    WeatherUpdate { zipcode, temperature, relhumidity }
}

/// The text the server publishes for `u`: `format!("{} {} {}", ..)`.
pub fn format_update(u: &WeatherUpdate) -> (s: String)
    ensures
        s@ == update_text(*u),
{
    let mut s = format_i64(u.zipcode as i64);
    s.append(" ");
    let t = format_i64(u.temperature as i64);
    s.append(t.as_str());
    s.append(" ");
    let h = format_i64(u.relhumidity as i64);
    s.append(h.as_str());
    proof {
        reveal_strlit(" ");
    }
    assert(s@ =~= update_text(*u));
    s
}

/// An update's text starts with the decimal zip code, so a client that
/// subscribes to a zip code's text receives every update for that zip code.
pub proof fn lemma_update_starts_with_zip(u: WeatherUpdate)
    ensures
        decimal(u.zipcode as int).is_prefix_of(update_text(u)),
{
    assert(update_text(u).take(decimal(u.zipcode as int).len() as int) =~= decimal(
        u.zipcode as int,
    ));
}

/// What a subscriber reads from an update's text.
pub struct Reading {
    pub zipcode: i64,
    pub temperature: i64,
    pub relhumidity: i64,
}

/// Every space-separated field of `s` is an `i64`.
pub open spec fn all_fields_parse(s: Seq<char>) -> bool {
    forall|k: int|
        0 <= k < split_on(s, ' ').len() ==> #[trigger] i64_text(split_on(s, ' ')[k]) is Some
}

/// What the client takes from update text `s`: every space-separated field
/// must parse as an `i64` and there must be at least three; the first three
/// are zip code, temperature and humidity. `None` where the client panics.
pub open spec fn reading_of(s: Seq<char>) -> Option<Reading> {
    let parts = split_on(s, ' ');
    if parts.len() >= 3 && all_fields_parse(s) {
        Some(
            Reading {
                zipcode: i64_text(parts[0])->Some_0,
                temperature: i64_text(parts[1])->Some_0,
                relhumidity: i64_text(parts[2])->Some_0,
            },
        )
    } else {
        None
    }
}

/// Reads an update as the client does:
/// `s.split(' ').map(|f| f.parse::<i64>().unwrap())` and the first three
/// values; `None` where that panics.
pub fn parse_reading(s: &str) -> (r: Option<Reading>)
    ensures
        r == reading_of(s@),
{
    let parts = split(s, ' ');
    let ghost views = parts@.map_values(|p: String| p@);
    let mut values: Vec<i64> = Vec::new();
    let mut i: usize = 0;
    while i < parts.len()
        invariant
            views == parts@.map_values(|p: String| p@),
            views == split_on(s@, ' '),
            i <= parts.len(),
            values.len() == i,
            forall|k: int| 0 <= k < i ==> i64_text(views[k]) == Some(#[trigger] values@[k]),
        decreases parts.len() - i,
    {
        match parse_i64(parts[i].as_str()) {
            Some(v) => {
                values.push(v);
            },
            None => {
                assert(i64_text(views[i as int]) is None);
                return None;
            },
        }
        i = i + 1;
    }
    assert(all_fields_parse(s@)) by {
        assert forall|k: int| 0 <= k < split_on(s@, ' ').len() implies #[trigger] i64_text(
            split_on(s@, ' ')[k],
        ) is Some by {
            assert(i64_text(views[k]) == Some(values@[k]));
        }
    }
    if values.len() < 3 {
        return None;
    }
    assert(i64_text(views[0]) == Some(values@[0]));
    assert(i64_text(views[1]) == Some(values@[1]));
    assert(i64_text(views[2]) == Some(values@[2]));
    Some(Reading { zipcode: values[0], temperature: values[1], relhumidity: values[2] })
}

/// A subscriber reads back exactly the numbers that the server published.
pub proof fn lemma_update_round_trip(u: WeatherUpdate)
    ensures
        reading_of(update_text(u)) == Some(
            Reading {
                zipcode: u.zipcode as i64,
                temperature: u.temperature as i64,
                relhumidity: u.relhumidity as i64,
            },
        ),
{
    let z = decimal(u.zipcode as int);
    let t = decimal(u.temperature as int);
    let h = decimal(u.relhumidity as int);
    lemma_decimal_chars(u.zipcode as int, ' ');
    lemma_decimal_chars(u.temperature as int, ' ');
    lemma_decimal_chars(u.relhumidity as int, ' ');
    lemma_split_lacking(h, ' ');
    lemma_split_cons(t, ' ', h);
    assert(z + seq![' '] + (t + seq![' '] + h) =~= update_text(u));
    lemma_split_cons(z, ' ', t + seq![' '] + h);
    let parts = split_on(update_text(u), ' ');
    assert(parts =~= seq![z, t, h]);
    lemma_decimal_round_trip(u.zipcode as int);
    lemma_decimal_round_trip(u.temperature as int);
    lemma_decimal_round_trip(u.relhumidity as int);
    assert(all_fields_parse(update_text(u))) by {
        assert forall|k: int| 0 <= k < parts.len() implies #[trigger] i64_text(parts[k]) is Some by {
            assert(k == 0 || k == 1 || k == 2);
        }
    }
}


/// The zip code the client subscribes to unless one is given.
pub open spec fn default_zip() -> Seq<char> {
    seq!['1', '0', '0', '0', '1']
}

/// The client's subscription filter: the first command-line argument after
/// the program name, else `"10001"`.
pub fn zip_filter(args: &Vec<String>) -> (f: String)
    ensures
        f@ == (if args.len() > 1 {
            args[1]@
        } else {
            default_zip()
        }),
{
    if args.len() > 1 {
        args[1].clone()
    } else {
        let f = String::from_str("10001");
        proof {
            reveal_strlit("10001");
        }
        assert(f@ =~= default_zip());
        f
    }
}

/// How many updates the client reads (`for _ in 1..20`).
pub const SAMPLE_COUNT: u32 = 19;

/// What the client divides the summed temperatures by.
pub const AVERAGE_DIVISOR: i64 = 20;

/// Integer division that rounds toward zero, as Rust's `/` does.
pub open spec fn trunc_div(a: int, b: int) -> int {
    if a >= 0 {
        a / b
    } else {
        -((-a) / b)
    }
}

/// The client's average is the quotient that rounds toward zero: twenty
/// times it falls short of the sum by less than twenty, on the side of zero,
/// for every sum.
pub proof fn lemma_average_rounds_toward_zero(t: int)
    ensures
        t >= 0 ==> 0 <= t - 20 * trunc_div(t, AVERAGE_DIVISOR as int) < 20,
        t < 0 ==> -20 < t - 20 * trunc_div(t, AVERAGE_DIVISOR as int) <= 0,
        t >= 0 ==> trunc_div(t, AVERAGE_DIVISOR as int) == t / 20,
        t < 0 ==> trunc_div(t, AVERAGE_DIVISOR as int) == -((-t) / 20),
{
    if t >= 0 {
        assert(0 <= t - 20 * (t / 20) < 20) by (nonlinear_arith)
            requires
                t >= 0,
        ;
    } else {
        let u = -t;
        assert(0 <= u - 20 * (u / 20) < 20) by (nonlinear_arith)
            requires
                u > 0,
        ;
    }
}

/// The client's running sum of temperatures.
pub struct TemperatureTally {
    pub total: i64,
    pub count: u32,
}

impl TemperatureTally {
    /// A tally with no sample yet.
    pub fn new() -> (t: TemperatureTally)
        ensures
            t.total == 0,
            t.count == 0,
    {
        TemperatureTally { total: 0, count: 0 }
    }

    /// The client has read all the updates it reads.
    pub fn is_complete(&self) -> (b: bool)
        ensures
            b == (self.count >= SAMPLE_COUNT),
    {
        self.count >= SAMPLE_COUNT
    }

    /// Adds one temperature (`total_temp += temperature`). Returns `false`,
    /// and changes nothing, where that sum leaves `i64` (where the original
    /// panics on overflow).
    pub fn record(&mut self, temperature: i64) -> (ok: bool)
        requires
            old(self).count < SAMPLE_COUNT,
        ensures
            ok == (i64::MIN <= old(self).total + temperature <= i64::MAX),
            ok ==> final(self).total == old(self).total + temperature && final(self).count
                == old(self).count + 1,
            !ok ==> *final(self) == *old(self),
    {
        match self.total.checked_add(temperature) {
            Some(sum) => {
                self.total = sum;
                self.count = self.count + 1;
                true
            },
            None => false,
        }
    }

    /// The average the client prints: the sum divided by twenty, rounded
    /// toward zero (`total_temp / 20`).
    pub fn average(&self) -> (a: i64)
        ensures
            a == trunc_div(self.total as int, AVERAGE_DIVISOR as int),
            self.total >= 0 ==> a == self.total as int / 20,
            self.total < 0 ==> a == -((-(self.total as int)) / 20),
            self.total >= 0 ==> 0 <= self.total - 20 * a < 20,
            self.total < 0 ==> -20 < self.total - 20 * a <= 0,
    {
        proof {
            lemma_average_rounds_toward_zero(self.total as int);
        }
        let t = self.total as i128;
        let q: i128 = if t >= 0 {
            t / 20
        } else {
            -((-t) / 20)
        };
        q as i64
    }
}

/// Port of the weather server.
pub const WEATHER_PORT: u16 = 5556;

/// The endpoint the weather server binds: `"tcp://*:5556"`.
pub fn weather_bind_endpoint() -> (e: String)
    ensures
        e@ == endpoint_text("*"@, WEATHER_PORT),
{
    tcp_endpoint("*", WEATHER_PORT)
}

/// The endpoint the weather client connects to: `"tcp://localhost:5556"`.
pub fn weather_client_endpoint() -> (e: String)
    ensures
        e@ == endpoint_text("localhost"@, WEATHER_PORT),
{
    tcp_endpoint("localhost", WEATHER_PORT)
}

} // verus!

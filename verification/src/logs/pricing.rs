//! What requests cost, by list prices.

use vstd::prelude::*;
use crate::logs::entry::{Entry, EntryView};
use crate::table::{entries, find, get_entry};
use crate::text::{same, starts_with};

verus! {

/// The rates of a model, in millionths of a millionth of a dollar per token.
#[derive(Clone, Copy, Debug, PartialEq, Eq, Structural)]
pub struct Rates {
    pub input: u32,
    pub cached: Option<u32>,
    pub output: u32,
    /// Writing to the cache.
    pub write: Option<u32>,
    /// Requests with more input than this cost more.
    pub threshold: Option<u64>,
}

impl DeepView for Rates {
    type V = Rates;

    open spec fn deep_view(&self) -> Rates {
        *self
    }
}

/// A price book: the rates of models, and the other names that models go by.
pub struct PriceBook {
    pub version: String,
    pub aliases: Vec<(String, String)>,
    pub prices: Vec<(String, Rates)>,
}

/// The view of a price book.
pub ghost struct Book {
    pub version: Seq<char>,
    pub aliases: Seq<(Seq<char>, Seq<char>)>,
    pub prices: Seq<(Seq<char>, Rates)>,
}

impl View for PriceBook {
    type V = Book;

    open spec fn view(&self) -> Book {
        Book {
            version: self.version@,
            aliases: entries(self.aliases@),
            prices: entries(self.prices@),
        }
    }
}

/// What a request cost.
pub struct Price {
    pub price_model: Option<String>,
    pub price_version: String,
    pub cost_nano_usd: Option<i64>,
}

/// The view of a price.
pub ghost struct Cost {
    pub model: Option<Seq<char>>,
    pub version: Seq<char>,
    pub nanos: Option<i64>,
}

impl DeepView for Price {
    type V = Cost;

    open spec fn deep_view(&self) -> Cost {
        Cost {
            model: self.price_model.deep_view(),
            version: self.price_version@,
            nanos: self.cost_nano_usd,
        }
    }
}

impl Book {
    /// The name and the rates of a model.
    pub open spec fn resolved(self, name: Seq<char>) -> Option<(Seq<char>, Rates)> {
        let own = match find(self.aliases, name) {
            Some(own) => own,
            None => name,
        };
        match find(self.prices, own) {
            Some(rates) => Some((own, rates)),
            None => None,
        }
    }

    /// The model that a request is charged for: the one that it was routed to, else the
    /// one that was asked for, except where another provider took it.
    pub open spec fn charged(self, entry: EntryView) -> Option<(Seq<char>, Rates)> {
        let routed = match entry.routed_model {
            Some(model) => self.resolved(model),
            None => None,
        };
        if routed is Some {
            routed
        } else if entry.routed_model matches Some(model) && "gemini/"@.is_prefix_of(model) {
            None
        } else {
            match entry.requested_model {
                Some(model) => self.resolved(model),
                None => None,
            }
        }
    }
}

/// Whether a request is of a kind that is charged by tokens.
pub open spec fn chargeable(entry: EntryView) -> bool {
    (entry.method == "POST"@ || entry.method == "SEND"@) && (entry.path == "/v1/responses"@
        || entry.path == "/v1/responses/compact"@ || entry.path == "/v1/chat/completions"@
        || entry.path == "/v1/completions"@)
}

/// A rate, or the input rate where there is none.
pub open spec fn rate_or(rate: Option<u32>, input: u32) -> nat {
    match rate {
        Some(rate) => rate as nat,
        None => input as nat,
    }
}

/// A count, or zero.
pub open spec fn count_of(count: Option<u64>) -> nat {
    match count {
        Some(n) => n as nat,
        None => 0,
    }
}

/// Twice the cost of tokens: a long context costs twice as much for its input and one and
/// a half times as much for its output.
pub open spec fn double_cost(rates: Rates, input: nat, cached: nat, writes: nat, output: nat) -> nat {
    let long = rates.threshold matches Some(threshold) && input > threshold;
    let read = ((input - cached - writes) * rates.input + cached * rate_or(
        rates.cached,
        rates.input,
    ) + writes * rate_or(rates.write, rates.input)) as nat;
    (read * (if long {
        4nat
    } else {
        2nat
    }) + output * rates.output * (if long {
        3nat
    } else {
        2nat
    })) as nat
}

/// The cost of a request in billionths of a dollar, rounded to the nearest. Output already
/// counts reasoning.
pub open spec fn cost_of(rates: Rates, entry: EntryView) -> Option<i64> {
    match (entry.input_tokens, entry.output_tokens) {
        (Some(input), Some(output)) => {
            let cached = count_of(entry.cached_input_tokens);
            let writes = count_of(entry.cache_write_tokens);
            if cached + writes > input {
                None
            } else {
                let nanos = (double_cost(rates, input as nat, cached, writes, output as nat) + 1000)
                    / 2000;
                if nanos < i64::MAX {
                    Some(nanos as i64)
                } else {
                    None
                }
            }
        },
        _ => None,
    }
}

/// The price of a request.
pub open spec fn priced(book: Book, entry: EntryView) -> Cost {
    match book.charged(entry) {
        None => Cost { model: None, version: book.version, nanos: None },
        Some((model, rates)) => Cost {
            model: Some(model),
            version: book.version,
            nanos: if chargeable(entry) {
                cost_of(rates, entry)
            } else {
                None
            },
        },
    }
}

fn resolve(book: &PriceBook, name: &str) -> (r: Option<(String, Rates)>)
    ensures
        r.deep_view() == book@.resolved(name@),
{
    let own = match get_entry(&book.aliases, name) {
        Some(own) => own.as_str(),
        None => name,
    };
    match get_entry(&book.prices, own) {
        Some(rates) => Some((own.to_string(), *rates)),
        None => None,
    }
}

fn select(book: &PriceBook, entry: &Entry) -> (r: Option<(String, Rates)>)
    ensures
        r.deep_view() == book@.charged(entry.deep_view()),
{
    match &entry.routed_model {
        Some(model) => {
            let routed = resolve(book, model.as_str());
            if routed.is_some() {
                return routed;
            }
            if starts_with(model.as_str(), "gemini/") {
                return None;
            }
        },
        None => {},
    }
    match &entry.requested_model {
        Some(model) => resolve(book, model.as_str()),
        None => None,
    }
}

fn is_chargeable(entry: &Entry) -> (r: bool)
    ensures
        r == chargeable(entry.deep_view()),
{
    let method = entry.method.as_str();
    let path = entry.path.as_str();
    (same(method, "POST") || same(method, "SEND")) && (same(path, "/v1/responses") || same(
        path,
        "/v1/responses/compact",
    ) || same(path, "/v1/chat/completions") || same(path, "/v1/completions"))
}

fn times(count: u64, rate: u32) -> (r: u128)
    ensures
        r == count * rate,
        r < 0x1_0000_0000_0000_0000_0000_0000,
{
    proof {
        assert(count * rate <= 0xffff_ffff_ffff_ffff * 0xffff_ffff) by (nonlinear_arith)
            requires
                count <= 0xffff_ffff_ffff_ffff,
                rate <= 0xffff_ffff,
        ;
    }
    count as u128 * rate as u128
}

fn compute_cost(rates: &Rates, entry: &Entry) -> (r: Option<i64>)
    ensures
        r == cost_of(*rates, entry.deep_view()),
{
    let input: u64 = match entry.input_tokens {
        Some(input) => input,
        None => return None,
    };
    let output: u64 = match entry.output_tokens {
        Some(output) => output,
        None => return None,
    };
    let cached: u64 = match entry.cached_input_tokens {
        Some(n) => n,
        None => 0,
    };
    let writes: u64 = match entry.cache_write_tokens {
        Some(n) => n,
        None => 0,
    };
    if cached > input || writes > input - cached {
        return None;
    }
    let cached_rate: u32 = match rates.cached {
        Some(rate) => rate,
        None => rates.input,
    };
    let write_rate: u32 = match rates.write {
        Some(rate) => rate,
        None => rates.input,
    };
    let long = match rates.threshold {
        Some(threshold) => input > threshold,
        None => false,
    };
    let plain: u64 = input - cached - writes;
    let read: u128 = times(plain, rates.input) + times(cached, cached_rate) + times(
        writes,
        write_rate,
    );
    let said: u128 = times(output, rates.output);
    let double: u128 = if long {
        read * 4 + said * 3
    } else {
        read * 2 + said * 2
    };
    let nanos: u128 = (double + 1000) / 2000;
    if nanos < i64::MAX as u128 {
        Some(nanos as i64)
    } else {
        None
    }
}

/// The price of a request by a price book.
pub fn price_by(book: &PriceBook, entry: &Entry) -> (r: Price)
    ensures
        r.deep_view() == priced(book@, entry.deep_view()),
{
    let version = book.version.clone();
    match select(book, entry) {
        None => Price { price_model: None, price_version: version, cost_nano_usd: None },
        Some((model, rates)) => {
            let cost = if is_chargeable(entry) {
                compute_cost(&rates, entry)
            } else {
                None
            };
            Price { price_model: Some(model), price_version: version, cost_nano_usd: cost }
        },
    }
}

/// The rates of the coding model.
pub open spec fn coding_rates() -> Rates {
    Rates {
        input: 2_500_000,
        cached: Some(250_000),
        output: 15_000_000,
        write: None,
        threshold: Some(272_000),
    }
}

/// The rates of the Gemini model.
pub open spec fn gemini_rates() -> Rates {
    Rates {
        input: 2_000_000,
        cached: Some(200_000),
        output: 12_000_000,
        write: None,
        threshold: Some(200_000),
    }
}

/// The list prices that are built in.
pub open spec fn built_in() -> Book {
    Book {
        version: "built-in"@,
        aliases: seq![
            ("gemini/gemini-3.1-pro-preview"@, "gemini-3.1-pro-preview"@),
            ("gemini/models/gemini-3.1-pro-preview"@, "gemini-3.1-pro-preview"@),
            ("models/gemini-3.1-pro-preview"@, "gemini-3.1-pro-preview"@),
        ],
        prices: seq![
            ("gemini-3.1-pro-preview"@, gemini_rates()),
            ("gpt-5.4"@, coding_rates()),
        ],
    }
}

/// The list prices that are built in.
pub fn book() -> (r: PriceBook)
    ensures
        r@ == built_in(),
{
    let mut aliases: Vec<(String, String)> = Vec::new();
    let gemini = "gemini-3.1-pro-preview";
    aliases.push(("gemini/gemini-3.1-pro-preview".to_string(), gemini.to_string()));
    aliases.push(("gemini/models/gemini-3.1-pro-preview".to_string(), gemini.to_string()));
    aliases.push(("models/gemini-3.1-pro-preview".to_string(), gemini.to_string()));
    let mut prices: Vec<(String, Rates)> = Vec::new();
    prices.push(
        (
            gemini.to_string(),
            Rates {
                input: 2_000_000,
                cached: Some(200_000),
                output: 12_000_000,
                write: None,
                threshold: Some(200_000),
            },
        ),
    );
    prices.push(
        (
            "gpt-5.4".to_string(),
            Rates {
                input: 2_500_000,
                cached: Some(250_000),
                output: 15_000_000,
                write: None,
                threshold: Some(272_000),
            },
        ),
    );
    proof {
        assert(entries(aliases@) =~= built_in().aliases);
        assert(entries(prices@) =~= built_in().prices);
    }
    PriceBook { version: "built-in".to_string(), aliases, prices }
}

/// The price of a request by the list prices that are built in.
pub fn price(entry: &Entry) -> (r: Price)
    ensures
        r.deep_view() == priced(built_in(), entry.deep_view()),
{
    price_by(&book(), entry)
}

/// Reasoning is part of the output: how much of it there is does not change the price.
pub proof fn reasoning_is_charged_once(book: Book, entry: EntryView, reasoning: Option<u64>)
    ensures
        priced(book, EntryView { reasoning_tokens: reasoning, ..entry }) == priced(book, entry),
{
}

} // verus!

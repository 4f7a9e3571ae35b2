//! The venue's interface: its vocabulary, the requests it takes, signed
//! where it asks for that, and the replies it gives.
use vstd::prelude::*;
use vstd::string::StringExecFns;
use hmac::{Hmac, Mac};
use sha2::Sha256;

verus! {

/// How an order is priced.
#[derive(Debug, Clone, Copy, PartialEq, Eq, Structural)]
pub enum OrderType {
    Limit,
    Market,
}

/// The direction of an order.
#[derive(Debug, Clone, Copy, PartialEq, Eq, Structural)]
pub enum OrderSide {
    Buy,
    Sell,
}

impl OrderType {
    /// The word the venue uses for this order type.
    pub open spec fn wire_name(self) -> Seq<char> {
        match self {
            OrderType::Limit => "LIMIT"@,
            OrderType::Market => "MARKET"@,
        }
    }

    pub fn as_str(&self) -> (s: &'static str)
        ensures
            s@ == self.wire_name(),
    {
        match self {
            OrderType::Limit => "LIMIT",
            OrderType::Market => "MARKET",
        }
    }

    pub fn to_string(&self) -> (s: String)
        ensures
            s@ == self.wire_name(),
    {
        self.as_str().to_owned()
    }
}

impl OrderSide {
    /// The word the venue uses for this side.
    pub open spec fn wire_name(self) -> Seq<char> {
        match self {
            OrderSide::Buy => "BUY"@,
            OrderSide::Sell => "SELL"@,
        }
    }

    pub fn as_str(&self) -> (s: &'static str)
        ensures
            s@ == self.wire_name(),
    {
        match self {
            OrderSide::Buy => "BUY",
            OrderSide::Sell => "SELL",
        }
    }

    pub fn to_string(&self) -> (s: String)
        ensures
            s@ == self.wire_name(),
    {
        self.as_str().to_owned()
    }
}

impl OrderSide {
    /// The side that `word` names on the wire, if it names one.
    pub open spec fn named_by(word: Seq<char>) -> Option<OrderSide> {
        if word == "BUY"@ {
            Some(OrderSide::Buy)
        } else if word == "SELL"@ {
            Some(OrderSide::Sell)
        } else {
            None
        }
    }

    /// Reads a side from the venue's word for it: `BUY` or `SELL`, in capitals.
    pub fn from_wire(word: &str) -> (side: Option<OrderSide>)
        ensures
            side == OrderSide::named_by(word@),
    {
        if same_text(word, "BUY") {
            Some(OrderSide::Buy)
        } else if same_text(word, "SELL") {
            Some(OrderSide::Sell)
        } else {
            None
        }
    }
}

/// Whether two strings hold the same characters.
pub fn same_text(a: &str, b: &str) -> (same: bool)
    ensures
        same == (a@ == b@),
{
    a.to_owned() == b.to_owned()
}

/// The venue's clock, in milliseconds since the epoch.
#[derive(Debug, Clone)]
pub struct ServerTime {
    pub server_time: u64,
}

/// Reply to a cancel request.
#[derive(Debug, Clone)]
pub struct CancelOrderResponse {
    pub success: bool,
    pub err_msg: String,
    pub canceled_list: Vec<u64>,
}

/// Free and locked balance of one currency, in ticks.
#[derive(Debug, Clone, Copy, PartialEq, Eq, Structural)]
pub struct BalanceInfo {
    pub free: i64,
    pub lock: i64,
}

/// One currency of a wallet.
#[derive(Debug, Clone)]
pub struct WalletEntry {
    pub currency: String,
    pub balance: BalanceInfo,
}

/// Reply to a balance query. A wallet lists each currency once.
#[derive(Debug, Clone)]
pub struct BalanceResponse {
    pub success: bool,
    pub err_msg: String,
    pub spot_wallet: Vec<WalletEntry>,
    pub margin_wallet: Vec<WalletEntry>,
}

/// The free balance of `currency` in `wallet`: that of the first entry for it.
pub open spec fn free_in(wallet: Seq<WalletEntry>, currency: Seq<char>) -> Option<i64>
    decreases wallet.len(),
{
    if wallet.len() == 0 {
        None
    } else if wallet[0].currency@ == currency {
        Some(wallet[0].balance.free)
    } else {
        free_in(wallet.subrange(1, wallet.len() as int), currency)
    }
}

impl BalanceResponse {
    /// The free spot balance of `currency`, if the wallet lists it.
    pub fn spot_free(&self, currency: &str) -> (free: Option<i64>)
        ensures
            free == free_in(self.spot_wallet@, currency@),
    {
        let mut i: usize = 0;
        assert(self.spot_wallet@.subrange(0, self.spot_wallet.len() as int) == self.spot_wallet@);
        while i < self.spot_wallet.len()
            invariant
                i <= self.spot_wallet.len(),
                free_in(self.spot_wallet@, currency@) == free_in(
                    self.spot_wallet@.subrange(i as int, self.spot_wallet.len() as int),
                    currency@,
                ),
            decreases self.spot_wallet.len() - i,
        {
            let ghost rest = self.spot_wallet@.subrange(i as int, self.spot_wallet.len() as int);
            assert(rest[0] == self.spot_wallet@[i as int]);
            assert(rest.subrange(1, rest.len() as int) == self.spot_wallet@.subrange(
                i + 1,
                self.spot_wallet.len() as int,
            ));
            if same_text(self.spot_wallet[i].currency.as_str(), currency) {
                return Some(self.spot_wallet[i].balance.free);
            }
            i += 1;
        }
        None
    }
}

/// What the venue reports of one order. Quantities are in lots, prices in
/// ticks per lot, money in ticks.
#[derive(Debug, Clone)]
pub struct OrderDetail {
    pub pair: String,
    pub order_id: u64,
    pub status: String,
    pub role: String,
    /// Microseconds the venue spent on the order.
    pub server_time_usage: u64,
    pub create_timestamp: u64,
    pub finish_timestamp: u64,
    pub side: String,
    pub order_type: String,
    pub stop_type: String,
    pub price: u64,
    pub quantity: u64,
    pub filled_quantity: u64,
    pub filled_aver_price: u64,
    pub coin_change: i64,
    pub unit_change: i64,
    pub commission_coin: String,
    pub commission_charge_value: u64,
    /// Commission rate in parts per million.
    pub commission_percent: u64,
}

/// Reply to an order placement.
#[derive(Debug, Clone)]
pub struct PlaceOrderResponse {
    pub success: bool,
    pub err_msg: String,
    pub order_detail: Option<OrderDetail>,
}

/// Reply to an order query.
#[derive(Debug, Clone)]
pub struct QueryOrderResponse {
    pub success: bool,
    pub err_msg: String,
    pub order_matched: Vec<OrderDetail>,
}

/// Pending orders of one pair.
#[derive(Debug, Clone)]
pub struct PendingPair {
    pub pair: String,
    pub pending: u32,
}

/// Reply to a pending-count query.
#[derive(Debug, Clone)]
pub struct PendingCountResponse {
    pub success: bool,
    pub err_msg: String,
    pub total_pending: u32,
    pub order_pairs: Vec<PendingPair>,
}

/// One tradable pair of the venue.
#[derive(Debug, Clone)]
pub struct TradePair {
    pub coin: String,
    pub coin_full_name: String,
    pub unit: String,
    pub unit_full_name: String,
    pub can_trade: bool,
    pub price_precision: u32,
    pub amount_precision: u32,
    /// The smallest order, in ticks.
    pub mini_order: u64,
}

/// A pair under its name.
#[derive(Debug, Clone)]
pub struct NamedPair {
    pub name: String,
    pub pair: TradePair,
}

/// What the venue trades.
#[derive(Debug, Clone)]
pub struct ExchangeInfo {
    pub is_running: bool,
    pub initial_wallet: Vec<WalletEntry>,
    pub trade_pairs: Vec<NamedPair>,
}

/// The market of one pair. Prices in ticks per lot, values in ticks and
/// lots, the change in parts per million.
#[derive(Debug, Clone, Copy, PartialEq, Eq, Structural)]
pub struct TickerData {
    pub max_bid: u64,
    pub min_ask: u64,
    pub last_price: u64,
    pub change: i64,
    pub coin_trade_value: u64,
    pub unit_trade_value: u64,
}

/// A ticker under its pair's name.
#[derive(Debug, Clone)]
pub struct NamedTicker {
    pub pair: String,
    pub ticker: TickerData,
}

/// Reply to a ticker query.
#[derive(Debug, Clone)]
pub struct TickerResponse {
    pub success: bool,
    pub err_msg: String,
    pub server_time: u64,
    pub data: Vec<NamedTicker>,
}

/// Why a call to the venue failed.
#[derive(Debug, Clone)]
pub enum RoostooError {
    /// The request did not get through; the text says why.
    RequestError(String),
    /// The venue refused.
    ApiError(String),
    /// The reply could not be read as the expected value.
    SerializationError(String),
    AuthError(String),
    InvalidParameter(String),
    /// The reply is not the JSON that was expected.
    JsonParseError(String),
}

impl RoostooError {
    /// The error in words: what kind it is, and its text.
    pub open spec fn text(self) -> Seq<char> {
        match self {
            RoostooError::RequestError(m) => "HTTP request error: "@ + m@,
            RoostooError::ApiError(m) => "API error: "@ + m@,
            RoostooError::SerializationError(m) => "Serialization error: "@ + m@,
            RoostooError::AuthError(m) => "Authentication error: "@ + m@,
            RoostooError::InvalidParameter(m) => "Invalid parameter: "@ + m@,
            RoostooError::JsonParseError(m) => "Invalid JSON: "@ + m@,
        }
    }

    pub fn to_string(&self) -> (s: String)
        ensures
            s@ == self.text(),
    {
        match self {
            RoostooError::RequestError(m) => "HTTP request error: ".to_owned().concat(m.as_str()),
            RoostooError::ApiError(m) => "API error: ".to_owned().concat(m.as_str()),
            RoostooError::SerializationError(m) => "Serialization error: ".to_owned().concat(
                m.as_str(),
            ),
            RoostooError::AuthError(m) => "Authentication error: ".to_owned().concat(m.as_str()),
            RoostooError::InvalidParameter(m) => "Invalid parameter: ".to_owned().concat(
                m.as_str(),
            ),
            RoostooError::JsonParseError(m) => "Invalid JSON: ".to_owned().concat(m.as_str()),
        }
    }
}

/// The character of one decimal or hexadecimal digit.
pub open spec fn digit_char(d: u8) -> char {
    match d {
        0 => '0',
        1 => '1',
        2 => '2',
        3 => '3',
        4 => '4',
        5 => '5',
        6 => '6',
        7 => '7',
        8 => '8',
        9 => '9',
        10 => 'a',
        11 => 'b',
        12 => 'c',
        13 => 'd',
        14 => 'e',
        _ => 'f',
    }
}

/// The characters of a sequence of digits.
pub open spec fn text_of(digits: Seq<u8>) -> Seq<char> {
    digits.map_values(|d: u8| digit_char(d))
}

/// The decimal digits of `n`, most significant first, without leading zeros.
pub open spec fn decimal_digits(n: nat) -> Seq<u8>
    decreases n,
{
    if n < 10 {
        seq![n as u8]
    } else {
        decimal_digits(n / 10).push((n % 10) as u8)
    }
}

/// `n` in decimal.
pub open spec fn decimal_of(n: nat) -> Seq<char> {
    text_of(decimal_digits(n))
}

/// `count` zeros.
pub open spec fn zeros(count: nat) -> Seq<u8> {
    Seq::new(count, |i: int| 0u8)
}

/// The text of the number `units / 10^digits`: with no fractional digits
/// the decimal of `units`; otherwise an integer part of at least one digit, a
/// point, and exactly `digits` fractional digits.
pub open spec fn fixed_point(units: nat, digits: nat) -> Seq<char> {
    let d = decimal_digits(units);
    if digits == 0 {
        text_of(d)
    } else if d.len() > digits {
        text_of(d.subrange(0, d.len() - digits)) + seq!['.'] + text_of(
            d.subrange(d.len() - digits, d.len() as int),
        )
    } else {
        seq!['0', '.'] + text_of(zeros((digits - d.len()) as nat)) + text_of(d)
    }
}

/// Two lower-case hexadecimal digits for each byte.
pub open spec fn hex_of(bytes: Seq<u8>) -> Seq<char>
    decreases bytes.len(),
{
    if bytes.len() == 0 {
        Seq::empty()
    } else {
        hex_of(bytes.drop_last()) + seq![
            digit_char(bytes.last() / 16),
            digit_char(bytes.last() % 16),
        ]
    }
}

/// The HMAC-SHA256 tag of `message` under `key`, both as UTF-8.
pub uninterp spec fn hmac_sha256_tag(key: Seq<char>, message: Seq<char>) -> Seq<u8>;

/// Computes the HMAC of `message` under `key` with SHA-256, through
/// `hmac::Hmac<sha2::Sha256>` (`new_from_slice`, `update`, `finalize`). The
/// tag is a function of the two texts and has 32 bytes. The construction
/// takes a key of any length.
#[verifier::external_body]
fn hmac_sha256(key: &str, message: &str) -> (tag: Vec<u8>)
    ensures
        tag@ == hmac_sha256_tag(key@, message@),
        tag@.len() == 32,
{
    let mut mac = Hmac::<Sha256>::new_from_slice(key.as_bytes()).expect(
        "HMAC can take key of any size",
    );
    mac.update(message.as_bytes());
    mac.finalize().into_bytes().to_vec()
}

/// Writes `bytes` in hexadecimal through `hex::encode`: two digits per byte,
/// the high one first, letters in lower case.
#[verifier::external_body]
fn hex_encode(bytes: &Vec<u8>) -> (text: String)
    ensures
        text@ == hex_of(bytes@),
{
    hex::encode(bytes)
}

/// The text of one decimal digit.
fn digit_str(d: u8) -> (s: &'static str)
    requires
        d < 10,
    ensures
        s@ == seq![digit_char(d)],
{
    proof {
        reveal_strlit("0");
        reveal_strlit("1");
        reveal_strlit("2");
        reveal_strlit("3");
        reveal_strlit("4");
        reveal_strlit("5");
        reveal_strlit("6");
        reveal_strlit("7");
        reveal_strlit("8");
        reveal_strlit("9");
    }
    let s = match d {
        0 => "0",
        1 => "1",
        2 => "2",
        3 => "3",
        4 => "4",
        5 => "5",
        6 => "6",
        7 => "7",
        8 => "8",
        _ => "9",
    };
    assert(s@ =~= seq![digit_char(d)]);
    s
}

/// Appends the decimal digits of `n` to `out`.
fn push_digits(out: &mut Vec<u8>, n: u64)
    ensures
        final(out)@ == old(out)@ + decimal_digits(n as nat),
        forall|i: int| 0 <= i < decimal_digits(n as nat).len() ==> decimal_digits(n as nat)[i] < 10,
    decreases n,
{
    if n >= 10 {
        push_digits(out, n / 10);
    }
    out.push((n % 10) as u8);
    assert(out@ =~= old(out)@ + decimal_digits(n as nat));
}

/// Appends the characters of `digits[from..to]` to `out`.
fn push_text(out: &mut String, digits: &Vec<u8>, from: usize, to: usize)
    requires
        from <= to <= digits.len(),
        forall|i: int| 0 <= i < digits.len() ==> digits[i] < 10,
    ensures
        final(out)@ == old(out)@ + text_of(digits@.subrange(from as int, to as int)),
{
    let mut i: usize = from;
    assert(out@ =~= old(out)@ + text_of(digits@.subrange(from as int, i as int)));
    while i < to
        invariant
            from <= i <= to <= digits.len(),
            forall|j: int| 0 <= j < digits.len() ==> digits[j] < 10,
            out@ == old(out)@ + text_of(digits@.subrange(from as int, i as int)),
        decreases to - i,
    {
        out.append(digit_str(digits[i]));
        assert(out@ =~= old(out)@ + text_of(digits@.subrange(from as int, i + 1)));
        i += 1;
    }
}

/// `n` in decimal.
pub fn decimal(n: u64) -> (text: String)
    ensures
        text@ == decimal_of(n as nat),
{
    let mut digits: Vec<u8> = Vec::new();
    push_digits(&mut digits, n);
    let mut text = String::new();
    push_text(&mut text, &digits, 0, digits.len());
    assert(digits@.subrange(0, digits.len() as int) =~= digits@);
    assert(digits@ =~= decimal_digits(n as nat));
    assert(text@ =~= decimal_of(n as nat));
    text
}

/// A number with a fixed count of decimal digits after the point:
/// `units / 10^digits`.
#[derive(Debug, Clone, Copy, PartialEq, Eq, Structural)]
pub struct Decimal {
    pub units: u64,
    pub digits: u64,
}

impl Decimal {
    /// The number as the venue reads it.
    pub fn to_string(&self) -> (text: String)
        ensures
            text@ == fixed_point(self.units as nat, self.digits as nat),
    {
        let mut digits: Vec<u8> = Vec::new();
        push_digits(&mut digits, self.units);
        assert(digits@ =~= decimal_digits(self.units as nat));
        let len: usize = digits.len();
        let mut text = String::new();
        if self.digits == 0 {
            push_text(&mut text, &digits, 0, len);
            assert(digits@.subrange(0, len as int) =~= digits@);
            assert(text@ =~= text_of(digits@));
        } else if (len as u64) > self.digits {
            let split: usize = len - (self.digits as usize);
            push_text(&mut text, &digits, 0, split);
            proof {
                reveal_strlit(".");
            }
            text.append(".");
            push_text(&mut text, &digits, split, len);
            assert(text@ =~= text_of(digits@.subrange(0, split as int)) + seq!['.'] + text_of(
                digits@.subrange(split as int, len as int),
            ));
        } else {
            proof {
                reveal_strlit("0.");
            }
            text.append("0.");
            assert(text@ =~= seq!['0', '.']);
            let padding: u64 = self.digits - (len as u64);
            let mut k: u64 = 0;
            while k < padding
                invariant
                    k <= padding,
                    text@ == seq!['0', '.'] + text_of(zeros(k as nat)),
                decreases padding - k,
            {
                text.append("0");
                proof {
                    reveal_strlit("0");
                }
                assert("0"@ =~= seq!['0']);
                assert(text_of(zeros((k + 1) as nat)) =~= text_of(zeros(k as nat)) + seq!['0']);
                assert(text@ =~= seq!['0', '.'] + text_of(zeros((k + 1) as nat)));
                k += 1;
            }
            push_text(&mut text, &digits, 0, len);
            assert(digits@.subrange(0, len as int) =~= digits@);
        }
        text
    }
}

/// How a request goes out.
#[derive(Debug, Clone, Copy, PartialEq, Eq, Structural)]
pub enum Method {
    Get,
    Post,
}

/// A named value: a header, or a parameter of a query.
#[derive(Debug, Clone)]
pub struct Param {
    pub name: String,
    pub value: String,
}

impl View for Param {
    type V = (Seq<char>, Seq<char>);

    open spec fn view(&self) -> (Seq<char>, Seq<char>) {
        (self.name@, self.value@)
    }
}

/// The names and values of `params`.
pub open spec fn params_view(params: Seq<Param>) -> Seq<(Seq<char>, Seq<char>)> {
    params.map_values(|p: Param| p@)
}

/// A request as mathematics sees it.
pub struct RequestView {
    pub method: Method,
    pub url: Seq<char>,
    pub query: Seq<(Seq<char>, Seq<char>)>,
    pub headers: Seq<(Seq<char>, Seq<char>)>,
    pub body: Option<Seq<char>>,
}

/// A request to the venue, ready to be sent.
#[derive(Debug, Clone)]
pub struct Request {
    pub method: Method,
    pub url: String,
    pub query: Vec<Param>,
    pub headers: Vec<Param>,
    pub body: Option<String>,
}

impl View for Request {
    type V = RequestView;

    open spec fn view(&self) -> RequestView {
        RequestView {
            method: self.method,
            url: self.url@,
            query: params_view(self.query@),
            headers: params_view(self.headers@),
            body: match self.body {
                Some(b) => Some(b@),
                None => None,
            },
        }
    }
}

/// The signature of `params` under `secret`: the HMAC-SHA256 tag in
/// hexadecimal.
pub open spec fn signature_of(secret: Seq<char>, params: Seq<char>) -> Seq<char> {
    hex_of(hmac_sha256_tag(secret, params))
}

/// The headers of a signed request.
pub open spec fn signed_headers(api_key: Seq<char>, secret: Seq<char>, params: Seq<char>) -> Seq<
    (Seq<char>, Seq<char>),
> {
    seq![
        ("RST-API-KEY"@, api_key),
        ("MSG-SIGNATURE"@, signature_of(secret, params)),
        ("content-type"@, "application/x-www-form-urlencoded"@),
    ]
}

/// `timestamp=` and the time in decimal.
pub open spec fn timestamp_param(timestamp: u64) -> Seq<char> {
    "timestamp="@ + decimal_of(timestamp as nat)
}

/// The parameters of an order, sorted by name and joined by `&`.
pub open spec fn order_params(
    pair: Seq<char>,
    side: OrderSide,
    order_type: OrderType,
    quantity: Decimal,
    price: Option<Decimal>,
    timestamp: u64,
) -> Seq<char> {
    "pair="@ + pair + match price {
        Some(p) => "&price="@ + fixed_point(p.units as nat, p.digits as nat),
        None => Seq::empty(),
    } + "&quantity="@ + fixed_point(quantity.units as nat, quantity.digits as nat) + "&side="@
        + side.wire_name() + "&"@ + timestamp_param(timestamp) + "&type="@ + order_type.wire_name()
}

/// The parameters that select orders: by identifier if one is given, else by
/// pair, with the pending filter if it is given; always with the time. Sorted
/// by name and joined by `&`.
pub open spec fn selection_params(
    order_id: Option<u64>,
    pair: Option<Seq<char>>,
    pending_only: Option<bool>,
    timestamp: u64,
) -> Seq<char> {
    match order_id {
        Some(id) => "order_id="@ + decimal_of(id as nat) + "&"@ + timestamp_param(timestamp),
        None => match pair {
            Some(p) => "pair="@ + p + match pending_only {
                Some(true) => "&pending_only=TRUE"@,
                Some(false) => "&pending_only=FALSE"@,
                None => Seq::empty(),
            } + "&"@ + timestamp_param(timestamp),
            None => timestamp_param(timestamp),
        },
    }
}

/// The venue's client: where the venue is, and the keys of the account.
#[derive(Debug, Clone)]
pub struct RoostooClient {
    pub base_url: String,
    pub api_key: String,
    pub secret_key: String,
}

impl RoostooClient {
    /// A client of the mock venue.
    pub fn new(api_key: String, secret_key: String) -> (client: Self)
        ensures
            client.base_url@ == "https://mock-api.roostoo.com"@,
            client.api_key == api_key,
            client.secret_key == secret_key,
    {
        Self { base_url: "https://mock-api.roostoo.com".to_owned(), api_key, secret_key }
    }

    /// The same client at another venue.
    pub fn with_base_url(self, base_url: String) -> (client: Self)
        ensures
            client.base_url == base_url,
            client.api_key == self.api_key,
            client.secret_key == self.secret_key,
    {
        Self { base_url, api_key: self.api_key, secret_key: self.secret_key }
    }

    /// The signature of `params` under the secret key.
    pub fn create_signature(&self, params: &str) -> (signature: String)
        ensures
            signature@ == signature_of(self.secret_key@, params@),
    {
        let tag = hmac_sha256(self.secret_key.as_str(), params);
        hex_encode(&tag)
    }

    /// The headers that sign a request with the parameters `params`.
    pub fn create_signed_headers(&self, params: &str) -> (headers: Vec<Param>)
        ensures
            params_view(headers@) == signed_headers(self.api_key@, self.secret_key@, params@),
    {
        let mut headers: Vec<Param> = Vec::new();
        headers.push(Param { name: "RST-API-KEY".to_owned(), value: self.api_key.clone() });
        headers.push(
            Param { name: "MSG-SIGNATURE".to_owned(), value: self.create_signature(params) },
        );
        headers.push(
            Param {
                name: "content-type".to_owned(),
                value: "application/x-www-form-urlencoded".to_owned(),
            },
        );
        assert(params_view(headers@) =~= signed_headers(
            self.api_key@,
            self.secret_key@,
            params@,
        ));
        headers
    }

    /// The address of `path` at the venue.
    fn url(&self, path: &str) -> (url: String)
        ensures
            url@ == self.base_url@ + path@,
    {
        self.base_url.clone().concat(path)
    }

    /// A request that carries nothing but its address.
    fn bare(&self, path: &str) -> (request: Request)
        ensures
            request@ == (RequestView {
                method: Method::Get,
                url: self.base_url@ + path@,
                query: Seq::empty(),
                headers: Seq::empty(),
                body: None,
            }),
    {
        let request = Request {
            method: Method::Get,
            url: self.url(path),
            query: Vec::new(),
            headers: Vec::new(),
            body: None,
        };
        assert(request@.query =~= Seq::empty());
        assert(request@.headers =~= Seq::empty());
        request
    }

    /// A signed query that carries the time.
    fn timed(&self, path: &str, timestamp: u64) -> (request: Request)
        ensures
            request@ == (RequestView {
                method: Method::Get,
                url: self.base_url@ + path@,
                query: seq![("timestamp"@, decimal_of(timestamp as nat))],
                headers: signed_headers(
                    self.api_key@,
                    self.secret_key@,
                    timestamp_param(timestamp),
                ),
                body: None,
            }),
    {
        let params: String = "timestamp=".to_owned().concat(decimal(timestamp).as_str());
        let mut query: Vec<Param> = Vec::new();
        query.push(Param { name: "timestamp".to_owned(), value: decimal(timestamp) });
        let request = Request {
            method: Method::Get,
            url: self.url(path),
            query,
            headers: self.create_signed_headers(params.as_str()),
            body: None,
        };
        assert(request@.query =~= seq![("timestamp"@, decimal_of(timestamp as nat))]);
        request
    }

    /// A signed post of `params`.
    fn posted(&self, path: &str, params: String) -> (request: Request)
        ensures
            request@ == (RequestView {
                method: Method::Post,
                url: self.base_url@ + path@,
                query: Seq::empty(),
                headers: signed_headers(self.api_key@, self.secret_key@, params@),
                body: Some(params@),
            }),
    {
        let headers = self.create_signed_headers(params.as_str());
        let request = Request {
            method: Method::Post,
            url: self.url(path),
            query: Vec::new(),
            headers,
            body: Some(params),
        };
        assert(request@.query =~= Seq::empty());
        request
    }

    /// The request for the venue's time.
    pub fn check_server_time(&self) -> (request: Request)
        ensures
            request@ == (RequestView {
                method: Method::Get,
                url: self.base_url@ + "/v3/serverTime"@,
                query: Seq::empty(),
                headers: Seq::empty(),
                body: None,
            }),
    {
        self.bare("/v3/serverTime")
    }

    /// The request for what the venue trades.
    pub fn get_exchange_info(&self) -> (request: Request)
        ensures
            request@ == (RequestView {
                method: Method::Get,
                url: self.base_url@ + "/v3/exchangeInfo"@,
                query: Seq::empty(),
                headers: Seq::empty(),
                body: None,
            }),
    {
        self.bare("/v3/exchangeInfo")
    }

    /// The request for the ticker of `pair`.
    pub fn get_ticker(&self, pair: &str, timestamp: u64) -> (request: Request)
        ensures
            request@ == (RequestView {
                method: Method::Get,
                url: self.base_url@ + "/v3/ticker"@,
                query: seq![("pair"@, pair@), ("timestamp"@, decimal_of(timestamp as nat))],
                headers: Seq::empty(),
                body: None,
            }),
    {
        let mut query: Vec<Param> = Vec::new();
        query.push(Param { name: "pair".to_owned(), value: pair.to_owned() });
        query.push(Param { name: "timestamp".to_owned(), value: decimal(timestamp) });
        let request = Request {
            method: Method::Get,
            url: self.url("/v3/ticker"),
            query,
            headers: Vec::new(),
            body: None,
        };
        assert(request@.query =~= seq![
            ("pair"@, pair@),
            ("timestamp"@, decimal_of(timestamp as nat)),
        ]);
        assert(request@.headers =~= Seq::empty());
        request
    }

    /// The signed request for the balances.
    pub fn get_balance(&self, timestamp: u64) -> (request: Request)
        ensures
            request@ == (RequestView {
                method: Method::Get,
                url: self.base_url@ + "/v3/balance"@,
                query: seq![("timestamp"@, decimal_of(timestamp as nat))],
                headers: signed_headers(
                    self.api_key@,
                    self.secret_key@,
                    timestamp_param(timestamp),
                ),
                body: None,
            }),
    {
        self.timed("/v3/balance", timestamp)
    }

    /// The signed request for the count of pending orders.
    pub fn get_pending_count(&self, timestamp: u64) -> (request: Request)
        ensures
            request@ == (RequestView {
                method: Method::Get,
                url: self.base_url@ + "/v3/pending_count"@,
                query: seq![("timestamp"@, decimal_of(timestamp as nat))],
                headers: signed_headers(
                    self.api_key@,
                    self.secret_key@,
                    timestamp_param(timestamp),
                ),
                body: None,
            }),
    {
        self.timed("/v3/pending_count", timestamp)
    }

    /// The signed post of an order's parameters.
    pub open spec fn order_request(
        &self,
        pair: Seq<char>,
        side: OrderSide,
        order_type: OrderType,
        quantity: Decimal,
        price: Option<Decimal>,
        timestamp: u64,
    ) -> RequestView {
        RequestView {
            method: Method::Post,
            url: self.base_url@ + "/v3/place_order"@,
            query: Seq::empty(),
            headers: signed_headers(
                self.api_key@,
                self.secret_key@,
                order_params(pair, side, order_type, quantity, price, timestamp),
            ),
            body: Some(order_params(pair, side, order_type, quantity, price, timestamp)),
        }
    }

    /// The signed request that places an order. A limit order needs a price.
    pub fn place_order(
        &self,
        pair: &str,
        side: OrderSide,
        order_type: OrderType,
        quantity: Decimal,
        price: Option<Decimal>,
        timestamp: u64,
    ) -> (r: Result<Request, RoostooError>)
        ensures
            order_type == OrderType::Limit && price is None ==> (r matches Err(
                RoostooError::InvalidParameter(m),
            ) && m@ == "LIMIT orders require a price"@),
            !(order_type == OrderType::Limit && price is None) ==> (r matches Ok(request)
                && request@ == self.order_request(
                pair@,
                side,
                order_type,
                quantity,
                price,
                timestamp,
            )),
    {
        if order_type == OrderType::Limit && price.is_none() {
            return Err(RoostooError::InvalidParameter("LIMIT orders require a price".to_owned()));
        }
        let mut params: String = "pair=".to_owned().concat(pair);
        match price {
            Some(p) => {
                params.append("&price=");
                params.append(p.to_string().as_str());
            },
            None => {},
        }
        params.append("&quantity=");
        params.append(quantity.to_string().as_str());
        params.append("&side=");
        params.append(side.as_str());
        params.append("&timestamp=");
        params.append(decimal(timestamp).as_str());
        params.append("&type=");
        params.append(order_type.as_str());
        proof {
            reveal_strlit("&");
            reveal_strlit("timestamp=");
            reveal_strlit("&timestamp=");
            assert("&timestamp="@ =~= "&"@ + "timestamp="@);
            assert(params@ =~= order_params(pair@, side, order_type, quantity, price, timestamp));
        }
        Ok(self.posted("/v3/place_order", params))
    }

    /// The parameters that select orders.
    fn selection(
        order_id: Option<u64>,
        pair: Option<&str>,
        pending_only: Option<bool>,
        timestamp: u64,
    ) -> (params: String)
        ensures
            params@ == selection_params(
                order_id,
                match pair {
                    Some(p) => Some(p@),
                    None => None,
                },
                pending_only,
                timestamp,
            ),
    {
        let mut params: String = String::new();
        match order_id {
            Some(id) => {
                params.append("order_id=");
                params.append(decimal(id).as_str());
                params.append("&");
            },
            None => match pair {
                Some(p) => {
                    params.append("pair=");
                    params.append(p);
                    match pending_only {
                        Some(true) => {
                            params.append("&pending_only=TRUE");
                        },
                        Some(false) => {
                            params.append("&pending_only=FALSE");
                        },
                        None => {},
                    }
                    params.append("&");
                },
                None => {},
            },
        }
        params.append("timestamp=");
        params.append(decimal(timestamp).as_str());
        assert(params@ =~= selection_params(
            order_id,
            match pair {
                Some(p) => Some(p@),
                None => None,
            },
            pending_only,
            timestamp,
        ));
        params
    }

    /// The signed request that queries orders: the one with `order_id`, or
    /// else those of `pair`, all or only the pending ones.
    pub fn query_order(
        &self,
        order_id: Option<u64>,
        pair: Option<&str>,
        pending_only: Option<bool>,
        timestamp: u64,
    ) -> (request: Request)
        ensures
            request@.method == Method::Post,
            request@.url == self.base_url@ + "/v3/query_order"@,
            request@.query == Seq::<(Seq<char>, Seq<char>)>::empty(),
            request@.body == Some(
                selection_params(
                    order_id,
                    match pair {
                        Some(p) => Some(p@),
                        None => None,
                    },
                    pending_only,
                    timestamp,
                ),
            ),
            request@.headers == signed_headers(
                self.api_key@,
                self.secret_key@,
                request@.body.unwrap(),
            ),
    {
        self.posted(
            "/v3/query_order",
            RoostooClient::selection(order_id, pair, pending_only, timestamp),
        )
    }

    /// The signed request that cancels orders: the one with `order_id`, or
    /// else those of `pair`, or else all.
    pub fn cancel_order(&self, order_id: Option<u64>, pair: Option<&str>, timestamp: u64) -> (request:
        Request)
        ensures
            request@.method == Method::Post,
            request@.url == self.base_url@ + "/v3/cancel_order"@,
            request@.query == Seq::<(Seq<char>, Seq<char>)>::empty(),
            request@.body == Some(
                selection_params(
                    order_id,
                    match pair {
                        Some(p) => Some(p@),
                        None => None,
                    },
                    None,
                    timestamp,
                ),
            ),
            request@.headers == signed_headers(
                self.api_key@,
                self.secret_key@,
                request@.body.unwrap(),
            ),
    {
        self.posted("/v3/cancel_order", RoostooClient::selection(order_id, pair, None, timestamp))
    }
}

/// What a reply to an order placement holds, as far as it could be read.
#[derive(Debug, Clone)]
pub struct PlaceOrderFields {
    /// The `Success` flag, if the reply has one.
    pub success: Option<bool>,
    /// The `ErrMsg` text, if the reply has one.
    pub err_msg: Option<String>,
    /// The `OrderDetail`, if the reply has one that can be read.
    pub order_detail: Option<OrderDetail>,
}

/// Reads a reply that stands for itself: a good status gives the body, or the
/// reason why it could not be read; a bad one gives `failure`.
fn read_plain<T>(status_ok: bool, body: Result<T, String>, failure: &str) -> (r: Result<
    T,
    RoostooError,
>)
    ensures
        status_ok ==> match body {
            Ok(v) => r == Ok::<T, RoostooError>(v),
            Err(e) => (r matches Err(RoostooError::RequestError(m)) && m == e),
        },
        !status_ok ==> (r matches Err(RoostooError::ApiError(m)) && m@ == failure@),
{
    if status_ok {
        match body {
            Ok(v) => Ok(v),
            Err(e) => Err(RoostooError::RequestError(e)),
        }
    } else {
        Err(RoostooError::ApiError(failure.to_owned()))
    }
}

/// Reads the reply to a time query.
pub fn read_server_time(status_ok: bool, body: Result<ServerTime, String>) -> (r: Result<
    ServerTime,
    RoostooError,
>)
    ensures
        status_ok ==> match body {
            Ok(v) => r == Ok::<ServerTime, RoostooError>(v),
            Err(e) => (r matches Err(RoostooError::RequestError(m)) && m == e),
        },
        !status_ok ==> (r matches Err(RoostooError::ApiError(m)) && m@
            == "Failed to get server time"@),
{
    read_plain(status_ok, body, "Failed to get server time")
}

/// Reads the reply to a query for what the venue trades.
pub fn read_exchange_info(status_ok: bool, body: Result<ExchangeInfo, String>) -> (r: Result<
    ExchangeInfo,
    RoostooError,
>)
    ensures
        status_ok ==> match body {
            Ok(v) => r == Ok::<ExchangeInfo, RoostooError>(v),
            Err(e) => (r matches Err(RoostooError::RequestError(m)) && m == e),
        },
        !status_ok ==> (r matches Err(RoostooError::ApiError(m)) && m@
            == "Failed to get exchange info"@),
{
    read_plain(status_ok, body, "Failed to get exchange info")
}

/// Reads the reply to a ticker query: the venue's refusal is an error.
pub fn read_ticker(status_ok: bool, body: Result<TickerResponse, String>) -> (r: Result<
    TickerResponse,
    RoostooError,
>)
    ensures
        status_ok ==> match body {
            Ok(v) => if v.success {
                r == Ok::<TickerResponse, RoostooError>(v)
            } else {
                (r matches Err(RoostooError::ApiError(m)) && m == v.err_msg)
            },
            Err(e) => (r matches Err(RoostooError::RequestError(m)) && m == e),
        },
        !status_ok ==> (r matches Err(RoostooError::ApiError(m)) && m@ == "Failed to get ticker"@),
{
    match read_plain(status_ok, body, "Failed to get ticker") {
        Ok(v) => if v.success {
            Ok(v)
        } else {
            Err(RoostooError::ApiError(v.err_msg))
        },
        Err(e) => Err(e),
    }
}

/// Reads the reply to a balance query: the venue's refusal is an error, and a
/// bad status is reported with the text that came with it.
pub fn read_balance(status_ok: bool, body: Result<BalanceResponse, String>, error_text: &str) -> (r:
    Result<BalanceResponse, RoostooError>)
    ensures
        status_ok ==> match body {
            Ok(v) => if v.success {
                r == Ok::<BalanceResponse, RoostooError>(v)
            } else {
                (r matches Err(RoostooError::ApiError(m)) && m == v.err_msg)
            },
            Err(e) => (r matches Err(RoostooError::SerializationError(m)) && m == e),
        },
        !status_ok ==> (r matches Err(RoostooError::ApiError(m)) && m@ == "HTTP error: "@
            + error_text@),
{
    if status_ok {
        match body {
            Ok(v) => if v.success {
                Ok(v)
            } else {
                Err(RoostooError::ApiError(v.err_msg))
            },
            Err(e) => Err(RoostooError::SerializationError(e)),
        }
    } else {
        Err(RoostooError::ApiError("HTTP error: ".to_owned().concat(error_text)))
    }
}

/// Reads the reply to a pending-count query, whatever its status.
pub fn read_pending_count(body: Result<PendingCountResponse, String>) -> (r: Result<
    PendingCountResponse,
    RoostooError,
>)
    ensures
        match body {
            Ok(v) => r == Ok::<PendingCountResponse, RoostooError>(v),
            Err(e) => (r matches Err(RoostooError::RequestError(m)) && m == e),
        },
{
    match body {
        Ok(v) => Ok(v),
        Err(e) => Err(RoostooError::RequestError(e)),
    }
}

/// Reads the reply to an order placement. A bad status and a body that is no
/// JSON or has no `Success` flag are errors. A refusal is a reply without a
/// detail; an acceptance carries the detail if one could be read.
pub fn read_place_order(status_ok: bool, body: Result<PlaceOrderFields, String>) -> (r: Result<
    PlaceOrderResponse,
    RoostooError,
>)
    ensures
        !status_ok ==> (r matches Err(RoostooError::ApiError(m)) && m@ == "HTTP request failed"@),
        status_ok ==> match body {
            Err(e) => (r matches Err(RoostooError::JsonParseError(m)) && m@ == "Invalid JSON: "@
                + e@),
            Ok(fields) => match fields.success {
                None => (r matches Err(RoostooError::JsonParseError(m)) && m@
                    == "Missing 'Success' field"@),
                Some(success) => (r matches Ok(reply) && reply.success == success && reply.err_msg@
                    == (match fields.err_msg {
                    Some(text) => text@,
                    None => Seq::<char>::empty(),
                }) && reply.order_detail == (if success {
                    fields.order_detail
                } else {
                    None
                })),
            },
        },
{
    if !status_ok {
        return Err(RoostooError::ApiError("HTTP request failed".to_owned()));
    }
    let fields = match body {
        Ok(fields) => fields,
        Err(e) => {
            return Err(
                RoostooError::JsonParseError("Invalid JSON: ".to_owned().concat(e.as_str())),
            );
        },
    };
    let success: bool = match fields.success {
        Some(flag) => flag,
        None => {
            return Err(RoostooError::JsonParseError("Missing 'Success' field".to_owned()));
        },
    };
    let err_msg: String = match fields.err_msg {
        Some(text) => text,
        None => String::new(),
    };
    if !success {
        return Ok(PlaceOrderResponse { success: false, err_msg, order_detail: None });
    }
    Ok(PlaceOrderResponse { success: true, err_msg, order_detail: fields.order_detail })
}

/// Reads the reply to an order query: the venue's refusal is an error.
pub fn read_query_order(status_ok: bool, body: Result<QueryOrderResponse, String>) -> (r: Result<
    QueryOrderResponse,
    RoostooError,
>)
    ensures
        status_ok ==> match body {
            Ok(v) => if v.success {
                r == Ok::<QueryOrderResponse, RoostooError>(v)
            } else {
                (r matches Err(RoostooError::ApiError(m)) && m == v.err_msg)
            },
            Err(e) => (r matches Err(RoostooError::RequestError(m)) && m == e),
        },
        !status_ok ==> (r matches Err(RoostooError::ApiError(m)) && m@
            == "Failed to query order"@),
{
    match read_plain(status_ok, body, "Failed to query order") {
        Ok(v) => if v.success {
            Ok(v)
        } else {
            Err(RoostooError::ApiError(v.err_msg))
        },
        Err(e) => Err(e),
    }
}

/// Reads the reply to a cancellation: the venue's refusal is an error.
pub fn read_cancel_order(status_ok: bool, body: Result<CancelOrderResponse, String>) -> (r: Result<
    CancelOrderResponse,
    RoostooError,
>)
    ensures
        status_ok ==> match body {
            Ok(v) => if v.success {
                r == Ok::<CancelOrderResponse, RoostooError>(v)
            } else {
                (r matches Err(RoostooError::ApiError(m)) && m == v.err_msg)
            },
            Err(e) => (r matches Err(RoostooError::RequestError(m)) && m == e),
        },
        !status_ok ==> (r matches Err(RoostooError::ApiError(m)) && m@
            == "Failed to cancel order"@),
{
    match read_plain(status_ok, body, "Failed to cancel order") {
        Ok(v) => if v.success {
            Ok(v)
        } else {
            Err(RoostooError::ApiError(v.err_msg))
        },
        Err(e) => Err(e),
    }
}

} // verus!

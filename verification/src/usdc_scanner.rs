//! Decisions of the USDC payment scanner: which Horizon payments are
//! marketplace payments, how their amounts convert to stroops, how a
//! confirm attempt is classified, and how far the paging cursor may move
//! within one poll cycle.

use vstd::prelude::*;
use vstd::string::*;
use vstd::utf8::encode_utf8;
use crate::decimal::{
    all_digits, digits_value, is_digit, lemma_nat_digits, nat_digits, parse_i64_range, parse_i64_spec,
    unsigned_digits,
};
use crate::text::{str_eq, bytes_starts_with, has_prefix};

verus! {

broadcast use vstd::string::group_string_axioms;

/// Number of fractional digits of a USDC amount (one stroop is 1e-7 USDC).
pub const USDC_STROOP_DECIMALS: usize = 7;

/// Horizon page size used when fetching payments.
pub const HORIZON_PAGE_LIMIT: usize = 50;

/// Seconds between two poll cycles.
pub const SCAN_INTERVAL_SECS: u64 = 15;

/// Why an amount string could not be converted to stroops.
#[derive(Debug, Clone, Copy, PartialEq, Eq, Structural)]
pub enum AmountError {
    /// More than seven fractional digits.
    TooManyDecimals,
    /// The integer part is not an `i64`.
    BadInteger,
    /// The fractional part is not a number.
    BadFraction,
    /// The stroop value does not fit in an `i64`.
    Overflow,
}

impl AmountError {
    pub fn message(&self) -> (m: &'static str)
        ensures
            m@ == match self {
                AmountError::TooManyDecimals => "amount has more than 7 fractional digits"@,
                AmountError::BadInteger => "bad integer"@,
                AmountError::BadFraction => "bad fraction"@,
                AmountError::Overflow => "amount overflow"@,
            },
    {
        match self {
            AmountError::TooManyDecimals => "amount has more than 7 fractional digits",
            AmountError::BadInteger => "bad integer",
            AmountError::BadFraction => "bad fraction",
            AmountError::Overflow => "amount overflow",
        }
    }
}

/// Index of the first `x` in `b` at or after `from`, or -1.
pub open spec fn find_byte(b: Seq<u8>, x: u8, from: int) -> int
    decreases b.len() - from,
{
    if from < 0 || from >= b.len() {
        -1
    } else if b[from] == x {
        from
    } else {
        find_byte(b, x, from + 1)
    }
}

/// `n` ASCII zeros.
pub open spec fn zeros(n: nat) -> Seq<u8> {
    Seq::new(n, |i: int| 48u8)
}

/// The integer part of an amount: everything before the first `.`.
pub open spec fn amount_int_part(b: Seq<u8>) -> Seq<u8> {
    let k = find_byte(b, 46u8, 0);
    if k < 0 {
        b
    } else {
        b.subrange(0, k)
    }
}

/// The fractional part of an amount: everything after the first `.`.
pub open spec fn amount_frac_part(b: Seq<u8>) -> Seq<u8> {
    let k = find_byte(b, 46u8, 0);
    if k < 0 {
        Seq::empty()
    } else {
        b.subrange(k + 1, b.len() as int)
    }
}

/// An amount whose integer part is written with a minus sign.
pub open spec fn amount_is_negative(b: Seq<u8>) -> bool {
    amount_int_part(b).len() > 0 && amount_int_part(b)[0] == 45u8
}

/// Stroops of a Horizon decimal amount.  The integer part is read as an
/// `i64`; the fractional part (at most seven bytes) is right-padded with
/// zeros to seven digits and read as an `i64`; the result is
/// `int * 10^7 + frac`, or `int * 10^7 - frac` for a negative amount (so
/// `-1.5` is `-15000000`), both steps checked for overflow.
pub open spec fn amount_to_stroops(b: Seq<u8>) -> Result<i64, AmountError> {
    let int_part = amount_int_part(b);
    let frac = amount_frac_part(b);
    if frac.len() > 7 {
        Err(AmountError::TooManyDecimals)
    } else {
        match parse_i64_spec(int_part) {
            None => Err(AmountError::BadInteger),
            Some(i) => {
                let f = if frac.len() == 0 {
                    Some(0i64)
                } else {
                    parse_i64_spec(frac + zeros((7 - frac.len()) as nat))
                };
                match f {
                    None => Err(AmountError::BadFraction),
                    Some(fv) => {
                        let m = i * 10_000_000;
                        let v = if amount_is_negative(b) { m - fv } else { m + fv };
                        if m < i64::MIN || m > i64::MAX || v < i64::MIN || v > i64::MAX {
                            Err(AmountError::Overflow)
                        } else {
                            Ok(v as i64)
                        }
                    },
                }
            },
        }
    }
}

/// `10^n`.
pub open spec fn pow10(n: nat) -> nat
    decreases n,
{
    if n == 0 {
        1
    } else {
        10 * pow10((n - 1) as nat)
    }
}

proof fn lemma_digits_value_bound(d: Seq<u8>)
    requires
        all_digits(d),
    ensures
        digits_value(d) < pow10(d.len()),
    decreases d.len(),
{
    if d.len() > 0 {
        let p = d.drop_last();
        assert(all_digits(p)) by {
            assert forall|i: int| 0 <= i < p.len() implies is_digit(#[trigger] p[i]) by {
                assert(p[i] == d[i]);
            }
        }
        lemma_digits_value_bound(p);
        assert(is_digit(d[d.len() - 1]));
        assert(digits_value(d) == digits_value(p) * 10 + (d.last() - 48) as nat);
        assert(pow10(d.len()) == 10 * pow10(p.len()));
        assert(digits_value(p) * 10 + 9 < 10 * pow10(p.len())) by (nonlinear_arith)
            requires
                digits_value(p) < pow10(p.len()),
        ;
    }
}

proof fn lemma_find_byte_skip(b: Seq<u8>, x: u8, from: int, to: int)
    requires
        0 <= from <= to <= b.len(),
        forall|i: int| from <= i < to ==> b[i] != x,
    ensures
        find_byte(b, x, from) == find_byte(b, x, to),
    decreases to - from,
{
    if from < to {
        lemma_find_byte_skip(b, x, from + 1, to);
    }
}

/// The decimal text of a whole amount `q`, followed (when `f` is not
/// empty) by `.` and the fraction digits `f`.
pub open spec fn decimal_amount(q: nat, f: Seq<u8>) -> Seq<u8> {
    if f.len() == 0 {
        nat_digits(q)
    } else {
        nat_digits(q) + seq![46u8] + f
    }
}

/// The stroops of `q` units and fraction digits `f`: `q * 10^7` plus the
/// fraction right-padded to seven digits.
pub open spec fn decimal_stroops(q: nat, f: Seq<u8>) -> int {
    (q * 10_000_000 + digits_value(f + zeros((7 - f.len()) as nat))) as int
}

/// A non-negative decimal amount with at most seven fractional digits is
/// read as its value in stroops (`q * 10^7` plus the padded fraction), or
/// refused as an overflow when that does not fit in an `i64`.
pub proof fn law_decimal_amounts_convert(q: nat, f: Seq<u8>)
    requires
        q <= i64::MAX,
        f.len() <= 7,
        all_digits(f),
    ensures
        decimal_stroops(q, f) <= i64::MAX ==> amount_to_stroops(decimal_amount(q, f)) == Ok::<
            i64,
            AmountError,
        >(decimal_stroops(q, f) as i64),
        decimal_stroops(q, f) > i64::MAX ==> amount_to_stroops(decimal_amount(q, f)) == Err::<
            i64,
            AmountError,
        >(AmountError::Overflow),
{
    lemma_nat_digits(q);
    let d = nat_digits(q);
    let b = decimal_amount(q, f);
    let padded = f + zeros((7 - f.len()) as nat);
    assert forall|i: int| 0 <= i < d.len() implies b[i] != 46u8 by {
        assert(b[i] == d[i]);
        assert(is_digit(d[i]));
    }
    if f.len() == 0 {
        lemma_find_byte_skip(b, 46u8, 0, b.len() as int);
        assert(amount_int_part(b) == d);
        assert(amount_frac_part(b) =~= Seq::<u8>::empty());
        assert(padded =~= zeros(7));
        assert(digits_value(padded) == 0) by {
            assert forall|k: nat| k <= 7 implies digits_value(#[trigger] zeros(k)) == 0 by {
                lemma_zeros_value(k);
            }
        }
    } else {
        lemma_find_byte_skip(b, 46u8, 0, d.len() as int);
        assert(b[d.len() as int] == 46u8);
        assert(amount_int_part(b) =~= d);
        assert(amount_frac_part(b) =~= f);
        assert(all_digits(padded)) by {
            assert forall|i: int| 0 <= i < padded.len() implies is_digit(#[trigger] padded[i]) by {
                if i < f.len() {
                    assert(padded[i] == f[i]);
                } else {
                    assert(padded[i] == 48u8);
                }
            }
        }
        assert(padded.len() == 7);
        lemma_digits_value_bound(padded);
        reveal_with_fuel(pow10, 8);
        assert(unsigned_digits(padded) == padded);
        assert(parse_i64_spec(padded) == Some(digits_value(padded) as i64));
    }
    assert(is_digit(d[0]));
    assert(unsigned_digits(d) == d);
    assert(parse_i64_spec(d) == Some(q as i64));
    assert(!amount_is_negative(b));
}

/// A negative decimal amount (`-` then `q` and the fraction digits `f`)
/// is read as the negated stroops, fraction included (`-1.5` is
/// `-15000000`), or refused as an overflow below `i64::MIN`.
pub proof fn law_negative_decimal_amounts_convert(q: nat, f: Seq<u8>)
    requires
        q <= 0x8000_0000_0000_0000,
        f.len() <= 7,
        all_digits(f),
    ensures
        0 - decimal_stroops(q, f) >= i64::MIN ==> amount_to_stroops(seq![45u8] + decimal_amount(q, f))
            == Ok::<i64, AmountError>((0 - decimal_stroops(q, f)) as i64),
        0 - decimal_stroops(q, f) < i64::MIN ==> amount_to_stroops(seq![45u8] + decimal_amount(q, f))
            == Err::<i64, AmountError>(AmountError::Overflow),
{
    lemma_nat_digits(q);
    let d = nat_digits(q);
    let sd = seq![45u8] + d;
    let b = seq![45u8] + decimal_amount(q, f);
    let padded = f + zeros((7 - f.len()) as nat);
    assert forall|i: int| 0 <= i < sd.len() implies b[i] != 46u8 by {
        if i > 0 {
            assert(b[i] == d[i - 1]);
            assert(is_digit(d[i - 1]));
        }
    }
    if f.len() == 0 {
        assert(b =~= sd);
        lemma_find_byte_skip(b, 46u8, 0, b.len() as int);
        assert(amount_int_part(b) == sd);
        assert(amount_frac_part(b) =~= Seq::<u8>::empty());
        assert(padded =~= zeros(7));
        lemma_zeros_value(7);
    } else {
        lemma_find_byte_skip(b, 46u8, 0, sd.len() as int);
        assert(b[sd.len() as int] == 46u8);
        assert(amount_int_part(b) =~= sd);
        assert(amount_frac_part(b) =~= f);
        assert(all_digits(padded)) by {
            assert forall|i: int| 0 <= i < padded.len() implies is_digit(#[trigger] padded[i]) by {
                if i < f.len() {
                    assert(padded[i] == f[i]);
                } else {
                    assert(padded[i] == 48u8);
                }
            }
        }
        assert(padded.len() == 7);
        lemma_digits_value_bound(padded);
        reveal_with_fuel(pow10, 8);
        assert(unsigned_digits(padded) == padded);
        assert(parse_i64_spec(padded) == Some(digits_value(padded) as i64));
    }
    assert(sd.drop_first() =~= d);
    assert(parse_i64_spec(sd) == Some((0 - q) as i64));
    assert(amount_is_negative(b));
}

proof fn lemma_zeros_value(k: nat)
    ensures
        digits_value(zeros(k)) == 0,
    decreases k,
{
    if k > 0 {
        assert(zeros(k).drop_last() =~= zeros((k - 1) as nat));
        lemma_zeros_value((k - 1) as nat);
    }
}

/// Index of the first `x` in `b`, or `b.len()` when there is none.
fn position_of(b: &[u8], x: u8) -> (k: usize)
    ensures
        k <= b@.len(),
        k == b@.len() <==> find_byte(b@, x, 0) < 0,
        k < b@.len() ==> find_byte(b@, x, 0) == k,
{
    let mut i: usize = 0;
    while i < b.len()
        invariant
            i <= b@.len(),
            find_byte(b@, x, 0) == find_byte(b@, x, i as int),
        decreases b@.len() - i,
    {
        if b[i] == x {
            return i;
        }
        i = i + 1;
    }
    i
}

/// Converts a Horizon amount (a decimal with up to seven fractional
/// digits) to integer stroops.
pub fn parse_amount_to_stroops(amount: &str) -> (r: Result<i64, AmountError>)
    ensures
        r == amount_to_stroops(amount.spec_bytes()),
{
    let b = amount.as_bytes();
    let k = position_of(b, 46u8);
    let frac_start: usize = if k < b.len() {
        k + 1
    } else {
        b.len()
    };
    proof {
        if k < b@.len() {
            assert(amount_frac_part(b@) == b@.subrange(k + 1, b@.len() as int));
            assert(amount_int_part(b@) == b@.subrange(0, k as int));
        } else {
            assert(amount_int_part(b@) =~= b@.subrange(0, k as int));
        }
    }
    let frac_len = b.len() - frac_start;
    if frac_len > USDC_STROOP_DECIMALS {
        return Err(AmountError::TooManyDecimals);
    }
    let int_val = match parse_i64_range(b, 0, k) {
        None => {
            return Err(AmountError::BadInteger);
        },
        Some(v) => v,
    };
    let frac_val: i64 = if frac_len == 0 {
        0
    } else {
        let mut padded: Vec<u8> = Vec::new();
        let mut i: usize = frac_start;
        while i < b.len()
            invariant
                frac_start <= i <= b@.len(),
                padded@ == b@.subrange(frac_start as int, i as int),
            decreases b@.len() - i,
        {
            padded.push(b[i]);
            assert(b@.subrange(frac_start as int, i + 1) =~= b@.subrange(
                frac_start as int,
                i as int,
            ).push(b@[i as int]));
            i = i + 1;
        }
        let ghost frac = b@.subrange(frac_start as int, b@.len() as int);
        while padded.len() < 7
            invariant
                frac.len() <= 7,
                frac.len() <= padded@.len() <= 7,
                padded@ == frac + zeros((padded@.len() - frac.len()) as nat),
            decreases 7 - padded@.len(),
        {
            padded.push(48u8);
            assert(frac + zeros((padded@.len() - frac.len()) as nat) =~= padded@);
        }
        assert(padded@.subrange(0, padded@.len() as int) =~= padded@);
        match parse_i64_range(&padded, 0, padded.len()) {
            None => {
                return Err(AmountError::BadFraction);
            },
            Some(v) => v,
        }
    };
    let negative = k > 0 && b[0] == 45u8;
    proof {
        if k > 0 {
            assert(amount_int_part(b@)[0] == b@[0]);
        }
    }
    match int_val.checked_mul(10_000_000) {
        None => Err(AmountError::Overflow),
        Some(m) => {
            let v = if negative {
                m.checked_sub(frac_val)
            } else {
                m.checked_add(frac_val)
            };
            match v {
                None => Err(AmountError::Overflow),
                Some(v) => Ok(v),
            }
        },
    }
}


/// Scanner configuration.
#[derive(Debug, Clone)]
pub struct ScannerConfig {
    /// `"testnet"` or `"public"`.
    pub network: String,
    pub horizon_url: String,
    /// The marketplace's receiving account (`G...`).
    pub receiving_address: String,
    /// Issuer of the USDC asset (`G...`).
    pub usdc_issuer: String,
    pub registry_base_url: String,
    /// Bearer token for the registry's confirm endpoint.
    pub registry_token: String,
}

/// Why the scanner could not be configured or a cycle failed.
#[derive(Debug, Clone, PartialEq, Eq)]
pub enum ScannerError {
    Config(String),
    Horizon(String),
    Registry(String),
    Database(String),
}

/// The Horizon endpoint used when none is configured.
pub open spec fn default_horizon_url(network: Seq<char>) -> Seq<char> {
    if network == "public"@ {
        "https://horizon.stellar.org"@
    } else {
        "https://horizon-testnet.stellar.org"@
    }
}

impl ScannerConfig {
    /// Builds the configuration from the values of its settings.  An unset
    /// or empty receiving address means the scanner is not used (`None`);
    /// the asset issuer, registry URL and token are required; the network
    /// defaults to `"testnet"` and the Horizon URL to the network's public
    /// endpoint.
    pub fn from_settings(
        receiving_address: Option<String>,
        usdc_issuer: Option<String>,
        network: Option<String>,
        horizon_url: Option<String>,
        registry_base_url: Option<String>,
        registry_token: Option<String>,
    ) -> (r: Result<Option<ScannerConfig>, ScannerError>)
        ensures
            (receiving_address is None || receiving_address->0@.len() == 0) ==> r == Ok::<
                Option<ScannerConfig>,
                ScannerError,
            >(None),
            (receiving_address is Some && receiving_address->0@.len() > 0) ==> {
                &&& (usdc_issuer is None) ==> r is Err
                &&& (usdc_issuer is Some && registry_base_url is None) ==> r is Err
                &&& (usdc_issuer is Some && registry_base_url is Some && registry_token is None)
                    ==> r is Err
                &&& (usdc_issuer is Some && registry_base_url is Some && registry_token is Some)
                    ==> (r matches Ok(Some(c)) && {
                    let net = match network {
                        Some(n) => n@,
                        None => "testnet"@,
                    };
                    &&& c.network@ == net
                    &&& c.horizon_url@ == match horizon_url {
                        Some(h) => h@,
                        None => default_horizon_url(net),
                    }
                    &&& c.receiving_address@ == receiving_address->0@
                    &&& c.usdc_issuer@ == usdc_issuer->0@
                    &&& c.registry_base_url@ == registry_base_url->0@
                    &&& c.registry_token@ == registry_token->0@
                })
            },
    {
        let receiving_address = match receiving_address {
            Some(v) => {
                if v.as_str().is_empty() {
                    return Ok(None);
                }
                v
            },
            None => {
                return Ok(None);
            },
        };
        let usdc_issuer = match usdc_issuer {
            Some(v) => v,
            None => {
                return Err(
                    ScannerError::Config(String::from_str("MARKETPLACE_USDC_ASSET_ISSUER not set")),
                );
            },
        };
        let network = match network {
            Some(n) => n,
            None => String::from_str("testnet"),
        };
        let horizon_url = match horizon_url {
            Some(h) => h,
            None => {
                if str_eq(network.as_str(), "public") {
                    String::from_str("https://horizon.stellar.org")
                } else {
                    String::from_str("https://horizon-testnet.stellar.org")
                }
            },
        };
        let registry_base_url = match registry_base_url {
            Some(v) => v,
            None => {
                return Err(
                    ScannerError::Config(String::from_str("MARKETPLACE_REGISTRY_BASE_URL not set")),
                );
            },
        };
        let registry_token = match registry_token {
            Some(v) => v,
            None => {
                return Err(
                    ScannerError::Config(String::from_str("MARKETPLACE_INDEXER_API_TOKEN not set")),
                );
            },
        };
        Ok(
            Some(
                ScannerConfig {
                    network,
                    horizon_url,
                    receiving_address,
                    usdc_issuer,
                    registry_base_url,
                    registry_token,
                },
            ),
        )
    }

    /// URL of the payments page after `cursor`, in ascending order.
    pub fn payments_url(&self, cursor: Option<&str>) -> (u: String)
        ensures
            u@ == self.horizon_url@ + "/accounts/"@ + self.receiving_address@
                + "/payments?order=asc&limit=50"@ + match cursor {
                Some(c) => "&cursor="@ + c@,
                None => Seq::<char>::empty(),
            },
    {
        let mut u = self.horizon_url.clone();
        u.append("/accounts/");
        u.append(self.receiving_address.as_str());
        u.append("/payments?order=asc&limit=50");
        match cursor {
            Some(c) => {
                let ghost before = u@;
                u.append("&cursor=");
                u.append(c);
                assert(u@ =~= before + ("&cursor="@ + c@));
            },
            None => {
                assert(u@ =~= u@ + Seq::<char>::empty());
            },
        }
        u
    }

    /// URL of a transaction, used to read its memo.
    pub fn transaction_url(&self, tx_hash: &str) -> (u: String)
        ensures
            u@ == self.horizon_url@ + "/transactions/"@ + tx_hash@,
    {
        let mut u = self.horizon_url.clone();
        u.append("/transactions/");
        u.append(tx_hash);
        u
    }

    /// URL of the registry's confirm endpoint.
    pub fn confirm_url(&self) -> (u: String)
        ensures
            u@ == self.registry_base_url@ + "/api/marketplace/usdc/confirm"@,
    {
        let mut u = self.registry_base_url.clone();
        u.append("/api/marketplace/usdc/confirm");
        u
    }
}

/// The fields of a Horizon payment record that the scanner reads.
#[derive(Debug, Clone)]
pub struct HorizonPayment {
    pub paging_token: String,
    pub type_field: String,
    pub transaction_hash: Option<String>,
    pub to: Option<String>,
    pub amount: Option<String>,
    pub asset_code: Option<String>,
    pub asset_issuer: Option<String>,
}

/// `true` when `o` holds exactly `s`.
pub open spec fn opt_is(o: Option<String>, s: Seq<char>) -> bool {
    o matches Some(v) && v@ == s
}

/// A credit to the receiving address in USDC from the configured issuer,
/// by a payment or path payment.
pub open spec fn is_relevant_payment(cfg: ScannerConfig, p: HorizonPayment) -> bool {
    &&& (p.type_field@ == "payment"@ || p.type_field@ == "path_payment_strict_receive"@
        || p.type_field@ == "path_payment_strict_send"@)
    &&& opt_is(p.to, cfg.receiving_address@)
    &&& opt_is(p.asset_code, "USDC"@)
    &&& opt_is(p.asset_issuer, cfg.usdc_issuer@)
}

/// Only USDC credited to the receiving address by a payment counts: an
/// operation of another type, a payment to another account, in another
/// asset code, or issued by anyone but the configured issuer is never
/// relevant, whatever else it holds.
pub proof fn law_relevant_only_usdc_to_receiver(cfg: ScannerConfig, p: HorizonPayment)
    ensures
        !(p.type_field@ == "payment"@ || p.type_field@ == "path_payment_strict_receive"@
            || p.type_field@ == "path_payment_strict_send"@) ==> !is_relevant_payment(cfg, p),
        !(p.to matches Some(to) && to@ == cfg.receiving_address@) ==> !is_relevant_payment(cfg, p),
        !(p.asset_code matches Some(code) && code@ == "USDC"@) ==> !is_relevant_payment(cfg, p),
        !(p.asset_issuer matches Some(issuer) && issuer@ == cfg.usdc_issuer@) ==> !is_relevant_payment(
            cfg,
            p,
        ),
{
}

fn opt_str_is(o: &Option<String>, s: &str) -> (b: bool)
    ensures
        b == opt_is(*o, s@),
{
    match o {
        Some(v) => str_eq(v.as_str(), s),
        None => false,
    }
}

/// Whether a payment is one the marketplace has to confirm.
pub fn is_relevant(cfg: &ScannerConfig, p: &HorizonPayment) -> (b: bool)
    ensures
        b == is_relevant_payment(*cfg, *p),
{
    let t = p.type_field.as_str();
    (str_eq(t, "payment") || str_eq(t, "path_payment_strict_receive") || str_eq(
        t,
        "path_payment_strict_send",
    )) && opt_str_is(&p.to, cfg.receiving_address.as_str()) && opt_str_is(&p.asset_code, "USDC")
        && opt_str_is(&p.asset_issuer, cfg.usdc_issuer.as_str())
}

/// What the scanner does with a payment before it reads the memo.
#[derive(Debug, Clone, PartialEq, Eq)]
pub enum Screening {
    /// Permanently skipped: not relevant, unreadable amount, or no
    /// transaction hash.  The cursor may move past it.
    Skip,
    /// A candidate whose memo must be read.
    Candidate { tx_hash: String, stroops: i64 },
}

/// Screens a payment: irrelevant payments, amounts that do not convert
/// (a missing amount reads as `"0"`) and payments without a transaction
/// hash are skipped.
pub fn screen_payment(cfg: &ScannerConfig, p: &HorizonPayment) -> (s: Screening)
    ensures
        s is Candidate ==> {
            &&& (p.type_field@ == "payment"@ || p.type_field@ == "path_payment_strict_receive"@
                || p.type_field@ == "path_payment_strict_send"@)
            &&& p.to matches Some(to) && to@ == cfg.receiving_address@
            &&& p.asset_code matches Some(code) && code@ == "USDC"@
            &&& p.asset_issuer matches Some(issuer) && issuer@ == cfg.usdc_issuer@
        },
        !is_relevant_payment(*cfg, *p) ==> s == Screening::Skip,
        is_relevant_payment(*cfg, *p) ==> {
            let amount = match p.amount {
                Some(a) => encode_utf8(a@),
                None => encode_utf8("0"@),
            };
            match amount_to_stroops(amount) {
                Err(_) => s == Screening::Skip,
                Ok(st) => match p.transaction_hash {
                    None => s == Screening::Skip,
                    Some(h) => (s matches Screening::Candidate { tx_hash, stroops } && tx_hash@
                        == h@ && stroops == st),
                },
            }
        },
{
    if !is_relevant(cfg, p) {
        return Screening::Skip;
    }
    let stroops = match &p.amount {
        Some(a) => parse_amount_to_stroops(a.as_str()),
        None => parse_amount_to_stroops("0"),
    };
    match stroops {
        Err(_) => Screening::Skip,
        Ok(st) => match &p.transaction_hash {
            None => Screening::Skip,
            Some(h) => Screening::Candidate { tx_hash: h.clone(), stroops: st },
        },
    }
}

/// The memo of a transaction as the scanner reads it: only text memos
/// count.
pub fn memo_of_transaction(memo: Option<String>, memo_type: &Option<String>) -> (m: Option<String>)
    ensures
        m == (if opt_is(*memo_type, "text"@) {
            memo
        } else {
            None::<String>
        }),
{
    if opt_str_is(memo_type, "text") {
        memo
    } else {
        None
    }
}

/// Marketplace memos start with `mp-`.
pub fn is_marketplace_memo(memo: &str) -> (b: bool)
    ensures
        b == has_prefix(memo.spec_bytes(), "mp-".spec_bytes()),
{
    bytes_starts_with(memo.as_bytes(), "mp-".as_bytes())
}

/// Result of a confirm attempt.
#[derive(Debug, Clone, Copy, PartialEq, Eq, Structural)]
pub enum ConfirmOutcome {
    /// Settled (issued, unknown memo, already confirmed, rejected): the
    /// cursor may move past the payment.
    Handled,
    /// Network error or server error: retry in the next cycle.
    Transient,
}

/// Classifies a confirm attempt by the HTTP status it got (`None` for a
/// network error): success and client errors are settled, everything
/// else is transient.
pub fn classify_confirm_status(status: Option<u16>) -> (o: ConfirmOutcome)
    ensures
        o == match status {
            Some(s) => if 200 <= s <= 299 || 400 <= s <= 499 {
                ConfirmOutcome::Handled
            } else {
                ConfirmOutcome::Transient
            },
            None => ConfirmOutcome::Transient,
        },
{
    match status {
        Some(s) => {
            if 200 <= s && s <= 299 {
                ConfirmOutcome::Handled
            } else if s == 404 || s == 409 {
                ConfirmOutcome::Handled
            } else if 400 <= s && s <= 499 {
                ConfirmOutcome::Handled
            } else {
                ConfirmOutcome::Transient
            }
        },
        None => ConfirmOutcome::Transient,
    }
}

/// What reading a candidate's transaction memo gave.
#[derive(Debug, Clone, PartialEq, Eq)]
pub enum MemoRead {
    /// The transaction's text memo.
    Found(String),
    /// The transaction has no text memo.
    Missing,
    /// The read failed (a transient Horizon error).
    Failed,
}

/// `after` is `before` with the cursor moved past the payment of
/// `paging_token`, which was skipped for good.
pub open spec fn skipped(before: PollCycle, after: PollCycle, paging_token: String) -> bool {
    &&& after.advance_to_token == Some(paging_token)
    &&& after.advance_to_tx == before.advance_to_tx
    &&& after.processed == before.processed
    &&& !after.halted
}

/// Progress of one poll cycle: how far the cursor may move, the last
/// confirmed transaction, the number of confirmed payments, and whether a
/// transient failure has halted the cycle.
#[derive(Debug, Clone)]
pub struct PollCycle {
    pub advance_to_token: Option<String>,
    pub advance_to_tx: Option<String>,
    pub processed: usize,
    pub halted: bool,
}

impl PollCycle {
    /// A cycle that has not moved the cursor.
    pub fn new() -> (c: Self)
        ensures
            c.advance_to_token is None,
            c.advance_to_tx is None,
            c.processed == 0,
            !c.halted,
    {
        PollCycle { advance_to_token: None, advance_to_tx: None, processed: 0, halted: false }
    }

    /// A payment was skipped for good: the cursor may move past it.
    pub fn skip(&mut self, paging_token: &String)
        requires
            !old(self).halted,
        ensures
            final(self).advance_to_token == Some(*paging_token),
            final(self).advance_to_tx == old(self).advance_to_tx,
            final(self).processed == old(self).processed,
            !final(self).halted,
    {
        self.advance_to_token = Some(paging_token.clone());
    }

    /// A transient failure (memo fetch): the cycle stops and the cursor
    /// stays where it was.
    pub fn halt(&mut self)
        ensures
            final(self).halted,
            final(self).advance_to_token == old(self).advance_to_token,
            final(self).advance_to_tx == old(self).advance_to_tx,
            final(self).processed == old(self).processed,
    {
        self.halted = true;
    }

    /// The memo step of a candidate payment: a memo that was read and
    /// starts with `mp-` is handed back for confirmation, the cycle
    /// unchanged; a missing memo, or one without that prefix, skips the
    /// payment for good; a failed read halts the cycle.
    pub fn after_memo(&mut self, paging_token: &String, read: MemoRead) -> (m: Option<String>)
        requires
            !old(self).halted,
        ensures
            match read {
                MemoRead::Found(memo) => if has_prefix(encode_utf8(memo@), encode_utf8("mp-"@)) {
                    m == Some(memo) && *final(self) == *old(self)
                } else {
                    m is None && skipped(*old(self), *final(self), *paging_token)
                },
                MemoRead::Missing => m is None && skipped(*old(self), *final(self), *paging_token),
                MemoRead::Failed => m is None && final(self).halted && final(self).advance_to_token
                    == old(self).advance_to_token && final(self).advance_to_tx == old(self).advance_to_tx
                    && final(self).processed == old(self).processed,
            },
    {
        match read {
            MemoRead::Found(memo) => {
                if is_marketplace_memo(memo.as_str()) {
                    Some(memo)
                } else {
                    self.skip(paging_token);
                    None
                }
            },
            MemoRead::Missing => {
                self.skip(paging_token);
                None
            },
            MemoRead::Failed => {
                self.halt();
                None
            },
        }
    }

    /// The outcome of confirming a candidate payment.
    pub fn record_confirm(&mut self, paging_token: &String, tx_hash: &String, outcome: ConfirmOutcome)
        requires
            !old(self).halted,
            old(self).processed < usize::MAX,
        ensures
            outcome == ConfirmOutcome::Handled ==> {
                &&& final(self).advance_to_token == Some(*paging_token)
                &&& final(self).advance_to_tx == Some(*tx_hash)
                &&& final(self).processed == old(self).processed + 1
                &&& !final(self).halted
            },
            outcome == ConfirmOutcome::Transient ==> {
                &&& final(self).advance_to_token == old(self).advance_to_token
                &&& final(self).advance_to_tx == old(self).advance_to_tx
                &&& final(self).processed == old(self).processed
                &&& final(self).halted
            },
    {
        match outcome {
            ConfirmOutcome::Handled => {
                self.advance_to_token = Some(paging_token.clone());
                self.advance_to_tx = Some(tx_hash.clone());
                self.processed = self.processed + 1;
            },
            ConfirmOutcome::Transient => {
                self.halted = true;
            },
        }
    }
}

/// The cursor after a run of confirm outcomes: the token of the last
/// handled payment before the first transient one.
pub open spec fn cursor_after(outcomes: Seq<(String, ConfirmOutcome)>, start: Option<String>) -> Option<String>
    decreases outcomes.len(),
{
    if outcomes.len() == 0 {
        start
    } else if outcomes[0].1 == ConfirmOutcome::Transient {
        start
    } else {
        cursor_after(outcomes.drop_first(), Some(outcomes[0].0))
    }
}

/// Drives a poll cycle over a sequence of confirm outcomes (each paired
/// with its payment's paging token) and returns where the cursor ends.
pub fn cursor_after_outcomes(outcomes: &Vec<(String, ConfirmOutcome)>) -> (c: Option<String>)
    ensures
        c == cursor_after(outcomes@, None),
{
    let mut cycle = PollCycle::new();
    let mut i: usize = 0;
    assert(outcomes@.subrange(0, outcomes@.len() as int) =~= outcomes@);
    while i < outcomes.len()
        invariant
            i <= outcomes@.len(),
            cycle.processed <= i,
            !cycle.halted,
            cursor_after(outcomes@, None) == cursor_after(
                outcomes@.subrange(i as int, outcomes@.len() as int),
                cycle.advance_to_token,
            ),
        decreases outcomes@.len() - i,
    {
        let (token, outcome) = (&outcomes[i].0, outcomes[i].1);
        assert(outcomes@.subrange(i as int, outcomes@.len() as int).drop_first() =~= outcomes@.subrange(
            i + 1,
            outcomes@.len() as int,
        ));
        cycle.record_confirm(token, token, outcome);
        if cycle.halted {
            return cycle.advance_to_token;
        }
        i = i + 1;
    }
    cycle.advance_to_token
}

/// The cursor never moves past a payment whose confirm was transient: it
/// is either unchanged or the token of a handled payment before the first
/// transient one.
pub proof fn law_cursor_stops_at_first_transient(outcomes: Seq<(String, ConfirmOutcome)>, t: int)
    requires
        0 <= t < outcomes.len(),
        outcomes[t].1 == ConfirmOutcome::Transient,
        forall|j: int| 0 <= j < t ==> outcomes[j].1 == ConfirmOutcome::Handled,
    ensures
        t == 0 ==> cursor_after(outcomes, None) is None,
        t > 0 ==> cursor_after(outcomes, None) == Some(outcomes[t - 1].0),
    decreases t,
{
    lemma_cursor_prefix(outcomes, t, None);
}

proof fn lemma_cursor_prefix(outcomes: Seq<(String, ConfirmOutcome)>, t: int, start: Option<String>)
    requires
        0 <= t < outcomes.len(),
        outcomes[t].1 == ConfirmOutcome::Transient,
        forall|j: int| 0 <= j < t ==> outcomes[j].1 == ConfirmOutcome::Handled,
    ensures
        t == 0 ==> cursor_after(outcomes, start) == start,
        t > 0 ==> cursor_after(outcomes, start) == Some(outcomes[t - 1].0),
    decreases t,
{
    if t > 0 {
        let rest = outcomes.drop_first();
        assert forall|j: int| 0 <= j < t - 1 implies rest[j].1 == ConfirmOutcome::Handled by {
            assert(rest[j] == outcomes[j + 1]);
        }
        lemma_cursor_prefix(rest, t - 1, Some(outcomes[0].0));
    }
}

} // verus!

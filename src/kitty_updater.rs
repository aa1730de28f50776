use vstd::prelude::*;

use vstd::string::StringSliceAdditionalSpecFns;

use crate::config::{period_from, period_of, ApiConfig, ConfigError};
use crate::content::{Amount, KittyDebt};
use crate::duration::{add_secs, later_by, later_by_duration, second_of_minute, Duration};
use crate::data_updater::{DataUpdater, FetchRequest, HttpMethod};
use crate::my_screen_service::{ContentWrite, MyScreenService, Refresh, Source, StoreState};
use crate::text::{
    all_digits, chars_of, contains, contains_chars, digits_value, digit_value, is_digit, remove_all,
    remove_all_of, trim, trimmed,
};

verus! {

/// A debt as mathematical values.
pub ghost struct DebtView {
    pub who: Seq<char>,
    pub how_much: Amount,
    pub whom: Seq<char>,
}

impl View for KittyDebt {
    type V = DebtView;

    open spec fn view(&self) -> DebtView {
        DebtView { who: self.who@, how_much: self.how_much, whom: self.whom@ }
    }
}

pub open spec fn debts_view(debts: Seq<KittyDebt>) -> Seq<DebtView> {
    debts.map_values(|d: KittyDebt| d@)
}

/// The scan of an amount so far: digits read (as a number), digits after
/// the point, whether the point was read, and how many digits were read.
pub open spec fn amount_scan(s: Seq<char>) -> Option<(nat, nat, bool, nat)>
    decreases s.len(),
{
    if s.len() == 0 {
        Some((0, 0, false, 0))
    } else {
        match amount_scan(s.drop_last()) {
            None => None,
            Some((units, scale, dot, count)) => {
                let c = s.last();
                if is_digit(c) {
                    Some(
                        (
                            units * 10 + digit_value(c),
                            if dot {
                                scale + 1
                            } else {
                                scale
                            },
                            dot,
                            count + 1,
                        ),
                    )
                } else if c == '.' && !dot {
                    Some((units, scale, true, count))
                } else {
                    None
                }
            },
        }
    }
}

/// `10^k`.
pub open spec fn pow10(k: nat) -> nat
    decreases k,
{
    if k == 0 {
        1
    } else {
        10 * pow10((k - 1) as nat)
    }
}

/// The index of the first exponent marker (`e` or `E`) in `s`, or its length.
pub open spec fn exponent_start(s: Seq<char>) -> nat
    decreases s.len(),
{
    if s.len() == 0 || s[0] == 'e' || s[0] == 'E' {
        0
    } else {
        1 + exponent_start(s.drop_first())
    }
}

/// The exponent that `e` writes: an optional sign, then at least one digit.
pub open spec fn exponent_of(e: Seq<char>) -> Option<int> {
    let signed = e.len() > 0 && (e[0] == '+' || e[0] == '-');
    let ds = if signed {
        e.drop_first()
    } else {
        e
    };
    if ds.len() > 0 && all_digits(ds) {
        Some(
            if signed && e[0] == '-' {
                -(digits_value(ds) as int)
            } else {
                digits_value(ds) as int
            },
        )
    } else {
        None
    }
}

/// The amount `units / 10^scale` (a negative scale multiplies), where it can
/// be held.
pub open spec fn fit_amount(units: nat, scale: int) -> Option<Amount> {
    if scale >= 0 {
        if units <= u64::MAX && scale <= u32::MAX {
            Some(Amount { units: units as u64, scale: scale as u32 })
        } else {
            None
        }
    } else {
        let u = units * pow10((-scale) as nat);
        if u <= u64::MAX {
            Some(Amount { units: u as u64, scale: 0 })
        } else {
            None
        }
    }
}

/// The amount that `s` writes, in the floating-point grammar without a
/// minus sign: an optional `+`, digits with at most one decimal point among
/// them (at least one digit), then optionally `e` or `E` and a signed
/// exponent; `None` where it does not follow that grammar or its value
/// cannot be held.
pub open spec fn amount_of(s: Seq<char>) -> Option<Amount> {
    let d = if s.len() > 0 && s[0] == '+' {
        s.drop_first()
    } else {
        s
    };
    let k = exponent_start(d) as int;
    match amount_scan(d.subrange(0, k)) {
        Some((units, scale, _, count)) => if count == 0 {
            None
        } else if k == d.len() {
            fit_amount(units, scale as int)
        } else {
            match exponent_of(d.skip(k + 1)) {
                Some(x) => fit_amount(units, scale - x),
                None => None,
            }
        },
        None => None,
    }
}

pub open spec fn scanned_units(s: Seq<char>) -> nat {
    match amount_scan(s) {
        Some((units, _, _, _)) => units,
        None => 0,
    }
}

pub open spec fn scanned_scale(s: Seq<char>) -> nat {
    match amount_scan(s) {
        Some((_, scale, _, _)) => scale,
        None => 0,
    }
}

proof fn lemma_amount_scan_grows(s: Seq<char>, k: int)
    requires
        0 <= k <= s.len(),
        amount_scan(s) is Some,
    ensures
        amount_scan(s.subrange(0, k)) is Some,
        scanned_units(s.subrange(0, k)) <= scanned_units(s),
        scanned_scale(s.subrange(0, k)) <= scanned_scale(s),
    decreases s.len() - k,
{
    if k < s.len() {
        assert(s.drop_last() =~= s.subrange(0, s.len() - 1));
        lemma_amount_scan_grows(s.drop_last(), k);
        assert(s.drop_last().subrange(0, k) =~= s.subrange(0, k));
    } else {
        assert(s.subrange(0, k) =~= s);
    }
}

proof fn lemma_pow10_positive(k: nat)
    ensures
        pow10(k) >= 1,
    decreases k,
{
    if k > 0 {
        lemma_pow10_positive((k - 1) as nat);
    }
}

proof fn lemma_pow10_monotone(a: nat, b: nat)
    requires
        a <= b,
    ensures
        pow10(a) <= pow10(b),
    decreases b,
{
    if a < b {
        lemma_pow10_monotone(a, (b - 1) as nat);
        lemma_pow10_positive((b - 1) as nat);
    }
}

proof fn lemma_fit_too_big(units: nat, scale: int)
    requires
        units > u64::MAX,
    ensures
        fit_amount(units, scale) is None,
{
    if scale < 0 {
        let k = (-scale) as nat;
        lemma_pow10_positive(k);
        assert(units * pow10(k) >= units) by (nonlinear_arith)
            requires
                pow10(k) >= 1,
        ;
    }
}

/// The mantissa scan over `cs[from..to]`, where its digits fit in a `u64`.
fn scan_mantissa(cs: &Vec<char>, from: usize, to: usize) -> (r: Option<(u64, u64, bool, usize)>)
    requires
        from <= to <= cs@.len(),
    ensures
        match r {
            Some((units, scale, dot, count)) => amount_scan(
                cs@.subrange(from as int, to as int),
            ) == Some((units as nat, scale as nat, dot, count as nat)),
            None => match amount_scan(cs@.subrange(from as int, to as int)) {
                Some((units, _, _, _)) => units > u64::MAX,
                None => true,
            },
        },
{
    let ghost m = cs@.subrange(from as int, to as int);
    assert(m.subrange(0, 0) =~= Seq::<char>::empty());
    let mut units: u64 = 0;
    let mut scale: u64 = 0;
    let mut dot = false;
    let mut count: usize = 0;
    let mut i: usize = from;
    while i < to
        invariant
            from <= i <= to <= cs@.len(),
            m == cs@.subrange(from as int, to as int),
            amount_scan(m.subrange(0, i - from)) == Some(
                (units as nat, scale as nat, dot, count as nat),
            ),
            count <= i - from,
            scale <= i - from,
        decreases to - i,
    {
        let c = cs[i];
        let ghost next = m.subrange(0, i - from + 1);
        assert(next.drop_last() =~= m.subrange(0, i - from));
        assert(next.last() == c);
        if '0' <= c && c <= '9' {
            let v = (c as u32 - '0' as u32) as u64;
            assert(v == digit_value(c));
            if units > (u64::MAX - v) / 10 {
                assert(units * 10 + v > u64::MAX) by (nonlinear_arith)
                    requires
                        units > (u64::MAX - v) / 10,
                        v <= 9,
                ;
                assert(scanned_units(next) > u64::MAX);
                proof {
                    if amount_scan(m) is Some {
                        lemma_amount_scan_grows(m, i - from + 1);
                    }
                }
                return None;
            }
            units = units * 10 + v;
            if dot {
                scale = scale + 1;
            }
            count = count + 1;
        } else if c == '.' && !dot {
            dot = true;
        } else {
            proof {
                if amount_scan(m) is Some {
                    lemma_amount_scan_grows(m, i - from + 1);
                }
            }
            return None;
        }
        i += 1;
    }
    assert(m.subrange(0, to - from) =~= m);
    Some((units, scale, dot, count))
}

/// A bound above every scale that a string can give.
pub const EXPONENT_CAP: u128 = 0x1_0000_0000_0000_0000_0000;

pub open spec fn capped(v: nat) -> nat {
    if v < EXPONENT_CAP {
        v
    } else {
        EXPONENT_CAP as nat
    }
}

/// The number that the digits `cs[from..to]` write, held at `EXPONENT_CAP`;
/// `None` where they are not all digits, or there are none.
fn exponent_magnitude(cs: &Vec<char>, from: usize, to: usize) -> (r: Option<u128>)
    requires
        from <= to <= cs@.len(),
    ensures
        ({
            let ds = cs@.subrange(from as int, to as int);
            if ds.len() > 0 && all_digits(ds) {
                r == Some(capped(digits_value(ds)) as u128)
            } else {
                r is None
            }
        }),
{
    let ghost ds = cs@.subrange(from as int, to as int);
    if from == to {
        return None;
    }
    assert(ds.subrange(0, 0) =~= Seq::<char>::empty());
    let mut mag: u128 = 0;
    let mut i: usize = from;
    while i < to
        invariant
            from <= i <= to <= cs@.len(),
            ds == cs@.subrange(from as int, to as int),
            all_digits(ds.subrange(0, i - from)),
            mag == capped(digits_value(ds.subrange(0, i - from))),
        decreases to - i,
    {
        let c = cs[i];
        let ghost prev = ds.subrange(0, i - from);
        let ghost next = ds.subrange(0, i - from + 1);
        assert(next.drop_last() =~= prev);
        assert(next.last() == c);
        if !('0' <= c && c <= '9') {
            assert(ds[i - from] == c);
            assert(!all_digits(ds));
            return None;
        }
        let v = (c as u32 - '0' as u32) as u128;
        assert(v == digit_value(c));
        assert(all_digits(next)) by {
            assert forall|j: int| 0 <= j < next.len() implies is_digit(#[trigger] next[j]) by {
                if j < i - from {
                    assert(next[j] == prev[j]);
                }
            }
        }
        let ghost pv = digits_value(prev);
        assert(digits_value(next) == pv * 10 + v);
        if mag < EXPONENT_CAP {
            assert(mag == pv);
            let grown = mag * 10 + v;
            mag = if grown < EXPONENT_CAP {
                grown
            } else {
                EXPONENT_CAP
            };
        } else {
            assert(pv >= EXPONENT_CAP);
            assert(pv * 10 + v >= EXPONENT_CAP) by (nonlinear_arith)
                requires
                    pv >= EXPONENT_CAP,
            ;
        }
        i += 1;
    }
    assert(ds.subrange(0, to - from) =~= ds);
    Some(mag)
}

/// `units * 10^k`, where it fits in a `u64`.
fn scale_up(units: u64, k: u128) -> (r: Option<u64>)
    ensures
        units * pow10(k as nat) <= u64::MAX ==> r == Some((units * pow10(k as nat)) as u64),
        units * pow10(k as nat) > u64::MAX ==> r is None,
{
    if units == 0 {
        assert(units * pow10(k as nat) == 0);
        return Some(0);
    }
    let mut u: u64 = units;
    let mut t: u128 = 0;
    assert(pow10(0) == 1);
    while t < k
        invariant
            units >= 1,
            t <= k,
            u == units * pow10(t as nat),
        decreases k - t,
    {
        assert(pow10((t + 1) as nat) == 10 * pow10(t as nat));
        if u > u64::MAX / 10 {
            proof {
                lemma_pow10_monotone((t + 1) as nat, k as nat);
                let a = pow10((t + 1) as nat);
                let b = pow10(k as nat);
                assert(units * a > u64::MAX) by (nonlinear_arith)
                    requires
                        u > u64::MAX / 10,
                        u == units * pow10(t as nat),
                        a == 10 * pow10(t as nat),
                ;
                assert(units * b >= units * a) by (nonlinear_arith)
                    requires
                        b >= a,
                        units >= 1,
                ;
            }
            return None;
        }
        assert(units * (10 * pow10(t as nat)) == 10 * (units * pow10(t as nat))) by (nonlinear_arith);
        u = u * 10;
        t = t + 1;
    }
    Some(u)
}

proof fn lemma_exponent_start_step(s: Seq<char>, p: int, q: int)
    requires
        0 <= p <= q < s.len(),
        s[q] != 'e' && s[q] != 'E',
        exponent_start(s.skip(p)) == (q - p) + exponent_start(s.skip(q)),
    ensures
        exponent_start(s.skip(p)) == (q + 1 - p) + exponent_start(s.skip(q + 1)),
{
    assert(s.skip(q).drop_first() =~= s.skip(q + 1));
}

/// The amount written in `s`.
pub fn parse_amount(s: &str) -> (r: Option<Amount>)
    ensures
        r == amount_of(s@),
{
    let cs = chars_of(s);
    let n = cs.len();
    let start: usize = if n > 0 && cs[0] == '+' {
        1
    } else {
        0
    };
    let ghost d = s@.subrange(start as int, n as int);
    assert(d =~= (if s@.len() > 0 && s@[0] == '+' {
        s@.drop_first()
    } else {
        s@
    }));
    let mut k: usize = start;
    assert(s@.skip(start as int) =~= d);
    while k < n && cs[k] != 'e' && cs[k] != 'E'
        invariant
            cs@ == s@,
            n == s@.len(),
            start <= k <= n,
            exponent_start(s@.skip(start as int)) == (k - start) + exponent_start(s@.skip(k as int)),
        decreases n - k,
    {
        proof {
            lemma_exponent_start_step(s@, start as int, k as int);
        }
        k += 1;
    }
    assert(exponent_start(s@.skip(k as int)) == 0);
    assert(exponent_start(d) == k - start);
    assert(d.subrange(0, k - start) =~= cs@.subrange(start as int, k as int));
    let (units, scale, _, count) = match scan_mantissa(&cs, start, k) {
        Some(m) => m,
        None => {
            proof {
                let ghost m = d.subrange(0, k - start);
                if let Some((u, sc, _, c)) = amount_scan(m) {
                    lemma_fit_too_big(u, sc as int);
                    if k < n {
                        if let Some(x) = exponent_of(d.skip(k - start + 1)) {
                            lemma_fit_too_big(u, sc - x);
                        }
                    }
                }
            }
            return None;
        },
    };
    if count == 0 {
        return None;
    }
    if k == n {
        if scale > u32::MAX as u64 {
            return None;
        }
        return Some(Amount { units, scale: scale as u32 });
    }
    let ghost e = d.skip(k - start + 1);
    assert(e =~= cs@.subrange(k + 1, n as int));
    apply_exponent(&cs, k + 1, n, units, scale)
}

/// The amount `units / 10^scale` scaled by the exponent written in
/// `cs[from..n]`.
fn apply_exponent(cs: &Vec<char>, from: usize, n: usize, units: u64, scale: u64) -> (r: Option<
    Amount,
>)
    requires
        from <= n <= cs@.len(),
    ensures
        r == match exponent_of(cs@.subrange(from as int, n as int)) {
            Some(x) => fit_amount(units as nat, scale - x),
            None => None,
        },
{
    let ghost e = cs@.subrange(from as int, n as int);
    let mut j: usize = from;
    let mut negative = false;
    if j < n && (cs[j] == '+' || cs[j] == '-') {
        negative = cs[j] == '-';
        j += 1;
    }
    assert(cs@.subrange(j as int, n as int) =~= (if e.len() > 0 && (e[0] == '+' || e[0] == '-') {
        e.drop_first()
    } else {
        e
    }));
    let mag = match exponent_magnitude(&cs, j, n) {
        Some(m) => m,
        None => {
            return None;
        },
    };
    if negative {
        let total = scale as u128 + mag;
        if total > u32::MAX as u128 {
            return None;
        }
        Some(Amount { units, scale: total as u32 })
    } else if mag <= scale as u128 {
        let net = scale as u128 - mag;
        if net > u32::MAX as u128 {
            return None;
        }
        Some(Amount { units, scale: net as u32 })
    } else {
        match scale_up(units, mag - scale as u128) {
            Some(u) => {
                proof {
                    if mag == EXPONENT_CAP {
                        let ghost ds = cs@.subrange(j as int, n as int);
                        let kt = (digits_value(ds) - scale) as nat;
                        if units == 0 {
                            assert(units * pow10(kt) == 0) by (nonlinear_arith)
                                requires
                                    units == 0,
                            ;
                        } else {
                            let kk = (mag - scale) as nat;
                            lemma_pow10_monotone(20, kk);
                            reveal_with_fuel(pow10, 21);
                            assert(pow10(20) == 100000000000000000000nat);
                            assert(units * pow10(kk) >= pow10(kk)) by (nonlinear_arith)
                                requires
                                    units >= 1,
                            ;
                        }
                    }
                }
                Some(Amount { units: u, scale: 0 })
            },
            None => {
                proof {
                    if mag == EXPONENT_CAP {
                        let ghost ds = cs@.subrange(j as int, n as int);
                        let kk = (mag - scale) as nat;
                        let kt = (digits_value(ds) - scale) as nat;
                        lemma_pow10_monotone(kk, kt);
                        assert(units * pow10(kt) >= units * pow10(kk)) by (nonlinear_arith)
                            requires
                                pow10(kt) >= pow10(kk),
                        ;
                    }
                }
                None
            },
        }
    }
}

/// The text nodes of each element that the CSS `selector` picks out of the
/// HTML document `body`, in the order of scraper's tree (the order in which
/// its parser created the nodes); `None` where the
/// selector does not parse.
pub uninterp spec fn selected_texts_of(body: Seq<char>, selector: Seq<char>) -> Option<
    Seq<Seq<Seq<char>>>,
>;

/// The errors that the HTML parser reports on `body`.
pub uninterp spec fn html_errors_of(body: Seq<char>) -> Seq<Seq<char>>;

pub open spec fn strings_view(v: Seq<String>) -> Seq<Seq<char>> {
    v.map_values(|s: String| s@)
}

pub open spec fn elements_view(v: Seq<Vec<String>>) -> Seq<Seq<Seq<char>>> {
    v.map_values(|e: Vec<String>| strings_view(e@))
}

/// Relies on scraper's `Selector::parse`, `Html::parse_document`,
/// `Html::select` and `ElementRef::text`: the texts depend on the document
/// and the selector alone.
#[verifier::external_body]
fn select_texts(body: &str, selector: &str) -> (r: Option<Vec<Vec<String>>>)
    ensures
        match r {
            Some(v) => selected_texts_of(body@, selector@) == Some(elements_view(v@)),
            None => selected_texts_of(body@, selector@) is None,
        },
{
    let selector = scraper::Selector::parse(selector).ok()?;
    let html = scraper::Html::parse_document(body);
    Some(html.select(&selector).map(|e| e.text().map(String::from).collect()).collect())
}

/// Relies on the `errors` that scraper's `Html::parse_document` records: they
/// depend on the document alone.
#[verifier::external_body]
fn html_parse_errors(body: &str) -> (r: Vec<String>)
    ensures
        strings_view(r@) == html_errors_of(body@),
{
    scraper::Html::parse_document(body).errors.iter().map(|e| e.to_string()).collect()
}

/// The elements that hold one transaction each.
pub const TRANSACTION_SELECTOR: &'static str = "div[class=\"transaction-text\"]";

pub const GIVES: &'static str = " gives ";

pub const TO: &'static str = " to ";

/// Why one transaction element yields no debt.
#[derive(Clone, Copy, Debug, PartialEq, Eq, Structural)]
pub enum RecordError {
    NoPayer,
    NoAmount,
    NoPayee,
    EmptyName,
}

/// Why a debt page yields no debts.
#[derive(Debug, PartialEq)]
pub enum DebtError {
    /// The transaction selector does not parse.
    Selector,
    /// Not one transaction could be read; the page's size in bytes and the
    /// parser's complaints come along.
    NoDebts { body_len: usize, parse_errors: Vec<String> },
}

/// The first text that contains `pat`.
pub open spec fn first_containing(texts: Seq<Seq<char>>, pat: Seq<char>) -> Option<Seq<char>>
    decreases texts.len(),
{
    if texts.len() == 0 {
        None
    } else if contains(texts[0], pat) {
        Some(texts[0])
    } else {
        first_containing(texts.drop_first(), pat)
    }
}

/// The amount of the first text that, trimmed, writes one.
pub open spec fn first_amount(texts: Seq<Seq<char>>) -> Option<Amount>
    decreases texts.len(),
{
    if texts.len() == 0 {
        None
    } else if amount_of(trimmed(texts[0])) is Some {
        amount_of(trimmed(texts[0]))
    } else {
        first_amount(texts.drop_first())
    }
}

/// The debt that the text nodes of one transaction element state: the payer
/// before " gives ", the first amount, the payee after " to ".
pub open spec fn debt_of(texts: Seq<Seq<char>>) -> Result<DebtView, RecordError> {
    match first_containing(texts, GIVES@) {
        None => Err(RecordError::NoPayer),
        Some(who_text) => match first_amount(texts) {
            None => Err(RecordError::NoAmount),
            Some(how_much) => match first_containing(texts, TO@) {
                None => Err(RecordError::NoPayee),
                Some(whom_text) => {
                    let who = trimmed(remove_all(who_text, GIVES@));
                    let whom = trimmed(remove_all(whom_text, TO@));
                    if who.len() == 0 || whom.len() == 0 {
                        Err(RecordError::EmptyName)
                    } else {
                        Ok(DebtView { who, how_much, whom })
                    }
                },
            },
        },
    }
}

/// The debts of the elements that state one, in order; the others are
/// skipped.
pub open spec fn debts_of(elements: Seq<Seq<Seq<char>>>) -> Seq<DebtView>
    decreases elements.len(),
{
    if elements.len() == 0 {
        seq![]
    } else {
        let rest = debts_of(elements.drop_last());
        match debt_of(elements.last()) {
            Ok(d) => rest.push(d),
            Err(_) => rest,
        }
    }
}

/// How many elements state a debt.
pub open spec fn valid_count(elements: Seq<Seq<Seq<char>>>) -> nat
    decreases elements.len(),
{
    if elements.len() == 0 {
        0
    } else {
        valid_count(elements.drop_last()) + if debt_of(elements.last()) is Ok {
            1nat
        } else {
            0nat
        }
    }
}

fn first_containing_exec(texts: &Vec<String>, pat: &str) -> (r: Option<usize>)
    ensures
        match first_containing(strings_view(texts@), pat@) {
            None => r is None,
            Some(t) => r matches Some(i) && i < texts@.len() && texts@[i as int]@ == t,
        },
{
    let pc = chars_of(pat);
    let ghost all = strings_view(texts@);
    let mut i: usize = 0;
    assert(all.skip(0) =~= all);
    while i < texts.len()
        invariant
            pc@ == pat@,
            all == strings_view(texts@),
            i <= texts@.len(),
            first_containing(all, pat@) == first_containing(all.skip(i as int), pat@),
        decreases texts@.len() - i,
    {
        let ghost rest = all.skip(i as int);
        assert(rest[0] == texts@[i as int]@);
        assert(rest.drop_first() =~= all.skip(i + 1));
        let tc = chars_of(texts[i].as_str());
        if contains_chars(&tc, &pc) {
            return Some(i);
        }
        i += 1;
    }
    None
}

fn first_amount_exec(texts: &Vec<String>) -> (r: Option<Amount>)
    ensures
        r == first_amount(strings_view(texts@)),
{
    let ghost all = strings_view(texts@);
    let mut i: usize = 0;
    assert(all.skip(0) =~= all);
    while i < texts.len()
        invariant
            all == strings_view(texts@),
            i <= texts@.len(),
            first_amount(all) == first_amount(all.skip(i as int)),
        decreases texts@.len() - i,
    {
        let ghost rest = all.skip(i as int);
        assert(rest[0] == texts@[i as int]@);
        assert(rest.drop_first() =~= all.skip(i + 1));
        let t = trim(texts[i].as_str());
        let a = parse_amount(t.as_str());
        if a.is_some() {
            return a;
        }
        i += 1;
    }
    None
}

/// The debt stated by the text nodes of one transaction element.
pub fn extract_debt(texts: &Vec<String>) -> (r: Result<KittyDebt, RecordError>)
    ensures
        match debt_of(strings_view(texts@)) {
            Ok(d) => r matches Ok(k) && k@ == d,
            Err(e) => r == Err::<KittyDebt, RecordError>(e),
        },
{
    let who_at = match first_containing_exec(texts, GIVES) {
        Some(i) => i,
        None => {
            return Err(RecordError::NoPayer);
        },
    };
    let how_much = match first_amount_exec(texts) {
        Some(a) => a,
        None => {
            return Err(RecordError::NoAmount);
        },
    };
    let whom_at = match first_containing_exec(texts, TO) {
        Some(i) => i,
        None => {
            return Err(RecordError::NoPayee);
        },
    };
    let who = trim(remove_all_of(texts[who_at].as_str(), GIVES).as_str());
    let whom = trim(remove_all_of(texts[whom_at].as_str(), TO).as_str());
    if who.as_str().is_empty() || whom.as_str().is_empty() {
        return Err(RecordError::EmptyName);
    }
    Ok(KittyDebt { who, how_much, whom })
}

/// The debts that the transaction elements of a page state, given as their
/// text nodes; `None` where not one of them states a debt.
pub fn extract_debts_from_texts(elements: &Vec<Vec<String>>) -> (r: Option<Vec<KittyDebt>>)
    ensures
        debts_of(elements_view(elements@)).len() == 0 ==> r is None,
        debts_of(elements_view(elements@)).len() > 0 ==> (r matches Some(v) && debts_view(v@)
            == debts_of(elements_view(elements@))),
{
    let ghost all = elements_view(elements@);
    let mut debts: Vec<KittyDebt> = Vec::new();
    let mut i: usize = 0;
    assert(all.subrange(0, 0) =~= Seq::<Seq<Seq<char>>>::empty());
    assert(debts_view(debts@) =~= Seq::<DebtView>::empty());
    while i < elements.len()
        invariant
            all == elements_view(elements@),
            i <= elements@.len(),
            debts_view(debts@) == debts_of(all.subrange(0, i as int)),
        decreases elements@.len() - i,
    {
        let ghost prefix = all.subrange(0, i + 1);
        assert(prefix.drop_last() =~= all.subrange(0, i as int));
        assert(prefix.last() == strings_view(elements@[i as int]@));
        match extract_debt(&elements[i]) {
            Ok(d) => {
                let ghost before = debts@;
                debts.push(d);
                assert(debts_view(debts@) =~= debts_view(before).push(d@));
            },
            Err(_) => {},
        }
        i += 1;
    }
    assert(all.subrange(0, i as int) =~= all);
    if debts.len() == 0 {
        None
    } else {
        Some(debts)
    }
}

/// The debts on the page `body`: one for each transaction element that
/// states one, in the order that scraper selects the elements (that of its
/// tree, in which the parser created the nodes). The page fails where not one does.
pub fn extract_debts(body: &str) -> (r: Result<Vec<KittyDebt>, DebtError>)
    ensures
        match selected_texts_of(body@, TRANSACTION_SELECTOR@) {
            None => r == Err::<Vec<KittyDebt>, DebtError>(DebtError::Selector),
            Some(elements) => if debts_of(elements).len() == 0 {
                r matches Err(DebtError::NoDebts { body_len, parse_errors }) && body_len
                    == body.spec_bytes().len() as usize && strings_view(parse_errors@) == html_errors_of(
                    body@,
                )
            } else {
                r matches Ok(v) && debts_view(v@) == debts_of(elements)
            },
        },
{
    let elements = match select_texts(body, TRANSACTION_SELECTOR) {
        Some(e) => e,
        None => {
            return Err(DebtError::Selector);
        },
    };
    match extract_debts_from_texts(&elements) {
        Some(debts) => Ok(debts),
        None => {
            let body_len = body.len();
            let parse_errors = html_parse_errors(body);
            Err(DebtError::NoDebts { body_len, parse_errors })
        },
    }
}


/// Every transaction element that states a debt gives exactly one record, and
/// every record names a payer and a payee; so a page fails exactly when no
/// element states a debt.
pub proof fn lemma_debts_of_counts(elements: Seq<Seq<Seq<char>>>)
    ensures
        debts_of(elements).len() == valid_count(elements),
        forall|i: int|
            0 <= i < debts_of(elements).len() ==> (#[trigger] debts_of(elements)[i]).who.len() > 0
                && debts_of(elements)[i].whom.len() > 0,
    decreases elements.len(),
{
    if elements.len() > 0 {
        lemma_debts_of_counts(elements.drop_last());
    }
}

#[derive(Clone, Copy, Debug, PartialEq, Eq, Structural)]
pub enum KittyUpdateMode {
    Dummy,
    Real,
}

/// Polls the debt page on a fixed period.
pub struct KittyUpdater {
    update_mode: KittyUpdateMode,
    kitty_url: String,
    kitty_period: Duration,
}

/// Seconds between two polls in dummy mode.
pub const KITTY_DUMMY_SECS: i64 = 19;

/// The synthetic debt of dummy mode: its amount is the second of `now`
/// within its minute.
pub open spec fn dummy_debt(now: i64) -> DebtView {
    DebtView {
        who: "foo"@,
        how_much: Amount { units: (now % 60) as u64, scale: 0 },
        whom: "bar"@,
    }
}

impl KittyUpdater {
    pub closed spec fn mode(&self) -> KittyUpdateMode {
        self.update_mode
    }

    /// Whether the updater synthesises its data or asks the real source.
    pub fn update_mode(&self) -> (r: KittyUpdateMode)
        ensures
            r == self.mode(),
    {
        self.update_mode
    }

    pub closed spec fn url_view(&self) -> Seq<char> {
        self.kitty_url@
    }

    pub closed spec fn period(&self) -> Duration {
        self.kitty_period
    }

    /// Builds the updater from the debt section of `config`.
    pub fn new(update_mode: KittyUpdateMode, config: &ApiConfig) -> (r: Result<Self, ConfigError>)
        ensures
            match config.kitty {
                None => r == Err::<Self, ConfigError>(ConfigError::MissingSection),
                Some(k) => match period_of(k.update_period) {
                    Err(e) => r == Err::<Self, ConfigError>(e),
                    Ok(p) => r matches Ok(u) && u.mode() == update_mode && u.url_view() == k.url@
                        && u.period() == p,
                },
            },
    {
        let kitty_config = match &config.kitty {
            Some(k) => k,
            None => {
                return Err(ConfigError::MissingSection);
            },
        };
        let kitty_period = match period_from(kitty_config.update_period) {
            Ok(p) => p,
            Err(e) => {
                return Err(e);
            },
        };
        Ok(KittyUpdater { update_mode, kitty_url: kitty_config.url.clone(), kitty_period })
    }

    /// The page to fetch.
    pub fn url(&self) -> (r: &String)
        ensures
            r@ == self.url_view(),
    {
        &self.kitty_url
    }

    /// The request that a poll makes at `now_millis`: a GET of the
    /// configured URL in real mode, none in dummy mode.
    pub fn next_request(&self, now_millis: i64) -> (r: Option<FetchRequest>)
        ensures
            match self.mode() {
                KittyUpdateMode::Dummy => r is None,
                KittyUpdateMode::Real => r matches Some(q) && q.method == HttpMethod::Get && q.url@
                    == self.url_view() && q.body is None && q.bearer is None,
            },
    {
        match self.update_mode {
            KittyUpdateMode::Dummy => None,
            KittyUpdateMode::Real => Some(
                FetchRequest {
                    method: HttpMethod::Get,
                    url: self.kitty_url.clone(),
                    body: None,
                    bearer: None,
                },
            ),
        }
    }

    /// When to poll next, asked at `now`.
    pub fn get_next_update_time(&self, now: i64) -> (r: i64)
        ensures
            r == match self.mode() {
                KittyUpdateMode::Dummy => add_secs(now, KITTY_DUMMY_SECS as int),
                KittyUpdateMode::Real => add_secs(now, self.period().secs as int),
            },
    {
        match self.update_mode {
            KittyUpdateMode::Dummy => later_by(now, KITTY_DUMMY_SECS),
            KittyUpdateMode::Real => later_by_duration(now, self.kitty_period),
        }
    }

    /// One poll, computed without the store. In dummy mode a synthetic
    /// debt is to be written. In real mode `fetched` is the page, or `None`
    /// where the fetch failed: the debts read from it are to be written and
    /// the debt error cleared; a failed fetch, or a page without debts,
    /// writes nothing and sets the error.
    pub fn poll(&self, fetched: Option<String>, now: i64) -> (r: Refresh)
        ensures
            r.source == Source::Kitty,
            match self.mode() {
                KittyUpdateMode::Dummy => writes_debts(r, seq![dummy_debt(now)]) && !r.error,
                KittyUpdateMode::Real => match fetched {
                    Some(body) => match selected_texts_of(body@, TRANSACTION_SELECTOR@) {
                        Some(elements) if debts_of(elements).len() > 0 => writes_debts(
                            r,
                            debts_of(elements),
                        ) && !r.error,
                        _ => r.write is None && r.error,
                    },
                    None => r.write is None && r.error,
                },
            },
    {
        match self.update_mode {
            KittyUpdateMode::Dummy => {
                let sec = second_of_minute(now);
                let debt = KittyDebt {
                    who: String::from_str("foo"),
                    how_much: Amount { units: sec as u64, scale: 0 },
                    whom: String::from_str("bar"),
                };
                let v = vec![debt];
                assert(debts_view(v@) =~= seq![dummy_debt(now)]);
                Refresh { source: Source::Kitty, write: Some(ContentWrite::Debts(v)), error: false }
            },
            KittyUpdateMode::Real => {
                let outcome = match fetched {
                    Some(body) => match extract_debts(body.as_str()) {
                        Ok(d) => Some(d),
                        Err(_) => None,
                    },
                    None => None,
                };
                match outcome {
                    Some(d) => Refresh {
                        source: Source::Kitty,
                        write: Some(ContentWrite::Debts(d)),
                        error: false,
                    },
                    None => Refresh { source: Source::Kitty, write: None, error: true },
                }
            },
        }
    }

    /// One poll, applied to `store`: see `poll`.
    pub fn update(&self, store: &mut MyScreenService, fetched: Option<String>, now: i64)
        ensures
            final(store).config() == old(store).config(),
            match self.mode() {
                KittyUpdateMode::Dummy => debts_view(final(store)@.debts) == seq![dummy_debt(now)]
                    && final(store)@ == (StoreState {
                    debts: final(store)@.debts,
                    ..old(store)@
                }).with_error(Source::Kitty, false),
                KittyUpdateMode::Real => match fetched {
                    Some(body) => match selected_texts_of(body@, TRANSACTION_SELECTOR@) {
                        Some(elements) if debts_of(elements).len() > 0 => debts_view(
                            final(store)@.debts,
                        ) == debts_of(elements) && final(store)@ == (StoreState {
                            debts: final(store)@.debts,
                            ..old(store)@
                        }).with_error(Source::Kitty, false),
                        _ => final(store)@ == old(store)@.with_error(Source::Kitty, true),
                    },
                    None => final(store)@ == old(store)@.with_error(Source::Kitty, true),
                },
            },
    {
        let refresh = self.poll(fetched, now);
        store.apply(refresh);
    }
}

/// `r` writes debts that are `d`.
pub open spec fn writes_debts(r: Refresh, d: Seq<DebtView>) -> bool {
    r.write matches Some(ContentWrite::Debts(v)) && debts_view(v@) == d
}

impl DataUpdater for KittyUpdater {
    fn next_request(&self, now_millis: i64) -> Option<FetchRequest> {
        KittyUpdater::next_request(self, now_millis)
    }

    fn poll(&mut self, fetched: Option<String>, now: i64) -> Refresh {
        KittyUpdater::poll(self, fetched, now)
    }

    fn get_next_update_time(&self, now: i64) -> i64 {
        KittyUpdater::get_next_update_time(self, now)
    }
}

} // verus!

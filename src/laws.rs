use vstd::prelude::*;
use crate::cycle::{cycle_after, next_spec, spec_classify, Outcome, Report};
use crate::price::{accepts_literal, is_digit, literal_price, pow10, price_text, Price};
use crate::source::{ErrorKind, FetchError, PriceSource, Response};
use crate::text::{decimal_digits, zero_padded};
use crate::time::{log_line_text, timestamp_text, year_text, UtcTime};

verus! {

proof fn lemma_digits_are_digits(n: nat)
    ensures
        decimal_digits(n).len() >= 1,
        forall|i: int| 0 <= i < decimal_digits(n).len() ==> is_digit(#[trigger] decimal_digits(n)[i]),
    decreases n,
{
    if n >= 10 {
        lemma_digits_are_digits(n / 10);
    }
}

proof fn lemma_digits_len(n: nat, k: nat)
    requires
        k >= 1,
        n < pow10(k),
    ensures
        decimal_digits(n).len() <= k,
    decreases n,
{
    if n >= 10 {
        assert(k >= 2) by {
            if k == 1 {
                assert(pow10(1) == 10 * pow10(0));
            }
        }
        assert(pow10(k) == 10 * pow10((k - 1) as nat));
        assert(n / 10 < pow10((k - 1) as nat)) by (nonlinear_arith)
            requires
                n < 10 * pow10((k - 1) as nat),
        ;
        lemma_digits_len(n / 10, (k - 1) as nat);
    }
}

proof fn lemma_padded_shape(n: nat, k: nat)
    requires
        k >= 1,
        n < pow10(k),
    ensures
        zero_padded(n, k).len() == k,
        forall|i: int| 0 <= i < k ==> is_digit(#[trigger] zero_padded(n, k)[i]),
{
    lemma_digits_len(n, k);
    lemma_digits_are_digits(n);
    let d = decimal_digits(n);
    let z = zero_padded(n, k);
    assert forall|i: int| 0 <= i < k implies is_digit(#[trigger] z[i]) by {
        if d.len() < k && i >= k - d.len() {
            assert(z[i] == d[i - (k - d.len())]);
        }
    }
}

proof fn lemma_no_newline_in_digits(n: nat, k: nat)
    ensures
        forall|i: int| 0 <= i < zero_padded(n, k).len() ==> #[trigger] zero_padded(n, k)[i] != '\n',
{
    lemma_digits_are_digits(n);
    let d = decimal_digits(n);
    let z = zero_padded(n, k);
    assert forall|i: int| 0 <= i < z.len() implies #[trigger] z[i] != '\n' by {
        if d.len() < k && i >= k - d.len() {
            assert(z[i] == d[i - (k - d.len())]);
        }
    }
}

/// For a year from 0 to 9999 and fields in their calendar ranges, the
/// timestamp reads exactly `YYYY-MM-DD HH:MM:SS UTC`: 23 characters, digits
/// at the field positions and the fixed separators between them.
#[verifier::rlimit(40)]
pub proof fn lemma_timestamp_pattern(t: UtcTime)
    requires
        t.wf(),
        0 <= t.year <= 9999,
    ensures
        timestamp_text(t).len() == 23,
        forall|i: int|
            0 <= i < 23 && i != 4 && i != 7 && i != 10 && i != 13 && i != 16 && i < 19 ==> is_digit(
                #[trigger] timestamp_text(t)[i],
            ),
        timestamp_text(t)[4] == '-',
        timestamp_text(t)[7] == '-',
        timestamp_text(t)[10] == ' ',
        timestamp_text(t)[13] == ':',
        timestamp_text(t)[16] == ':',
        timestamp_text(t).subrange(19, 23) == seq![' ', 'U', 'T', 'C'],
{
    reveal_with_fuel(pow10, 5);
    lemma_padded_shape(t.year as nat, 4);
    lemma_padded_shape(t.month as nat, 2);
    lemma_padded_shape(t.day as nat, 2);
    lemma_padded_shape(t.hour as nat, 2);
    lemma_padded_shape(t.minute as nat, 2);
    lemma_padded_shape(t.second as nat, 2);
    let s = timestamp_text(t);
    assert(s.subrange(19, 23) =~= seq![' ', 'U', 'T', 'C']);
}

/// A price always renders with exactly two digits after its one point.
#[verifier::rlimit(40)]
pub proof fn lemma_price_two_decimals(p: Price)
    ensures
        price_text(p).len() >= 4,
        price_text(p)[price_text(p).len() - 3] == '.',
        is_digit(price_text(p)[price_text(p).len() - 2]),
        is_digit(price_text(p)[price_text(p).len() - 1]),
        forall|i: int|
            0 <= i < price_text(p).len() - 3 ==> #[trigger] price_text(p)[i] != '.',
{
    reveal_with_fuel(pow10, 3);
    lemma_padded_shape((p.cents % 100) as nat, 2);
    lemma_digits_are_digits((p.cents / 100) as nat);
    let d = decimal_digits((p.cents / 100) as nat);
    let s = price_text(p);
    assert forall|i: int| 0 <= i < s.len() - 3 implies #[trigger] s[i] != '.' by {
        if p.negative && i > 0 {
            assert(s[i] == d[i - 1]);
        } else if !p.negative {
            assert(s[i] == d[i]);
        }
    }
}

/// A persisted record is exactly one line: it ends with a line break and
/// holds no other. Appending records one after another thus keeps each on
/// a line of its own, in the order written.
#[verifier::rlimit(40)]
pub proof fn lemma_record_is_one_line(t: UtcTime, p: Price)
    ensures
        log_line_text(t, p).last() == '\n',
        forall|i: int|
            0 <= i < log_line_text(t, p).len() - 1 ==> #[trigger] log_line_text(t, p)[i] != '\n',
{
    let y = t.year as int;
    let yn: nat = if y >= 0 { y as nat } else { (-y) as nat };
    lemma_no_newline_in_digits(yn, 4);
    lemma_no_newline_in_digits(t.month as nat, 2);
    lemma_no_newline_in_digits(t.day as nat, 2);
    lemma_no_newline_in_digits(t.hour as nat, 2);
    lemma_no_newline_in_digits(t.minute as nat, 2);
    lemma_no_newline_in_digits(t.second as nat, 2);
    lemma_no_newline_in_digits((p.cents / 100) as nat, 0);
    lemma_no_newline_in_digits((p.cents % 100) as nat, 2);
    let yt = year_text(y);
    assert forall|i: int| 0 <= i < yt.len() implies #[trigger] yt[i] != '\n' by {
        if !(0 <= y <= 9999) && i > 0 {
            assert(yt[i] == zero_padded(yn, 4)[i - 1]);
        }
    }
    assert(zero_padded((p.cents / 100) as nat, 0) == decimal_digits((p.cents / 100) as nat));
    let l = log_line_text(t, p);
    assert forall|i: int| 0 <= i < l.len() - 1 implies #[trigger] l[i] != '\n' by {
        let ts = timestamp_text(t);
        let pt = price_text(p);
        if i < ts.len() {
            assert(l[i] == ts[i]);
        } else if i >= ts.len() + 3 {
            assert(l[i] == pt[i - ts.len() - 3]);
        }
    }
}

/// A successful fetch yields exactly the price written in the answer's
/// field for this source, rounded to the cent; the transport adds nothing.
pub proof fn lemma_price_comes_from_answer(src: PriceSource, fetched: Result<Response, FetchError>)
    ensures
        src.spec_fetch_price(fetched) is Ok ==> {
            &&& fetched is Ok
            &&& src.price_field(fetched->Ok_0) is Some
            &&& accepts_literal(src.price_field(fetched->Ok_0)->Some_0)
            &&& src.spec_fetch_price(fetched)->Ok_0 == literal_price(
                src.price_field(fetched->Ok_0)->Some_0,
            )
        },
        fetched is Err ==> src.spec_fetch_price(fetched) == Err::<Price, FetchError>(fetched->Err_0),
{
}

/// An answer that lacks this source's field (a crypto quote without its
/// coin, a chart with no result) gives `PriceNotFound`; and whatever the
/// answer, a failed decode is a data-shape error, never a transport one.
pub proof fn lemma_decode_errors_are_data_shape(src: PriceSource, resp: Response)
    ensures
        src.price_field(resp) is None ==> src.spec_decode(resp) == Err::<Price, FetchError>(
            FetchError::PriceNotFound,
        ),
        src.spec_decode(resp) is Err ==> src.spec_decode(resp)->Err_0.spec_kind()
            == ErrorKind::DataShape,
{
}

/// A status of 429 is reported as `RateLimited`; any other failure of the
/// call, another status outside 2xx included, is reported as itself, a
/// transport error.
pub proof fn lemma_rate_limit_classification(e: FetchError)
    ensures
        (spec_classify(e) is RateLimited) <==> (e == FetchError::Status(429)),
        e is Status && e != FetchError::Status(429) ==> spec_classify(e) == Outcome::FetchFailed(e)
            && e.spec_kind() == ErrorKind::Transport,
{
}

/// Whatever each source's outcome (a failed fetch, a rate limit, a failed
/// write or a success), a cycle polls every registered source once, in
/// registration order, and keeps each outcome against its own source.
pub proof fn lemma_failures_stay_isolated(outcomes: Seq<Outcome>)
    requires
        outcomes.len() <= 3,
    ensures
        cycle_after(outcomes).len() == outcomes.len(),
        forall|i: int|
            0 <= i < outcomes.len() ==> #[trigger] cycle_after(outcomes)[i] == (Report {
                source: PriceSource::registration_order()[i],
                outcome: outcomes[i],
            }),
        outcomes.len() < 3 ==> next_spec(cycle_after(outcomes)) == Some(
            PriceSource::registration_order()[outcomes.len() as int],
        ),
        outcomes.len() == 3 ==> next_spec(cycle_after(outcomes)) is None,
    decreases outcomes.len(),
{
    if outcomes.len() > 0 {
        let prev = outcomes.drop_last();
        lemma_failures_stay_isolated(prev);
        assert forall|i: int| 0 <= i < outcomes.len() implies #[trigger] cycle_after(outcomes)[i] == (Report {
            source: PriceSource::registration_order()[i],
            outcome: outcomes[i],
        }) by {
            if i < prev.len() {
                assert(cycle_after(prev)[i] == (Report {
                    source: PriceSource::registration_order()[i],
                    outcome: prev[i],
                }));
            }
        }
    }
}

} // verus!

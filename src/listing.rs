//! Listing items as the gateway returns them, the strict reading of their
//! decimal fields, supply sums and buy eligibility.
use vstd::prelude::*;

verus! {

#[verifier::external_type_specification]
#[verifier::external_body]
pub struct ExJsonError(serde_json::Error);

/// The value that a JSON reader gives for `s` read as one unsigned 64-bit
/// integer, or `None` when `s` is not such a number.
pub uninterp spec fn json_u64_of(s: Seq<char>) -> Option<u64>;

/// Value of a string of decimal digits.
pub open spec fn decimal_value(s: Seq<char>) -> int
    decreases s.len(),
{
    if s.len() == 0 {
        0
    } else {
        decimal_value(s.drop_last()) * 10 + (s.last() as int - '0' as int)
    }
}

/// A non-empty string of decimal digits with no leading zero (bar "0" itself).
pub open spec fn is_canonical_decimal(s: Seq<char>) -> bool {
    &&& s.len() > 0
    &&& forall|i: int| 0 <= i < s.len() ==> '0' <= #[trigger] s[i] <= '9'
    &&& (s[0] == '0' ==> s.len() == 1)
}

/// Relies on serde_json::from_str::<u64>: it reads one JSON number that fits
/// in a u64; an empty text is an error, and plain decimal digits without a
/// leading zero give their value.
#[verifier::external_body]
fn json_u64(s: &str) -> (r: Result<u64, serde_json::Error>)
    ensures
        r is Ok <==> json_u64_of(s@) is Some,
        r is Ok ==> r->Ok_0 == json_u64_of(s@)->Some_0,
        s@.len() == 0 ==> r is Err,
        is_canonical_decimal(s@) && decimal_value(s@) <= u64::MAX ==> (r is Ok && r->Ok_0
            == decimal_value(s@)),
{
    serde_json::from_str::<u64>(s)
}

/// Why a listing could not be evaluated.
#[derive(Debug, Clone, Copy, PartialEq, Eq, Structural)]
pub enum ListingError {
    /// An amount or price is not an unsigned 64-bit integer.
    Parse,
    /// The summed amounts do not fit in 64 bits.
    Overflow,
}

/// One sell offer: amount and price as decimal text.
#[derive(Debug, Clone)]
pub struct ListingItem {
    pub amount: String,
    pub price: String,
}

/// One page of a listing query; `items` may be absent on an empty feed.
#[derive(Debug, Clone)]
pub struct ListingPage {
    pub total_count: u64,
    pub items: Option<Vec<ListingItem>>,
}

/// The items of a page, none when the field is absent.
pub open spec fn page_items(p: ListingPage) -> Seq<ListingItem> {
    match p.items {
        Some(v) => v@,
        None => Seq::empty(),
    }
}

/// Reads a decimal field strictly: malformed text is an error, never zero.
pub fn parse_field(s: &String) -> (r: Result<u64, ListingError>)
    ensures
        r is Ok <==> json_u64_of(s@) is Some,
        r is Ok ==> r->Ok_0 == json_u64_of(s@)->Some_0,
        r is Err ==> r->Err_0 == ListingError::Parse,
{
    match json_u64(s.as_str()) {
        Ok(v) => Ok(v),
        Err(_) => Err(ListingError::Parse),
    }
}

pub open spec fn amounts_parse(items: Seq<ListingItem>) -> bool {
    forall|i: int| 0 <= i < items.len() ==> (#[trigger] json_u64_of(items[i].amount@)) is Some
}

pub open spec fn prices_parse(items: Seq<ListingItem>) -> bool {
    forall|i: int| 0 <= i < items.len() ==> (#[trigger] json_u64_of(items[i].price@)) is Some
}

/// Sum of the amounts of `items`.
pub open spec fn amount_total(items: Seq<ListingItem>) -> int
    decreases items.len(),
{
    if items.len() == 0 {
        0
    } else {
        amount_total(items.drop_last()) + json_u64_of(items.last().amount@)->Some_0
    }
}

/// Positions of the items priced at or below `floor`, in order.
pub open spec fn eligible_positions(items: Seq<ListingItem>, floor: u64) -> Seq<usize>
    decreases items.len(),
{
    if items.len() == 0 {
        Seq::empty()
    } else {
        let head = eligible_positions(items.drop_last(), floor);
        if json_u64_of(items.last().price@)->Some_0 <= floor {
            head.push((items.len() - 1) as usize)
        } else {
            head
        }
    }
}

/// Adds the amounts of `items` to `base`. Any malformed amount fails with
/// `Parse`; otherwise a sum beyond 64 bits fails with `Overflow`.
pub fn add_amounts(base: u64, items: &Vec<ListingItem>) -> (r: Result<u64, ListingError>)
    ensures
        !amounts_parse(items@) ==> r == Err::<u64, ListingError>(ListingError::Parse),
        amounts_parse(items@) && base + amount_total(items@) > u64::MAX ==> r == Err::<
            u64,
            ListingError,
        >(ListingError::Overflow),
        amounts_parse(items@) && base + amount_total(items@) <= u64::MAX ==> r is Ok,
        r matches Ok(v) ==> v == base + amount_total(items@),
{
    let mut values: Vec<u64> = Vec::new();
    let mut i: usize = 0;
    while i < items.len()
        invariant
            i <= items@.len(),
            values@.len() == i,
            forall|j: int|
                0 <= j < i ==> json_u64_of(#[trigger] items@[j].amount@) == Some(values@[j]),
        decreases items@.len() - i,
    {
        match parse_field(&items[i].amount) {
            Ok(v) => values.push(v),
            Err(e) => {
                return Err(e);
            },
        }
        i = i + 1;
    }
    let mut sum: u64 = base;
    let mut k: usize = 0;
    while k < values.len()
        invariant
            k <= values@.len(),
            values@.len() == items@.len(),
            forall|j: int|
                0 <= j < items@.len() ==> json_u64_of(#[trigger] items@[j].amount@) == Some(
                    values@[j],
                ),
            sum == base + amount_total(items@.take(k as int)),
        decreases values@.len() - k,
    {
        assert(items@.take(k + 1).drop_last() =~= items@.take(k as int));
        proof {
            lemma_amount_total_grows(items@, k as int + 1, items@.len() as int);
        }
        assert(items@.take(k + 1).last() == items@[k as int]);
        assert(items@.take(items@.len() as int) =~= items@);
        if sum > u64::MAX - values[k] {
            return Err(ListingError::Overflow);
        }
        sum = sum + values[k];
        k = k + 1;
    }
    assert(items@.take(items@.len() as int) =~= items@);
    Ok(sum)
}

proof fn lemma_amount_total_grows(items: Seq<ListingItem>, a: int, b: int)
    requires
        0 <= a <= b <= items.len(),
    ensures
        amount_total(items.take(a)) <= amount_total(items.take(b)),
    decreases b - a,
{
    if a < b {
        lemma_amount_total_grows(items, a, b - 1);
        assert(items.take(b).drop_last() =~= items.take(b - 1));
    }
}

/// Positions of the items priced at or below `floor`. Any malformed price
/// fails with `Parse`.
pub fn eligible_items(items: &Vec<ListingItem>, floor: u64) -> (r: Result<Vec<usize>, ListingError>)
    ensures
        r is Ok <==> prices_parse(items@),
        r matches Ok(v) ==> v@ == eligible_positions(items@, floor),
        r matches Err(e) ==> e == ListingError::Parse,
{
    let mut out: Vec<usize> = Vec::new();
    let mut i: usize = 0;
    while i < items.len()
        invariant
            i <= items@.len(),
            prices_parse(items@.take(i as int)),
            out@ == eligible_positions(items@.take(i as int), floor),
        decreases items@.len() - i,
    {
        assert(items@.take(i + 1).drop_last() =~= items@.take(i as int));
        match parse_field(&items[i].price) {
            Ok(p) => {
                if p <= floor {
                    out.push(i);
                }
            },
            Err(e) => {
                assert(items@[i as int] == items@[i as int]);
                return Err(e);
            },
        }
        assert forall|j: int| 0 <= j < i + 1 implies (#[trigger] json_u64_of(
            items@.take(i + 1)[j].price@,
        )) is Some by {
            if j < i {
                assert(items@.take(i + 1)[j] == items@.take(i as int)[j]);
            }
        }
        i = i + 1;
    }
    assert(items@.take(items@.len() as int) =~= items@);
    Ok(out)
}

} // verus!

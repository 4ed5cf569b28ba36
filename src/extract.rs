//! Allocation-free extraction of integer fields from an event payload.
//!
//! A field is found by its literal key pattern (such as `"id":`); any JSON
//! whitespace after the key is skipped and the run of ASCII digits that
//! follows is read as an unsigned number. No structural parse is made.

use vstd::prelude::*;
use vstd::string::StringSliceAdditionalSpecFns;

verus! {

/// Smallest event time (exclusive, in milliseconds since the epoch) that is
/// taken as plausible; it is a calendar floor in the year 2001.
pub const MIN_EVENT_TIME: u64 = 1_000_000_000_000;

/// The key pattern `"id":`.
pub open spec fn id_key() -> Seq<u8> {
    seq![34u8, 105u8, 100u8, 34u8, 58u8]
}

/// The key pattern `"time":`.
pub open spec fn time_key() -> Seq<u8> {
    seq![34u8, 116u8, 105u8, 109u8, 101u8, 34u8, 58u8]
}

pub open spec fn is_digit(b: u8) -> bool {
    48 <= b <= 57
}

/// JSON whitespace: space, tab, line feed, carriage return.
pub open spec fn is_ws(b: u8) -> bool {
    b == 32 || b == 9 || b == 10 || b == 13
}

/// The first index at or after `j` that does not hold whitespace.
pub open spec fn skip_ws(s: Seq<u8>, j: int) -> int
    decreases s.len() - j,
{
    if 0 <= j < s.len() && is_ws(s[j]) {
        skip_ws(s, j + 1)
    } else {
        j
    }
}

/// The first index at or after `j` that does not hold a digit.
pub open spec fn digits_end(s: Seq<u8>, j: int) -> int
    decreases s.len() - j,
{
    if 0 <= j < s.len() && is_digit(s[j]) {
        digits_end(s, j + 1)
    } else {
        j
    }
}

/// The number that a run of decimal digits spells.
pub open spec fn digits_value(d: Seq<u8>) -> nat
    decreases d.len(),
{
    if d.len() == 0 {
        0
    } else {
        digits_value(d.drop_last()) * 10 + (d.last() - 48) as nat
    }
}

/// `key` occurs in `s` at index `i`.
pub open spec fn key_at(s: Seq<u8>, key: Seq<u8>, i: int) -> bool {
    0 <= i && i + key.len() <= s.len() && s.subrange(i, i + key.len()) == key
}

/// The number written after the occurrence of `key` at `i` (after optional
/// whitespace), if `key` occurs there and at least one digit follows.
pub open spec fn value_after(s: Seq<u8>, key: Seq<u8>, i: int) -> Option<nat> {
    let start = skip_ws(s, i + key.len());
    let end = digits_end(s, start);
    if key_at(s, key, i) && start < end {
        Some(digits_value(s.subrange(start, end)))
    } else {
        None
    }
}

/// The occurrence of `key` at `i` carries a number above `floor` that fits in
/// 64 bits.
pub open spec fn accepted_at(s: Seq<u8>, key: Seq<u8>, floor: u64, i: int) -> bool {
    match value_after(s, key, i) {
        Some(v) => floor < v <= u64::MAX,
        None => false,
    }
}

/// The value of the first accepted occurrence of `key` at or after `i`.
pub open spec fn field_from(s: Seq<u8>, key: Seq<u8>, floor: u64, i: int) -> Option<u64>
    decreases s.len() - i,
{
    if i < 0 || i >= s.len() {
        None
    } else if accepted_at(s, key, floor, i) {
        Some(value_after(s, key, i)->0 as u64)
    } else {
        field_from(s, key, floor, i + 1)
    }
}

/// The event identifier and event time of a payload: the first `"id":` with
/// a non-zero value and the first `"time":` with a value above
/// `MIN_EVENT_TIME`; nothing unless both are present.
pub open spec fn event_fields(s: Seq<u8>) -> Option<(u64, u64)> {
    keyed_fields(s, id_key(), time_key())
}

/// As `event_fields`, with the identifier and time found under the key
/// patterns `id_pat` and `time_pat`.
pub open spec fn keyed_fields(s: Seq<u8>, id_pat: Seq<u8>, time_pat: Seq<u8>) -> Option<
    (u64, u64),
> {
    match (field_from(s, id_pat, 0, 0), field_from(s, time_pat, MIN_EVENT_TIME, 0)) {
        (Some(id), Some(t)) => Some((id, t)),
        _ => None,
    }
}

fn is_ws_byte(b: u8) -> (r: bool)
    ensures
        r == is_ws(b),
{
    b == 32 || b == 9 || b == 10 || b == 13
}

fn key_matches(s: &[u8], key: &[u8], i: usize) -> (r: bool)
    ensures
        r == key_at(s@, key@, i as int),
{
    if key.len() > s.len() || i > s.len() - key.len() {
        return false;
    }
    let mut k: usize = 0;
    while k < key.len()
        invariant
            i + key.len() <= s.len(),
            k <= key.len(),
            forall|m: int| 0 <= m < k ==> s@[i + m] == key@[m],
        decreases key.len() - k,
    {
        if s[i + k] != key[k] {
            proof {
                assert(s@.subrange(i as int, i + key.len())[k as int] != key@[k as int]);
            }
            return false;
        }
        k += 1;
    }
    proof {
        assert(s@.subrange(i as int, i + key.len()) =~= key@);
    }
    true
}

proof fn lemma_digits_value_push(d: Seq<u8>, b: u8)
    ensures
        digits_value(d.push(b)) == digits_value(d) * 10 + (b - 48) as nat,
{
    assert(d.push(b).drop_last() =~= d);
}

/// Reads the number after the occurrence of `key` at `i`: `Some` exactly when
/// the occurrence is accepted against `floor`.
fn value_at(s: &[u8], key: &[u8], floor: u64, i: usize) -> (r: Option<u64>)
    requires
        key_at(s@, key@, i as int),
    ensures
        r is Some <==> accepted_at(s@, key@, floor, i as int),
        r is Some ==> r->0 as nat == value_after(s@, key@, i as int)->0,
{
    let n = s.len();
    let mut j: usize = i + key.len();
    while j < n && is_ws_byte(s[j])
        invariant
            n == s.len(),
            i + key.len() <= j <= s.len(),
            skip_ws(s@, j as int) == skip_ws(s@, i + key.len()),
        decreases s.len() - j,
    {
        j += 1;
    }
    let start = j;
    let mut num: u64 = 0;
    let mut overflow = false;
    while j < s.len() && s[j] >= 48 && s[j] <= 57
        invariant
            start <= j <= s.len(),
            start == skip_ws(s@, i + key.len()),
            digits_end(s@, j as int) == digits_end(s@, start as int),
            forall|m: int| start <= m < j ==> is_digit(#[trigger] s@[m]),
            !overflow ==> num as nat == digits_value(s@.subrange(start as int, j as int)),
            overflow ==> digits_value(s@.subrange(start as int, j as int)) > u64::MAX,
        decreases s.len() - j,
    {
        let d = (s[j] - 48) as u64;
        proof {
            assert(s@.subrange(start as int, j + 1) =~= s@.subrange(start as int, j as int).push(
                s@[j as int],
            ));
            lemma_digits_value_push(s@.subrange(start as int, j as int), s@[j as int]);
        }
        if !overflow {
            match num.checked_mul(10) {
                Some(m) => match m.checked_add(d) {
                    Some(n) => {
                        num = n;
                    },
                    None => {
                        overflow = true;
                    },
                },
                None => {
                    overflow = true;
                },
            }
        }
        j += 1;
    }
    if j > start && !overflow && num > floor {
        Some(num)
    } else {
        None
    }
}

/// Returns the value of the first occurrence of `key` in `s` that is
/// followed (after optional whitespace) by a run of digits whose value is
/// above `floor` and fits in 64 bits.
pub fn find_field(s: &[u8], key: &[u8], floor: u64) -> (r: Option<u64>)
    ensures
        r == field_from(s@, key@, floor, 0),
{
    let mut i: usize = 0;
    while i < s.len()
        invariant
            i <= s.len(),
            field_from(s@, key@, floor, 0) == field_from(s@, key@, floor, i as int),
        decreases s.len() - i,
    {
        if key_matches(s, key, i) {
            let v = value_at(s, key, floor, i);
            if v.is_some() {
                return v;
            }
        }
        i += 1;
    }
    None
}

/// Extracts the event identifier and the event time from a payload.
pub fn extract_fields(s: &[u8]) -> (r: Option<(u64, u64)>)
    ensures
        r == event_fields(s@),
{
    // `"id":` and `"time":` in ASCII
    let id_pat: [u8; 5] = [34, 105, 100, 34, 58];
    let time_pat: [u8; 7] = [34, 116, 105, 109, 101, 34, 58];
    proof {
        assert(id_pat@ =~= id_key());
        assert(time_pat@ =~= time_key());
    }
    extract_keyed_fields(s, id_pat.as_slice(), time_pat.as_slice())
}

/// Extracts the event identifier (non-zero) found under `id_pat` and the
/// event time (above `MIN_EVENT_TIME`) found under `time_pat`.
pub fn extract_keyed_fields(s: &[u8], id_pat: &[u8], time_pat: &[u8]) -> (r: Option<(u64, u64)>)
    ensures
        r == keyed_fields(s@, id_pat@, time_pat@),
{
    let id = find_field(s, id_pat, 0);
    let time = find_field(s, time_pat, MIN_EVENT_TIME);
    match (id, time) {
        (Some(a), Some(b)) => Some((a, b)),
        _ => None,
    }
}

/// Extracts the event identifier and the event time from a text payload.
pub fn extract_trade_data(text: &str) -> (r: Option<(u64, u64)>)
    ensures
        r == event_fields(text.spec_bytes()),
{
    extract_fields(text.as_bytes())
}

proof fn lemma_field_from_first(s: Seq<u8>, key: Seq<u8>, floor: u64, i: int, k: int)
    requires
        0 <= k <= i,
        accepted_at(s, key, floor, i),
        forall|m: int| k <= m < i ==> !key_at(s, key, m),
    ensures
        field_from(s, key, floor, k) == Some(value_after(s, key, i)->0 as u64),
    decreases i - k,
{
    if k < i {
        lemma_field_from_first(s, key, floor, i, k + 1);
    }
}

proof fn lemma_field_from_none(s: Seq<u8>, key: Seq<u8>, floor: u64, k: int)
    requires
        0 <= k,
        forall|m: int| k <= m ==> value_after(s, key, m) is None,
    ensures
        field_from(s, key, floor, k) is None,
    decreases s.len() - k,
{
    if k < s.len() {
        lemma_field_from_none(s, key, floor, k + 1);
    }
}

/// Digits follow the occurrence of `key` at `m`, after optional whitespace.
pub open spec fn digits_follow(s: Seq<u8>, key: Seq<u8>, m: int) -> bool {
    let start = skip_ws(s, m + key.len());
    key_at(s, key, m) && 0 <= start < s.len() && is_digit(s[start])
}

proof fn lemma_digits_end_ge(s: Seq<u8>, j: int)
    ensures
        digits_end(s, j) >= j,
    decreases s.len() - j,
{
    if 0 <= j < s.len() && is_digit(s[j]) {
        lemma_digits_end_ge(s, j + 1);
    }
}

proof fn lemma_value_after_needs_digit(s: Seq<u8>, key: Seq<u8>, m: int)
    ensures
        value_after(s, key, m) is Some <==> digits_follow(s, key, m),
{
    let start = skip_ws(s, m + key.len());
    if 0 <= start < s.len() && is_digit(s[start]) {
        lemma_digits_end_ge(s, start + 1);
    }
    assert(digits_end(s, start) > start <==> (0 <= start < s.len() && is_digit(s[start])));
}

/// A payload whose first `"id":` is followed (after optional whitespace) by
/// the digits of a non-zero `id`, and whose first `"time":` by the digits of
/// a `t` above `MIN_EVENT_TIME`, yields exactly `(id, t)`.
pub proof fn lemma_well_formed_payload(s: Seq<u8>, i: int, j: int, id: u64, t: u64)
    requires
        key_at(s, id_key(), i),
        forall|m: int| 0 <= m < i ==> !key_at(s, id_key(), m),
        value_after(s, id_key(), i) == Some(id as nat),
        id > 0,
        key_at(s, time_key(), j),
        forall|m: int| 0 <= m < j ==> !key_at(s, time_key(), m),
        value_after(s, time_key(), j) == Some(t as nat),
        t > MIN_EVENT_TIME,
    ensures
        event_fields(s) == Some((id, t)),
{
    lemma_field_from_first(s, id_key(), 0, i, 0);
    lemma_field_from_first(s, time_key(), MIN_EVENT_TIME, j, 0);
}

/// A payload in which no occurrence of `"id":`, or no occurrence of
/// `"time":`, is followed by a digit (a payload that lacks the key included)
/// yields no result.
pub proof fn lemma_payload_without_digits(s: Seq<u8>)
    requires
        (forall|m: int| !digits_follow(s, id_key(), m)) || (forall|m: int|
            !digits_follow(s, time_key(), m)),
    ensures
        event_fields(s) is None,
{
    if forall|m: int| !digits_follow(s, id_key(), m) {
        assert forall|m: int| 0 <= m implies value_after(s, id_key(), m) is None by {
            lemma_value_after_needs_digit(s, id_key(), m);
        }
        lemma_field_from_none(s, id_key(), 0, 0);
    } else {
        assert forall|m: int| 0 <= m implies value_after(s, time_key(), m) is None by {
            lemma_value_after_needs_digit(s, time_key(), m);
        }
        lemma_field_from_none(s, time_key(), MIN_EVENT_TIME, 0);
    }
}

} // verus!

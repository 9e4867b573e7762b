//! Finding one ability of a character: the query that asks the table for it, and
//! the resolution of the delimited text that comes back.
use vstd::prelude::*;

use crate::fetch::FetchError;
use crate::table_text::{csv_rows, read_rows};

verus! {

/// How many candidate rows a query asks for.
pub const LIMIT: usize = 3;

/// Why an ability could not be resolved.
#[derive(Debug)]
pub enum AbilityError {
    /// The response text was not well-formed delimited text.
    CsvError(csv::Error),
    /// A row lacked a second column, or its value was not an integer in 0..=255.
    CsvAbilityRecordError(Vec<String>),
    /// The query itself failed.
    ClientError(FetchError),
    /// No ability starts with the requested prefix.
    NoAbilityError(String),
    /// Several abilities start with the requested prefix; they are all listed.
    AbilityUniquenessError(String, Vec<String>),
}

// ---------------------------------------------------------------------------
// Unsigned decimal text.

pub open spec fn is_digit(c: char) -> bool {
    '0' <= c <= '9'
}

pub open spec fn digit_value(c: char) -> nat {
    (c as nat - '0' as nat) as nat
}

/// The value of a string of decimal digits.
pub open spec fn digits_value(s: Seq<char>) -> nat
    decreases s.len(),
{
    if s.len() == 0 {
        0
    } else {
        digits_value(s.drop_last()) * 10 + digit_value(s.last())
    }
}

/// The digits after an optional leading `+`.
pub open spec fn unsigned_digits(s: Seq<char>) -> Seq<char> {
    if s.len() > 0 && s[0] == '+' {
        s.subrange(1, s.len() as int)
    } else {
        s
    }
}

/// The `u8` that `s` denotes: an optional `+`, then one or more decimal digits
/// whose value is at most 255.
pub open spec fn u8_of_text(s: Seq<char>) -> Option<u8> {
    let d = unsigned_digits(s);
    if d.len() > 0 && (forall|i: int| 0 <= i < d.len() ==> is_digit(#[trigger] d[i]))
        && digits_value(d) <= 255 {
        Some(digits_value(d) as u8)
    } else {
        None
    }
}

/// Reads a `u8` written in decimal, as `str::parse::<u8>` does.
pub fn parse_u8(s: &str) -> (r: Option<u8>)
    ensures
        r == u8_of_text(s@),
{
    let n = s.unicode_len();
    let start: usize = if n > 0 && s.get_char(0) == '+' {
        1
    } else {
        0
    };
    let ghost d = unsigned_digits(s@);
    assert(d =~= s@.subrange(start as int, n as int));
    if start == n {
        return None;
    }
    // `acc` is the value read so far, held at 256 once it passes 255.
    let mut acc: u16 = 0;
    let mut i: usize = start;
    while i < n
        invariant
            n == s@.len(),
            start <= i <= n,
            d == s@.subrange(start as int, n as int),
            d == unsigned_digits(s@),
            forall|k: int| 0 <= k < i - start ==> is_digit(#[trigger] d[k]),
            acc == if digits_value(d.subrange(0, i - start)) > 255 {
                256
            } else {
                digits_value(d.subrange(0, i - start))
            },
        decreases n - i,
    {
        let c = s.get_char(i);
        if !('0' <= c && c <= '9') {
            assert(d[i - start] == c);
            assert(!is_digit(d[i - start]));
            assert(!(forall|k: int| 0 <= k < d.len() ==> is_digit(#[trigger] d[k])));
            return None;
        }
        let ghost pre = d.subrange(0, i - start);
        let ghost next = d.subrange(0, i + 1 - start);
        assert(next.drop_last() =~= pre);
        assert(next.last() == c);
        let dv = (c as u32 - '0' as u32) as u16;
        if acc > 255 {
            assert(digits_value(next) > 255) by (nonlinear_arith)
                requires
                    digits_value(next) == digits_value(pre) * 10 + digit_value(c),
                    digits_value(pre) > 255,
            ;
        } else {
            acc = acc * 10 + dv;
            if acc > 255 {
                acc = 256;
            }
        }
        i += 1;
    }
    assert(d.subrange(0, n - start) =~= d);
    if acc > 255 {
        None
    } else {
        Some(acc as u8)
    }
}


// ---------------------------------------------------------------------------
// The query.

/// What `str::to_lowercase` makes of a string.
pub uninterp spec fn lower_of(s: Seq<char>) -> Seq<char>;

/// Relies on `str::to_lowercase`: the lowercase form depends on the text alone.
#[verifier::external_body]
fn lowercase(s: &str) -> (r: String)
    ensures
        r@ == lower_of(s@),
{
    s.to_lowercase()
}

/// The text of one decimal digit.
pub open spec fn digit_text(d: nat) -> Seq<char> {
    if d == 0 { "0"@ }
    else if d == 1 { "1"@ }
    else if d == 2 { "2"@ }
    else if d == 3 { "3"@ }
    else if d == 4 { "4"@ }
    else if d == 5 { "5"@ }
    else if d == 6 { "6"@ }
    else if d == 7 { "7"@ }
    else if d == 8 { "8"@ }
    else { "9"@ }
}

/// `n` written in decimal, without leading zeros.
pub open spec fn decimal_text(n: nat) -> Seq<char>
    decreases n,
{
    if n < 10 {
        digit_text(n)
    } else {
        decimal_text(n / 10) + digit_text(n % 10)
    }
}

fn digit_str(d: usize) -> (r: &'static str)
    requires
        d < 10,
    ensures
        r@ == digit_text(d as nat),
{
    if d == 0 { "0" }
    else if d == 1 { "1" }
    else if d == 2 { "2" }
    else if d == 3 { "3" }
    else if d == 4 { "4" }
    else if d == 5 { "5" }
    else if d == 6 { "6" }
    else if d == 7 { "7" }
    else if d == 8 { "8" }
    else { "9" }
}

fn append_decimal(out: &mut String, n: usize)
    ensures
        final(out)@ == old(out)@ + decimal_text(n as nat),
    decreases n,
{
    if n >= 10 {
        append_decimal(out, n / 10);
    }
    let ghost mid = out@;
    out.append(digit_str(n % 10));
    if n >= 10 {
        assert(out@ =~= old(out)@ + (decimal_text((n / 10) as nat) + digit_text((n % 10) as nat)));
    } else {
        assert(mid == old(out)@);
    }
}

/// The address that asks sheet `sheet` of spreadsheet `spreadsheet_id` for
/// columns A and G of at most `limit` rows whose lowercased column A starts with
/// `prefix_lower`, as quoted delimited text.
pub open spec fn query_url(
    spreadsheet_id: Seq<char>,
    sheet: Seq<char>,
    prefix_lower: Seq<char>,
    limit: nat,
) -> Seq<char> {
    "https://docs.google.com/spreadsheets/d/"@ + spreadsheet_id
        + "/gviz/tq?tq=select+A+,+G+where+lower(A)+starts+with+'"@ + prefix_lower
        + "'+limit+"@ + decimal_text(limit) + "&sheet="@ + sheet + "&tqx=out:csv"@
}

/// The query address for the rows of `character_name` whose ability name starts,
/// ignoring case, with `ability`.
pub fn ability_query_url(
    spreadsheet_id: &str,
    character_name: &str,
    ability: &str,
    limit: usize,
) -> (r: String)
    ensures
        r@ == query_url(spreadsheet_id@, character_name@, lower_of(ability@), limit as nat),
{
    let prefix = lowercase(ability);
    let mut url = String::from_str("https://docs.google.com/spreadsheets/d/");
    url.append(spreadsheet_id);
    url.append("/gviz/tq?tq=select+A+,+G+where+lower(A)+starts+with+'");
    url.append(prefix.as_str());
    url.append("'+limit+");
    append_decimal(&mut url, limit);
    url.append("&sheet=");
    url.append(character_name);
    url.append("&tqx=out:csv");
    url
}

// ---------------------------------------------------------------------------
// Resolution of the rows that came back.

/// The ability a row names: its first field, and its second read as a `u8`.
pub open spec fn row_ability(row: Seq<Seq<char>>) -> Option<(Seq<char>, u8)> {
    if row.len() >= 2 && u8_of_text(row[1]) is Some {
        Some((row[0], u8_of_text(row[1])->0))
    } else {
        None
    }
}

/// Does some row fail to name an ability?
pub open spec fn has_bad_row(rows: Seq<Seq<Seq<char>>>) -> bool {
    exists|i: int| 0 <= i < rows.len() && (#[trigger] row_ability(rows[i])) is None
}

/// Is `i` the first row that fails to name an ability?
pub open spec fn first_bad_row(rows: Seq<Seq<Seq<char>>>, i: int) -> bool {
    &&& 0 <= i < rows.len()
    &&& row_ability(rows[i]) is None
    &&& forall|j: int| 0 <= j < i ==> (#[trigger] row_ability(rows[j])) is Some
}

/// `r` is the resolution of ability `prefix` from `rows`, the rows read before a
/// malformed one (`read_failed`): the first row without an ability is an error;
/// then a malformed text; then no row, or more than one, are errors; a single
/// row is the answer.
pub open spec fn resolves(
    prefix: Seq<char>,
    rows: Seq<Seq<Seq<char>>>,
    read_failed: bool,
    r: Result<(String, u8), AbilityError>,
) -> bool {
    match r {
        Ok((name, value)) => {
            &&& !has_bad_row(rows)
            &&& !read_failed
            &&& rows.len() == 1
            &&& row_ability(rows[0]) == Some((name@, value))
        },
        Err(AbilityError::CsvAbilityRecordError(row)) => exists|i: int|
            first_bad_row(rows, i) && row.deep_view() == rows[i],
        Err(AbilityError::CsvError(_)) => !has_bad_row(rows) && read_failed,
        Err(AbilityError::NoAbilityError(a)) => {
            &&& a@ == prefix
            &&& !has_bad_row(rows)
            &&& !read_failed
            &&& rows.len() == 0
        },
        Err(AbilityError::AbilityUniquenessError(a, names)) => {
            &&& a@ == prefix
            &&& !has_bad_row(rows)
            &&& !read_failed
            &&& rows.len() > 1
            &&& names.deep_view() == rows.map_values(|row: Seq<Seq<char>>| row[0])
        },
        Err(AbilityError::ClientError(_)) => false,
    }
}

/// Resolves ability `ability` from the rows read from the answer, and the error
/// that cut the reading short, if any.
pub fn resolve_rows(ability: &str, rows: Vec<Vec<String>>, read_error: Option<csv::Error>) -> (r:
    Result<(String, u8), AbilityError>)
    ensures
        resolves(ability@, rows.deep_view(), read_error is Some, r),
{
    let ghost all = rows.deep_view();
    let mut names: Vec<String> = Vec::new();
    let mut found: Option<(String, u8)> = None;
    let mut i: usize = 0;
    while i < rows.len()
        invariant
            all == rows.deep_view(),
            i <= rows.len(),
            names@.len() == i,
            forall|j: int| 0 <= j < i ==> (#[trigger] row_ability(all[j])) is Some,
            forall|j: int| 0 <= j < i ==> (#[trigger] names@[j])@ == all[j][0],
            i == 0 ==> found is None,
            i > 0 ==> (found matches Some((name, value)) && row_ability(all[i - 1]) == Some(
                (name@, value),
            )),
        decreases rows.len() - i,
    {
        let row = &rows[i];
        assert(row.deep_view() == all[i as int]);
        if row.len() < 2 {
            proof {
                assert(first_bad_row(all, i as int));
            }
            return Err(AbilityError::CsvAbilityRecordError(row.clone()));
        }
        let value = parse_u8(row[1].as_str());
        match value {
            None => {
                proof {
                    assert(first_bad_row(all, i as int));
                }
                return Err(AbilityError::CsvAbilityRecordError(row.clone()));
            },
            Some(v) => {
                names.push(row[0].clone());
                found = Some((row[0].clone(), v));
            },
        }
        i += 1;
    }
    assert(!has_bad_row(all));
    if read_error.is_some() {
        return match read_error {
            Some(e) => Err(AbilityError::CsvError(e)),
            None => Err(AbilityError::NoAbilityError(String::from_str(ability))),
        };
    }
    if names.len() > 1 {
        assert(names.deep_view() =~= all.map_values(|row: Seq<Seq<char>>| row[0]));
        return Err(AbilityError::AbilityUniquenessError(String::from_str(ability), names));
    }
    match found {
        Some(pair) => Ok(pair),
        None => Err(AbilityError::NoAbilityError(String::from_str(ability))),
    }
}

/// Resolves ability `ability` from the outcome of its query: a failed query is a
/// client error; an answer is read as delimited text, at most [`LIMIT`] rows of
/// it, and resolved as [`resolve_rows`] does.
pub fn get_ability_value(ability: &str, fetched: Result<String, FetchError>) -> (r: Result<
    (String, u8),
    AbilityError,
>)
    ensures
        fetched matches Err(e) ==> (r matches Err(AbilityError::ClientError(e2)) && e2 == e),
        fetched matches Ok(text) ==> resolves(
            ability@,
            csv_rows(text@, LIMIT as nat).0,
            csv_rows(text@, LIMIT as nat).1,
            r,
        ),
{
    match fetched {
        Err(e) => Err(AbilityError::ClientError(e)),
        Ok(text) => {
            let (rows, read_error) = read_rows(text.as_str(), LIMIT);
            resolve_rows(ability, rows, read_error)
        },
    }
}
} // verus!

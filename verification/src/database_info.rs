use vstd::prelude::*;

use vstd::string::StrSliceExecFns;
use vstd::utf8::{encode_utf8, encode_utf8_valid_utf8, is_char_boundary};

verus! {

/// The header row of a navigation database.
pub struct Header {
    pub creator: String,
    pub cycle: String,
    pub data_provider: String,
    pub dataset_version: String,
    pub dataset: String,
    pub effective_fromto: String,
    pub parsed_at: String,
    pub revision: String,
}

/// What a database says about itself.
pub struct DatabaseInfo {
    /// The AIRAC cycle of the database, such as `2313` or `2107`.
    pub airac_cycle: String,
    /// The effective date range of this AIRAC cycle.
    pub effective_from_to: (String, String),
    /// The effective date range of the previous AIRAC cycle.
    pub previous_from_to: (String, String),
}

/// A field of a date range did not read as a number.
#[derive(Clone, Copy, Debug, PartialEq, Eq, Structural)]
pub struct DateParseError;

pub open spec fn is_digit(c: u8) -> bool {
    48 <= c <= 57
}

pub open spec fn digit_value(c: u8) -> int {
    c - 48
}

/// The number that the two bytes `a` `b` read as (as `u32::from_str`
/// reads them: two ASCII digits, or `+` and one digit), if any.
pub open spec fn field_value(a: u8, b: u8) -> Option<int> {
    if is_digit(a) && is_digit(b) {
        Some(10 * digit_value(a) + digit_value(b))
    } else if a == 43 && is_digit(b) {
        Some(digit_value(b))
    } else {
        None
    }
}

/// The number in bytes `2 * k` and `2 * k + 1` of the UTF-8 text `s`.
pub open spec fn field_at(s: Seq<char>, k: int) -> Option<int> {
    field_value(encode_utf8(s)[2 * k], encode_utf8(s)[2 * k + 1])
}

/// The fields before field `k` read as numbers.
pub open spec fn fields_read(s: Seq<char>, k: int) -> bool {
    forall|j: int| 0 <= j < k ==> (#[trigger] field_at(s, j)) is Some
}

/// The byte slice that ends field `k` can be taken: byte `2 * k + 2` of `s`
/// is a character boundary.
pub open spec fn field_end_ok(s: Seq<char>, k: int) -> bool {
    is_char_boundary(encode_utf8(s), 2 * k + 2)
}

/// Every field that is sliced off can be: fields are read in order, and field
/// `k` is sliced only once the fields before it read as numbers.
pub open spec fn slices_ok(s: Seq<char>) -> bool {
    forall|k: int| 0 <= k < 5 && fields_read(s, k) ==> #[trigger] field_end_ok(s, k)
}

/// All five fields are there and read as numbers.
pub open spec fn fields_ok(s: Seq<char>) -> bool {
    encode_utf8(s).len() >= 10 && fields_read(s, 5)
}

/// A byte that ends a field that can be sliced off lies within the text.
proof fn lemma_field_end_len(s: Seq<char>, k: int)
    requires
        0 <= k,
        field_end_ok(s, k),
    ensures
        encode_utf8(s).len() >= 2 * k + 2,
{
    encode_utf8_valid_utf8(s);
}

/// The year of the start of the range: the year before the end year when
/// the range crosses a new year (its end month comes before its start month).
pub open spec fn from_year_of(s: Seq<char>) -> int {
    let from_month = field_at(s, 1)->0;
    let to_month = field_at(s, 3)->0;
    let to_year = field_at(s, 4)->0;
    if to_month < from_month {
        to_year - 1
    } else {
        to_year
    }
}

/// A range that crosses into year `00`: the start year would be below zero.
pub open spec fn year_underflows(s: Seq<char>) -> bool {
    fields_ok(s) && from_year_of(s) < 0
}

pub open spec fn digit_char_of(d: int) -> char {
    (d + '0' as int) as char
}

/// `v` (below 100) as two digits.
pub open spec fn two_digits(v: int) -> Seq<char> {
    seq![digit_char_of(v / 10), digit_char_of(v % 10)]
}

/// `DD-MM-20YY`.
pub open spec fn date_text(d: int, m: int, y: int) -> Seq<char> {
    two_digits(d) + seq!['-'] + two_digits(m) + seq!['-', '2', '0'] + two_digits(y)
}

/// The two dates of a `DDMMDDMMYY` range.
pub open spec fn from_to_of(s: Seq<char>) -> (Seq<char>, Seq<char>) {
    (
        date_text(field_at(s, 0)->0, field_at(s, 1)->0, from_year_of(s)),
        date_text(field_at(s, 2)->0, field_at(s, 3)->0, field_at(s, 4)->0),
    )
}

fn digit_str(d: u32) -> (res: &'static str)
    requires
        d < 10,
    ensures
        res@ == seq![digit_char_of(d as int)],
{
    let r = match d {
        0 => "0",
        1 => "1",
        2 => "2",
        3 => "3",
        4 => "4",
        5 => "5",
        6 => "6",
        7 => "7",
        8 => "8",
        _ => "9",
    };
    proof {
        reveal_strlit("0");
        reveal_strlit("1");
        reveal_strlit("2");
        reveal_strlit("3");
        reveal_strlit("4");
        reveal_strlit("5");
        reveal_strlit("6");
        reveal_strlit("7");
        reveal_strlit("8");
        reveal_strlit("9");
        assert(r@ =~= seq![digit_char_of(d as int)]);
    }
    r
}

fn read_field(a: u8, b: u8) -> (res: Option<u32>)
    ensures
        match field_value(a, b) {
            Some(v) => res == Some(v as u32),
            None => res is None,
        },
        res matches Some(v) ==> v < 100,
{
    if b < 48 || b > 57 {
        return None;
    }
    let lo = (b - 48) as u32;
    if 48 <= a && a <= 57 {
        Some(10 * ((a - 48) as u32) + lo)
    } else if a == 43 {
        Some(lo)
    } else {
        None
    }
}

fn push_two_digits(s: &mut String, v: u32)
    requires
        v < 100,
    ensures
        final(s)@ == old(s)@ + two_digits(v as int),
{
    s.append(digit_str(v / 10));
    s.append(digit_str(v % 10));
    proof {
        assert(s@ =~= old(s)@ + two_digits(v as int));
    }
}

fn date_string(d: u32, m: u32, y: u32) -> (res: String)
    requires
        d < 100,
        m < 100,
        y < 100,
    ensures
        res@ == date_text(d as int, m as int, y as int),
{
    let mut s = String::new();
    push_two_digits(&mut s, d);
    s.append("-");
    push_two_digits(&mut s, m);
    s.append("-20");
    push_two_digits(&mut s, y);
    proof {
        reveal_strlit("-");
        reveal_strlit("-20");
        assert(s@ =~= date_text(d as int, m as int, y as int));
    }
    s
}

/// Converts a range `DDMMDDMMYY` into its two dates `DD-MM-20YY`. When the
/// end month comes before the start month, the range starts in the year
/// before its end year.
///
/// Fails when one of the five fields does not read as a number.
pub fn parse_from_to(data: String) -> (res: Result<(String, String), DateParseError>)
    requires
        slices_ok(data@),
        !year_underflows(data@),
    ensures
        match res {
            Ok((from, to)) => fields_ok(data@) && (from@, to@) == from_to_of(data@),
            Err(_) => !fields_ok(data@),
        },
{
    let b = data.as_str().as_bytes();
    let ghost s = data@;
    proof {
        assert(fields_read(s, 0));
        assert(field_end_ok(s, 0));
        lemma_field_end_len(s, 0);
    }
    let fd = match read_field(b[0], b[1]) {
        Some(v) => v,
        None => {
            assert(field_at(s, 0) is None);
            return Err(DateParseError);
        },
    };
    proof {
        assert(field_at(s, 0) is Some);
        assert(fields_read(s, 1));
        assert(field_end_ok(s, 1));
        lemma_field_end_len(s, 1);
    }
    let fm = match read_field(b[2], b[3]) {
        Some(v) => v,
        None => {
            assert(field_at(s, 1) is None);
            return Err(DateParseError);
        },
    };
    proof {
        assert(field_at(s, 1) is Some);
        assert(fields_read(s, 2));
        assert(field_end_ok(s, 2));
        lemma_field_end_len(s, 2);
    }
    let td = match read_field(b[4], b[5]) {
        Some(v) => v,
        None => {
            assert(field_at(s, 2) is None);
            return Err(DateParseError);
        },
    };
    proof {
        assert(field_at(s, 2) is Some);
        assert(fields_read(s, 3));
        assert(field_end_ok(s, 3));
        lemma_field_end_len(s, 3);
    }
    let tm = match read_field(b[6], b[7]) {
        Some(v) => v,
        None => {
            assert(field_at(s, 3) is None);
            return Err(DateParseError);
        },
    };
    proof {
        assert(field_at(s, 3) is Some);
        assert(fields_read(s, 4));
        assert(field_end_ok(s, 4));
        lemma_field_end_len(s, 4);
    }
    let ty = match read_field(b[8], b[9]) {
        Some(v) => v,
        None => {
            assert(field_at(s, 4) is None);
            return Err(DateParseError);
        },
    };
    proof {
        assert(field_at(s, 4) is Some);
        assert(fields_read(s, 5));
    }
    let from_year = if tm < fm {
        ty - 1
    } else {
        ty
    };
    let from = date_string(fd, fm, from_year);
    let to = date_string(td, tm, ty);
    Ok((from, to))
}

/// Tells whether `parse_from_to` can read `data` without failing on its
/// shape: each field it slices off ends on a character boundary, and no range
/// starts before year `00`.
pub fn from_to_readable(data: &str) -> (res: bool)
    ensures
        res == (slices_ok(data@) && !year_underflows(data@)),
{
    let b = data.as_bytes();
    let ghost s = data@;
    proof {
        assert(fields_read(s, 0));
    }
    if !data.is_char_boundary(2) {
        assert(!field_end_ok(s, 0));
        return false;
    }
    proof {
        lemma_field_end_len(s, 0);
    }
    let fd = read_field(b[0], b[1]);
    if fd.is_none() {
        proof {
            assert(!fields_read(s, 5));
            assert forall|k: int| 0 <= k < 5 && fields_read(s, k) implies #[trigger] field_end_ok(s, k) by {
                if k > 0 {
                    assert(field_at(s, 0) is Some);
                }
            }
        }
        return true;
    }
    proof {
        assert(fields_read(s, 1));
    }
    if !data.is_char_boundary(4) {
        assert(!field_end_ok(s, 1));
        return false;
    }
    proof {
        lemma_field_end_len(s, 1);
    }
    let fm = read_field(b[2], b[3]);
    if fm.is_none() {
        proof {
            assert(!fields_read(s, 5));
            assert forall|k: int| 0 <= k < 5 && fields_read(s, k) implies #[trigger] field_end_ok(s, k) by {
                if k > 1 {
                    assert(field_at(s, 1) is Some);
                }
            }
        }
        return true;
    }
    proof {
        assert(fields_read(s, 2));
    }
    if !data.is_char_boundary(6) {
        assert(!field_end_ok(s, 2));
        return false;
    }
    proof {
        lemma_field_end_len(s, 2);
    }
    let td = read_field(b[4], b[5]);
    if td.is_none() {
        proof {
            assert(!fields_read(s, 5));
            assert forall|k: int| 0 <= k < 5 && fields_read(s, k) implies #[trigger] field_end_ok(s, k) by {
                if k > 2 {
                    assert(field_at(s, 2) is Some);
                }
            }
        }
        return true;
    }
    proof {
        assert(fields_read(s, 3));
    }
    if !data.is_char_boundary(8) {
        assert(!field_end_ok(s, 3));
        return false;
    }
    proof {
        lemma_field_end_len(s, 3);
    }
    let tm = read_field(b[6], b[7]);
    if tm.is_none() {
        proof {
            assert(!fields_read(s, 5));
            assert forall|k: int| 0 <= k < 5 && fields_read(s, k) implies #[trigger] field_end_ok(s, k) by {
                if k > 3 {
                    assert(field_at(s, 3) is Some);
                }
            }
        }
        return true;
    }
    proof {
        assert(fields_read(s, 4));
    }
    if !data.is_char_boundary(10) {
        assert(!field_end_ok(s, 4));
        return false;
    }
    proof {
        lemma_field_end_len(s, 4);
    }
    let ty = read_field(b[8], b[9]);
    proof {
        assert forall|k: int| 0 <= k < 5 && fields_read(s, k) implies #[trigger] field_end_ok(s, k) by {
            if k == 0 {
            } else if k == 1 {
            } else if k == 2 {
            } else if k == 3 {
            } else {
            }
        }
    }
    match (fm, tm, ty) {
        (Some(f), Some(t), Some(y)) => {
            proof {
                assert(field_at(s, 0) is Some);
                assert(field_at(s, 1) is Some);
                assert(field_at(s, 2) is Some);
                assert(field_at(s, 3) is Some);
                assert(field_at(s, 4) is Some);
                assert(fields_read(s, 5));
            }
            !(t < f && y == 0)
        },
        _ => {
            assert(field_at(s, 4) is None);
            true
        },
    }
}

/// The text standing for a date range the database no longer carries.
pub open spec fn deprecated_text() -> Seq<char> {
    seq!['d', 'e', 'p', 'r', 'e', 'c', 'a', 't', 'e', 'd']
}

fn deprecated_string() -> (res: String)
    ensures
        res@ == deprecated_text(),
{
    let s = String::from_str("deprecated");
    proof {
        reveal_strlit("deprecated");
    }
    s
}

impl DatabaseInfo {
    /// The information in a database header: its cycle and its effective
    /// date range; the previous range is no longer carried.
    pub fn from_header(header: Header) -> (res: Self)
        requires
            slices_ok(header.effective_fromto@),
            fields_ok(header.effective_fromto@),
            !year_underflows(header.effective_fromto@),
        ensures
            res.airac_cycle@ == header.cycle@,
            (res.effective_from_to.0@, res.effective_from_to.1@) == from_to_of(header.effective_fromto@),
            res.previous_from_to.0@ == deprecated_text(),
            res.previous_from_to.1@ == deprecated_text(),
    {
        let effective = match parse_from_to(header.effective_fromto) {
            Ok(r) => r,
            Err(_) => (String::new(), String::new()),
        };
        DatabaseInfo {
            airac_cycle: header.cycle,
            effective_from_to: effective,
            previous_from_to: (deprecated_string(), deprecated_string()),
        }
    }

    /// The information in a header of the first database format, which
    /// carries the ranges of both the current and the previous cycle.
    pub fn from_header_ranges(airac_cycle: String, effective_fromto: String, previous_fromto: String) -> (res:
        Self)
        requires
            slices_ok(effective_fromto@),
            fields_ok(effective_fromto@),
            !year_underflows(effective_fromto@),
            slices_ok(previous_fromto@),
            fields_ok(previous_fromto@),
            !year_underflows(previous_fromto@),
        ensures
            res.airac_cycle@ == airac_cycle@,
            (res.effective_from_to.0@, res.effective_from_to.1@) == from_to_of(effective_fromto@),
            (res.previous_from_to.0@, res.previous_from_to.1@) == from_to_of(previous_fromto@),
    {
        let effective = match parse_from_to(effective_fromto) {
            Ok(r) => r,
            Err(_) => (String::new(), String::new()),
        };
        let previous = match parse_from_to(previous_fromto) {
            Ok(r) => r,
            Err(_) => (String::new(), String::new()),
        };
        DatabaseInfo { airac_cycle, effective_from_to: effective, previous_from_to: previous }
    }
}

} // verus!

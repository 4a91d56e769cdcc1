use vstd::prelude::*;

use crate::procedure::opt_view;
use vstd::string::StrSliceExecFns;

verus! {

/// A geographic position. The library only carries positions from rows to
/// outputs, so the type of a degree value is left to the caller.
#[derive(Clone, Copy, Debug)]
pub struct Coordinates<D> {
    pub lat: D,
    pub long: D,
}

/// The kind of database entry a fix refers to.
#[derive(Clone, Copy, Debug, PartialEq, Eq, Structural)]
pub enum FixType {
    Airport,
    NdbNavaid,
    RunwayThreshold,
    GlsNavaid,
    IlsNavaid,
    VhfNavaid,
    Waypoint,
}

/// A fix used as a reference in a procedure or an airway. Every fix has a
/// full entry elsewhere in the database with the same `ident` and `icao_code`.
pub struct Fix<D> {
    /// The type of fix.
    pub fix_type: FixType,
    /// The identifier of the fix (not unique), such as `KLAX`, `RW17L` or `GLENN`.
    pub ident: String,
    /// The icao prefix of the region the fix is in.
    pub icao_code: String,
    /// The position of the fix.
    pub location: Coordinates<D>,
    /// The airport the fix is associated with, if any.
    pub airport_ident: Option<String>,
}

/// The abstract value of a fix.
pub struct FixView<D> {
    pub fix_type: FixType,
    pub ident: Seq<char>,
    pub icao_code: Seq<char>,
    pub location: Coordinates<D>,
    pub airport_ident: Option<Seq<char>>,
}

pub open spec fn fix_view<D>(f: Fix<D>) -> FixView<D> {
    FixView {
        fix_type: f.fix_type,
        ident: f.ident@,
        icao_code: f.icao_code@,
        location: f.location,
        airport_ident: opt_view(f.airport_ident),
    }
}

/// `s` is the two-character string `a` `b`.
pub open spec fn is_two_chars(s: Seq<char>, a: char, b: char) -> bool {
    s.len() == 2 && s[0] == a && s[1] == b
}

/// The type of fix that a row referencing table `table` points to: `PA`
/// airports, `PN` and `DB` NDBs, `PG` runways, `PT` GLS, `PI` ILS, `D ` VHF
/// navaids, `EA` and `PC` waypoints.
pub open spec fn fix_type_of_table(table: Seq<char>) -> Option<FixType> {
    if is_two_chars(table, 'P', 'A') {
        Some(FixType::Airport)
    } else if is_two_chars(table, 'P', 'N') || is_two_chars(table, 'D', 'B') {
        Some(FixType::NdbNavaid)
    } else if is_two_chars(table, 'P', 'G') {
        Some(FixType::RunwayThreshold)
    } else if is_two_chars(table, 'P', 'T') {
        Some(FixType::GlsNavaid)
    } else if is_two_chars(table, 'P', 'I') {
        Some(FixType::IlsNavaid)
    } else if is_two_chars(table, 'D', ' ') {
        Some(FixType::VhfNavaid)
    } else if is_two_chars(table, 'E', 'A') || is_two_chars(table, 'P', 'C') {
        Some(FixType::Waypoint)
    } else {
        None
    }
}

/// The reference table codes of the navigation data and the fix types they
/// stand for: `PA` airport, `PN` and `DB` NDB, `PG` runway threshold, `PT`
/// GLS, `PI` ILS, `D ` VHF navaid, `EA` and `PC` waypoint. No other table
/// tells a fix type.
pub proof fn lemma_fix_table_codes()
    ensures
        fix_type_of_table(seq!['P', 'A']) == Some(FixType::Airport),
        fix_type_of_table(seq!['P', 'N']) == Some(FixType::NdbNavaid),
        fix_type_of_table(seq!['D', 'B']) == Some(FixType::NdbNavaid),
        fix_type_of_table(seq!['P', 'G']) == Some(FixType::RunwayThreshold),
        fix_type_of_table(seq!['P', 'T']) == Some(FixType::GlsNavaid),
        fix_type_of_table(seq!['P', 'I']) == Some(FixType::IlsNavaid),
        fix_type_of_table(seq!['D', ' ']) == Some(FixType::VhfNavaid),
        fix_type_of_table(seq!['E', 'A']) == Some(FixType::Waypoint),
        fix_type_of_table(seq!['P', 'C']) == Some(FixType::Waypoint),
        forall|table: Seq<char>|
            (#[trigger] fix_type_of_table(table)) is Some ==> table == seq!['P', 'A'] || table == seq!['P', 'N'] || table == seq!['D', 'B'] || table == seq!['P', 'G'] || table == seq!['P', 'T'] || table == seq!['P', 'I'] || table == seq!['D', ' '] || table == seq!['E', 'A'] || table == seq!['P', 'C'],
{
    assert forall|table: Seq<char>| (#[trigger] fix_type_of_table(table)) is Some implies table == seq!['P', 'A'] || table == seq!['P', 'N'] || table == seq!['D', 'B'] || table == seq!['P', 'G'] || table == seq!['P', 'T'] || table == seq!['P', 'I'] || table == seq!['D', ' '] || table == seq!['E', 'A'] || table == seq!['P', 'C'] by {
        if is_two_chars(table, 'P', 'A') {
            assert(table =~= seq!['P', 'A']);
        }
        if is_two_chars(table, 'P', 'N') {
            assert(table =~= seq!['P', 'N']);
        }
        if is_two_chars(table, 'D', 'B') {
            assert(table =~= seq!['D', 'B']);
        }
        if is_two_chars(table, 'P', 'G') {
            assert(table =~= seq!['P', 'G']);
        }
        if is_two_chars(table, 'P', 'T') {
            assert(table =~= seq!['P', 'T']);
        }
        if is_two_chars(table, 'P', 'I') {
            assert(table =~= seq!['P', 'I']);
        }
        if is_two_chars(table, 'D', ' ') {
            assert(table =~= seq!['D', ' ']);
        }
        if is_two_chars(table, 'E', 'A') {
            assert(table =~= seq!['E', 'A']);
        }
        if is_two_chars(table, 'P', 'C') {
            assert(table =~= seq!['P', 'C']);
        }
    }
}

fn two_chars_are(s: &str, a: char, b: char) -> (res: bool)
    ensures
        res == is_two_chars(s@, a, b),
{
    s.unicode_len() == 2 && s.get_char(0) == a && s.get_char(1) == b
}

/// The fix type that a reference table code stands for.
pub fn fix_type_from_table(table: &str) -> (res: Option<FixType>)
    ensures
        res == fix_type_of_table(table@),
{
    if two_chars_are(table, 'P', 'A') {
        Some(FixType::Airport)
    } else if two_chars_are(table, 'P', 'N') || two_chars_are(table, 'D', 'B') {
        Some(FixType::NdbNavaid)
    } else if two_chars_are(table, 'P', 'G') {
        Some(FixType::RunwayThreshold)
    } else if two_chars_are(table, 'P', 'T') {
        Some(FixType::GlsNavaid)
    } else if two_chars_are(table, 'P', 'I') {
        Some(FixType::IlsNavaid)
    } else if two_chars_are(table, 'D', ' ') {
        Some(FixType::VhfNavaid)
    } else if two_chars_are(table, 'E', 'A') || two_chars_are(table, 'P', 'C') {
        Some(FixType::Waypoint)
    } else {
        None
    }
}

impl<D> Fix<D> {
    /// Builds a fix from the position, identifiers and reference table of a
    /// procedure or airway row; the table decides the fix type.
    pub fn from_row_data(
        lat: D,
        long: D,
        ident: String,
        icao_code: String,
        airport_ident: Option<String>,
        ref_table: String,
    ) -> (res: Self)
        requires
            fix_type_of_table(ref_table@) is Some,
        ensures
            fix_view(res) == (FixView {
                fix_type: fix_type_of_table(ref_table@)->0,
                ident: ident@,
                icao_code: icao_code@,
                location: Coordinates { lat, long },
                airport_ident: opt_view(airport_ident),
            }),
    {
        let fix_type = match fix_type_from_table(ref_table.as_str()) {
            Some(t) => t,
            None => FixType::Airport,
        };
        Fix { fix_type, ident, icao_code, location: Coordinates { lat, long }, airport_ident }
    }
}


} // verus!

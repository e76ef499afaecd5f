//! Parsing of one cleaned source line into the row the sink stores.
//!
//! A record carries at least 41 comma-separated fields; the pipeline reads
//! the positions listed below, rewrites the open-ended validity sentinel,
//! normalizes the two kana fields to full width, and coerces empty fields to
//! NULL for storage.

use vstd::prelude::*;
use crate::codec::decode_shift_jis;
use crate::codec::sjis_decode_of;
use crate::codec::to_full_width;
use crate::codec::wide_of;
use crate::text::clean_line;
use crate::text::clean_of;
use crate::text::split_fields;
use crate::text::split_of;

verus! {

/// Positions of the consumed fields within a record.
pub const CODE_FIELD: usize = 0;

pub const ZIPCODE_FIELD: usize = 2;

pub const CITY_KANA_FIELD: usize = 11;

pub const TOWN_KANA_FIELD: usize = 12;

pub const CITY_FIELD: usize = 20;

pub const TOWN_FIELD: usize = 21;

pub const CHOME_FIELD: usize = 22;

pub const START_YM_FIELD: usize = 39;

pub const END_YM_FIELD: usize = 40;

/// A record must reach the end-of-validity field.
pub const MIN_FIELD_COUNT: usize = 41;

/// Why a line hard-fails the run.
#[derive(Clone, Copy, Debug, PartialEq, Eq, Structural)]
pub enum LineError {
    /// The line has fewer comma-separated fields than the consumed
    /// positions require.
    TooFewFields,
    /// The end-of-validity field is not a plain decimal year-month.
    BadYearMonth,
}

/// The fields the sink needs, copied out of one record. The two kana fields
/// are full-width; the end-of-validity field is already canonicalized, with
/// its numeric value beside it.
#[derive(Debug, Clone, PartialEq, Eq)]
pub struct ImportableRow {
    pub code: Vec<char>,
    pub zipcode: Vec<char>,
    pub city: Vec<char>,
    pub town: Vec<char>,
    pub chome: Vec<char>,
    pub city_kana: Vec<char>,
    pub town_kana: Vec<char>,
    pub start_ym: Vec<char>,
    pub end_ym: Vec<char>,
    pub end_ym_num: u32,
}

/// The mathematical content of an [`ImportableRow`].
#[verifier::ext_equal]
pub ghost struct RowModel {
    pub code: Seq<char>,
    pub zipcode: Seq<char>,
    pub city: Seq<char>,
    pub town: Seq<char>,
    pub chome: Seq<char>,
    pub city_kana: Seq<char>,
    pub town_kana: Seq<char>,
    pub start_ym: Seq<char>,
    pub end_ym: Seq<char>,
    pub end_ym_num: u32,
}

pub open spec fn row_model(row: ImportableRow) -> RowModel {
    RowModel {
        code: row.code@,
        zipcode: row.zipcode@,
        city: row.city@,
        town: row.town@,
        chome: row.chome@,
        city_kana: row.city_kana@,
        town_kana: row.town_kana@,
        start_ym: row.start_ym@,
        end_ym: row.end_ym@,
        end_ym_num: row.end_ym_num,
    }
}

/// A row as the sink stores it: the six nullable columns hold None exactly
/// where the source field was empty.
#[derive(Debug, Clone, PartialEq, Eq)]
pub struct StoredRow {
    pub code: Vec<char>,
    pub zipcode: Option<Vec<char>>,
    pub city: Option<Vec<char>>,
    pub town: Option<Vec<char>>,
    pub chome: Option<Vec<char>>,
    pub city_kana: Option<Vec<char>>,
    pub town_kana: Option<Vec<char>>,
    pub start_ym: Vec<char>,
    pub end_ym: Vec<char>,
}

/// The mathematical content of a [`StoredRow`].
#[verifier::ext_equal]
pub ghost struct StoredModel {
    pub code: Seq<char>,
    pub zipcode: Option<Seq<char>>,
    pub city: Option<Seq<char>>,
    pub town: Option<Seq<char>>,
    pub chome: Option<Seq<char>>,
    pub city_kana: Option<Seq<char>>,
    pub town_kana: Option<Seq<char>>,
    pub start_ym: Seq<char>,
    pub end_ym: Seq<char>,
}

pub open spec fn stored_field_model(f: Option<Vec<char>>) -> Option<Seq<char>> {
    match f {
        Option::None => Option::None,
        Option::Some(v) => Option::Some(v@),
    }
}

pub open spec fn stored_model(row: StoredRow) -> StoredModel {
    StoredModel {
        code: row.code@,
        zipcode: stored_field_model(row.zipcode),
        city: stored_field_model(row.city),
        town: stored_field_model(row.town),
        chome: stored_field_model(row.chome),
        city_kana: stored_field_model(row.city_kana),
        town_kana: stored_field_model(row.town_kana),
        start_ym: row.start_ym@,
        end_ym: row.end_ym@,
    }
}

/// NULL coercion: an empty source field is stored as NULL, a non-empty one
/// verbatim.
pub open spec fn null_if_empty(f: Seq<char>) -> Option<Seq<char>> {
    if f.len() == 0 {
        Option::None
    } else {
        Option::Some(f)
    }
}

/// How a parsed row is stored: NULL coercion on the six nullable columns,
/// the rest verbatim.
pub open spec fn stored_of(m: RowModel) -> StoredModel {
    StoredModel {
        code: m.code,
        zipcode: null_if_empty(m.zipcode),
        city: null_if_empty(m.city),
        town: null_if_empty(m.town),
        chome: null_if_empty(m.chome),
        city_kana: null_if_empty(m.city_kana),
        town_kana: null_if_empty(m.town_kana),
        start_ym: m.start_ym,
        end_ym: m.end_ym,
    }
}

/// The raw open-ended validity sentinel.
pub open spec fn open_end_raw() -> Seq<char> {
    seq!['0', '0', '0', '0', '0', '0']
}

/// What the sentinel is rewritten to: still valid, no end date.
pub open spec fn open_end_canon() -> Seq<char> {
    seq!['9', '9', '9', '9', '9', '9']
}

/// The end-of-validity field after the sentinel rule.
pub open spec fn canonical_end_of(f: Seq<char>) -> Seq<char> {
    if f == open_end_raw() {
        open_end_canon()
    } else {
        f
    }
}

pub open spec fn is_ascii_digit(c: char) -> bool {
    48 <= c as u32 <= 57
}

pub open spec fn all_digits(s: Seq<char>) -> bool {
    forall|i: int| 0 <= i < s.len() ==> is_ascii_digit(#[trigger] s[i])
}

/// The decimal value of a digit sequence.
pub open spec fn digits_val(s: Seq<char>) -> int
    decreases s.len(),
{
    if s.len() == 0 {
        0
    } else {
        digits_val(s.drop_last()) * 10 + (s.last() as u32 - 48)
    }
}

pub open spec fn pow10(n: nat) -> int
    decreases n,
{
    if n == 0 {
        1
    } else {
        10 * pow10((n - 1) as nat)
    }
}

pub proof fn lemma_digits_val_bound(s: Seq<char>)
    requires
        all_digits(s),
    ensures
        0 <= digits_val(s) < pow10(s.len() as nat),
    decreases s.len(),
{
    if s.len() != 0 {
        assert(all_digits(s.drop_last()));
        lemma_digits_val_bound(s.drop_last());
    }
}

pub proof fn lemma_pow10_increases(a: nat, b: nat)
    requires
        a <= b,
    ensures
        pow10(a) <= pow10(b),
    decreases b,
{
    if a < b {
        lemma_pow10_increases(a, (b - 1) as nat);
        lemma_pow10_positive(b);
    }
}

proof fn lemma_pow10_positive(n: nat)
    ensures
        pow10(n) >= 1,
    decreases n,
{
    if n != 0 {
        lemma_pow10_positive((n - 1) as nat);
    }
}

/// How the end-of-validity field parses: a non-empty all-digit field of at
/// most nine digits gives its decimal value; anything else is rejected.
pub open spec fn spec_parse_ym(s: Seq<char>) -> Option<u32> {
    if 1 <= s.len() <= 9 && all_digits(s) {
        Option::Some(digits_val(s) as u32)
    } else {
        Option::None
    }
}

/// Parses a year-month field as a plain decimal number.
pub fn parse_year_month(field: &Vec<char>) -> (r: Option<u32>)
    ensures
        r == spec_parse_ym(field@),
{
    if field.len() < 1 || field.len() > 9 {
        return Option::None;
    }
    let mut acc: u32 = 0;
    let mut i: usize = 0;
    while i < field.len()
        invariant
            i <= field.len() <= 9,
            forall|j: int| 0 <= j < i ==> is_ascii_digit(#[trigger] field@[j]),
            acc == digits_val(field@.take(i as int)),
        decreases field.len() - i,
    {
        let c = field[i];
        let d = c as u32;
        if d < 48 || d > 57 {
            assert(!is_ascii_digit(field@[i as int]));
            assert(!all_digits(field@));
            return Option::None;
        }
        proof {
            assert(field@.take(i + 1).drop_last() =~= field@.take(i as int));
            assert(field@.take(i + 1).last() == field@[i as int]);
            assert(all_digits(field@.take(i as int)));
            lemma_digits_val_bound(field@.take(i as int));
            lemma_pow10_increases(i as nat, 8);
            reveal_with_fuel(pow10, 10);
            assert(pow10(8) == 100000000);
        }
        acc = acc * 10 + (d - 48);
        i = i + 1;
    }
    proof {
        assert(field@.take(field@.len() as int) =~= field@);
        assert(all_digits(field@));
    }
    Option::Some(acc)
}

/// Copies a field verbatim.
pub fn copy_chars(v: &Vec<char>) -> (r: Vec<char>)
    ensures
        r@ == v@,
{
    let mut out: Vec<char> = Vec::new();
    let mut i: usize = 0;
    while i < v.len()
        invariant
            i <= v.len(),
            out@ == v@.take(i as int),
        decreases v.len() - i,
    {
        out.push(v[i]);
        proof {
            assert(out@ =~= v@.take(i + 1));
        }
        i = i + 1;
    }
    proof {
        assert(v@.take(v@.len() as int) =~= v@);
    }
    out
}

/// Applies the open-ended validity sentinel rule to the end-of-validity
/// field.
pub fn canonical_end(field: &Vec<char>) -> (r: Vec<char>)
    ensures
        r@ == canonical_end_of(field@),
{
    let is_sentinel = field.len() == 6 && field[0] == '0' && field[1] == '0' && field[2] == '0'
        && field[3] == '0' && field[4] == '0' && field[5] == '0';
    if is_sentinel {
        proof {
            assert(field@ =~= open_end_raw());
        }
        let mut nines: Vec<char> = Vec::new();
        nines.push('9');
        nines.push('9');
        nines.push('9');
        nines.push('9');
        nines.push('9');
        nines.push('9');
        proof {
            assert(nines@ =~= open_end_canon());
        }
        nines
    } else {
        proof {
            if field@ == open_end_raw() {
                assert(field@.len() == 6);
                assert(field@[0] == '0' && field@[1] == '0' && field@[2] == '0' && field@[3]
                    == '0' && field@[4] == '0' && field@[5] == '0');
            }
        }
        copy_chars(field)
    }
}

/// How one split record parses: too few fields and a malformed
/// end-of-validity field are hard failures; otherwise the consumed positions
/// are copied out, the sentinel rewritten and the kana fields widened.
pub open spec fn spec_parse_record(fields: Seq<Seq<char>>) -> Result<RowModel, LineError> {
    if fields.len() < MIN_FIELD_COUNT {
        Result::Err(LineError::TooFewFields)
    } else {
        let end = canonical_end_of(fields[END_YM_FIELD as int]);
        match spec_parse_ym(end) {
            Option::None => Result::Err(LineError::BadYearMonth),
            Option::Some(n) => Result::Ok(
                RowModel {
                    code: fields[CODE_FIELD as int],
                    zipcode: fields[ZIPCODE_FIELD as int],
                    city: fields[CITY_FIELD as int],
                    town: fields[TOWN_FIELD as int],
                    chome: fields[CHOME_FIELD as int],
                    city_kana: wide_of(fields[CITY_KANA_FIELD as int]),
                    town_kana: wide_of(fields[TOWN_KANA_FIELD as int]),
                    start_ym: fields[START_YM_FIELD as int],
                    end_ym: end,
                    end_ym_num: n,
                },
            ),
        }
    }
}

pub open spec fn parse_result_model(r: Result<ImportableRow, LineError>) -> Result<
    RowModel,
    LineError,
> {
    match r {
        Result::Ok(row) => Result::Ok(row_model(row)),
        Result::Err(e) => Result::Err(e),
    }
}

/// Parses one split record into the row the sink needs. An empty kana field
/// stays empty through width normalization.
pub fn parse_record(fields: &Vec<Vec<char>>) -> (r: Result<ImportableRow, LineError>)
    ensures
        parse_result_model(r) == spec_parse_record(fields.deep_view()),
        r matches Result::Ok(row) ==> {
            &&& fields.deep_view()[CITY_KANA_FIELD as int].len() == 0 ==> row.city_kana@.len()
                == 0
            &&& fields.deep_view()[TOWN_KANA_FIELD as int].len() == 0 ==> row.town_kana@.len()
                == 0
        },
{
    if fields.len() < MIN_FIELD_COUNT {
        return Result::Err(LineError::TooFewFields);
    }
    proof {
        assert forall|j: int| 0 <= j < fields@.len() implies #[trigger] fields.deep_view()[j]
            =~= fields@[j]@ by {}
    }
    let end = canonical_end(&fields[END_YM_FIELD]);
    match parse_year_month(&end) {
        Option::None => Result::Err(LineError::BadYearMonth),
        Option::Some(n) => {
            let row = ImportableRow {
                code: copy_chars(&fields[CODE_FIELD]),
                zipcode: copy_chars(&fields[ZIPCODE_FIELD]),
                city: copy_chars(&fields[CITY_FIELD]),
                town: copy_chars(&fields[TOWN_FIELD]),
                chome: copy_chars(&fields[CHOME_FIELD]),
                city_kana: to_full_width(&fields[CITY_KANA_FIELD]),
                town_kana: to_full_width(&fields[TOWN_KANA_FIELD]),
                start_ym: copy_chars(&fields[START_YM_FIELD]),
                end_ym: end,
                end_ym_num: n,
            };
            proof {
                assert(parse_result_model(Result::Ok(row)) =~~= spec_parse_record(
                    fields.deep_view(),
                ));
            }
            Result::Ok(row)
        },
    }
}

/// Coerces the six nullable columns: empty fields become NULL, the rest are
/// stored verbatim.
pub fn to_stored(row: ImportableRow) -> (r: StoredRow)
    ensures
        stored_model(r) == stored_of(row_model(row)),
{
    let r = StoredRow {
        code: row.code,
        zipcode: if row.zipcode.len() == 0 {
            Option::None
        } else {
            Option::Some(row.zipcode)
        },
        city: if row.city.len() == 0 {
            Option::None
        } else {
            Option::Some(row.city)
        },
        town: if row.town.len() == 0 {
            Option::None
        } else {
            Option::Some(row.town)
        },
        chome: if row.chome.len() == 0 {
            Option::None
        } else {
            Option::Some(row.chome)
        },
        city_kana: if row.city_kana.len() == 0 {
            Option::None
        } else {
            Option::Some(row.city_kana)
        },
        town_kana: if row.town_kana.len() == 0 {
            Option::None
        } else {
            Option::Some(row.town_kana)
        },
        start_ym: row.start_ym,
        end_ym: row.end_ym,
    };
    proof {
        assert(stored_model(r) =~~= stored_of(row_model(row)));
    }
    r
}

/// The canonicalized sentinel parses as 999999.
pub proof fn lemma_nines_value()
    ensures
        spec_parse_ym(open_end_canon()) == Option::<u32>::Some(999999u32),
{
    let s1 = seq!['9'];
    let s2 = seq!['9', '9'];
    let s3 = seq!['9', '9', '9'];
    let s4 = seq!['9', '9', '9', '9'];
    let s5 = seq!['9', '9', '9', '9', '9'];
    let s6 = open_end_canon();
    reveal_with_fuel(digits_val, 8);
    assert(digits_val(Seq::<char>::empty()) == 0);
    assert(s1.drop_last() =~= Seq::<char>::empty());
    assert(s1.last() == '9');
    assert('9' as u32 == 57);
    assert(digits_val(s1) == 9);
    assert(s2.drop_last() =~= s1);
    assert(digits_val(s2) == 99);
    assert(s3.drop_last() =~= s2);
    assert(digits_val(s3) == 999);
    assert(s4.drop_last() =~= s3);
    assert(digits_val(s4) == 9999);
    assert(s5.drop_last() =~= s4);
    assert(digits_val(s5) == 99999);
    assert(s6.drop_last() =~= s5);
    assert(digits_val(s6) == 999999);
    assert(all_digits(s6)) by {
        assert forall|i: int| 0 <= i < s6.len() implies is_ascii_digit(#[trigger] s6[i]) by {
            assert(s6[i] == '9');
        }
    }
}

/// The open-ended validity rule: a record whose raw end-of-validity field is
/// exactly the sentinel parses successfully, and the effective value used
/// for comparison and storage is the canonical 999999 form. Such a record is
/// excluded only by a threshold above 999999.
pub proof fn lemma_open_end_effective(fields: Seq<Seq<char>>, now_ym: u32)
    requires
        fields.len() >= MIN_FIELD_COUNT,
        fields[END_YM_FIELD as int] == open_end_raw(),
    ensures
        spec_parse_record(fields) is Ok,
        spec_parse_record(fields)->Ok_0.end_ym == open_end_canon(),
        spec_parse_record(fields)->Ok_0.end_ym_num == 999999,
        stored_of(spec_parse_record(fields)->Ok_0).end_ym == open_end_canon(),
        now_ym <= 999999 ==> !(spec_parse_record(fields)->Ok_0.end_ym_num < now_ym),
{
    lemma_nines_value();
}

/// What a persisted row holds of its source record: the consumed fields
/// verbatim, except the two kana fields, which are stored in full-width
/// form, the canonicalized end-of-validity field, and NULL in place of each
/// nullable field that was empty.
pub proof fn lemma_persisted_verbatim(fields: Seq<Seq<char>>)
    requires
        spec_parse_record(fields) is Ok,
    ensures
        ({
            let s = stored_of(spec_parse_record(fields)->Ok_0);
            &&& s.code == fields[CODE_FIELD as int]
            &&& s.zipcode == null_if_empty(fields[ZIPCODE_FIELD as int])
            &&& s.city == null_if_empty(fields[CITY_FIELD as int])
            &&& s.town == null_if_empty(fields[TOWN_FIELD as int])
            &&& s.chome == null_if_empty(fields[CHOME_FIELD as int])
            &&& s.city_kana == null_if_empty(wide_of(fields[CITY_KANA_FIELD as int]))
            &&& s.town_kana == null_if_empty(wide_of(fields[TOWN_KANA_FIELD as int]))
            &&& s.start_ym == fields[START_YM_FIELD as int]
            &&& s.end_ym == canonical_end_of(fields[END_YM_FIELD as int])
        }),
{
}

/// The fields a raw source line yields: decode from Shift-JIS, clean, split
/// on commas.
pub open spec fn spec_fields_of_line(bytes: Seq<u8>) -> Seq<Seq<char>> {
    split_of(clean_of(sjis_decode_of(bytes)))
}

/// The whole per-line pipeline on one raw line: a hard failure, a stale
/// record that is skipped, or a row to store.
pub open spec fn spec_line_outcome(bytes: Seq<u8>, now_ym: u32) -> Result<
    Option<StoredModel>,
    LineError,
> {
    match spec_parse_record(spec_fields_of_line(bytes)) {
        Result::Err(e) => Result::Err(e),
        Result::Ok(m) => if m.end_ym_num < now_ym {
            Result::Ok(Option::None)
        } else {
            Result::Ok(Option::Some(stored_of(m)))
        },
    }
}

pub open spec fn line_outcome_model(r: Result<Option<StoredRow>, LineError>) -> Result<
    Option<StoredModel>,
    LineError,
> {
    match r {
        Result::Ok(Option::None) => Result::Ok(Option::None),
        Result::Ok(Option::Some(row)) => Result::Ok(Option::Some(stored_model(row))),
        Result::Err(e) => Result::Err(e),
    }
}

/// Runs one raw source line through the pipeline: decode, clean, split,
/// parse, filter against the run's fixed current year-month, coerce for
/// storage. A stale record (effective end before `now_ym`) comes back as
/// `Ok(None)`: skipped, not an error.
pub fn process_line(bytes: &Vec<u8>, now_ym: u32) -> (r: Result<Option<StoredRow>, LineError>)
    requires
        bytes@.len() * 4 <= usize::MAX,
    ensures
        line_outcome_model(r) == spec_line_outcome(bytes@, now_ym),
        r matches Result::Ok(Option::None) ==> (spec_parse_record(spec_fields_of_line(bytes@))
            matches Result::Ok(m) && m.end_ym_num < now_ym),
        r matches Result::Ok(Option::Some(row)) ==> {
            &&& spec_fields_of_line(bytes@)[CITY_KANA_FIELD as int].len() == 0
                ==> row.city_kana is None
            &&& spec_fields_of_line(bytes@)[TOWN_KANA_FIELD as int].len() == 0
                ==> row.town_kana is None
        },
{
    let decoded = decode_shift_jis(bytes);
    let cleaned = clean_line(&decoded);
    let fields = split_fields(&cleaned);
    match parse_record(&fields) {
        Result::Err(e) => Result::Err(e),
        Result::Ok(row) => {
            if row.end_ym_num < now_ym {
                Result::Ok(Option::None)
            } else {
                Result::Ok(Option::Some(to_stored(row)))
            }
        },
    }
}

} // verus!

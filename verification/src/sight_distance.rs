use vstd::prelude::*;
use vstd::slice::slice_subrange;
use crate::errors::CurveError;
use crate::parse::all_digits;
use crate::parse::digits_val;
use crate::parse::is_digit;
use crate::parse::parse_scaled;
use crate::parse::parse_scaled_spec;
use crate::parse::pow10;
use crate::parse::str_bytes;
use crate::parse::text_bytes;

verus! {

/// Which sight-distance criterion a lookup answers: stopping and passing
/// share one physical table (distinguished by column), decision uses its own.
#[derive(Clone, Copy, Debug, PartialEq, Eq, Structural)]
pub enum SightType {
    Stopping,
    Passing,
    Decision,
}

impl Default for SightType {
    /// Lookups default to the stopping criterion.
    fn default() -> (r: Self)
        ensures
            r is Stopping,
    {
        SightType::Stopping
    }
}

/// Table column a sight type reads: the primary distance for stopping and
/// decision, the secondary one for passing.
pub open spec fn col_of(st: SightType) -> int {
    match st {
        SightType::Stopping => 0,
        SightType::Passing => 1,
        SightType::Decision => 0,
    }
}

/// One table record: an integer design speed (kept in whole units, not
/// Q32.32) and its ordered distance columns in Q32.32.
#[derive(Clone, Debug)]
pub struct SightRow {
    pub speed: i64,
    pub distances: Vec<i64>,
}

/// The design-manual reference table: rows in file order.  A speed repeated
/// on a later line overrides the earlier one, as a map insertion would.
#[derive(Clone, Debug)]
pub struct SightDistanceTable {
    pub rows: Vec<SightRow>,
}

/// Index of the last row holding `speed`, or `-1` when absent.
pub open spec fn find_row(rows: Seq<SightRow>, speed: int) -> int
    decreases rows.len(),
{
    if rows.len() == 0 {
        -1
    } else if rows.last().speed == speed {
        rows.len() - 1
    } else {
        find_row(rows.drop_last(), speed)
    }
}

impl SightDistanceTable {
    /// Every stored distance is non-negative and every speed fits a signed
    /// 32-bit range, as the table parser guarantees.
    pub open spec fn wf(&self) -> bool {
        forall|i: int|
            0 <= i < self.rows@.len() ==> {
                &&& -0x8000_0000 <= (#[trigger] self.rows@[i]).speed <= 0x7fff_ffff
                &&& forall|j: int|
                    0 <= j < self.rows@[i].distances@.len() ==> 0 <= #[trigger] self.rows@[i].distances@[j]
            }
    }
}

/// Outcome of a lookup, over the table model alone: the speed must be
/// present exactly; the sight type picks the column, which must exist; with
/// `sustained_downgrade` the stored distance is increased by exactly one
/// fifth (the design manual's 1.20 factor for sustained downgrades), for
/// every sight type, as the governing implementation applies it.
pub open spec fn min_sight_spec(
    rows: Seq<SightRow>,
    speed: int,
    st: SightType,
    down: bool,
) -> Result<int, CurveError> {
    let i = find_row(rows, speed);
    if i == -1 {
        Err(CurveError::LookupError)
    } else {
        let row = rows[i];
        let col = col_of(st);
        if col < row.distances@.len() {
            let d = row.distances@[col] as int;
            let adjusted = if down {
                (d * 6) / 5
            } else {
                d
            };
            if adjusted <= i64::MAX {
                Ok(adjusted)
            } else {
                Err(CurveError::ConfigError)
            }
        } else {
            Err(CurveError::ConfigError)
        }
    }
}

/// Minimum sight distance for a design speed, matching `min_sight_spec`:
/// `LookupError` exactly when the speed has no row, `ConfigError` when the
/// row lacks the requested column, the exact stored value otherwise (times
/// six fifths under a sustained downgrade).
pub fn calc_min_sight_distance(
    table: &SightDistanceTable,
    design_speed: i64,
    sight_type: SightType,
    sustained_downgrade: bool,
) -> (r: Result<i64, CurveError>)
    requires
        table.wf(),
    ensures
        r is Ok <==> min_sight_spec(table.rows@, design_speed as int, sight_type,
            sustained_downgrade) is Ok,
        (r matches Ok(v) ==> min_sight_spec(table.rows@, design_speed as int, sight_type,
            sustained_downgrade) == Ok::<int, CurveError>(v as int)),
        (r matches Err(e) ==> min_sight_spec(table.rows@, design_speed as int, sight_type,
            sustained_downgrade) == Err::<int, CurveError>(e)),
{
    let n = table.rows.len();
    proof {
        assert(table.rows@.take(n as int) =~= table.rows@);
    }
    let mut i: usize = n;
    while i > 0
        invariant
            0 <= i <= n,
            n == table.rows@.len(),
            table.wf(),
            find_row(table.rows@, design_speed as int) == find_row(
                table.rows@.take(i as int),
                design_speed as int,
            ),
        decreases i,
    {
        proof {
            assert(table.rows@.take(i as int).last() == table.rows@[i as int - 1]);
            assert(table.rows@.take(i as int).drop_last() =~= table.rows@.take(i as int - 1));
        }
        if table.rows[i - 1].speed == design_speed {
            let row = &table.rows[i - 1];
            let col: usize = match sight_type {
                SightType::Stopping => 0,
                SightType::Passing => 1,
                SightType::Decision => 0,
            };
            if col < row.distances.len() {
                let d = row.distances[col];
                if sustained_downgrade {
                    let adjusted: u128 = (d as u128) * 6 / 5;
                    if adjusted <= 0x7fff_ffff_ffff_ffffu128 {
                        return Ok(adjusted as i64);
                    } else {
                        return Err(CurveError::ConfigError);
                    }
                } else {
                    return Ok(d);
                }
            } else {
                return Err(CurveError::ConfigError);
            }
        }
        i -= 1;
    }
    proof {
        assert(table.rows@.take(0) =~= Seq::<SightRow>::empty());
    }
    Err(CurveError::LookupError)
}

/// Whitespace inside a table line: space, tab, or a carriage return left by
/// a CRLF line ending.
pub open spec fn is_ws(b: u8) -> bool {
    b == 32 || b == 9 || b == 13
}

/// The whitespace-separated tokens of `s` from position `i`, with `cur` the
/// token under construction.
pub open spec fn tokens_acc(s: Seq<u8>, i: int, cur: Seq<u8>) -> Seq<Seq<u8>>
    decreases s.len() - i,
    when 0 <= i <= s.len()
{
    if i >= s.len() {
        if cur.len() == 0 {
            Seq::empty()
        } else {
            seq![cur]
        }
    } else if is_ws(s[i]) {
        if cur.len() == 0 {
            tokens_acc(s, i + 1, cur)
        } else {
            seq![cur] + tokens_acc(s, i + 1, Seq::empty())
        }
    } else {
        tokens_acc(s, i + 1, cur.push(s[i]))
    }
}

/// The whitespace-separated tokens of one line.
pub open spec fn tokens_of(s: Seq<u8>) -> Seq<Seq<u8>> {
    tokens_acc(s, 0, Seq::empty())
}

/// Split a line into its whitespace-separated tokens, matching `tokens_of`.
fn tokenize(s: &[u8]) -> (ts: Vec<Vec<u8>>)
    ensures
        ts@.map_values(|t: Vec<u8>| t@) == tokens_of(s@),
{
    let mut ts: Vec<Vec<u8>> = Vec::new();
    let mut cur: Vec<u8> = Vec::new();
    let n = s.len();
    let mut i: usize = 0;
    while i < n
        invariant
            0 <= i <= n,
            n == s@.len(),
            tokens_of(s@) == ts@.map_values(|t: Vec<u8>| t@) + tokens_acc(s@, i as int, cur@),
        decreases n - i,
    {
        let b = s[i];
        if b == 32 || b == 9 || b == 13 {
            if cur.len() > 0 {
                proof {
                    assert(ts@.push(cur).map_values(|t: Vec<u8>| t@) =~= ts@.map_values(
                        |t: Vec<u8>| t@,
                    ).push(cur@));
                    assert(ts@.map_values(|t: Vec<u8>| t@).push(cur@) + tokens_acc(
                        s@,
                        i as int + 1,
                        Seq::<u8>::empty(),
                    ) =~= ts@.map_values(|t: Vec<u8>| t@) + (seq![cur@] + tokens_acc(
                        s@,
                        i as int + 1,
                        Seq::<u8>::empty(),
                    )));
                }
                ts.push(cur);
                cur = Vec::new();
            }
        } else {
            cur.push(b);
        }
        i += 1;
    }
    if cur.len() > 0 {
        proof {
            assert(ts@.push(cur).map_values(|t: Vec<u8>| t@) =~= ts@.map_values(
                |t: Vec<u8>| t@,
            ).push(cur@));
            assert(ts@.map_values(|t: Vec<u8>| t@).push(cur@) =~= ts@.map_values(|t: Vec<u8>| t@)
                + seq![cur@]);
        }
        ts.push(cur);
    } else {
        proof {
            assert(ts@.map_values(|t: Vec<u8>| t@) + Seq::<Seq<u8>>::empty() =~= ts@.map_values(
                |t: Vec<u8>| t@,
            ));
        }
    }
    ts
}

/// Value of an unsigned digit run: Some exactly when it is one to ten
/// digits with value at most `2^31 - 1`, the range of a table's design-speed
/// key.
pub open spec fn int_digits_val(d: Seq<u8>) -> Option<int> {
    if all_digits(d) && 1 <= d.len() <= 10 && digits_val(d) <= 0x7fff_ffff {
        Some(digits_val(d))
    } else {
        None
    }
}

/// Value of an integer token: an optional `-` sign before the digit run.
pub open spec fn int_token_val(t: Seq<u8>) -> Option<int> {
    if t.len() > 0 && t[0] == 45 {
        match int_digits_val(t.drop_first()) {
            Some(v) => Some(-v),
            None => None,
        }
    } else {
        int_digits_val(t)
    }
}

fn parse_digits(d: &[u8]) -> (r: Option<i64>)
    ensures
        r is Some <==> int_digits_val(d@) is Some,
        (r matches Some(v) ==> int_digits_val(d@) == Some(v as int) && 0 <= v <= 0x7fff_ffff),
{
    if d.len() < 1 || d.len() > 10 {
        return None;
    }
    proof {
        reveal_with_fuel(pow10, 12);
    }
    let mut acc: u64 = 0;
    let mut i: usize = 0;
    while i < d.len()
        invariant
            0 <= i <= d@.len() <= 10,
            all_digits(d@.take(i as int)),
            acc as int == digits_val(d@.take(i as int)),
            (acc as int) < pow10(i as nat),
            pow10(10) == 10000000000,
        decreases d@.len() - i,
    {
        let bch = d[i];
        if bch < 48 || bch > 57 {
            assert(!is_digit(d@[i as int]));
            return None;
        }
        proof {
            assert(d@.take(i as int + 1).drop_last() =~= d@.take(i as int));
            assert(d@.take(i as int + 1).last() == d@[i as int]);
            assert(pow10((i + 1) as nat) == 10 * pow10(i as nat));
            assert(pow10(i as nat) <= pow10(9)) by {
                reveal_with_fuel(pow10, 12);
                assert(pow10(0) <= pow10(9) && pow10(1) <= pow10(9) && pow10(2) <= pow10(9)
                    && pow10(3) <= pow10(9) && pow10(4) <= pow10(9) && pow10(5) <= pow10(9)
                    && pow10(6) <= pow10(9) && pow10(7) <= pow10(9) && pow10(8) <= pow10(9));
            }
        }
        acc = acc * 10 + (bch - 48) as u64;
        i += 1;
    }
    proof {
        assert(d@.take(d@.len() as int) =~= d@);
    }
    if acc > 0x7fff_ffff {
        return None;
    }
    Some(acc as i64)
}

/// Integer token to its value, matching `int_token_val`.
fn parse_int_token(t: &[u8]) -> (r: Option<i64>)
    ensures
        r is Some <==> int_token_val(t@) is Some,
        (r matches Some(v) ==> int_token_val(t@) == Some(v as int) && -0x7fff_ffff <= v
            <= 0x7fff_ffff),
{
    if t.len() > 0 && t[0] == 45 {
        let d: &[u8] = slice_subrange(t, 1, t.len());
        proof {
            assert(d@ =~= t@.drop_first());
        }
        match parse_digits(d) {
            Some(v) => Some(-v),
            None => None,
        }
    } else {
        parse_digits(t)
    }
}

/// Model of one parsed line.
pub enum RowModel {
    /// A distance token of a data line is malformed or negative.
    Bad,
    /// The line carries no integer-keyed record and is ignored.
    Skip,
    /// A data record: the design speed and its distance columns.
    Data(int, Seq<int>),
}

/// Values of the distance tokens from position `j` on: Some exactly when
/// every remaining token is a well-formed non-negative decimal numeral.
pub open spec fn dists_vals(ts: Seq<Seq<u8>>, j: int) -> Option<Seq<int>>
    decreases ts.len() - j,
    when 0 <= j <= ts.len()
{
    if j >= ts.len() {
        Some(Seq::empty())
    } else {
        match parse_scaled_spec(ts[j]) {
            Some(v) => if v >= 0 {
                match dists_vals(ts, j + 1) {
                    Some(tl) => Some(seq![v] + tl),
                    None => None,
                }
            } else {
                None
            },
            None => None,
        }
    }
}

/// Classification of one tokenized line: empty lines and lines whose first
/// token is no integer are skipped; a data line is bad exactly when one of
/// its distance tokens fails.
pub open spec fn row_spec(ts: Seq<Seq<u8>>) -> RowModel {
    if ts.len() == 0 {
        RowModel::Skip
    } else {
        match int_token_val(ts[0]) {
            None => RowModel::Skip,
            Some(sp) => match dists_vals(ts, 1) {
                Some(ds) => RowModel::Data(sp, ds),
                None => RowModel::Bad,
            },
        }
    }
}

enum RowOutcome {
    Bad,
    Skip,
    Data(i64, Vec<i64>),
}

fn parse_row(ts: &Vec<Vec<u8>>) -> (r: RowOutcome)
    ensures
        ({
            let model = row_spec(ts@.map_values(|t: Vec<u8>| t@));
            &&& (r is Skip <==> model is Skip)
            &&& (r is Bad <==> model is Bad)
            &&& (r matches RowOutcome::Data(sp, ds) ==> model == RowModel::Data(
                sp as int,
                ds@.map_values(|x: i64| x as int),
            ) && -0x7fff_ffff <= sp <= 0x7fff_ffff && forall|k: int|
                0 <= k < ds@.len() ==> 0 <= #[trigger] ds@[k])
        }),
{
    let ghost tseq = ts@.map_values(|t: Vec<u8>| t@);
    if ts.len() == 0 {
        return RowOutcome::Skip;
    }
    proof {
        assert(tseq[0] == ts@[0]@);
    }
    let sp = match parse_int_token(ts[0].as_slice()) {
        None => {
            return RowOutcome::Skip;
        },
        Some(v) => v,
    };
    let mut ds: Vec<i64> = Vec::new();
    let mut j: usize = 1;
    while j < ts.len()
        invariant
            1 <= j <= ts@.len(),
            tseq == ts@.map_values(|t: Vec<u8>| t@),
            int_token_val(tseq[0]) == Some(sp as int),
            -0x7fff_ffff <= sp <= 0x7fff_ffff,
            forall|k: int| 0 <= k < ds@.len() ==> 0 <= #[trigger] ds@[k],
            match dists_vals(tseq, j as int) {
                Some(tl) => dists_vals(tseq, 1) == Some(
                    ds@.map_values(|x: i64| x as int) + tl,
                ),
                None => dists_vals(tseq, 1) is None,
            },
        decreases ts@.len() - j,
    {
        proof {
            assert(tseq[j as int] == ts@[j as int]@);
        }
        match parse_scaled(ts[j].as_slice()) {
            None => {
                proof {
                    assert(parse_scaled_spec(tseq[j as int]) is None);
                    assert(dists_vals(tseq, j as int) is None);
                    assert(dists_vals(tseq, 1) is None);
                    assert(row_spec(tseq) is Bad);
                }
                return RowOutcome::Bad;
            },
            Some(v) => {
                if v < 0 {
                    proof {
                        assert(dists_vals(tseq, j as int) is None);
                        assert(dists_vals(tseq, 1) is None);
                        assert(row_spec(tseq) is Bad);
                    }
                    return RowOutcome::Bad;
                }
                proof {
                    assert(ds@.push(v).map_values(|x: i64| x as int) =~= ds@.map_values(
                        |x: i64| x as int,
                    ).push(v as int));
                    if dists_vals(tseq, j as int + 1) is Some {
                        let tl1 = dists_vals(tseq, j as int + 1)->Some_0;
                        assert(ds@.map_values(|x: i64| x as int).push(v as int) + tl1
                            =~= ds@.map_values(|x: i64| x as int) + (seq![v as int] + tl1));
                    }
                }
                ds.push(v);
            },
        }
        j += 1;
    }
    proof {
        assert(ds@.map_values(|x: i64| x as int) + Seq::<int>::empty() =~= ds@.map_values(
            |x: i64| x as int,
        ));
    }
    RowOutcome::Data(sp, ds)
}

/// Model of the records of the table text from line `i` on, in file order:
/// `Err` exactly when some data line holds a malformed or negative distance
/// token.
pub open spec fn rows_from(ls: Seq<Seq<char>>, i: int) -> Result<Seq<(int, Seq<int>)>, CurveError>
    decreases ls.len() - i,
    when 0 <= i <= ls.len()
{
    if i >= ls.len() {
        Ok(Seq::empty())
    } else {
        match row_spec(tokens_of(text_bytes(ls[i]))) {
            RowModel::Bad => Err(CurveError::ConfigError),
            RowModel::Skip => rows_from(ls, i + 1),
            RowModel::Data(sp, ds) => match rows_from(ls, i + 1) {
                Ok(tl) => Ok(seq![(sp, ds)] + tl),
                Err(e) => Err(e),
            },
        }
    }
}

/// The record model a parsed table exposes.
pub open spec fn table_model(rows: Seq<SightRow>) -> Seq<(int, Seq<int>)> {
    rows.map_values(
        |r: SightRow| (r.speed as int, r.distances@.map_values(|d: i64| d as int)),
    )
}

/// Build the reference table from its text, given line by line: each line
/// whose first whitespace-separated token is an integer design speed becomes
/// a record of its remaining tokens as Q32.32 distances; other lines are
/// headers or comments and are skipped; a data line with a malformed or
/// negative distance token (for example an embedded thousands separator) is
/// a `ConfigError`.  Matches `rows_from`.
pub fn parse_table(lines: &Vec<String>) -> (r: Result<SightDistanceTable, CurveError>)
    ensures
        r is Ok <==> rows_from(lines@.map_values(|l: String| l@), 0) is Ok,
        (r matches Ok(t) ==> rows_from(lines@.map_values(|l: String| l@), 0) == Ok::<
            Seq<(int, Seq<int>)>,
            CurveError,
        >(table_model(t.rows@)) && t.wf()),
        (r matches Err(e) ==> e == CurveError::ConfigError),
{
    let ghost ls = lines@.map_values(|l: String| l@);
    let mut rows: Vec<SightRow> = Vec::new();
    let mut i: usize = 0;
    while i < lines.len()
        invariant
            0 <= i <= lines@.len(),
            ls == lines@.map_values(|l: String| l@),
            match rows_from(ls, i as int) {
                Ok(tl) => rows_from(ls, 0) == Ok::<Seq<(int, Seq<int>)>, CurveError>(
                    table_model(rows@) + tl,
                ),
                Err(e) => rows_from(ls, 0) == Err::<Seq<(int, Seq<int>)>, CurveError>(e),
            },
            forall|k: int|
                0 <= k < rows@.len() ==> {
                    &&& -0x8000_0000 <= (#[trigger] rows@[k]).speed <= 0x7fff_ffff
                    &&& forall|j: int|
                        0 <= j < rows@[k].distances@.len() ==> 0 <= #[trigger] rows@[k].distances@[j]
                },
        decreases lines@.len() - i,
    {
        let bs = str_bytes(lines[i].as_str());
        proof {
            assert(ls[i as int] == lines@[i as int]@);
        }
        let ts = tokenize(bs);
        match parse_row(&ts) {
            RowOutcome::Bad => {
                return Err(CurveError::ConfigError);
            },
            RowOutcome::Skip => {},
            RowOutcome::Data(sp, ds) => {
                let ghost x = (sp as int, ds@.map_values(|d: i64| d as int));
                proof {
                    assert(table_model(rows@.push(SightRow { speed: sp, distances: ds }))
                        =~= table_model(rows@).push(x));
                    if rows_from(ls, i as int + 1) is Ok {
                        let tl1 = rows_from(ls, i as int + 1)->Ok_0;
                        assert(table_model(rows@).push(x) + tl1 =~= table_model(rows@) + (
                        seq![x] + tl1));
                    }
                }
                rows.push(SightRow { speed: sp, distances: ds });
            },
        }
        i += 1;
    }
    proof {
        assert(table_model(rows@) + Seq::<(int, Seq<int>)>::empty() =~= table_model(rows@));
    }
    Ok(SightDistanceTable { rows })
}

/// Downgrade-adjustment law: whenever a lookup without the downgrade flag
/// answers a distance `d`, the same lookup with the flag answers exactly
/// `6 * d / 5` (the 1.20 factor) provided that value is representable, and
/// the un-flagged lookup answers `d` itself unchanged.
pub proof fn lemma_downgrade_adjustment(
    rows: Seq<SightRow>,
    speed: int,
    st: SightType,
    d: int,
)
    requires
        min_sight_spec(rows, speed, st, false) == Ok::<int, CurveError>(d),
        (d * 6) / 5 <= i64::MAX,
    ensures
        min_sight_spec(rows, speed, st, true) == Ok::<int, CurveError>((d * 6) / 5),
{
}

} // verus!

//! Reading the dataset: one weapon per row, each figure at a fixed column.

use vstd::prelude::*;

use crate::damage::{damage_numbers, PoiseDamageValues};
use crate::moveset::{Chain, Grip, Size, Strength, WeaponPoiseDamage, CHAIN_STEPS};
use crate::multiplier::{Multiplier, PoiseDamage, MULTIPLIER_SCALE};
use crate::store::{build_weapons, named, sorted_by_name};

verus! {

#[verifier::external_type_specification]
#[verifier::external_body]
pub struct ExCsvError(csv::Error);

/// The number of columns that a weapon's row must have.
pub const ROW_COLUMNS: usize = 63;

/// The records that the csv crate reads from `text` (the first line being
/// the header, which is not among them), each as its fields; nothing where
/// the text is not well-formed.
pub uninterp spec fn csv_records_of(text: Seq<char>) -> Option<Seq<Seq<Seq<char>>>>;

/// The characters of each field of a row.
pub open spec fn row_text(row: Seq<String>) -> Seq<Seq<char>> {
    row.map_values(|s: String| s@)
}

/// The characters of each field of each row.
pub open spec fn rows_text(rows: Seq<Vec<String>>) -> Seq<Seq<Seq<char>>> {
    rows.map_values(|r: Vec<String>| row_text(r@))
}

/// Relies on `csv::Reader::records` over the bytes of `text`, with the
/// reader's defaults: the first record is the header, and every record must
/// have as many fields as the header.
#[verifier::external_body]
fn read_csv_records(text: &str) -> (r: Result<Vec<Vec<String>>, csv::Error>)
    ensures
        r is Ok <==> csv_records_of(text@) is Some,
        r is Ok ==> rows_text(r->Ok_0@) == csv_records_of(text@)->Some_0,
{
    let mut reader = csv::Reader::from_reader(text.as_bytes());
    let mut rows: Vec<Vec<String>> = Vec::new();
    for record in reader.records() {
        let record = record?;
        rows.push(record.iter().map(|field| field.to_string()).collect());
    }
    Ok(rows)
}

/// Why the dataset could not be read.
#[derive(Debug)]
pub enum LoadError {
    /// The text is not well-formed comma-separated data.
    Csv(csv::Error),
    /// The data record at index `record` names a weapon but has only
    /// `columns` of the columns a weapon needs.
    ShortRow { record: usize, columns: usize },
}

/// The columns of a chain: `steps` consecutive columns from `first`; the
/// steps past them are empty.
#[derive(Clone, Copy, Debug)]
pub struct ChainColumns {
    pub first: usize,
    pub steps: usize,
}

/// The columns of one stance; a move with no column is empty.
#[derive(Clone, Copy, Debug)]
pub struct StanceColumns {
    pub chain: ChainColumns,
    pub charged: ChainColumns,
    pub running: Option<usize>,
    pub rolling: Option<usize>,
    pub backstep: Option<usize>,
    pub jumping: Option<usize>,
    pub guard_counter: Option<usize>,
    pub feint: ChainColumns,
}

/// The columns of critical hits by target size.
#[derive(Clone, Copy, Debug)]
pub struct SizeColumns {
    pub default: Option<usize>,
    pub small: Option<usize>,
    pub large: Option<usize>,
}

/// A chain with no columns.
pub open spec fn no_chain() -> ChainColumns {
    ChainColumns { first: 0, steps: 0 }
}

/// Light attacks held in one hand.
pub open spec fn one_handed_light_columns() -> StanceColumns {
    StanceColumns {
        chain: ChainColumns { first: 2, steps: 6 },
        charged: no_chain(),
        running: Some(12),
        rolling: Some(14),
        backstep: Some(15),
        jumping: Some(16),
        guard_counter: Some(18),
        feint: no_chain(),
    }
}

/// Heavy attacks held in one hand.
pub open spec fn one_handed_heavy_columns() -> StanceColumns {
    StanceColumns {
        chain: ChainColumns { first: 8, steps: 2 },
        charged: ChainColumns { first: 10, steps: 2 },
        running: Some(13),
        rolling: None,
        backstep: None,
        jumping: Some(17),
        guard_counter: None,
        feint: ChainColumns { first: 49, steps: 2 },
    }
}

/// Light attacks held in both hands.
pub open spec fn two_handed_light_columns() -> StanceColumns {
    StanceColumns {
        chain: ChainColumns { first: 19, steps: 6 },
        charged: no_chain(),
        running: Some(29),
        rolling: Some(31),
        backstep: Some(32),
        jumping: Some(33),
        guard_counter: Some(35),
        feint: no_chain(),
    }
}

/// Heavy attacks held in both hands.
pub open spec fn two_handed_heavy_columns() -> StanceColumns {
    StanceColumns {
        chain: ChainColumns { first: 25, steps: 2 },
        charged: ChainColumns { first: 27, steps: 2 },
        running: Some(30),
        rolling: None,
        backstep: None,
        jumping: Some(34),
        guard_counter: None,
        feint: ChainColumns { first: 51, steps: 2 },
    }
}

/// Attacks with a weapon in each hand.
pub open spec fn paired_columns() -> StanceColumns {
    StanceColumns {
        chain: ChainColumns { first: 53, steps: 6 },
        charged: no_chain(),
        running: Some(59),
        rolling: Some(60),
        backstep: Some(61),
        jumping: Some(62),
        guard_counter: None,
        feint: no_chain(),
    }
}

/// The chain of the off hand. Column 42, the whiffed backstab, is not read.
pub open spec fn offhand_columns() -> ChainColumns {
    ChainColumns { first: 36, steps: 6 }
}

/// Backstabs; the dataset lists none against large targets.
pub open spec fn backstab_columns() -> SizeColumns {
    SizeColumns { default: Some(43), small: Some(45), large: None }
}

/// Ripostes.
pub open spec fn riposte_columns() -> SizeColumns {
    SizeColumns { default: Some(44), small: Some(46), large: Some(47) }
}

/// The column of the shield poke.
pub open spec fn shieldpoke_column() -> usize {
    48
}

/// The sequence at column `col` of `row`, empty for no column.
pub open spec fn cell(row: Seq<Seq<char>>, col: Option<usize>) -> Seq<PoiseDamage> {
    match col {
        Some(c) => damage_numbers(row[c as int]),
        None => Seq::empty(),
    }
}

/// Whether `c` holds what `cols` places in `row`.
pub open spec fn chain_loaded(c: Chain, row: Seq<Seq<char>>, cols: ChainColumns) -> bool {
    forall|i: int|
        0 <= i < CHAIN_STEPS ==> (#[trigger] c.steps()[i]).0@ == if i < cols.steps {
            damage_numbers(row[cols.first + i])
        } else {
            Seq::empty()
        }
}

/// Whether `s` holds what `cols` places in `row`.
pub open spec fn stance_loaded(s: Strength, row: Seq<Seq<char>>, cols: StanceColumns) -> bool {
    &&& chain_loaded(s.chain, row, cols.chain)
    &&& chain_loaded(s.charged, row, cols.charged)
    &&& s.running.0@ == cell(row, cols.running)
    &&& s.rolling.0@ == cell(row, cols.rolling)
    &&& s.backstep.0@ == cell(row, cols.backstep)
    &&& s.jumping.0@ == cell(row, cols.jumping)
    &&& s.guard_counter.0@ == cell(row, cols.guard_counter)
    &&& chain_loaded(s.feint, row, cols.feint)
}

/// Whether `s` holds what `cols` places in `row`.
pub open spec fn size_loaded(s: Size, row: Seq<Seq<char>>, cols: SizeColumns) -> bool {
    &&& s.default.0@ == cell(row, cols.default)
    &&& s.small.0@ == cell(row, cols.small)
    &&& s.large.0@ == cell(row, cols.large)
}

/// Whether `w` is the weapon that `row` describes: class in column 0, name
/// in column 1, each figure where the layout above places it, and a
/// multiplier of one.
pub open spec fn weapon_loaded(w: WeaponPoiseDamage, row: Seq<Seq<char>>) -> bool {
    &&& w.class@ == row[0]
    &&& w.name@ == row[1]
    &&& stance_loaded(w.one_handed.r1, row, one_handed_light_columns())
    &&& stance_loaded(w.one_handed.r2, row, one_handed_heavy_columns())
    &&& stance_loaded(w.two_handed.r1, row, two_handed_light_columns())
    &&& stance_loaded(w.two_handed.r2, row, two_handed_heavy_columns())
    &&& stance_loaded(w.paired, row, paired_columns())
    &&& chain_loaded(w.offhand, row, offhand_columns())
    &&& size_loaded(w.backstab, row, backstab_columns())
    &&& size_loaded(w.riposte, row, riposte_columns())
    &&& w.shieldpoke.0@ == damage_numbers(row[shieldpoke_column() as int])
    &&& w.poise_damage_multiplier.ten_thousandths == MULTIPLIER_SCALE
}

/// A row that names no weapon: its class or its name is missing or empty.
pub open spec fn row_is_blank(row: Seq<Seq<char>>) -> bool {
    row.len() < 2 || row[0].len() == 0 || row[1].len() == 0
}

/// A row that names a weapon but is too short to describe it.
pub open spec fn row_is_short(row: Seq<Seq<char>>) -> bool {
    !row_is_blank(row) && row.len() < ROW_COLUMNS
}

/// The rows that name a weapon, in order.
pub open spec fn weapon_rows(rows: Seq<Seq<Seq<char>>>) -> Seq<Seq<Seq<char>>>
    decreases rows.len(),
{
    if rows.len() == 0 {
        rows
    } else if row_is_blank(rows.last()) {
        weapon_rows(rows.drop_last())
    } else {
        weapon_rows(rows.drop_last()).push(rows.last())
    }
}

/// The sequence at column `col`.
fn read_cell(row: &Vec<String>, col: Option<usize>) -> (r: PoiseDamageValues)
    requires
        col matches Some(c) ==> c < row.len(),
    ensures
        r.0@ == cell(row_text(row@), col),
{
    match col {
        Some(c) => PoiseDamageValues::from_cell(row[c].as_str()),
        None => PoiseDamageValues::empty(),
    }
}

/// Step `i` of the chain at `cols`.
fn read_step(row: &Vec<String>, cols: ChainColumns, i: usize) -> (r: PoiseDamageValues)
    requires
        cols.first + cols.steps <= row.len(),
    ensures
        r.0@ == if i < cols.steps {
            damage_numbers(row_text(row@)[cols.first + i])
        } else {
            Seq::<PoiseDamage>::empty()
        },
{
    if i < cols.steps {
        PoiseDamageValues::from_cell(row[cols.first + i].as_str())
    } else {
        PoiseDamageValues::empty()
    }
}

/// The chain at `cols`.
fn read_chain(row: &Vec<String>, cols: ChainColumns) -> (r: Chain)
    requires
        cols.first + cols.steps <= row.len(),
    ensures
        chain_loaded(r, row_text(row@), cols),
{
    Chain {
        one: read_step(row, cols, 0),
        two: read_step(row, cols, 1),
        three: read_step(row, cols, 2),
        four: read_step(row, cols, 3),
        five: read_step(row, cols, 4),
        six: read_step(row, cols, 5),
    }
}

/// Whether every column of `cols` lies before `n`.
pub open spec fn stance_fits(cols: StanceColumns, n: int) -> bool {
    &&& cols.chain.first + cols.chain.steps <= n
    &&& cols.charged.first + cols.charged.steps <= n
    &&& cols.feint.first + cols.feint.steps <= n
    &&& (cols.running matches Some(c) ==> c < n)
    &&& (cols.rolling matches Some(c) ==> c < n)
    &&& (cols.backstep matches Some(c) ==> c < n)
    &&& (cols.jumping matches Some(c) ==> c < n)
    &&& (cols.guard_counter matches Some(c) ==> c < n)
}

/// The stance at `cols`.
fn read_stance(row: &Vec<String>, cols: StanceColumns) -> (r: Strength)
    requires
        stance_fits(cols, row.len() as int),
    ensures
        stance_loaded(r, row_text(row@), cols),
{
    Strength {
        chain: read_chain(row, cols.chain),
        charged: read_chain(row, cols.charged),
        running: read_cell(row, cols.running),
        rolling: read_cell(row, cols.rolling),
        backstep: read_cell(row, cols.backstep),
        jumping: read_cell(row, cols.jumping),
        guard_counter: read_cell(row, cols.guard_counter),
        feint: read_chain(row, cols.feint),
    }
}

/// The critical hits at `cols`.
fn read_size(row: &Vec<String>, cols: SizeColumns) -> (r: Size)
    requires
        cols.default matches Some(c) ==> c < row.len(),
        cols.small matches Some(c) ==> c < row.len(),
        cols.large matches Some(c) ==> c < row.len(),
    ensures
        size_loaded(r, row_text(row@), cols),
{
    Size {
        default: read_cell(row, cols.default),
        small: read_cell(row, cols.small),
        large: read_cell(row, cols.large),
    }
}

fn no_chain_columns() -> (r: ChainColumns)
    ensures
        r == no_chain(),
{
    ChainColumns { first: 0, steps: 0 }
}

fn stance_columns(
    chain: ChainColumns,
    charged: ChainColumns,
    running: Option<usize>,
    rolling: Option<usize>,
    backstep: Option<usize>,
    jumping: Option<usize>,
    guard_counter: Option<usize>,
    feint: ChainColumns,
) -> (r: StanceColumns)
    ensures
        r == (StanceColumns {
            chain,
            charged,
            running,
            rolling,
            backstep,
            jumping,
            guard_counter,
            feint,
        }),
{
    StanceColumns { chain, charged, running, rolling, backstep, jumping, guard_counter, feint }
}

/// Reads the weapon that one row describes. A row that names no weapon is
/// skipped (`Ok(None)`); one that names a weapon but has fewer than
/// [`ROW_COLUMNS`] columns is an error.
pub fn moveset_from_row(row: &Vec<String>, record: usize) -> (r: Result<
    Option<WeaponPoiseDamage>,
    LoadError,
>)
    ensures
        row_is_blank(row_text(row@)) ==> r matches Ok(None),
        row_is_short(row_text(row@)) ==> (r matches Err(LoadError::ShortRow { record: i, columns: c })
            && i == record && c == row.len()),
        !row_is_blank(row_text(row@)) && !row_is_short(row_text(row@)) ==> (r matches Ok(Some(w))
            && weapon_loaded(w, row_text(row@))),
{
    if row.len() < 2 || row[0].as_str().is_empty() || row[1].as_str().is_empty() {
        return Ok(None);
    }
    if row.len() < ROW_COLUMNS {
        return Err(LoadError::ShortRow { record, columns: row.len() });
    }
    let one_handed_light = stance_columns(
        ChainColumns { first: 2, steps: 6 },
        no_chain_columns(),
        Some(12),
        Some(14),
        Some(15),
        Some(16),
        Some(18),
        no_chain_columns(),
    );
    let one_handed_heavy = stance_columns(
        ChainColumns { first: 8, steps: 2 },
        ChainColumns { first: 10, steps: 2 },
        Some(13),
        None,
        None,
        Some(17),
        None,
        ChainColumns { first: 49, steps: 2 },
    );
    let two_handed_light = stance_columns(
        ChainColumns { first: 19, steps: 6 },
        no_chain_columns(),
        Some(29),
        Some(31),
        Some(32),
        Some(33),
        Some(35),
        no_chain_columns(),
    );
    let two_handed_heavy = stance_columns(
        ChainColumns { first: 25, steps: 2 },
        ChainColumns { first: 27, steps: 2 },
        Some(30),
        None,
        None,
        Some(34),
        None,
        ChainColumns { first: 51, steps: 2 },
    );
    let paired = stance_columns(
        ChainColumns { first: 53, steps: 6 },
        no_chain_columns(),
        Some(59),
        Some(60),
        Some(61),
        Some(62),
        None,
        no_chain_columns(),
    );
    assert(one_handed_light == one_handed_light_columns());
    assert(one_handed_heavy == one_handed_heavy_columns());
    assert(two_handed_light == two_handed_light_columns());
    assert(two_handed_heavy == two_handed_heavy_columns());
    assert(paired == paired_columns());
    let w = WeaponPoiseDamage {
        name: row[1].clone(),
        class: row[0].clone(),
        one_handed: Grip {
            r1: read_stance(row, one_handed_light),
            r2: read_stance(row, one_handed_heavy),
        },
        two_handed: Grip {
            r1: read_stance(row, two_handed_light),
            r2: read_stance(row, two_handed_heavy),
        },
        paired: read_stance(row, paired),
        offhand: read_chain(row, ChainColumns { first: 36, steps: 6 }),
        riposte: read_size(row, SizeColumns { default: Some(44), small: Some(46), large: Some(47) }),
        backstab: read_size(row, SizeColumns { default: Some(43), small: Some(45), large: None }),
        shieldpoke: PoiseDamageValues::from_cell(row[48].as_str()),
        poise_damage_multiplier: Multiplier::one(),
    };
    Ok(Some(w))
}

/// The last row of `rows` whose name (column 1) is `n`.
pub open spec fn last_row_named(rows: Seq<Seq<Seq<char>>>, n: Seq<char>) -> Option<Seq<Seq<char>>>
    decreases rows.len(),
{
    if rows.len() == 0 {
        None
    } else if rows.last()[1] == n {
        Some(rows.last())
    } else {
        last_row_named(rows.drop_last(), n)
    }
}

/// Whether `r` is the outcome of reading the data records `rows`: the
/// first row that names a weapon but is too short gives an error; with none,
/// the weapons in increasing order of name, each read from the last row that
/// names it.
pub open spec fn loads_as(rows: Seq<Seq<Seq<char>>>, r: Result<Vec<WeaponPoiseDamage>, LoadError>) -> bool {
    match r {
        Ok(ws) => {
            &&& forall|i: int| 0 <= i < rows.len() ==> !row_is_short(#[trigger] rows[i])
            &&& sorted_by_name(ws@)
            &&& forall|n: Seq<char>|
                match #[trigger] last_row_named(weapon_rows(rows), n) {
                    None => named(ws@, n) is None,
                    Some(row) => named(ws@, n) matches Some(w) && weapon_loaded(w, row),
                }
        },
        Err(LoadError::ShortRow { record, columns }) => {
            &&& record < rows.len()
            &&& row_is_short(rows[record as int])
            &&& columns == rows[record as int].len()
            &&& forall|i: int| 0 <= i < record ==> !row_is_short(#[trigger] rows[i])
        },
        Err(LoadError::Csv(_)) => false,
    }
}

/// Whether `r` holds, in row order, the weapon of each row of `rows` that
/// names one, or the error of the first short row.
spec fn loads_in_row_order(rows: Seq<Seq<Seq<char>>>, r: Result<Vec<WeaponPoiseDamage>, LoadError>) -> bool {
    match r {
        Ok(ws) => {
            &&& forall|i: int| 0 <= i < rows.len() ==> !row_is_short(#[trigger] rows[i])
            &&& ws@.len() == weapon_rows(rows).len()
            &&& forall|k: int| 0 <= k < ws@.len() ==> weapon_loaded(#[trigger] ws@[k], weapon_rows(rows)[k])
        },
        Err(LoadError::ShortRow { record, columns }) => {
            &&& record < rows.len()
            &&& row_is_short(rows[record as int])
            &&& columns == rows[record as int].len()
            &&& forall|i: int| 0 <= i < record ==> !row_is_short(#[trigger] rows[i])
        },
        Err(LoadError::Csv(_)) => false,
    }
}

/// Weapons read from rows, one for one, are found under the same names as
/// the rows.
proof fn lemma_named_rows(ws: Seq<WeaponPoiseDamage>, rows: Seq<Seq<Seq<char>>>, n: Seq<char>)
    requires
        ws.len() == rows.len(),
        forall|k: int| 0 <= k < ws.len() ==> weapon_loaded(#[trigger] ws[k], rows[k]),
    ensures
        match last_row_named(rows, n) {
            None => named(ws, n) is None,
            Some(row) => named(ws, n) matches Some(w) && weapon_loaded(w, row),
        },
    decreases ws.len(),
{
    if ws.len() > 0 {
        assert(weapon_loaded(ws[ws.len() - 1], rows[rows.len() - 1]));
        assert forall|k: int| 0 <= k < ws.len() - 1 implies weapon_loaded(
            #[trigger] ws.drop_last()[k],
            rows.drop_last()[k],
        ) by {
            assert(weapon_loaded(ws[k], rows[k]));
        }
        lemma_named_rows(ws.drop_last(), rows.drop_last(), n);
    }
}

/// Reads the weapons of the data records `rows`, in row order.
fn records_in_row_order(rows: &Vec<Vec<String>>) -> (r: Result<Vec<WeaponPoiseDamage>, LoadError>)
    ensures
        loads_in_row_order(rows_text(rows@), r),
{
    let ghost text = rows_text(rows@);
    let mut out: Vec<WeaponPoiseDamage> = Vec::new();
    let mut i: usize = 0;
    assert(text.take(0) =~= Seq::<Seq<Seq<char>>>::empty());
    while i < rows.len()
        invariant
            i <= rows.len(),
            text == rows_text(rows@),
            forall|j: int| 0 <= j < i ==> !row_is_short(#[trigger] text[j]),
            out@.len() == weapon_rows(text.take(i as int)).len(),
            forall|k: int|
                0 <= k < out@.len() ==> weapon_loaded(#[trigger] out@[k], weapon_rows(text.take(i as int))[k]),
        decreases rows.len() - i,
    {
        assert(text.take(i + 1 as int).drop_last() =~= text.take(i as int));
        assert(text[i as int] == row_text(rows@[i as int]@));
        match moveset_from_row(&rows[i], i) {
            Ok(Some(w)) => {
                out.push(w);
            },
            Ok(None) => {},
            Err(e) => {
                return Err(e);
            },
        }
        i = i + 1;
    }
    assert(text.take(rows.len() as int) =~= text);
    Ok(out)
}

/// Reads the weapons of the data records `rows`, in increasing order of
/// name, a later row replacing an earlier one of the same name.
pub fn load_records(rows: &Vec<Vec<String>>) -> (r: Result<Vec<WeaponPoiseDamage>, LoadError>)
    ensures
        loads_as(rows_text(rows@), r),
{
    match records_in_row_order(rows) {
        Ok(in_order) => {
            let ghost text = rows_text(rows@);
            let ghost first = in_order@;
            let ws = build_weapons(in_order);
            assert forall|n: Seq<char>|
                match #[trigger] last_row_named(weapon_rows(text), n) {
                    None => named(ws@, n) is None,
                    Some(row) => named(ws@, n) matches Some(w) && weapon_loaded(w, row),
                } by {
                lemma_named_rows(first, weapon_rows(text), n);
                assert(named(ws@, n) == named(first, n));
            }
            Ok(ws)
        },
        Err(e) => Err(e),
    }
}

/// Reads the data records of a dataset held as comma-separated text, its
/// first line being the header, each as its fields.
pub fn read_records(text: &str) -> (r: Result<Vec<Vec<String>>, LoadError>)
    ensures
        csv_records_of(text@) is None ==> r matches Err(LoadError::Csv(_)),
        csv_records_of(text@) matches Some(rows) ==> (r matches Ok(v) && rows_text(v@) == rows),
{
    match read_csv_records(text) {
        Ok(rows) => Ok(rows),
        Err(e) => Err(LoadError::Csv(e)),
    }
}

/// Reads the weapons of a dataset held as comma-separated text, its first
/// line being the header: an error where the text is not well-formed, else
/// what [`load_records`] makes of its records.
pub fn load_data(text: &str) -> (r: Result<Vec<WeaponPoiseDamage>, LoadError>)
    ensures
        csv_records_of(text@) is None ==> r matches Err(LoadError::Csv(_)),
        csv_records_of(text@) matches Some(rows) ==> loads_as(rows, r),
{
    match read_records(text) {
        Ok(rows) => load_records(&rows),
        Err(e) => Err(e),
    }
}

} // verus!

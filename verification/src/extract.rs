//! Row-to-record extraction and section loading: the column-offset mapping
//! from one wide spreadsheet row to typed activity records, and the pass over
//! all data rows of a sheet that accumulates the four phase groups.

use vstd::prelude::*;

use crate::models::{Actividad, ActividadV, Content, ContentV, Seccion, SeccionV};
use crate::parser::{
    duration_spec, golpe_spec, num_jugadores_spec, process_duration, process_golpe,
    process_num_jugadores, split_csv_spec, split_to_vec,
};
use crate::text::{to_upper, upper_of};
use crate::translate::{
    level_all, material_all, model_all, practice_all, shot_all, translate_level_to_english,
    translate_material, translate_model_to_english, translate_part_to_practice,
    translate_shot_to_english, translate_typology_to_english, typology_all,
};

verus! {

/// The stroke classification of a row: its first cell's leading number, or 0.
pub open spec fn golpe_or_zero(s: Seq<char>) -> i32 {
    match golpe_spec(s) {
        Some(g) => g,
        None => 0,
    }
}

/// The content mapping a row yields for the content block at `start`: one
/// entry, under the locale "ES", when the row has the block's three cells;
/// empty otherwise.
pub open spec fn content_map_spec(row: Seq<Seq<char>>, start: int) -> Seq<(Seq<char>, ContentV)> {
    if row.len() > start + 2 {
        seq![
            (
                "ES"@,
                ContentV { title: row[start], goal: row[start + 1], script: row[start + 2] },
            ),
        ]
    } else {
        seq![]
    }
}

/// The record a sufficiently wide row yields for the subsection at `start`:
/// shared fields from the fixed cells 0 to 3, subsection fields from the ten
/// cells at `start`, vocabulary translated and numbers parsed.
pub open spec fn actividad_spec(
    row: Seq<Seq<char>>,
    start: int,
    content: Seq<(Seq<char>, ContentV)>,
    phase: Seq<char>,
) -> ActividadV {
    ActividadV {
        id: row[start],
        golpe: golpe_or_zero(row[0]),
        phase: phase,
        num_jugadores: num_jugadores_spec(split_csv_spec(upper_of(row[1]))),
        typology: typology_all(split_csv_spec(upper_of(row[2]))),
        level: level_all(split_csv_spec(upper_of(row[3]))),
        model: model_all(split_csv_spec(upper_of(row[start + 1]))),
        shot: shot_all(split_csv_spec(upper_of(row[start + 2]))),
        part_to_practice: practice_all(split_csv_spec(upper_of(row[start + 3]))),
        equipment: material_all(split_csv_spec(upper_of(row[start + 4]))),
        duration: duration_spec(row[start + 5]),
        content: content,
    }
}

/// Extracts the per-locale content block of a row, keyed by language code.
pub fn create_content(row: &Vec<String>, start_index: usize) -> (r: Vec<(String, Content)>)
    ensures
        r.deep_view() == content_map_spec(row.deep_view(), start_index as int),
{
    let mut content: Vec<(String, Content)> = Vec::new();
    if start_index < row.len() && row.len() - start_index > 2 {
        let c = Content {
            title: row[start_index].clone(),
            goal: row[start_index + 1].clone(),
            script: row[start_index + 2].clone(),
        };
        content.push(("ES".to_owned(), c));
        proof {
            assert(content.deep_view() =~= content_map_spec(
                row.deep_view(),
                start_index as int,
            ));
        }
    } else {
        proof {
            assert(content.deep_view() =~= content_map_spec(
                row.deep_view(),
                start_index as int,
            ));
        }
    }
    content
}

/// Builds the activity record of one subsection of a row, when the row has
/// the ten cells the subsection needs; yields nothing otherwise.
pub fn create_actividad(
    row: &Vec<String>,
    start_index: usize,
    content: Vec<(String, Content)>,
    phase: String,
) -> (r: Option<Actividad>)
    ensures
        r is Some <==> row@.len() > start_index + 9,
        r matches Some(a) ==> a@ == actividad_spec(
            row.deep_view(),
            start_index as int,
            content.deep_view(),
            phase@,
        ),
{
    if !(start_index < row.len() && row.len() - start_index > 9) {
        return None;
    }
    let golpe: i32 = match process_golpe(row[0].as_str()) {
        Some(g) => g,
        None => 0,
    };
    let u1 = to_upper(row[1].as_str());
    let num_jugadores = process_num_jugadores(split_to_vec(u1.as_str()));
    let u2 = to_upper(row[2].as_str());
    let typology = translate_typology_to_english(split_to_vec(u2.as_str()));
    let u3 = to_upper(row[3].as_str());
    let level = translate_level_to_english(split_to_vec(u3.as_str()));
    let id = row[start_index].clone();
    let u4 = to_upper(row[start_index + 1].as_str());
    let model = translate_model_to_english(split_to_vec(u4.as_str()));
    let u5 = to_upper(row[start_index + 2].as_str());
    let shot = translate_shot_to_english(split_to_vec(u5.as_str()));
    let u6 = to_upper(row[start_index + 3].as_str());
    let part_to_practice = translate_part_to_practice(split_to_vec(u6.as_str()));
    let u7 = to_upper(row[start_index + 4].as_str());
    let equipment = translate_material(split_to_vec(u7.as_str()));
    let duration = process_duration(row[start_index + 5].as_str());
    let a = Actividad {
        id,
        golpe,
        phase,
        num_jugadores,
        typology,
        level,
        model,
        shot,
        part_to_practice,
        equipment,
        duration,
        content,
    };
    proof {
        assert(a@ =~= actividad_spec(
            row.deep_view(),
            start_index as int,
            a.content.deep_view(),
            a.phase@,
        ));
    }
    Some(a)
}

/// Number of header rows skipped before any data row is read.
pub open spec fn header_rows() -> int {
    3
}

/// Minimum cell count a row needs before any extraction is attempted on it.
pub open spec fn min_row_width() -> int {
    68
}

/// The data rows of a sheet: everything after the header rows.
pub open spec fn data_rows(rows: Seq<Seq<Seq<char>>>) -> Seq<Seq<Seq<char>>> {
    if rows.len() >= header_rows() {
        rows.skip(header_rows())
    } else {
        seq![]
    }
}

/// The records the data rows yield for one subsection, in row order: a row
/// contributes exactly when it is at least `min_row_width` wide and has the
/// ten cells of the subsection at `start`.
pub open spec fn group_spec(
    rows: Seq<Seq<Seq<char>>>,
    start: int,
    cstart: int,
    phase: Seq<char>,
) -> Seq<ActividadV>
    decreases rows.len(),
{
    if rows.len() == 0 {
        seq![]
    } else {
        let rest = group_spec(rows.drop_last(), start, cstart, phase);
        let row = rows.last();
        if row.len() >= min_row_width() && row.len() > start + 9 {
            rest.push(actividad_spec(row, start, content_map_spec(row, cstart), phase))
        } else {
            rest
        }
    }
}

/// The four groups a sheet's rows yield, at the four fixed subsection offsets.
pub open spec fn seccion_spec(rows: Seq<Seq<Seq<char>>>) -> SeccionV {
    let d = data_rows(rows);
    SeccionV {
        calentamiento: group_spec(d, 4, 11, "WARM_UP"@),
        ejercicio1: group_spec(d, 20, 27, "MAIN_EXERCISE"@),
        ejercicio2: group_spec(d, 36, 43, "MAIN_EXERCISE"@),
        parte_final: group_spec(d, 52, 59, "FINAL_PART"@),
    }
}

/// Why a sheet could not be loaded.
#[derive(Debug, Clone, Copy, PartialEq, Eq)]
pub enum LoadError {
    /// The requested sheet does not exist in the workbook.
    SheetNotFound,
    /// The sheet exists but could not be parsed into rows.
    SheetUnreadable,
}

/// Loads the activities of one sheet into the four phase groups.
///
/// The caller passes the outcome of looking the sheet up in the workbook:
/// nothing when the sheet is absent, the reader's error text when it cannot
/// be parsed, or the rows with every cell already as display text.
pub fn load_actividades(sheet: Option<Result<Vec<Vec<String>>, String>>) -> (r: Result<
    Seccion,
    LoadError,
>)
    ensures
        sheet is None ==> r == Err::<Seccion, LoadError>(LoadError::SheetNotFound),
        sheet matches Some(Err(_)) ==> r == Err::<Seccion, LoadError>(LoadError::SheetUnreadable),
        sheet matches Some(Ok(rows)) ==> r matches Ok(s) && s@ == seccion_spec(rows.deep_view()),
{
    let rows: Vec<Vec<String>> = match sheet {
        None => {
            return Err(LoadError::SheetNotFound);
        },
        Some(Err(_)) => {
            return Err(LoadError::SheetUnreadable);
        },
        Some(Ok(rows)) => rows,
    };
    let mut calentamiento: Vec<Actividad> = Vec::new();
    let mut ejercicio1: Vec<Actividad> = Vec::new();
    let mut ejercicio2: Vec<Actividad> = Vec::new();
    let mut parte_final: Vec<Actividad> = Vec::new();
    let ghost d = data_rows(rows.deep_view());
    let mut i: usize = 3;
    proof {
        assert(d.take(0) =~= Seq::<Seq<Seq<char>>>::empty());
        if rows.deep_view().len() >= 3 {
            assert(d.len() == rows.deep_view().len() - 3);
        }
    }
    while i < rows.len()
        invariant
            3 <= i,
            rows@.len() >= 3 ==> i <= rows@.len(),
            rows@.len() < 3 ==> i == 3,
            rows.deep_view().len() == rows@.len(),
            d == data_rows(rows.deep_view()),
            d.len() == if rows@.len() >= 3 {
                rows@.len() - 3
            } else {
                0int
            },
            calentamiento.deep_view() == group_spec(d.take(i - 3), 4, 11, "WARM_UP"@),
            ejercicio1.deep_view() == group_spec(d.take(i - 3), 20, 27, "MAIN_EXERCISE"@),
            ejercicio2.deep_view() == group_spec(d.take(i - 3), 36, 43, "MAIN_EXERCISE"@),
            parte_final.deep_view() == group_spec(d.take(i - 3), 52, 59, "FINAL_PART"@),
        decreases rows@.len() - i,
    {
        let row = &rows[i];
        proof {
            assert(d[i - 3] == rows.deep_view()[i as int]);
            assert(d.take(i - 3 + 1).drop_last() =~= d.take(i - 3));
            assert(d.take(i - 3 + 1).last() == d[i - 3]);
            assert(row.deep_view().len() == row@.len());
        }
        if row.len() >= 68 {
            let c1 = create_content(row, 11);
            let ghost old_cal = calentamiento.deep_view();
            match create_actividad(row, 4, c1, "WARM_UP".to_owned()) {
                Some(act) => {
                    calentamiento.push(act);
                    proof {
                        assert(calentamiento.deep_view() =~= old_cal.push(act@));
                    }
                },
                None => {},
            }
            let c2 = create_content(row, 27);
            let ghost old_e1 = ejercicio1.deep_view();
            match create_actividad(row, 20, c2, "MAIN_EXERCISE".to_owned()) {
                Some(act) => {
                    ejercicio1.push(act);
                    proof {
                        assert(ejercicio1.deep_view() =~= old_e1.push(act@));
                    }
                },
                None => {},
            }
            let c3 = create_content(row, 43);
            let ghost old_e2 = ejercicio2.deep_view();
            match create_actividad(row, 36, c3, "MAIN_EXERCISE".to_owned()) {
                Some(act) => {
                    ejercicio2.push(act);
                    proof {
                        assert(ejercicio2.deep_view() =~= old_e2.push(act@));
                    }
                },
                None => {},
            }
            let c4 = create_content(row, 59);
            let ghost old_pf = parte_final.deep_view();
            match create_actividad(row, 52, c4, "FINAL_PART".to_owned()) {
                Some(act) => {
                    parte_final.push(act);
                    proof {
                        assert(parte_final.deep_view() =~= old_pf.push(act@));
                    }
                },
                None => {},
            }
        }
        i += 1;
    }
    proof {
        assert(d.take(d.len() as int) =~= d);
    }
    Ok(Seccion { calentamiento, ejercicio1, ejercicio2, parte_final })
}

/// A row narrower than the section width contributes no record to a group,
/// whatever its subsection offsets.
pub proof fn lemma_narrow_row_contributes_nothing(
    rows: Seq<Seq<Seq<char>>>,
    row: Seq<Seq<char>>,
    start: int,
    cstart: int,
    phase: Seq<char>,
)
    requires
        row.len() < min_row_width(),
    ensures
        group_spec(rows.push(row), start, cstart, phase) == group_spec(rows, start, cstart, phase),
{
    assert(rows.push(row).drop_last() =~= rows);
    assert(rows.push(row).last() == row);
}

/// A row at least as wide as the section width adds a record to a group
/// exactly when it has the ten cells of that group's subsection, and the
/// records of the earlier rows stay as they were, in order.
pub proof fn lemma_wide_row_contribution(
    rows: Seq<Seq<Seq<char>>>,
    row: Seq<Seq<char>>,
    start: int,
    cstart: int,
    phase: Seq<char>,
)
    requires
        row.len() >= min_row_width(),
    ensures
        row.len() > start + 9 ==> group_spec(rows.push(row), start, cstart, phase) == group_spec(
            rows,
            start,
            cstart,
            phase,
        ).push(actividad_spec(row, start, content_map_spec(row, cstart), phase)),
        row.len() <= start + 9 ==> group_spec(rows.push(row), start, cstart, phase) == group_spec(
            rows,
            start,
            cstart,
            phase,
        ),
{
    assert(rows.push(row).drop_last() =~= rows);
    assert(rows.push(row).last() == row);
}

/// A data row with at least the section width adds exactly one record to
/// each of the four groups, tagged with that group's phase, after the
/// records of the earlier rows.
pub proof fn lemma_full_row_one_record_each(rows: Seq<Seq<Seq<char>>>, row: Seq<Seq<char>>)
    requires
        row.len() >= min_row_width(),
    ensures
        group_spec(rows.push(row), 4, 11, "WARM_UP"@) == group_spec(rows, 4, 11, "WARM_UP"@).push(
            actividad_spec(row, 4, content_map_spec(row, 11), "WARM_UP"@),
        ),
        group_spec(rows.push(row), 20, 27, "MAIN_EXERCISE"@) == group_spec(
            rows,
            20,
            27,
            "MAIN_EXERCISE"@,
        ).push(actividad_spec(row, 20, content_map_spec(row, 27), "MAIN_EXERCISE"@)),
        group_spec(rows.push(row), 36, 43, "MAIN_EXERCISE"@) == group_spec(
            rows,
            36,
            43,
            "MAIN_EXERCISE"@,
        ).push(actividad_spec(row, 36, content_map_spec(row, 43), "MAIN_EXERCISE"@)),
        group_spec(rows.push(row), 52, 59, "FINAL_PART"@) == group_spec(
            rows,
            52,
            59,
            "FINAL_PART"@,
        ).push(actividad_spec(row, 52, content_map_spec(row, 59), "FINAL_PART"@)),
        actividad_spec(row, 4, content_map_spec(row, 11), "WARM_UP"@).phase == "WARM_UP"@,
        actividad_spec(row, 20, content_map_spec(row, 27), "MAIN_EXERCISE"@).phase
            == "MAIN_EXERCISE"@,
        actividad_spec(row, 36, content_map_spec(row, 43), "MAIN_EXERCISE"@).phase
            == "MAIN_EXERCISE"@,
        actividad_spec(row, 52, content_map_spec(row, 59), "FINAL_PART"@).phase == "FINAL_PART"@,
{
    lemma_wide_row_contribution(rows, row, 4, 11, "WARM_UP"@);
    lemma_wide_row_contribution(rows, row, 20, 27, "MAIN_EXERCISE"@);
    lemma_wide_row_contribution(rows, row, 36, 43, "MAIN_EXERCISE"@);
    lemma_wide_row_contribution(rows, row, 52, 59, "FINAL_PART"@);
}

} // verus!

//! Tests of record extraction and section loading: width checks, subsection
//! offsets, phase tagging, row order, and the load error cases.

use padel_sessions::extract::{create_actividad, create_content, load_actividades, LoadError};
use padel_sessions::models::{Content, Seccion};

/// A row of `width` empty cells.
fn blank_row(width: usize) -> Vec<String> {
    vec![String::new(); width]
}

/// A 68-cell row with valid data in all four subsections, ids tagged by `tag`.
fn full_row(tag: &str) -> Vec<String> {
    let mut row = blank_row(68);
    row[0] = "3 Derecha plana".to_string();
    row[1] = "4 jugadores, 2".to_string();
    row[2] = "Iniciación Infantil".to_string();
    row[3] = "medio".to_string();
    for (start, cstart) in [(4, 11), (20, 27), (36, 43), (52, 59)] {
        row[start] = format!("{}-{}", tag, start);
        row[start + 1] = "técnica".to_string();
        row[start + 2] = "derecha".to_string();
        row[start + 3] = "dirección".to_string();
        row[start + 4] = "conos".to_string();
        row[start + 5] = "10'(5'/pareja)".to_string();
        row[cstart] = format!("Title {}", start);
        row[cstart + 1] = format!("Goal {}", start);
        row[cstart + 2] = format!("Script {}", start);
    }
    row
}

fn load_rows(rows: Vec<Vec<String>>) -> Seccion {
    load_actividades(Some(Ok(rows))).expect("load should succeed")
}

#[test]
fn missing_sheet_fails_with_sheet_not_found() {
    assert_eq!(load_actividades(None), Err(LoadError::SheetNotFound));
}

#[test]
fn unreadable_sheet_fails_with_sheet_unreadable() {
    assert_eq!(
        load_actividades(Some(Err("corrupt".to_string()))),
        Err(LoadError::SheetUnreadable)
    );
}

#[test]
fn empty_sheet_loads_empty_groups() {
    let s = load_rows(Vec::new());
    assert!(s.calentamiento.is_empty());
    assert!(s.ejercicio1.is_empty());
    assert!(s.ejercicio2.is_empty());
    assert!(s.parte_final.is_empty());
}

#[test]
fn header_rows_are_skipped() {
    // Three header rows, even full ones, contribute nothing.
    let rows = vec![full_row("h1"), full_row("h2"), full_row("h3")];
    let s = load_rows(rows);
    assert!(s.calentamiento.is_empty());
    assert!(s.ejercicio1.is_empty());
    assert!(s.ejercicio2.is_empty());
    assert!(s.parte_final.is_empty());
}

#[test]
fn narrow_rows_contribute_nothing() {
    let rows = vec![
        blank_row(0),
        blank_row(0),
        blank_row(0),
        blank_row(67),
        full_row("r1"),
        blank_row(10),
    ];
    let s = load_rows(rows);
    assert_eq!(s.calentamiento.len(), 1);
    assert_eq!(s.ejercicio1.len(), 1);
    assert_eq!(s.ejercicio2.len(), 1);
    assert_eq!(s.parte_final.len(), 1);
}

#[test]
fn full_row_yields_one_record_per_subsection() {
    let rows = vec![blank_row(0), blank_row(0), blank_row(0), full_row("r1")];
    let s = load_rows(rows);
    assert_eq!(s.calentamiento.len(), 1);
    assert_eq!(s.ejercicio1.len(), 1);
    assert_eq!(s.ejercicio2.len(), 1);
    assert_eq!(s.parte_final.len(), 1);

    let w = &s.calentamiento[0];
    assert_eq!(w.phase, "WARM_UP");
    assert_eq!(w.id, "r1-4");
    assert_eq!(w.golpe, 3);
    assert_eq!(w.num_jugadores, vec![4, 2]);
    assert_eq!(w.typology, vec!["KIDS_BEGINNERS"]);
    assert_eq!(w.level, vec!["MEDIUM"]);
    assert_eq!(w.model, vec!["TECHNIQUE"]);
    assert_eq!(w.shot, vec!["FOREHAND"]);
    assert_eq!(w.part_to_practice, vec!["DIRECTION"]);
    assert_eq!(w.equipment, vec!["CONES"]);
    assert_eq!(w.duration, "10m - 5m/pareja");
    assert_eq!(w.content.len(), 1);
    assert_eq!(w.content[0].0, "ES");
    assert_eq!(
        w.content[0].1,
        Content {
            title: "Title 4".to_string(),
            goal: "Goal 4".to_string(),
            script: "Script 4".to_string(),
        }
    );

    assert_eq!(s.ejercicio1[0].phase, "MAIN_EXERCISE");
    assert_eq!(s.ejercicio1[0].id, "r1-20");
    assert_eq!(s.ejercicio1[0].content[0].1.title, "Title 20");
    assert_eq!(s.ejercicio2[0].phase, "MAIN_EXERCISE");
    assert_eq!(s.ejercicio2[0].id, "r1-36");
    assert_eq!(s.parte_final[0].phase, "FINAL_PART");
    assert_eq!(s.parte_final[0].id, "r1-52");
}

#[test]
fn row_order_is_preserved_in_each_group() {
    let rows = vec![
        blank_row(0),
        blank_row(0),
        blank_row(0),
        full_row("a"),
        blank_row(5),
        full_row("b"),
        full_row("c"),
    ];
    let s = load_rows(rows);
    let ids: Vec<&str> = s.calentamiento.iter().map(|a| a.id.as_str()).collect();
    assert_eq!(ids, vec!["a-4", "b-4", "c-4"]);
    let ids: Vec<&str> = s.parte_final.iter().map(|a| a.id.as_str()).collect();
    assert_eq!(ids, vec!["a-52", "b-52", "c-52"]);
}

#[test]
fn unparseable_shot_code_defaults_to_zero() {
    let mut row = full_row("r1");
    row[0] = "N/A".to_string();
    let rows = vec![blank_row(0), blank_row(0), blank_row(0), row];
    let s = load_rows(rows);
    assert_eq!(s.calentamiento[0].golpe, 0);
}

#[test]
fn subsection_without_its_ten_cells_yields_nothing() {
    // 14 cells reach the warm-up subsection (offset 4) but not the others.
    let mut row = blank_row(14);
    row[4] = "w".to_string();
    let content = create_content(&row, 11);
    let act = create_actividad(&row, 4, content, "WARM_UP".to_string());
    assert!(act.is_some());
    assert_eq!(act.unwrap().id, "w");

    let content = create_content(&row, 27);
    let act = create_actividad(&row, 20, content, "MAIN_EXERCISE".to_string());
    assert!(act.is_none());
}

#[test]
fn content_block_needs_its_three_cells() {
    let mut row = blank_row(14);
    row[11] = "t".to_string();
    row[12] = "g".to_string();
    row[13] = "s".to_string();
    let content = create_content(&row, 11);
    assert_eq!(content.len(), 1);
    assert_eq!(content[0].0, "ES");
    assert_eq!(content[0].1.title, "t");
    assert_eq!(content[0].1.goal, "g");
    assert_eq!(content[0].1.script, "s");

    // One cell short of the block: no entry at all.
    let content = create_content(&blank_row(13), 11);
    assert!(content.is_empty());
}

#[test]
fn record_with_short_content_block_has_empty_content() {
    // 14 cells: enough for the subsection at offset 4, but a content block
    // taken at offset 12 would need cells 12..15 and stays empty; the record
    // is still built, carrying the empty content mapping.
    let mut row = blank_row(14);
    row[4] = "w".to_string();
    let content = create_content(&row, 12);
    assert!(content.is_empty());
    let act = create_actividad(&row, 4, content, "WARM_UP".to_string()).unwrap();
    assert_eq!(act.id, "w");
    assert!(act.content.is_empty());
}

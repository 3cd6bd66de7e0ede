//! Tests of the vocabulary translators: table hits, identity fallback for
//! unknown tokens, uppercasing categories, and repeated translation.

use padel_sessions::translate::{
    translate_level_to_english, translate_material, translate_model_to_english,
    translate_part_to_practice, translate_shot_to_english, translate_typology_to_english,
};

fn strings(items: &[&str]) -> Vec<String> {
    items.iter().map(|s| s.to_string()).collect()
}

#[test]
fn typology_table_entries() {
    assert_eq!(
        translate_typology_to_english(strings(&[
            "INICIACIÓN INFANTIL",
            "INICIACIÓN ADULTO",
            "PERFECCIONAMIENTO",
            "COMPETICIÓN",
            "PRE-COMPETICIÓN",
        ])),
        strings(&[
            "KIDS_BEGINNERS",
            "ADULT_BEGINNERS",
            "IMPROVEMENT",
            "TOUR_COMPETITION",
            "PRECOMPETITION",
        ])
    );
}

#[test]
fn typology_unknown_token_unchanged() {
    assert_eq!(
        translate_typology_to_english(strings(&["SOMETHING ELSE"])),
        strings(&["SOMETHING ELSE"])
    );
}

#[test]
fn typology_repeated_translation_is_stable() {
    let once = translate_typology_to_english(strings(&["COMPETICIÓN", "XYZ"]));
    let twice = translate_typology_to_english(once.clone());
    assert_eq!(once, twice);
}

#[test]
fn level_table_entries_and_fallback() {
    assert_eq!(
        translate_level_to_english(strings(&["DIFÍCIL", "MEDIO", "FÁCIL", "OTRO"])),
        strings(&["DIFFICULT", "MEDIUM", "EASY", "OTRO"])
    );
}

#[test]
fn level_repeated_translation_is_stable() {
    let once = translate_level_to_english(strings(&["MEDIO", "???"]));
    let twice = translate_level_to_english(once.clone());
    assert_eq!(once, twice);
}

#[test]
fn model_table_entries_and_fallback() {
    assert_eq!(
        translate_model_to_english(strings(&["TÉCNICA", "TÁCTICA", "SOCIAL", "FÍSICO", "otro"])),
        strings(&["TECHNIQUE", "TACTIC", "SOCIAL", "PHYSIQUE", "otro"])
    );
}

#[test]
fn model_repeated_translation_is_stable() {
    let once = translate_model_to_english(strings(&["SOCIAL", "FÍSICO"]));
    let twice = translate_model_to_english(once.clone());
    assert_eq!(once, twice);
}

#[test]
fn shot_table_entries_are_uppercased() {
    assert_eq!(
        translate_shot_to_english(strings(&["DERECHA", "REVÉS", "PARED DE FONDO", "SAQUE"])),
        strings(&["FOREHAND", "BACKHAND", "BACK WALL", "SERVE"])
    );
}

#[test]
fn shot_full_table() {
    assert_eq!(
        translate_shot_to_english(strings(&[
            "PARED LATERAL REVÉS",
            "PARED LATERAL DE DERECHA",
            "DOBLE PARED DE REVÉS",
            "DOBLE PARED DE DERECHA",
            "OVERHEAD",
            "VOLEA",
            "GOLPE A LA REJA",
            "TRICK SHOT",
            "RESTO",
        ])),
        strings(&[
            "BACKHAND SIDE WALL",
            "FOREHAND SIDE WALL",
            "DOUBLE BACKHAND WALL",
            "DOUBLE FOREHAND WALL",
            "OVERHEAD",
            "VOLLEY",
            "FENCE HIT",
            "TRICK SHOT",
            "RETURN",
        ])
    );
}

#[test]
fn shot_unknown_token_is_uppercased() {
    assert_eq!(
        translate_shot_to_english(strings(&["abc", "revés"])),
        strings(&["ABC", "REVÉS"])
    );
}

#[test]
fn shot_lowercase_table_token_reaches_the_table_only_once_uppercased() {
    // "volea" misses the exact-match table and is only uppercased; the
    // result is itself a table entry, so a second translation maps it.
    let once = translate_shot_to_english(strings(&["volea"]));
    assert_eq!(once, strings(&["VOLEA"]));
    let twice = translate_shot_to_english(once);
    assert_eq!(twice, strings(&["VOLLEY"]));
}

#[test]
fn practice_table_entries_and_uppercase_fallback() {
    assert_eq!(
        translate_part_to_practice(strings(&[
            "DIRECCIÓN",
            "POSICIONAMIENTO",
            "ESTRATEGIA",
            "POTENCIA",
            "PROFUNDIDAD",
            "ALTURA",
            "ritmo",
        ])),
        strings(&[
            "DIRECTION",
            "POSITIONING",
            "STRATEGY",
            "POWER",
            "DEPTH",
            "HEIGHT",
            "RITMO",
        ])
    );
}

#[test]
fn material_table_entries_and_uppercase_fallback() {
    assert_eq!(
        translate_material(strings(&[
            "CONOS",
            "LÍNEAS DE SEÑALIZACIÓN AMARILLAS",
            "CONOS GRANDES",
            "ESCALERA DE COORDINACIÓN",
            "RIÑONERA DE PELOTAS",
            "AROS",
            "MINI RED",
            "PICKIS RECOGE BOLAS",
            "MINI PORTERIA",
            "pelotas",
        ])),
        strings(&[
            "CONES",
            "YELLOW_MARKING_LINES",
            "LARGE_CONES",
            "COORDINATION_LADDER",
            "BALL_BELT",
            "HOOPS",
            "MINI_NET",
            "BALL_PICKER_PICKIS",
            "MINI_GOAL",
            "PELOTAS",
        ])
    );
}

#[test]
fn translators_keep_order_and_length() {
    let input = strings(&["MEDIO", "X", "DIFÍCIL", "X"]);
    let out = translate_level_to_english(input);
    assert_eq!(out, strings(&["MEDIUM", "X", "DIFFICULT", "X"]));
}

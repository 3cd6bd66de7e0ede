//! Vocabulary translation: fixed tables from Spanish source tokens to
//! canonical English tokens, with identity fallback for unknown tokens.
//! The shot, practice-part and material categories uppercase their output.

use vstd::prelude::*;

use crate::text::{str_eq, to_upper, upper_of};

verus! {

/// Canonical token for a typology term: table entries map to their
/// translations, anything else passes through unchanged.
pub open spec fn typology_canon(t: Seq<char>) -> Seq<char> {
    if t == "INICIACIÓN INFANTIL"@ {
        "KIDS_BEGINNERS"@
    } else if t == "INICIACIÓN ADULTO"@ {
        "ADULT_BEGINNERS"@
    } else if t == "PERFECCIONAMIENTO"@ {
        "IMPROVEMENT"@
    } else if t == "COMPETICIÓN"@ {
        "TOUR_COMPETITION"@
    } else if t == "PRE-COMPETICIÓN"@ {
        "PRECOMPETITION"@
    } else {
        t
    }
}

/// `typology_canon` as a function value.
pub open spec fn typology_fn() -> spec_fn(Seq<char>) -> Seq<char> {
    |t: Seq<char>| typology_canon(t)
}

/// `typology_canon` applied to every token.
pub open spec fn typology_all(ts: Seq<Seq<char>>) -> Seq<Seq<char>> {
    ts.map_values(typology_fn())
}

/// Translates typology tokens from Spanish to English.
pub fn translate_typology_to_english(typology: Vec<String>) -> (r: Vec<String>)
    ensures
        r.deep_view() == typology_all(typology.deep_view()),
{
    let mut r: Vec<String> = Vec::new();
    let mut i: usize = 0;
    proof {
        assert(r.deep_view() =~= typology_all(typology.deep_view().take(0)));
    }
    while i < typology.len()
        invariant
            i <= typology@.len(),
            typology.deep_view().len() == typology@.len(),
            r.deep_view() == typology_all(typology.deep_view().take(i as int)),
        decreases typology@.len() - i,
    {
        let item = &typology[i];
        let out: String = if str_eq(item.as_str(), "INICIACIÓN INFANTIL") {
            "KIDS_BEGINNERS".to_owned()
        } else if str_eq(item.as_str(), "INICIACIÓN ADULTO") {
            "ADULT_BEGINNERS".to_owned()
        } else if str_eq(item.as_str(), "PERFECCIONAMIENTO") {
            "IMPROVEMENT".to_owned()
        } else if str_eq(item.as_str(), "COMPETICIÓN") {
            "TOUR_COMPETITION".to_owned()
        } else if str_eq(item.as_str(), "PRE-COMPETICIÓN") {
            "PRECOMPETITION".to_owned()
        } else {
            item.clone()
        };
        let ghost old_dv = r.deep_view();
        r.push(out);
        proof {
            let dv = typology.deep_view();
            assert(r.deep_view() =~= old_dv.push(out@));
            assert(out@ == typology_canon(dv[i as int]));
            assert(typology_all(dv.take(i as int + 1)) =~= typology_all(dv.take(i as int)).push(
                typology_canon(dv[i as int]),
            ));
        }
        i += 1;
    }
    proof {
        assert(typology.deep_view().take(typology@.len() as int) =~= typology.deep_view());
    }
    r
}

/// Canonical token for a level term.
pub open spec fn level_canon(t: Seq<char>) -> Seq<char> {
    if t == "DIFÍCIL"@ {
        "DIFFICULT"@
    } else if t == "MEDIO"@ {
        "MEDIUM"@
    } else if t == "FÁCIL"@ {
        "EASY"@
    } else {
        t
    }
}

/// `level_canon` as a function value.
pub open spec fn level_fn() -> spec_fn(Seq<char>) -> Seq<char> {
    |t: Seq<char>| level_canon(t)
}

/// `level_canon` applied to every token.
pub open spec fn level_all(ts: Seq<Seq<char>>) -> Seq<Seq<char>> {
    ts.map_values(level_fn())
}

/// Translates level tokens from Spanish to English.
pub fn translate_level_to_english(level: Vec<String>) -> (r: Vec<String>)
    ensures
        r.deep_view() == level_all(level.deep_view()),
{
    let mut r: Vec<String> = Vec::new();
    let mut i: usize = 0;
    proof {
        assert(r.deep_view() =~= level_all(level.deep_view().take(0)));
    }
    while i < level.len()
        invariant
            i <= level@.len(),
            level.deep_view().len() == level@.len(),
            r.deep_view() == level_all(level.deep_view().take(i as int)),
        decreases level@.len() - i,
    {
        let item = &level[i];
        let out: String = if str_eq(item.as_str(), "DIFÍCIL") {
            "DIFFICULT".to_owned()
        } else if str_eq(item.as_str(), "MEDIO") {
            "MEDIUM".to_owned()
        } else if str_eq(item.as_str(), "FÁCIL") {
            "EASY".to_owned()
        } else {
            item.clone()
        };
        let ghost old_dv = r.deep_view();
        r.push(out);
        proof {
            let dv = level.deep_view();
            assert(r.deep_view() =~= old_dv.push(out@));
            assert(out@ == level_canon(dv[i as int]));
            assert(level_all(dv.take(i as int + 1)) =~= level_all(dv.take(i as int)).push(
                level_canon(dv[i as int]),
            ));
        }
        i += 1;
    }
    proof {
        assert(level.deep_view().take(level@.len() as int) =~= level.deep_view());
    }
    r
}

/// Canonical token for an objective (model) term.
pub open spec fn model_canon(t: Seq<char>) -> Seq<char> {
    if t == "TÉCNICA"@ {
        "TECHNIQUE"@
    } else if t == "TÁCTICA"@ {
        "TACTIC"@
    } else if t == "SOCIAL"@ {
        "SOCIAL"@
    } else if t == "FÍSICO"@ {
        "PHYSIQUE"@
    } else {
        t
    }
}

/// `model_canon` as a function value.
pub open spec fn model_fn() -> spec_fn(Seq<char>) -> Seq<char> {
    |t: Seq<char>| model_canon(t)
}

/// `model_canon` applied to every token.
pub open spec fn model_all(ts: Seq<Seq<char>>) -> Seq<Seq<char>> {
    ts.map_values(model_fn())
}

/// Translates objective (model) tokens from Spanish to English.
pub fn translate_model_to_english(model: Vec<String>) -> (r: Vec<String>)
    ensures
        r.deep_view() == model_all(model.deep_view()),
{
    let mut r: Vec<String> = Vec::new();
    let mut i: usize = 0;
    proof {
        assert(r.deep_view() =~= model_all(model.deep_view().take(0)));
    }
    while i < model.len()
        invariant
            i <= model@.len(),
            model.deep_view().len() == model@.len(),
            r.deep_view() == model_all(model.deep_view().take(i as int)),
        decreases model@.len() - i,
    {
        let item = &model[i];
        let out: String = if str_eq(item.as_str(), "TÉCNICA") {
            "TECHNIQUE".to_owned()
        } else if str_eq(item.as_str(), "TÁCTICA") {
            "TACTIC".to_owned()
        } else if str_eq(item.as_str(), "SOCIAL") {
            "SOCIAL".to_owned()
        } else if str_eq(item.as_str(), "FÍSICO") {
            "PHYSIQUE".to_owned()
        } else {
            item.clone()
        };
        let ghost old_dv = r.deep_view();
        r.push(out);
        proof {
            let dv = model.deep_view();
            assert(r.deep_view() =~= old_dv.push(out@));
            assert(out@ == model_canon(dv[i as int]));
            assert(model_all(dv.take(i as int + 1)) =~= model_all(dv.take(i as int)).push(
                model_canon(dv[i as int]),
            ));
        }
        i += 1;
    }
    proof {
        assert(model.deep_view().take(model@.len() as int) =~= model.deep_view());
    }
    r
}

/// Canonical token for a shot term; unknown tokens come back uppercased.
pub open spec fn shot_canon(t: Seq<char>) -> Seq<char> {
    if t == "DERECHA"@ {
        "FOREHAND"@
    } else if t == "REVÉS"@ {
        "BACKHAND"@
    } else if t == "PARED DE FONDO"@ {
        "BACK WALL"@
    } else if t == "PARED LATERAL REVÉS"@ {
        "BACKHAND SIDE WALL"@
    } else if t == "PARED LATERAL DE DERECHA"@ {
        "FOREHAND SIDE WALL"@
    } else if t == "DOBLE PARED DE REVÉS"@ {
        "DOUBLE BACKHAND WALL"@
    } else if t == "DOBLE PARED DE DERECHA"@ {
        "DOUBLE FOREHAND WALL"@
    } else if t == "OVERHEAD"@ {
        "OVERHEAD"@
    } else if t == "VOLEA"@ {
        "VOLLEY"@
    } else if t == "GOLPE A LA REJA"@ {
        "FENCE HIT"@
    } else if t == "TRICK SHOT"@ {
        "TRICK SHOT"@
    } else if t == "SAQUE"@ {
        "SERVE"@
    } else if t == "RESTO"@ {
        "RETURN"@
    } else {
        upper_of(t)
    }
}

/// `shot_canon` as a function value.
pub open spec fn shot_fn() -> spec_fn(Seq<char>) -> Seq<char> {
    |t: Seq<char>| shot_canon(t)
}

/// `shot_canon` applied to every token.
pub open spec fn shot_all(ts: Seq<Seq<char>>) -> Seq<Seq<char>> {
    ts.map_values(shot_fn())
}

/// Translates shot tokens from Spanish to uppercase English.
pub fn translate_shot_to_english(shot: Vec<String>) -> (r: Vec<String>)
    ensures
        r.deep_view() == shot_all(shot.deep_view()),
{
    let mut r: Vec<String> = Vec::new();
    let mut i: usize = 0;
    proof {
        assert(r.deep_view() =~= shot_all(shot.deep_view().take(0)));
    }
    while i < shot.len()
        invariant
            i <= shot@.len(),
            shot.deep_view().len() == shot@.len(),
            r.deep_view() == shot_all(shot.deep_view().take(i as int)),
        decreases shot@.len() - i,
    {
        let item = &shot[i];
        let out: String = if str_eq(item.as_str(), "DERECHA") {
            "FOREHAND".to_owned()
        } else if str_eq(item.as_str(), "REVÉS") {
            "BACKHAND".to_owned()
        } else if str_eq(item.as_str(), "PARED DE FONDO") {
            "BACK WALL".to_owned()
        } else if str_eq(item.as_str(), "PARED LATERAL REVÉS") {
            "BACKHAND SIDE WALL".to_owned()
        } else if str_eq(item.as_str(), "PARED LATERAL DE DERECHA") {
            "FOREHAND SIDE WALL".to_owned()
        } else if str_eq(item.as_str(), "DOBLE PARED DE REVÉS") {
            "DOUBLE BACKHAND WALL".to_owned()
        } else if str_eq(item.as_str(), "DOBLE PARED DE DERECHA") {
            "DOUBLE FOREHAND WALL".to_owned()
        } else if str_eq(item.as_str(), "OVERHEAD") {
            "OVERHEAD".to_owned()
        } else if str_eq(item.as_str(), "VOLEA") {
            "VOLLEY".to_owned()
        } else if str_eq(item.as_str(), "GOLPE A LA REJA") {
            "FENCE HIT".to_owned()
        } else if str_eq(item.as_str(), "TRICK SHOT") {
            "TRICK SHOT".to_owned()
        } else if str_eq(item.as_str(), "SAQUE") {
            "SERVE".to_owned()
        } else if str_eq(item.as_str(), "RESTO") {
            "RETURN".to_owned()
        } else {
            to_upper(item.as_str())
        };
        let ghost old_dv = r.deep_view();
        r.push(out);
        proof {
            let dv = shot.deep_view();
            assert(r.deep_view() =~= old_dv.push(out@));
            assert(out@ == shot_canon(dv[i as int]));
            assert(shot_all(dv.take(i as int + 1)) =~= shot_all(dv.take(i as int)).push(
                shot_canon(dv[i as int]),
            ));
        }
        i += 1;
    }
    proof {
        assert(shot.deep_view().take(shot@.len() as int) =~= shot.deep_view());
    }
    r
}

/// Canonical token for a part-to-practice term; unknown tokens come back
/// uppercased.
pub open spec fn practice_canon(t: Seq<char>) -> Seq<char> {
    if t == "DIRECCIÓN"@ {
        "DIRECTION"@
    } else if t == "POSICIONAMIENTO"@ {
        "POSITIONING"@
    } else if t == "ESTRATEGIA"@ {
        "STRATEGY"@
    } else if t == "POTENCIA"@ {
        "POWER"@
    } else if t == "PROFUNDIDAD"@ {
        "DEPTH"@
    } else if t == "ALTURA"@ {
        "HEIGHT"@
    } else {
        upper_of(t)
    }
}

/// `practice_canon` as a function value.
pub open spec fn practice_fn() -> spec_fn(Seq<char>) -> Seq<char> {
    |t: Seq<char>| practice_canon(t)
}

/// `practice_canon` applied to every token.
pub open spec fn practice_all(ts: Seq<Seq<char>>) -> Seq<Seq<char>> {
    ts.map_values(practice_fn())
}

/// Translates part-to-practice tokens from Spanish to uppercase English.
pub fn translate_part_to_practice(part: Vec<String>) -> (r: Vec<String>)
    ensures
        r.deep_view() == practice_all(part.deep_view()),
{
    let mut r: Vec<String> = Vec::new();
    let mut i: usize = 0;
    proof {
        assert(r.deep_view() =~= practice_all(part.deep_view().take(0)));
    }
    while i < part.len()
        invariant
            i <= part@.len(),
            part.deep_view().len() == part@.len(),
            r.deep_view() == practice_all(part.deep_view().take(i as int)),
        decreases part@.len() - i,
    {
        let item = &part[i];
        let out: String = if str_eq(item.as_str(), "DIRECCIÓN") {
            "DIRECTION".to_owned()
        } else if str_eq(item.as_str(), "POSICIONAMIENTO") {
            "POSITIONING".to_owned()
        } else if str_eq(item.as_str(), "ESTRATEGIA") {
            "STRATEGY".to_owned()
        } else if str_eq(item.as_str(), "POTENCIA") {
            "POWER".to_owned()
        } else if str_eq(item.as_str(), "PROFUNDIDAD") {
            "DEPTH".to_owned()
        } else if str_eq(item.as_str(), "ALTURA") {
            "HEIGHT".to_owned()
        } else {
            to_upper(item.as_str())
        };
        let ghost old_dv = r.deep_view();
        r.push(out);
        proof {
            let dv = part.deep_view();
            assert(r.deep_view() =~= old_dv.push(out@));
            assert(out@ == practice_canon(dv[i as int]));
            assert(practice_all(dv.take(i as int + 1)) =~= practice_all(dv.take(i as int)).push(
                practice_canon(dv[i as int]),
            ));
        }
        i += 1;
    }
    proof {
        assert(part.deep_view().take(part@.len() as int) =~= part.deep_view());
    }
    r
}

/// Canonical token for a material term; unknown tokens come back uppercased.
pub open spec fn material_canon(t: Seq<char>) -> Seq<char> {
    if t == "CONOS"@ {
        "CONES"@
    } else if t == "LÍNEAS DE SEÑALIZACIÓN AMARILLAS"@ {
        "YELLOW_MARKING_LINES"@
    } else if t == "CONOS GRANDES"@ {
        "LARGE_CONES"@
    } else if t == "ESCALERA DE COORDINACIÓN"@ {
        "COORDINATION_LADDER"@
    } else if t == "RIÑONERA DE PELOTAS"@ {
        "BALL_BELT"@
    } else if t == "AROS"@ {
        "HOOPS"@
    } else if t == "MINI RED"@ {
        "MINI_NET"@
    } else if t == "PICKIS RECOGE BOLAS"@ {
        "BALL_PICKER_PICKIS"@
    } else if t == "MINI PORTERIA"@ {
        "MINI_GOAL"@
    } else {
        upper_of(t)
    }
}

/// `material_canon` as a function value.
pub open spec fn material_fn() -> spec_fn(Seq<char>) -> Seq<char> {
    |t: Seq<char>| material_canon(t)
}

/// `material_canon` applied to every token.
pub open spec fn material_all(ts: Seq<Seq<char>>) -> Seq<Seq<char>> {
    ts.map_values(material_fn())
}

/// Translates material tokens from Spanish to uppercase English.
pub fn translate_material(material: Vec<String>) -> (r: Vec<String>)
    ensures
        r.deep_view() == material_all(material.deep_view()),
{
    let mut r: Vec<String> = Vec::new();
    let mut i: usize = 0;
    proof {
        assert(r.deep_view() =~= material_all(material.deep_view().take(0)));
    }
    while i < material.len()
        invariant
            i <= material@.len(),
            material.deep_view().len() == material@.len(),
            r.deep_view() == material_all(material.deep_view().take(i as int)),
        decreases material@.len() - i,
    {
        let item = &material[i];
        let out: String = if str_eq(item.as_str(), "CONOS") {
            "CONES".to_owned()
        } else if str_eq(item.as_str(), "LÍNEAS DE SEÑALIZACIÓN AMARILLAS") {
            "YELLOW_MARKING_LINES".to_owned()
        } else if str_eq(item.as_str(), "CONOS GRANDES") {
            "LARGE_CONES".to_owned()
        } else if str_eq(item.as_str(), "ESCALERA DE COORDINACIÓN") {
            "COORDINATION_LADDER".to_owned()
        } else if str_eq(item.as_str(), "RIÑONERA DE PELOTAS") {
            "BALL_BELT".to_owned()
        } else if str_eq(item.as_str(), "AROS") {
            "HOOPS".to_owned()
        } else if str_eq(item.as_str(), "MINI RED") {
            "MINI_NET".to_owned()
        } else if str_eq(item.as_str(), "PICKIS RECOGE BOLAS") {
            "BALL_PICKER_PICKIS".to_owned()
        } else if str_eq(item.as_str(), "MINI PORTERIA") {
            "MINI_GOAL".to_owned()
        } else {
            to_upper(item.as_str())
        };
        let ghost old_dv = r.deep_view();
        r.push(out);
        proof {
            let dv = material.deep_view();
            assert(r.deep_view() =~= old_dv.push(out@));
            assert(out@ == material_canon(dv[i as int]));
            assert(material_all(dv.take(i as int + 1)) =~= material_all(dv.take(i as int)).push(
                material_canon(dv[i as int]),
            ));
        }
        i += 1;
    }
    proof {
        assert(material.deep_view().take(material@.len() as int) =~= material.deep_view());
    }
    r
}

/// A token that matches no typology table entry passes through unchanged.
pub proof fn lemma_typology_unknown_identity(t: Seq<char>)
    requires
        t != "INICIACIÓN INFANTIL"@,
        t != "INICIACIÓN ADULTO"@,
        t != "PERFECCIONAMIENTO"@,
        t != "COMPETICIÓN"@,
        t != "PRE-COMPETICIÓN"@,
    ensures
        typology_canon(t) == t,
{
}

/// Translating a typology token a second time changes nothing.
pub proof fn lemma_typology_canon_idempotent(t: Seq<char>)
    ensures
        typology_canon(typology_canon(t)) == typology_canon(t),
{
    reveal_strlit("INICIACIÓN INFANTIL");
    reveal_strlit("INICIACIÓN ADULTO");
    reveal_strlit("PERFECCIONAMIENTO");
    reveal_strlit("COMPETICIÓN");
    reveal_strlit("PRE-COMPETICIÓN");
    reveal_strlit("KIDS_BEGINNERS");
    reveal_strlit("ADULT_BEGINNERS");
    reveal_strlit("IMPROVEMENT");
    reveal_strlit("TOUR_COMPETITION");
    reveal_strlit("PRECOMPETITION");
    assert("IMPROVEMENT"@[0] != "COMPETICIÓN"@[0]);
    assert("ADULT_BEGINNERS"@[0] != "PRE-COMPETICIÓN"@[0]);
}

/// Translating a whole typology token sequence a second time changes nothing.
pub proof fn lemma_translate_typology_idempotent(ts: Seq<Seq<char>>)
    ensures
        typology_all(typology_all(ts)) == typology_all(ts),
{
    assert forall|k: int| 0 <= k < ts.len() implies #[trigger] typology_all(typology_all(ts))[k]
        == typology_all(ts)[k] by {
        lemma_typology_canon_idempotent(ts[k]);
    }
    assert(typology_all(typology_all(ts)) =~= typology_all(ts));
}

/// A token that matches no level table entry passes through unchanged.
pub proof fn lemma_level_unknown_identity(t: Seq<char>)
    requires
        t != "DIFÍCIL"@,
        t != "MEDIO"@,
        t != "FÁCIL"@,
    ensures
        level_canon(t) == t,
{
}

/// Translating a level token a second time changes nothing.
pub proof fn lemma_level_canon_idempotent(t: Seq<char>)
    ensures
        level_canon(level_canon(t)) == level_canon(t),
{
    reveal_strlit("DIFÍCIL");
    reveal_strlit("MEDIO");
    reveal_strlit("FÁCIL");
    reveal_strlit("DIFFICULT");
    reveal_strlit("MEDIUM");
    reveal_strlit("EASY");
}

/// Translating a whole level token sequence a second time changes nothing.
pub proof fn lemma_translate_level_idempotent(ts: Seq<Seq<char>>)
    ensures
        level_all(level_all(ts)) == level_all(ts),
{
    assert forall|k: int| 0 <= k < ts.len() implies #[trigger] level_all(level_all(ts))[k]
        == level_all(ts)[k] by {
        lemma_level_canon_idempotent(ts[k]);
    }
    assert(level_all(level_all(ts)) =~= level_all(ts));
}

/// A token that matches no objective (model) table entry passes through
/// unchanged.
pub proof fn lemma_model_unknown_identity(t: Seq<char>)
    requires
        t != "TÉCNICA"@,
        t != "TÁCTICA"@,
        t != "SOCIAL"@,
        t != "FÍSICO"@,
    ensures
        model_canon(t) == t,
{
}

/// Translating an objective (model) token a second time changes nothing.
pub proof fn lemma_model_canon_idempotent(t: Seq<char>)
    ensures
        model_canon(model_canon(t)) == model_canon(t),
{
    reveal_strlit("TÉCNICA");
    reveal_strlit("TÁCTICA");
    reveal_strlit("SOCIAL");
    reveal_strlit("FÍSICO");
    reveal_strlit("TECHNIQUE");
    reveal_strlit("TACTIC");
    reveal_strlit("PHYSIQUE");
    assert("TACTIC"@[0] != "SOCIAL"@[0]);
    assert("TACTIC"@[0] != "FÍSICO"@[0]);
}

/// Translating a whole objective (model) token sequence a second time changes
/// nothing.
pub proof fn lemma_translate_model_idempotent(ts: Seq<Seq<char>>)
    ensures
        model_all(model_all(ts)) == model_all(ts),
{
    assert forall|k: int| 0 <= k < ts.len() implies #[trigger] model_all(model_all(ts))[k]
        == model_all(ts)[k] by {
        lemma_model_canon_idempotent(ts[k]);
    }
    assert(model_all(model_all(ts)) =~= model_all(ts));
}

} // verus!

//! The domain records: one training activity, its per-locale content block,
//! and the four phase groups of a loaded sheet, each with a mathematical view.

use vstd::prelude::*;

verus! {

/// Free-text narrative of an activity for one locale.
#[derive(Debug, Clone, PartialEq)]
pub struct Content {
    /// Title of the content.
    pub title: String,
    /// Objective of the content.
    pub goal: String,
    /// Script with instructions or details.
    pub script: String,
}

/// Mathematical view of a `Content` block.
pub ghost struct ContentV {
    pub title: Seq<char>,
    pub goal: Seq<char>,
    pub script: Seq<char>,
}

impl View for Content {
    type V = ContentV;

    open spec fn view(&self) -> ContentV {
        ContentV { title: self.title@, goal: self.goal@, script: self.script@ }
    }
}

impl DeepView for Content {
    type V = ContentV;

    open spec fn deep_view(&self) -> ContentV {
        self.view()
    }
}

/// One training activity extracted from a spreadsheet row.
#[derive(Debug, Clone, PartialEq)]
pub struct Actividad {
    /// Unique identifier for the activity.
    pub id: String,
    /// Numeric classification of the stroke type (0 if unparseable).
    pub golpe: i32,
    /// Phase of the session the activity belongs to.
    pub phase: String,
    /// Player-count options for the drill.
    pub num_jugadores: Vec<i32>,
    /// Player typologies the activity is designed for.
    pub typology: Vec<String>,
    /// Skill levels targeted by the activity.
    pub level: Vec<String>,
    /// Objectives intended to be achieved through the activity.
    pub model: Vec<String>,
    /// Types of shots practiced in the activity.
    pub shot: Vec<String>,
    /// Skills to be practiced during the activity.
    pub part_to_practice: Vec<String>,
    /// Equipment or materials required for the activity.
    pub equipment: Vec<String>,
    /// Estimated duration, as normalized text.
    pub duration: String,
    /// Narrative content keyed by locale code.
    pub content: Vec<(String, Content)>,
}

/// Mathematical view of an `Actividad`.
#[verifier::ext_equal]
pub ghost struct ActividadV {
    pub id: Seq<char>,
    pub golpe: i32,
    pub phase: Seq<char>,
    pub num_jugadores: Seq<i32>,
    pub typology: Seq<Seq<char>>,
    pub level: Seq<Seq<char>>,
    pub model: Seq<Seq<char>>,
    pub shot: Seq<Seq<char>>,
    pub part_to_practice: Seq<Seq<char>>,
    pub equipment: Seq<Seq<char>>,
    pub duration: Seq<char>,
    pub content: Seq<(Seq<char>, ContentV)>,
}

impl View for Actividad {
    type V = ActividadV;

    open spec fn view(&self) -> ActividadV {
        ActividadV {
            id: self.id@,
            golpe: self.golpe,
            phase: self.phase@,
            num_jugadores: self.num_jugadores@,
            typology: self.typology.deep_view(),
            level: self.level.deep_view(),
            model: self.model.deep_view(),
            shot: self.shot.deep_view(),
            part_to_practice: self.part_to_practice.deep_view(),
            equipment: self.equipment.deep_view(),
            duration: self.duration@,
            content: self.content.deep_view(),
        }
    }
}

impl DeepView for Actividad {
    type V = ActividadV;

    open spec fn deep_view(&self) -> ActividadV {
        self.view()
    }
}

/// The four ordered groups of activities of one loaded sheet.
#[derive(Debug, Clone, PartialEq)]
pub struct Seccion {
    /// Warm-up activities.
    pub calentamiento: Vec<Actividad>,
    /// First main-exercise activities.
    pub ejercicio1: Vec<Actividad>,
    /// Second main-exercise activities.
    pub ejercicio2: Vec<Actividad>,
    /// Final-part activities.
    pub parte_final: Vec<Actividad>,
}

/// Mathematical view of a `Seccion`.
#[verifier::ext_equal]
pub ghost struct SeccionV {
    pub calentamiento: Seq<ActividadV>,
    pub ejercicio1: Seq<ActividadV>,
    pub ejercicio2: Seq<ActividadV>,
    pub parte_final: Seq<ActividadV>,
}

impl View for Seccion {
    type V = SeccionV;

    open spec fn view(&self) -> SeccionV {
        SeccionV {
            calentamiento: self.calentamiento.deep_view(),
            ejercicio1: self.ejercicio1.deep_view(),
            ejercicio2: self.ejercicio2.deep_view(),
            parte_final: self.parte_final.deep_view(),
        }
    }
}

} // verus!

//! The terrain generator's option names (noise kinds and easings as presets
//! spell them) and the index bookkeeping of its plane mesh.
use vstd::prelude::*;
use crate::text::{chars_eq, chars_of};

verus! {

/// The easing applied to generated heights.
#[derive(Debug, Clone, Copy, PartialEq, Eq, Structural)]
pub enum Easings {
    SmoothStep,
    SmoothStop,
    SmoothStart,
    SmoothEnd,
    AbsoluteValue,
    AbsoluteValue2,
    AbsoluteValue3,
    AbsoluteValue6,
    AbsoluteValue10,
    NoEasing,
}

/// The easing a preset names.
pub open spec fn easing_of(s: Seq<char>) -> Option<Easings> {
    if s == "SmoothStep"@ {
        Some(Easings::SmoothStep)
    } else if s == "SmoothStop"@ {
        Some(Easings::SmoothStop)
    } else if s == "SmoothEnd"@ {
        Some(Easings::SmoothEnd)
    } else if s == "SmoothStart"@ {
        Some(Easings::SmoothStart)
    } else if s == "Abs"@ {
        Some(Easings::AbsoluteValue)
    } else if s == "Abs2"@ {
        Some(Easings::AbsoluteValue2)
    } else if s == "Abs3"@ {
        Some(Easings::AbsoluteValue3)
    } else if s == "Abs6"@ {
        Some(Easings::AbsoluteValue6)
    } else if s == "Abs10"@ {
        Some(Easings::AbsoluteValue10)
    } else if s == "None"@ {
        Some(Easings::NoEasing)
    } else {
        None
    }
}

impl Easings {
    /// The easing a preset names (`Err` for any other text).
    pub fn from_str(input: &str) -> (r: Result<Easings, ()>)
        ensures
            r == match easing_of(input@) {
                Some(v) => Ok::<Easings, ()>(v),
                None => Err(()),
            },
    {
        let w = chars_of(input);
        if chars_eq(&w, "SmoothStep") {
            Ok(Easings::SmoothStep)
        } else if chars_eq(&w, "SmoothStop") {
            Ok(Easings::SmoothStop)
        } else if chars_eq(&w, "SmoothEnd") {
            Ok(Easings::SmoothEnd)
        } else if chars_eq(&w, "SmoothStart") {
            Ok(Easings::SmoothStart)
        } else if chars_eq(&w, "Abs") {
            Ok(Easings::AbsoluteValue)
        } else if chars_eq(&w, "Abs2") {
            Ok(Easings::AbsoluteValue2)
        } else if chars_eq(&w, "Abs3") {
            Ok(Easings::AbsoluteValue3)
        } else if chars_eq(&w, "Abs6") {
            Ok(Easings::AbsoluteValue6)
        } else if chars_eq(&w, "Abs10") {
            Ok(Easings::AbsoluteValue10)
        } else if chars_eq(&w, "None") {
            Ok(Easings::NoEasing)
        } else {
            Err(())
        }
    }
}

/// The noise function that generates heights.
#[derive(Debug, Clone, Copy, PartialEq, Eq, Structural)]
pub enum Noises {
    NoNoise,
    Perlin,
    PerlinSurflet,
    OpenSimplex,
    Value,
    SuperSimplex,
    Worley,
    Simplex,
    FBMPerlin,
    BMPerlin,
    BPerlin,
    RMPerlin,
    HMPerlin,
    FBMPerlinSurflet,
    BMPerlinSurflet,
    BPerlinSurflet,
    RMPerlinSurflet,
    HMPerlinSurflet,
    FBMValue,
    BMValue,
    BValue,
    RMValue,
    HMValue,
    FBMSS,
    BMSS,
    BSS,
    RMSS,
    HMSS,
}

/// The noise a preset names.
pub open spec fn noise_of(s: Seq<char>) -> Option<Noises> {
    if s == "None"@ {
        Some(Noises::NoNoise)
    } else if s == "Perlin"@ {
        Some(Noises::Perlin)
    } else if s == "PerlinSurflet"@ {
        Some(Noises::PerlinSurflet)
    } else if s == "OpenSimplex"@ {
        Some(Noises::OpenSimplex)
    } else if s == "Value"@ {
        Some(Noises::Value)
    } else if s == "SuperSimplex"@ {
        Some(Noises::SuperSimplex)
    } else if s == "Worley"@ {
        Some(Noises::Worley)
    } else if s == "Simplex"@ {
        Some(Noises::Simplex)
    } else if s == "FBMPerlin"@ {
        Some(Noises::FBMPerlin)
    } else if s == "BMPerlin"@ {
        Some(Noises::BMPerlin)
    } else if s == "BPerlin"@ {
        Some(Noises::BPerlin)
    } else if s == "RMPerlin"@ {
        Some(Noises::RMPerlin)
    } else if s == "HMPerlin"@ {
        Some(Noises::HMPerlin)
    } else if s == "FBMPerlinSurflet"@ {
        Some(Noises::FBMPerlinSurflet)
    } else if s == "BMPerlinSurflet"@ {
        Some(Noises::BMPerlinSurflet)
    } else if s == "BPerlinSurflet"@ {
        Some(Noises::BPerlinSurflet)
    } else if s == "RMPerlinSurflet"@ {
        Some(Noises::RMPerlinSurflet)
    } else if s == "HMPerlinSurflet"@ {
        Some(Noises::HMPerlinSurflet)
    } else if s == "FBMValue"@ {
        Some(Noises::FBMValue)
    } else if s == "BMValue"@ {
        Some(Noises::BMValue)
    } else if s == "BValue"@ {
        Some(Noises::BValue)
    } else if s == "RMValue"@ {
        Some(Noises::RMValue)
    } else if s == "HMValue"@ {
        Some(Noises::HMValue)
    } else if s == "FBMSS"@ {
        Some(Noises::FBMSS)
    } else if s == "BMSS"@ {
        Some(Noises::BMSS)
    } else if s == "BSS"@ {
        Some(Noises::BSS)
    } else if s == "RMSS"@ {
        Some(Noises::RMSS)
    } else if s == "HMSS"@ {
        Some(Noises::HMSS)
    } else {
        None
    }
}

impl Noises {
    /// The noise a preset names (`Err` for any other text).
    pub fn from_str(input: &str) -> (r: Result<Noises, ()>)
        ensures
            r == match noise_of(input@) {
                Some(v) => Ok::<Noises, ()>(v),
                None => Err(()),
            },
    {
        let w = chars_of(input);
        if chars_eq(&w, "None") {
            Ok(Noises::NoNoise)
        } else if chars_eq(&w, "Perlin") {
            Ok(Noises::Perlin)
        } else if chars_eq(&w, "PerlinSurflet") {
            Ok(Noises::PerlinSurflet)
        } else if chars_eq(&w, "OpenSimplex") {
            Ok(Noises::OpenSimplex)
        } else if chars_eq(&w, "Value") {
            Ok(Noises::Value)
        } else if chars_eq(&w, "SuperSimplex") {
            Ok(Noises::SuperSimplex)
        } else if chars_eq(&w, "Worley") {
            Ok(Noises::Worley)
        } else if chars_eq(&w, "Simplex") {
            Ok(Noises::Simplex)
        } else if chars_eq(&w, "FBMPerlin") {
            Ok(Noises::FBMPerlin)
        } else if chars_eq(&w, "BMPerlin") {
            Ok(Noises::BMPerlin)
        } else if chars_eq(&w, "BPerlin") {
            Ok(Noises::BPerlin)
        } else if chars_eq(&w, "RMPerlin") {
            Ok(Noises::RMPerlin)
        } else if chars_eq(&w, "HMPerlin") {
            Ok(Noises::HMPerlin)
        } else if chars_eq(&w, "FBMPerlinSurflet") {
            Ok(Noises::FBMPerlinSurflet)
        } else if chars_eq(&w, "BMPerlinSurflet") {
            Ok(Noises::BMPerlinSurflet)
        } else if chars_eq(&w, "BPerlinSurflet") {
            Ok(Noises::BPerlinSurflet)
        } else if chars_eq(&w, "RMPerlinSurflet") {
            Ok(Noises::RMPerlinSurflet)
        } else if chars_eq(&w, "HMPerlinSurflet") {
            Ok(Noises::HMPerlinSurflet)
        } else if chars_eq(&w, "FBMValue") {
            Ok(Noises::FBMValue)
        } else if chars_eq(&w, "BMValue") {
            Ok(Noises::BMValue)
        } else if chars_eq(&w, "BValue") {
            Ok(Noises::BValue)
        } else if chars_eq(&w, "RMValue") {
            Ok(Noises::RMValue)
        } else if chars_eq(&w, "HMValue") {
            Ok(Noises::HMValue)
        } else if chars_eq(&w, "FBMSS") {
            Ok(Noises::FBMSS)
        } else if chars_eq(&w, "BMSS") {
            Ok(Noises::BMSS)
        } else if chars_eq(&w, "BSS") {
            Ok(Noises::BSS)
        } else if chars_eq(&w, "RMSS") {
            Ok(Noises::RMSS)
        } else if chars_eq(&w, "HMSS") {
            Ok(Noises::HMSS)
        } else {
            Err(())
        }
    }
}

/// The index part of a plane mesh: its triangle list and the six corner
/// offsets of a quad. (Positions and normals stay with the application.)
pub struct MeshData {
    pub indices: Vec<usize>,
    pub index6: Vec<usize>,
}

/// One quad of a plane mesh: its number and the vertex indices of its two
/// triangles. (Its positions and normals stay with the application.)
pub struct QuadData {
    pub id: u32,
    pub indices: Vec<usize>,
}

/// Quad `id` can be read: its offsets stay inside the triangle list.
pub open spec fn quad_in_range(indices: Seq<usize>, index6: Seq<usize>, id: u32) -> bool {
    &&& id * 6 <= u32::MAX
    &&& forall|k: int| 0 <= k < index6.len() ==> #[trigger] index6[k] + id * 6 < indices.len()
}

impl MeshData {
    /// No triangles yet; the quad offsets are 0 to 5.
    pub fn new() -> (r: MeshData)
        ensures
            r.indices@.len() == 0,
            r.index6@ == seq![0usize, 1, 2, 3, 4, 5],
    {
        MeshData { indices: Vec::new(), index6: vec![0, 1, 2, 3, 4, 5] }
    }

    /// Quad `id` and its vertex indices: entry `id * 6 + offset` of the
    /// triangle list for each offset.
    pub fn get_quad(&self, id: u32) -> (r: QuadData)
        requires
            quad_in_range(self.indices@, self.index6@, id),
        ensures
            r.id == id,
            r.indices@.len() == self.index6@.len(),
            forall|k: int|
                0 <= k < r.indices@.len() ==> #[trigger] r.indices@[k] == self.indices@[self.index6@[k] + id * 6],
    {
        let base: usize = (id * 6) as usize;
        let mut out: Vec<usize> = Vec::new();
        let mut k: usize = 0;
        while k < self.index6.len()
            invariant
                k <= self.index6@.len(),
                base == id * 6,
                quad_in_range(self.indices@, self.index6@, id),
                out@.len() == k,
                forall|j: int| 0 <= j < k ==> #[trigger] out@[j] == self.indices@[self.index6@[j] + id * 6],
            decreases self.index6@.len() - k,
        {
            let i = self.index6[k];
            let n = self.indices.len();
            proof {
                assert(self.index6@[k as int] + id * 6 < self.indices@.len());
                assert(i + base < self.indices@.len());
            }
            let idx: usize = i + base;
            out.push(self.indices[idx]);
            k += 1;
        }
        QuadData { id, indices: out }
    }
}


/// The name a preset gives a noise.
pub open spec fn noise_name(v: Noises) -> Seq<char> {
    match v {
        Noises::NoNoise => "None"@,
        Noises::Perlin => "Perlin"@,
        Noises::PerlinSurflet => "PerlinSurflet"@,
        Noises::OpenSimplex => "OpenSimplex"@,
        Noises::Value => "Value"@,
        Noises::SuperSimplex => "SuperSimplex"@,
        Noises::Worley => "Worley"@,
        Noises::Simplex => "Simplex"@,
        Noises::FBMPerlin => "FBMPerlin"@,
        Noises::BMPerlin => "BMPerlin"@,
        Noises::BPerlin => "BPerlin"@,
        Noises::RMPerlin => "RMPerlin"@,
        Noises::HMPerlin => "HMPerlin"@,
        Noises::FBMPerlinSurflet => "FBMPerlinSurflet"@,
        Noises::BMPerlinSurflet => "BMPerlinSurflet"@,
        Noises::BPerlinSurflet => "BPerlinSurflet"@,
        Noises::RMPerlinSurflet => "RMPerlinSurflet"@,
        Noises::HMPerlinSurflet => "HMPerlinSurflet"@,
        Noises::FBMValue => "FBMValue"@,
        Noises::BMValue => "BMValue"@,
        Noises::BValue => "BValue"@,
        Noises::RMValue => "RMValue"@,
        Noises::HMValue => "HMValue"@,
        Noises::FBMSS => "FBMSS"@,
        Noises::BMSS => "BMSS"@,
        Noises::BSS => "BSS"@,
        Noises::RMSS => "RMSS"@,
        Noises::HMSS => "HMSS"@,
    }
}

/// Every noise reads back from its preset name, and no other text
/// reads as one: a text names a variant exactly when it is that variant's name.
#[verifier::rlimit(50)]
pub proof fn lemma_noise_names_round_trip(v: Noises, s: Seq<char>)
    ensures
        noise_of(noise_name(v)) == Some(v),
        noise_of(s) matches Some(w) ==> s == noise_name(w),
{
    reveal_strlit("None");
    reveal_strlit("Perlin");
    reveal_strlit("PerlinSurflet");
    reveal_strlit("OpenSimplex");
    reveal_strlit("Value");
    reveal_strlit("SuperSimplex");
    reveal_strlit("Worley");
    reveal_strlit("Simplex");
    reveal_strlit("FBMPerlin");
    reveal_strlit("BMPerlin");
    reveal_strlit("BPerlin");
    reveal_strlit("RMPerlin");
    reveal_strlit("HMPerlin");
    reveal_strlit("FBMPerlinSurflet");
    reveal_strlit("BMPerlinSurflet");
    reveal_strlit("BPerlinSurflet");
    reveal_strlit("RMPerlinSurflet");
    reveal_strlit("HMPerlinSurflet");
    reveal_strlit("FBMValue");
    reveal_strlit("BMValue");
    reveal_strlit("BValue");
    reveal_strlit("RMValue");
    reveal_strlit("HMValue");
    reveal_strlit("FBMSS");
    reveal_strlit("BMSS");
    reveal_strlit("BSS");
    reveal_strlit("RMSS");
    reveal_strlit("HMSS");
    assert("None"@.len() == 4 && "None"@[0] == 'N' && "None"@[1] == 'o');
    assert("Perlin"@.len() == 6 && "Perlin"@[0] == 'P' && "Perlin"@[1] == 'e');
    assert("PerlinSurflet"@.len() == 13 && "PerlinSurflet"@[0] == 'P' && "PerlinSurflet"@[1] == 'e');
    assert("OpenSimplex"@.len() == 11 && "OpenSimplex"@[0] == 'O' && "OpenSimplex"@[1] == 'p');
    assert("Value"@.len() == 5 && "Value"@[0] == 'V' && "Value"@[1] == 'a');
    assert("SuperSimplex"@.len() == 12 && "SuperSimplex"@[0] == 'S' && "SuperSimplex"@[1] == 'u');
    assert("Worley"@.len() == 6 && "Worley"@[0] == 'W' && "Worley"@[1] == 'o');
    assert("Simplex"@.len() == 7 && "Simplex"@[0] == 'S' && "Simplex"@[1] == 'i');
    assert("FBMPerlin"@.len() == 9 && "FBMPerlin"@[0] == 'F' && "FBMPerlin"@[1] == 'B');
    assert("BMPerlin"@.len() == 8 && "BMPerlin"@[0] == 'B' && "BMPerlin"@[1] == 'M');
    assert("BPerlin"@.len() == 7 && "BPerlin"@[0] == 'B' && "BPerlin"@[1] == 'P');
    assert("RMPerlin"@.len() == 8 && "RMPerlin"@[0] == 'R' && "RMPerlin"@[1] == 'M');
    assert("HMPerlin"@.len() == 8 && "HMPerlin"@[0] == 'H' && "HMPerlin"@[1] == 'M');
    assert("FBMPerlinSurflet"@.len() == 16 && "FBMPerlinSurflet"@[0] == 'F' && "FBMPerlinSurflet"@[1] == 'B');
    assert("BMPerlinSurflet"@.len() == 15 && "BMPerlinSurflet"@[0] == 'B' && "BMPerlinSurflet"@[1] == 'M');
    assert("BPerlinSurflet"@.len() == 14 && "BPerlinSurflet"@[0] == 'B' && "BPerlinSurflet"@[1] == 'P');
    assert("RMPerlinSurflet"@.len() == 15 && "RMPerlinSurflet"@[0] == 'R' && "RMPerlinSurflet"@[1] == 'M');
    assert("HMPerlinSurflet"@.len() == 15 && "HMPerlinSurflet"@[0] == 'H' && "HMPerlinSurflet"@[1] == 'M');
    assert("FBMValue"@.len() == 8 && "FBMValue"@[0] == 'F' && "FBMValue"@[1] == 'B');
    assert("BMValue"@.len() == 7 && "BMValue"@[0] == 'B' && "BMValue"@[1] == 'M');
    assert("BValue"@.len() == 6 && "BValue"@[0] == 'B' && "BValue"@[1] == 'V');
    assert("RMValue"@.len() == 7 && "RMValue"@[0] == 'R' && "RMValue"@[1] == 'M');
    assert("HMValue"@.len() == 7 && "HMValue"@[0] == 'H' && "HMValue"@[1] == 'M');
    assert("FBMSS"@.len() == 5 && "FBMSS"@[0] == 'F' && "FBMSS"@[1] == 'B');
    assert("BMSS"@.len() == 4 && "BMSS"@[0] == 'B' && "BMSS"@[1] == 'M');
    assert("BSS"@.len() == 3 && "BSS"@[0] == 'B' && "BSS"@[1] == 'S');
    assert("RMSS"@.len() == 4 && "RMSS"@[0] == 'R' && "RMSS"@[1] == 'M');
    assert("HMSS"@.len() == 4 && "HMSS"@[0] == 'H' && "HMSS"@[1] == 'M');
}

/// The name a preset gives an easing.
pub open spec fn easing_name(v: Easings) -> Seq<char> {
    match v {
        Easings::SmoothStep => "SmoothStep"@,
        Easings::SmoothStop => "SmoothStop"@,
        Easings::SmoothEnd => "SmoothEnd"@,
        Easings::SmoothStart => "SmoothStart"@,
        Easings::AbsoluteValue => "Abs"@,
        Easings::AbsoluteValue2 => "Abs2"@,
        Easings::AbsoluteValue3 => "Abs3"@,
        Easings::AbsoluteValue6 => "Abs6"@,
        Easings::AbsoluteValue10 => "Abs10"@,
        Easings::NoEasing => "None"@,
    }
}

/// Every easing reads back from its preset name, and no other text
/// reads as one: a text names a variant exactly when it is that variant's name.
pub proof fn lemma_easing_names_round_trip(v: Easings, s: Seq<char>)
    ensures
        easing_of(easing_name(v)) == Some(v),
        easing_of(s) matches Some(w) ==> s == easing_name(w),
{
    reveal_strlit("SmoothStep");
    reveal_strlit("SmoothStop");
    reveal_strlit("SmoothEnd");
    reveal_strlit("SmoothStart");
    reveal_strlit("Abs");
    reveal_strlit("Abs2");
    reveal_strlit("Abs3");
    reveal_strlit("Abs6");
    reveal_strlit("Abs10");
    reveal_strlit("None");
    assert("SmoothStep"@.len() == 10 && "SmoothStep"@[0] == 'S' && "SmoothStep"@[1] == 'm' && "SmoothStep"@[2] == 'o' && "SmoothStep"@[3] == 'o' && "SmoothStep"@[4] == 't' && "SmoothStep"@[5] == 'h' && "SmoothStep"@[6] == 'S' && "SmoothStep"@[7] == 't' && "SmoothStep"@[8] == 'e' && "SmoothStep"@[9] == 'p');
    assert("SmoothStop"@.len() == 10 && "SmoothStop"@[0] == 'S' && "SmoothStop"@[1] == 'm' && "SmoothStop"@[2] == 'o' && "SmoothStop"@[3] == 'o' && "SmoothStop"@[4] == 't' && "SmoothStop"@[5] == 'h' && "SmoothStop"@[6] == 'S' && "SmoothStop"@[7] == 't' && "SmoothStop"@[8] == 'o' && "SmoothStop"@[9] == 'p');
    assert("SmoothEnd"@.len() == 9 && "SmoothEnd"@[0] == 'S' && "SmoothEnd"@[1] == 'm' && "SmoothEnd"@[2] == 'o' && "SmoothEnd"@[3] == 'o' && "SmoothEnd"@[4] == 't' && "SmoothEnd"@[5] == 'h' && "SmoothEnd"@[6] == 'E' && "SmoothEnd"@[7] == 'n' && "SmoothEnd"@[8] == 'd');
    assert("SmoothStart"@.len() == 11 && "SmoothStart"@[0] == 'S' && "SmoothStart"@[1] == 'm' && "SmoothStart"@[2] == 'o' && "SmoothStart"@[3] == 'o' && "SmoothStart"@[4] == 't' && "SmoothStart"@[5] == 'h' && "SmoothStart"@[6] == 'S' && "SmoothStart"@[7] == 't' && "SmoothStart"@[8] == 'a' && "SmoothStart"@[9] == 'r' && "SmoothStart"@[10] == 't');
    assert("Abs"@.len() == 3 && "Abs"@[0] == 'A' && "Abs"@[1] == 'b' && "Abs"@[2] == 's');
    assert("Abs2"@.len() == 4 && "Abs2"@[0] == 'A' && "Abs2"@[1] == 'b' && "Abs2"@[2] == 's' && "Abs2"@[3] == '2');
    assert("Abs3"@.len() == 4 && "Abs3"@[0] == 'A' && "Abs3"@[1] == 'b' && "Abs3"@[2] == 's' && "Abs3"@[3] == '3');
    assert("Abs6"@.len() == 4 && "Abs6"@[0] == 'A' && "Abs6"@[1] == 'b' && "Abs6"@[2] == 's' && "Abs6"@[3] == '6');
    assert("Abs10"@.len() == 5 && "Abs10"@[0] == 'A' && "Abs10"@[1] == 'b' && "Abs10"@[2] == 's' && "Abs10"@[3] == '1' && "Abs10"@[4] == '0');
    assert("None"@.len() == 4 && "None"@[0] == 'N' && "None"@[1] == 'o' && "None"@[2] == 'n' && "None"@[3] == 'e');
}

} // verus!

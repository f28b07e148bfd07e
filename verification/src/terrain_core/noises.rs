//! The noise families a noise modifier can draw from.
use vstd::prelude::*;

verus! {

/// A noise family: a base noise, or a fractal built over one.
#[derive(Debug, Clone, Copy, PartialEq, Eq, Structural)]
pub enum Noises {
    Perlin,
    PerlinSurflet,
    OpenSimplex,
    Value,
    SuperSimplex,
    Worley,
    Simplex,
    FBMPerlin,
    BMPerlin,
    BPerlin,
    RMPerlin,
    HMPerlin,
    FBMPerlinSurflet,
    BMPerlinSurflet,
    BPerlinSurflet,
    RMPerlinSurflet,
    HMPerlinSurflet,
    FBMValue,
    BMValue,
    BValue,
    RMValue,
    HMValue,
    FBMSS,
    BMSS,
    BSS,
    RMSS,
    HMSS,
}

/// Every noise family, in the order the editor lists them.
pub open spec fn all_noises() -> Seq<Noises> {
    seq![
        Noises::Perlin,
        Noises::PerlinSurflet,
        Noises::OpenSimplex,
        Noises::Value,
        Noises::SuperSimplex,
        Noises::Worley,
        Noises::Simplex,
        Noises::FBMPerlin,
        Noises::BMPerlin,
        Noises::BPerlin,
        Noises::RMPerlin,
        Noises::HMPerlin,
        Noises::FBMPerlinSurflet,
        Noises::BMPerlinSurflet,
        Noises::BPerlinSurflet,
        Noises::RMPerlinSurflet,
        Noises::HMPerlinSurflet,
        Noises::FBMValue,
        Noises::BMValue,
        Noises::BValue,
        Noises::RMValue,
        Noises::HMValue,
        Noises::FBMSS,
        Noises::BMSS,
        Noises::BSS,
        Noises::RMSS,
        Noises::HMSS,
    ]
}

impl Noises {
    /// Every noise family, in the order the editor lists them.
    pub fn iterator() -> (r: Vec<Noises>)
        ensures
            r@ == all_noises(),
            forall|n: Noises| #[trigger] r@.contains(n),
    {
        let r = vec![
            Noises::Perlin,
            Noises::PerlinSurflet,
            Noises::OpenSimplex,
            Noises::Value,
            Noises::SuperSimplex,
            Noises::Worley,
            Noises::Simplex,
            Noises::FBMPerlin,
            Noises::BMPerlin,
            Noises::BPerlin,
            Noises::RMPerlin,
            Noises::HMPerlin,
            Noises::FBMPerlinSurflet,
            Noises::BMPerlinSurflet,
            Noises::BPerlinSurflet,
            Noises::RMPerlinSurflet,
            Noises::HMPerlinSurflet,
            Noises::FBMValue,
            Noises::BMValue,
            Noises::BValue,
            Noises::RMValue,
            Noises::HMValue,
            Noises::FBMSS,
            Noises::BMSS,
            Noises::BSS,
            Noises::RMSS,
            Noises::HMSS,
        ];
        assert forall|n: Noises| #[trigger] r@.contains(n) by {
            let i: int = match n {
                Noises::Perlin => 0,
                Noises::PerlinSurflet => 1,
                Noises::OpenSimplex => 2,
                Noises::Value => 3,
                Noises::SuperSimplex => 4,
                Noises::Worley => 5,
                Noises::Simplex => 6,
                Noises::FBMPerlin => 7,
                Noises::BMPerlin => 8,
                Noises::BPerlin => 9,
                Noises::RMPerlin => 10,
                Noises::HMPerlin => 11,
                Noises::FBMPerlinSurflet => 12,
                Noises::BMPerlinSurflet => 13,
                Noises::BPerlinSurflet => 14,
                Noises::RMPerlinSurflet => 15,
                Noises::HMPerlinSurflet => 16,
                Noises::FBMValue => 17,
                Noises::BMValue => 18,
                Noises::BValue => 19,
                Noises::RMValue => 20,
                Noises::HMValue => 21,
                Noises::FBMSS => 22,
                Noises::BMSS => 23,
                Noises::BSS => 24,
                Noises::RMSS => 25,
                Noises::HMSS => 26,
            };
            assert(r@[i] == n);
        }
        r
    }
}

} // verus!

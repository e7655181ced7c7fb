use vstd::prelude::*;

verus! {

/// The closed set of material tags. `Empty` marks a free cell and `Wall` the
/// solid boundary, which also stands for everything outside the grid.
#[derive(Clone, Copy, Debug, PartialEq, Eq, Structural)]
pub enum Species {
    Empty,
    Wall,
    Sand,
    Water,
    Gas,
    Cloner,
    Fire,
    Wood,
    Lava,
    Ice,
    Plant,
    Acid,
    Stone,
    Dust,
    Mite,
    Oil,
    Firework,
    Seed,
    Fungus,
}

/// Wind strength beyond which a material is carried along an axis. Heavier
/// materials need more; materials without an entry of their own share the
/// fallback of 40.
pub open spec fn wind_threshold(species: Species) -> int {
    match species {
        Species::Empty | Species::Wall | Species::Cloner => 500,
        Species::Stone | Species::Wood => 70,
        Species::Plant | Species::Lava | Species::Ice => 60,
        Species::Fungus => 54,
        Species::Oil => 50,
        Species::Seed => 35,
        Species::Sand | Species::Mite | Species::Firework => 30,
        Species::Dust => 10,
        Species::Fire | Species::Gas => 5,
        _ => 40,
    }
}

/// Granular and fluid materials that an upward gust lifts two cells at once.
pub open spec fn is_lofted(species: Species) -> bool {
    species == Species::Sand || species == Species::Water || species == Species::Lava
        || species == Species::Acid || species == Species::Mite || species == Species::Dust
        || species == Species::Oil || species == Species::Firework
}

impl Species {
    /// The wind threshold of this material.
    pub fn threshold(self) -> (t: i32)
        ensures
            t == wind_threshold(self),
    {
        match self {
            Species::Empty => 500,
            Species::Wall => 500,
            Species::Cloner => 500,
            Species::Stone => 70,
            Species::Wood => 70,
            Species::Plant => 60,
            Species::Lava => 60,
            Species::Ice => 60,
            Species::Fungus => 54,
            Species::Oil => 50,
            Species::Seed => 35,
            Species::Sand => 30,
            Species::Mite => 30,
            Species::Firework => 30,
            Species::Dust => 10,
            Species::Fire => 5,
            Species::Gas => 5,
            _ => 40,
        }
    }

    /// Whether an upward gust lifts this material two cells at once.
    pub fn lofted(self) -> (b: bool)
        ensures
            b == is_lofted(self),
    {
        match self {
            Species::Sand => true,
            Species::Water => true,
            Species::Lava => true,
            Species::Acid => true,
            Species::Mite => true,
            Species::Dust => true,
            Species::Oil => true,
            Species::Firework => true,
            _ => false,
        }
    }
}

} // verus!

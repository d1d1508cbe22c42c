//! The tagging models a user can choose from.

use vstd::prelude::*;

verus! {

/// A v3 tagging model.
#[derive(Debug, Clone, Copy, PartialEq, Eq, Structural)]
pub enum V3Model {
    VitLarge,
    Eva02Large,
    SwinV2,
}

impl Default for V3Model {
    fn default() -> (r: V3Model)
        ensures
            r == V3Model::SwinV2,
    {
        V3Model::SwinV2
    }
}

/// The model after `m` in the cycle VitLarge, Eva02Large, SwinV2.
pub open spec fn next_model(m: V3Model) -> V3Model {
    match m {
        V3Model::VitLarge => V3Model::Eva02Large,
        V3Model::Eva02Large => V3Model::SwinV2,
        V3Model::SwinV2 => V3Model::VitLarge,
    }
}

impl V3Model {
    /// The model's repository.
    pub fn repo_id(&self) -> (r: String)
        ensures
            r@ == (match self {
                V3Model::VitLarge => "SmilingWolf/wd-vit-large-tagger-v3"@,
                V3Model::Eva02Large => "SmilingWolf/wd-eva02-large-tagger-v3"@,
                V3Model::SwinV2 => "SmilingWolf/wd-swinv2-tagger-v3"@,
            }),
    {
        match self {
            V3Model::VitLarge => String::from_str("SmilingWolf/wd-vit-large-tagger-v3"),
            V3Model::Eva02Large => String::from_str("SmilingWolf/wd-eva02-large-tagger-v3"),
            V3Model::SwinV2 => String::from_str("SmilingWolf/wd-swinv2-tagger-v3"),
        }
    }

    /// The next model in the cycle VitLarge, Eva02Large, SwinV2.
    pub fn next(&self) -> (r: V3Model)
        ensures
            r == next_model(*self),
    {
        match self {
            V3Model::VitLarge => V3Model::Eva02Large,
            V3Model::Eva02Large => V3Model::SwinV2,
            V3Model::SwinV2 => V3Model::VitLarge,
        }
    }

    /// The model's display name.
    pub fn to_string(&self) -> (r: String)
        ensures
            r@ == (match self {
                V3Model::VitLarge => "ViT-Large"@,
                V3Model::Eva02Large => "Eva02-Large"@,
                V3Model::SwinV2 => "SwinV2"@,
            }),
    {
        match self {
            V3Model::VitLarge => String::from_str("ViT-Large"),
            V3Model::Eva02Large => String::from_str("Eva02-Large"),
            V3Model::SwinV2 => String::from_str("SwinV2"),
        }
    }
}

/// Stepping to the next model three times comes back to the start, and every step
/// changes the model.
pub proof fn next_cycles_through_all(m: V3Model)
    ensures
        next_model(next_model(next_model(m))) == m,
        next_model(m) != m,
{
}

} // verus!

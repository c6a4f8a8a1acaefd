//! The parts of scene objects that refer to assets or choose between kinds.

use vstd::prelude::*;
use crate::asset_id::AssetId;

verus! {

/// The kind of a light.
#[derive(Clone, Copy, Debug, PartialEq, Eq, Structural)]
pub enum LightType {
    DirectionalLight,
    PointLight,
    SpotLight,
}

/// The number of kinds of light.
pub const LIGHT_TYPE_COUNT: i32 = 3;

impl LightType {
    /// The number that stands for the kind where lights are stored.
    pub open spec fn spec_index(self) -> i32 {
        match self {
            LightType::DirectionalLight => 0,
            LightType::PointLight => 1,
            LightType::SpotLight => 2,
        }
    }

    /// The kind that a number stands for, where it stands for one.
    pub open spec fn spec_from_index(index: i32) -> Option<LightType> {
        if index == 0 {
            Some(LightType::DirectionalLight)
        } else if index == 1 {
            Some(LightType::PointLight)
        } else if index == 2 {
            Some(LightType::SpotLight)
        } else {
            None
        }
    }

    /// The number that stands for the kind where lights are stored.
    #[verifier::when_used_as_spec(spec_index)]
    pub fn index(self) -> (index: i32)
        ensures
            index == self.spec_index(),
            0 <= index < LIGHT_TYPE_COUNT,
    {
        match self {
            LightType::DirectionalLight => 0,
            LightType::PointLight => 1,
            LightType::SpotLight => 2,
        }
    }

    /// The kind that a number stands for: `Some` exactly for the numbers
    /// from 0 below `LIGHT_TYPE_COUNT`, and then the kind whose `index` it is.
    #[verifier::when_used_as_spec(spec_from_index)]
    pub fn from_index(index: i32) -> (kind: Option<LightType>)
        ensures
            kind == LightType::spec_from_index(index),
            kind is Some <==> 0 <= index < LIGHT_TYPE_COUNT,
            kind matches Some(k) ==> k.spec_index() == index,
    {
        if index == 0 {
            Some(LightType::DirectionalLight)
        } else if index == 1 {
            Some(LightType::PointLight)
        } else if index == 2 {
            Some(LightType::SpotLight)
        } else {
            None
        }
    }

    /// The name of the kind.
    pub fn name(self) -> (name: &'static str)
        ensures
            name@ == match self {
                LightType::DirectionalLight => "DirectionalLight"@,
                LightType::PointLight => "PointLight"@,
                LightType::SpotLight => "SpotLight"@,
            },
    {
        match self {
            LightType::DirectionalLight => "DirectionalLight",
            LightType::PointLight => "PointLight",
            LightType::SpotLight => "SpotLight",
        }
    }

    /// Whether a light of this kind fades with distance: every kind but the
    /// directional one.
    pub fn has_falloff_radius(self) -> (fades: bool)
        ensures
            fades == (self != LightType::DirectionalLight),
    {
        match self {
            LightType::DirectionalLight => false,
            _ => true,
        }
    }

    /// Whether a light of this kind shines in a cone: the spot light alone.
    pub fn has_cone_angles(self) -> (cone: bool)
        ensures
            cone == (self == LightType::SpotLight),
    {
        match self {
            LightType::SpotLight => true,
            _ => false,
        }
    }
}

/// Each kind of light is found again by its number.
pub proof fn lemma_light_type_index_roundtrip(kind: LightType)
    ensures
        LightType::spec_from_index(kind.spec_index()) == Some(kind),
{
}

/// The part of a scene object that says which mesh it shows.
#[derive(Debug)]
pub struct MeshComponent<M> {
    /// The identifier of the mesh.
    pub mesh_id: AssetId<M>,
}

impl<M> Default for MeshComponent<M> {
    /// A component that refers to the mesh with the number 0.
    fn default() -> (component: MeshComponent<M>)
        ensures
            component.mesh_id@ == 0,
    {
        MeshComponent { mesh_id: AssetId::default() }
    }
}

} // verus!

//! The declarative icon manifest and how its entries are realized.
//!
//! The manifest maps keys to asset descriptors. At startup every entry is
//! realized into a loaded resource handle: images through an asynchronous
//! load request, meshes by synchronous construction. The icon set the
//! reconciliation passes read requires all seven keys to be present;
//! a missing key is an unrecoverable startup error.

use vstd::prelude::*;
use crate::model::MeshHandle;

verus! {

/// The keys the icon set resolves from the manifest. Every key is required.
#[derive(Clone, Copy, PartialEq, Eq, Structural, Debug)]
pub enum IconKey {
    Unknown,
    Directional,
    Point,
    Spot,
    Camera,
    Square,
    Sphere,
}

/// One manifest entry: the descriptor of a single icon resource.
///
/// Scalar sizes are carried as the raw bit pattern of the host's 32-bit
/// binary floating value; the library passes them through uninterpreted.
#[derive(Clone, Debug)]
pub enum EditorIconAssetType {
    /// An image to be loaded from a path, for cameras and lights.
    Image { path: String },
    /// A flat quad mesh for putting images onto.
    Quad { width_bits: u32, height_bits: u32 },
    /// A subdivided sphere mesh that makes an icon clickable.
    Sphere { radius_bits: u32 },
}

/// The manifest: keys paired with their descriptors, in file order.
/// Lookup takes the first entry registered under a key.
pub struct EditorIconAssetCollection {
    pub entries: Vec<(IconKey, EditorIconAssetType)>,
}

/// What the host's asset pipeline must do to realize one manifest entry.
#[derive(Clone, Debug)]
pub enum BuildAction {
    /// Issue an asynchronous load request for the image at this path.
    LoadImage { path: String },
    /// Synchronously construct and register a flat quad mesh of this size.
    CreateQuad { width_bits: u32, height_bits: u32 },
    /// Synchronously construct a subdivided sphere of this radius; if the
    /// radius is degenerate, construct one with the fallback radius instead.
    CreateSphere { radius_bits: u32 },
}

/// Bit pattern of the host's 32-bit floating value 0.75: the radius used for
/// the fallback sphere when the manifest radius turns out degenerate.
pub const FALLBACK_SPHERE_RADIUS_BITS: u32 = 0x3F40_0000;

/// First entry registered under `key`, searching from the front.
pub open spec fn spec_find(
    s: Seq<(IconKey, EditorIconAssetType)>,
    key: IconKey,
) -> Option<EditorIconAssetType>
    decreases s.len(),
{
    if s.len() == 0 {
        None
    } else if s[0].0 == key {
        Some(s[0].1)
    } else {
        spec_find(s.drop_first(), key)
    }
}

/// The startup check: the first required key the manifest lacks, if any,
/// in the fixed order of [`IconKey`]'s declaration.
pub open spec fn spec_validate(s: Seq<(IconKey, EditorIconAssetType)>) -> Result<(), IconKey> {
    if spec_find(s, IconKey::Unknown) is None {
        Err(IconKey::Unknown)
    } else if spec_find(s, IconKey::Directional) is None {
        Err(IconKey::Directional)
    } else if spec_find(s, IconKey::Point) is None {
        Err(IconKey::Point)
    } else if spec_find(s, IconKey::Spot) is None {
        Err(IconKey::Spot)
    } else if spec_find(s, IconKey::Camera) is None {
        Err(IconKey::Camera)
    } else if spec_find(s, IconKey::Square) is None {
        Err(IconKey::Square)
    } else if spec_find(s, IconKey::Sphere) is None {
        Err(IconKey::Sphere)
    } else {
        Ok(())
    }
}

impl EditorIconAssetCollection {
    /// First manifest entry registered under `key`, if any.
    pub fn find(&self, key: IconKey) -> (r: Option<&EditorIconAssetType>)
        ensures
            match r {
                Some(e) => spec_find(self.entries@, key) == Some(*e),
                None => spec_find(self.entries@, key) is None,
            },
    {
        let n: usize = self.entries.len();
        let mut i: usize = 0;
        proof {
            assert(self.entries@.skip(0) =~= self.entries@);
        }
        while i < n
            invariant
                i <= n,
                n == self.entries@.len(),
                spec_find(self.entries@, key) == spec_find(self.entries@.skip(i as int), key),
            decreases n - i,
        {
            let pair = &self.entries[i];
            proof {
                assert(self.entries@.skip(i as int)[0] == self.entries@[i as int]);
            }
            if pair.0 == key {
                return Some(&pair.1);
            }
            proof {
                assert(self.entries@.skip(i as int).drop_first() =~= self.entries@.skip(
                    i as int + 1,
                ));
            }
            i = i + 1;
        }
        proof {
            assert(self.entries@.skip(i as int).len() == 0);
        }
        None
    }

    /// The startup check behind the icon set: every required key must be
    /// present in the manifest. Returns the first missing key as the error.
    pub fn validate(&self) -> (r: Result<(), IconKey>)
        ensures
            r == spec_validate(self.entries@),
            r is Ok ==> forall|k: IconKey| spec_find(self.entries@, k) is Some,
    {
        if self.find(IconKey::Unknown).is_none() {
            return Err(IconKey::Unknown);
        }
        if self.find(IconKey::Directional).is_none() {
            return Err(IconKey::Directional);
        }
        if self.find(IconKey::Point).is_none() {
            return Err(IconKey::Point);
        }
        if self.find(IconKey::Spot).is_none() {
            return Err(IconKey::Spot);
        }
        if self.find(IconKey::Camera).is_none() {
            return Err(IconKey::Camera);
        }
        if self.find(IconKey::Square).is_none() {
            return Err(IconKey::Square);
        }
        if self.find(IconKey::Sphere).is_none() {
            return Err(IconKey::Sphere);
        }
        proof {
            assert(forall|k: IconKey| spec_find(self.entries@, k) is Some) by {
                assert forall|k: IconKey| spec_find(self.entries@, k) is Some by {
                    match k {
                        IconKey::Unknown => {},
                        IconKey::Directional => {},
                        IconKey::Point => {},
                        IconKey::Spot => {},
                        IconKey::Camera => {},
                        IconKey::Square => {},
                        IconKey::Sphere => {},
                    }
                }
            }
        }
        Ok(())
    }
}

impl EditorIconAssetType {
    /// The image path this entry asks the asset pipeline to load ahead of
    /// realization; mesh entries issue no load request.
    pub fn load(&self) -> (r: Option<&String>)
        ensures
            match *self {
                EditorIconAssetType::Image { path } => r matches Some(p) && *p == path,
                _ => r is None,
            },
    {
        match self {
            EditorIconAssetType::Image { path } => Some(path),
            _ => None,
        }
    }

    /// How the host realizes this entry into a resource handle.
    pub fn build(self) -> (r: BuildAction)
        ensures
            r == match self {
                EditorIconAssetType::Image { path } => BuildAction::LoadImage { path },
                EditorIconAssetType::Quad { width_bits, height_bits } => BuildAction::CreateQuad {
                    width_bits,
                    height_bits,
                },
                EditorIconAssetType::Sphere { radius_bits } => BuildAction::CreateSphere {
                    radius_bits,
                },
            },
    {
        match self {
            EditorIconAssetType::Image { path } => BuildAction::LoadImage { path },
            EditorIconAssetType::Quad { width_bits, height_bits } => BuildAction::CreateQuad {
                width_bits,
                height_bits,
            },
            EditorIconAssetType::Sphere { radius_bits } => BuildAction::CreateSphere { radius_bits },
        }
    }
}

/// The loader's sphere construction never fails: if the host rejected the
/// manifest radius as degenerate, the mesh built with the fallback radius is
/// used, and no error is surfaced.
pub fn resolve_sphere_mesh(attempt: Option<MeshHandle>, fallback: MeshHandle) -> (r: MeshHandle)
    ensures
        r == match attempt {
            Some(h) => h,
            None => fallback,
        },
{
    match attempt {
        Some(h) => h,
        None => fallback,
    }
}

} // verus!

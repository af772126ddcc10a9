use vstd::prelude::*;

verus! {

/// Relies on uuid::Uuid as an opaque asset identifier: values are only
/// stored and handed back, never inspected.
#[verifier::external_type_specification]
#[verifier::external_body]
pub struct ExUuid(uuid::Uuid);

/// Pixel layout of a texture's texels.
#[derive(Clone, Copy, Debug, PartialEq, Eq, Hash, Structural)]
pub enum TextureFormat {
    RGB8,
    RGBA8,
}

/// How a sampler filters between texels.
#[derive(Clone, Copy, Debug, PartialEq, Eq, Hash, Structural)]
pub enum TextureFilterMode {
    Point,
    Bilinear,
    Trilinear,
}

/// How a sampler treats coordinates outside the texture.
#[derive(Clone, Copy, Debug, PartialEq, Eq, Hash, Structural)]
pub enum TextureAddressMode {
    Clamp,
    Repeat,
}

/// A texel span along one axis of a sprite.
#[derive(Clone, Copy, Debug, PartialEq, Eq, Hash, Structural)]
pub struct SpriteTexelRange {
    pub min: u16,
    pub max: u16,
}

/// A texel span along one axis of a nine-patch, with its stretchable
/// middle section.
#[derive(Clone, Copy, Debug, PartialEq, Eq, Hash, Structural)]
pub struct NinePatchTexelRange {
    pub min: u16,
    pub mid_min: u16,
    pub mid_max: u16,
    pub max: u16,
}

/// A named sub-image of a texture.
#[derive(Debug, PartialEq, Eq, Hash)]
pub struct Sprite {
    pub name: String,
    pub filter_mode: TextureFilterMode,
    pub address_mode: (TextureAddressMode, TextureAddressMode),
    pub texel_mapping: (SpriteTexelRange, SpriteTexelRange),
}

/// A named nine-patch sub-image of a texture.
#[derive(Debug, PartialEq, Eq, Hash)]
pub struct NinePatch {
    pub name: String,
    pub filter_mode: TextureFilterMode,
    pub address_mode: (TextureAddressMode, TextureAddressMode),
    pub texel_mapping: (NinePatchTexelRange, NinePatchTexelRange),
}

/// A loaded asset, identified for dependency resolution.
pub trait Asset {
    fn id(&self) -> uuid::Uuid;
}

/// Represents a texture asset. It supplies texture parameters too.
pub trait TextureAsset: Asset {
    fn width(&self) -> u16;

    fn height(&self) -> u16;

    fn format(&self) -> TextureFormat;

    fn filter_mode(&self) -> TextureFilterMode;

    fn address_mode(&self) -> (TextureAddressMode, TextureAddressMode);

    fn texels(&self) -> &[u8];

    fn sprites(&self) -> &[Sprite];

    fn nine_patches(&self) -> &[NinePatch];
}

/// The raw contents of a texture asset, as the asset pipeline delivers
/// them, before the asset is registered.
pub struct TextureSource {
    pub width: u16,
    pub height: u16,
    pub format: TextureFormat,
    pub filter_mode: TextureFilterMode,
    pub address_mode: (TextureAddressMode, TextureAddressMode),
    pub texels: Vec<u8>,
    pub sprites: Vec<Sprite>,
    pub nine_patches: Vec<NinePatch>,
}

/// A fault while turning an asset source into a loaded asset.
#[derive(Debug)]
pub enum AssetLoadError {
    AssetNotFound(uuid::Uuid),
}

impl TextureSource {
    /// A texture depends on no other asset.
    pub fn dependencies(&self) -> (r: Vec<uuid::Uuid>)
        ensures
            r@.len() == 0,
    {
        Vec::new()
    }

    /// Turns the source into the loaded texture under the given
    /// identity. Loading a texture cannot fail: it has no dependencies
    /// to resolve.
    pub fn load(self, id: uuid::Uuid) -> (r: Result<Texture, AssetLoadError>)
        ensures
            r.is_ok(),
            ({
                let t = r.unwrap();
                &&& t.width == self.width
                &&& t.height == self.height
                &&& t.format == self.format
                &&& t.filter_mode == self.filter_mode
                &&& t.address_mode == self.address_mode
                &&& t.texels@ == self.texels@
                &&& t.sprites@ == self.sprites@
                &&& t.nine_patches@ == self.nine_patches@
                &&& t.id == id
            }),
    {
        Ok(
            Texture {
                id,
                width: self.width,
                height: self.height,
                format: self.format,
                filter_mode: self.filter_mode,
                address_mode: self.address_mode,
                texels: self.texels,
                sprites: self.sprites,
                nine_patches: self.nine_patches,
            },
        )
    }
}

/// A loaded texture asset.
pub struct Texture {
    pub id: uuid::Uuid,
    pub width: u16,
    pub height: u16,
    pub format: TextureFormat,
    pub filter_mode: TextureFilterMode,
    pub address_mode: (TextureAddressMode, TextureAddressMode),
    pub texels: Vec<u8>,
    pub sprites: Vec<Sprite>,
    pub nine_patches: Vec<NinePatch>,
}

impl Asset for Texture {
    fn id(&self) -> (r: uuid::Uuid)
        ensures
            r == self.id,
    {
        self.id
    }
}

impl TextureAsset for Texture {
    fn width(&self) -> (r: u16)
        ensures
            r == self.width,
    {
        self.width
    }

    fn height(&self) -> (r: u16)
        ensures
            r == self.height,
    {
        self.height
    }

    fn format(&self) -> (r: TextureFormat)
        ensures
            r == self.format,
    {
        self.format
    }

    fn filter_mode(&self) -> (r: TextureFilterMode)
        ensures
            r == self.filter_mode,
    {
        self.filter_mode
    }

    fn address_mode(&self) -> (r: (TextureAddressMode, TextureAddressMode))
        ensures
            r == self.address_mode,
    {
        self.address_mode
    }

    fn texels(&self) -> (r: &[u8])
        ensures
            r@ == self.texels@,
    {
        self.texels.as_slice()
    }

    fn sprites(&self) -> (r: &[Sprite])
        ensures
            r@ == self.sprites@,
    {
        self.sprites.as_slice()
    }

    fn nine_patches(&self) -> (r: &[NinePatch])
        ensures
            r@ == self.nine_patches@,
    {
        self.nine_patches.as_slice()
    }
}

} // verus!

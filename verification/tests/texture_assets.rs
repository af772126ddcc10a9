use render_core::texture_asset::{
    Asset, NinePatch, NinePatchTexelRange, Sprite, SpriteTexelRange, TextureAddressMode,
    TextureAsset, TextureFilterMode, TextureFormat, TextureSource,
};
use uuid::Uuid;

fn sample_source() -> TextureSource {
    TextureSource {
        width: 4,
        height: 2,
        format: TextureFormat::RGBA8,
        filter_mode: TextureFilterMode::Bilinear,
        address_mode: (TextureAddressMode::Clamp, TextureAddressMode::Repeat),
        texels: vec![0u8; 4 * 2 * 4],
        sprites: vec![Sprite {
            name: String::from("icon"),
            filter_mode: TextureFilterMode::Point,
            address_mode: (TextureAddressMode::Clamp, TextureAddressMode::Clamp),
            texel_mapping: (
                SpriteTexelRange { min: 0, max: 2 },
                SpriteTexelRange { min: 0, max: 2 },
            ),
        }],
        nine_patches: vec![NinePatch {
            name: String::from("panel"),
            filter_mode: TextureFilterMode::Trilinear,
            address_mode: (TextureAddressMode::Repeat, TextureAddressMode::Repeat),
            texel_mapping: (
                NinePatchTexelRange { min: 0, mid_min: 1, mid_max: 3, max: 4 },
                NinePatchTexelRange { min: 0, mid_min: 1, mid_max: 1, max: 2 },
            ),
        }],
    }
}

#[test]
fn texture_source_has_no_dependencies() {
    assert!(sample_source().dependencies().is_empty());
}

#[test]
fn load_preserves_every_field() {
    let id = Uuid::from_u128(0x1234_5678_9abc_def0);
    let texture = sample_source().load(id).unwrap();
    assert_eq!(texture.id(), id);
    assert_eq!(texture.width(), 4);
    assert_eq!(texture.height(), 2);
    assert_eq!(texture.format(), TextureFormat::RGBA8);
    assert_eq!(texture.filter_mode(), TextureFilterMode::Bilinear);
    assert_eq!(
        texture.address_mode(),
        (TextureAddressMode::Clamp, TextureAddressMode::Repeat)
    );
    assert_eq!(texture.texels().len(), 32);
    assert_eq!(texture.sprites().len(), 1);
    assert_eq!(texture.sprites()[0].name, "icon");
    assert_eq!(texture.nine_patches().len(), 1);
    assert_eq!(texture.nine_patches()[0].texel_mapping.0.mid_max, 3);
}

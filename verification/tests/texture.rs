use wutengine::texture::{texture_format_for, DecodedPixels, TextureFormat};
use wutengine::components::Name;
use wutengine::texture::{mip_level_count, mip_level_size, mip_sizes, wants_mips, write_bytes_per_row};

#[test]
fn mips_only_for_power_of_two_images() {
    assert!(wants_mips(256, 128));
    assert!(!wants_mips(1, 128));
    assert!(!wants_mips(300, 128));
    assert!(!wants_mips(256, 0));
}

#[test]
fn mip_levels_halve_each_side() {
    assert_eq!(vec![(4, 2), (2, 1)], mip_sizes(8, 4, 1));
    // The number of levels follows the height
    assert_eq!(vec![(128, 1)], mip_sizes(256, 2, 1));
    assert_eq!(vec![(1, 4), (0, 2)], mip_sizes(2, 8, 2));
    assert!(mip_sizes(4, 1, 1).is_empty());
}

#[test]
fn names() {
    let n = Name::new("Player".to_string());
    assert_eq!("Player", n.as_str());
}

#[test]
fn imported_texture_formats() {
    assert_eq!(Some(TextureFormat::Rgba8Srgb), texture_format_for(DecodedPixels::Rgba8 { srgb: true }));
    assert_eq!(Some(TextureFormat::Rgba8), texture_format_for(DecodedPixels::Rgba8 { srgb: false }));
    assert_eq!(Some(TextureFormat::Rgba32), texture_format_for(DecodedPixels::Rgba32F));
    assert_eq!(None, texture_format_for(DecodedPixels::Other));
}

#[test]
fn serialized_mip_level_count() {
    assert_eq!(1, mip_level_count(None));
    assert_eq!(1, mip_level_count(Some(0)));
    assert_eq!(5, mip_level_count(Some(4)));
}

#[test]
fn mip_level_sizes() {
    assert_eq!((512, 256), mip_level_size(512, 256, 0));
    assert_eq!((64, 32), mip_level_size(512, 256, 3));
    assert_eq!((0, 1), mip_level_size(3, 5, 2));
}

#[test]
fn texel_write_row_pitch() {
    assert_eq!(Some(2048), write_bytes_per_row(0, 1, 4, 512));
    assert_eq!(Some(16), write_bytes_per_row(3, 3, 16, 1));
    assert_eq!(None, write_bytes_per_row(4, 3, 4, 512));
}

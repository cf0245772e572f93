use atlas_builder::builder::DynamicTextureAtlasBuilder;
use atlas_builder::image::{Image, Images};
use atlas_builder::layout::TextureAtlasLayout;
use atlas_builder::rect::{URect, UVec2};

fn solid_image(width: u32, height: u32, pixel_size: usize, fill: u8) -> Image {
    Image {
        width,
        height,
        pixel_size,
        main_world: true,
        data: vec![fill; (width as usize) * (height as usize) * pixel_size],
    }
}

fn setup(canvas: u32, pixel_size: usize, padding: u32) -> (DynamicTextureAtlasBuilder, TextureAtlasLayout, Images) {
    let builder = DynamicTextureAtlasBuilder::new(UVec2 { x: canvas, y: canvas }, padding);
    let layout = TextureAtlasLayout::new_empty(UVec2 { x: canvas, y: canvas });
    let atlas = solid_image(canvas, canvas, pixel_size, 0);
    let store = Images { images: vec![atlas] };
    (builder, layout, store)
}

fn rects_overlap(a: &URect, b: &URect) -> bool {
    !(a.max.x <= b.min.x || b.max.x <= a.min.x || a.max.y <= b.min.y || b.max.y <= a.min.y)
}

#[test]
fn fills_a_sub_region_and_nothing_else() {
    let (mut builder, mut layout, mut store) = setup(16, 1, 0);
    let texture = solid_image(4, 4, 1, 0xFF);
    let index = builder.add_texture(&mut layout, &mut store, &texture, 0);
    assert_eq!(index, Some(0));
    assert_eq!(layout.textures.len(), 1);
    let rect = layout.textures[0];
    assert_eq!(rect.max.x - rect.min.x, 4);
    assert_eq!(rect.max.y - rect.min.y, 4);
    assert!(rect.max.x <= 16 && rect.max.y <= 16);
    let data = &store.images[0].data;
    for y in 0..16u32 {
        for x in 0..16u32 {
            let expected = if x >= rect.min.x && x < rect.max.x && y >= rect.min.y && y < rect.max.y {
                0xFF
            } else {
                0
            };
            assert_eq!(data[(y as usize) * 16 + (x as usize)], expected);
        }
    }
}

#[test]
fn second_texture_fails_when_canvas_is_full() {
    let (mut builder, mut layout, mut store) = setup(4, 1, 0);
    let first = solid_image(4, 4, 1, 7);
    let second = solid_image(4, 4, 1, 9);
    assert_eq!(builder.add_texture(&mut layout, &mut store, &first, 0), Some(0));
    assert_eq!(builder.add_texture(&mut layout, &mut store, &second, 0), None);
    assert_eq!(layout.textures.len(), 1);
    // The whole canvas holds the first texture's pixels and none of the second's.
    assert_eq!(store.images[0].data, vec![7u8; 16]);
}

#[test]
fn padded_cells_leave_published_rectangles_disjoint() {
    let (mut builder, mut layout, mut store) = setup(8, 1, 1);
    let texture = solid_image(3, 3, 1, 5);
    assert_eq!(builder.add_texture(&mut layout, &mut store, &texture, 0), Some(0));
    assert_eq!(builder.add_texture(&mut layout, &mut store, &texture, 0), Some(1));
    let a = layout.textures[0];
    let b = layout.textures[1];
    assert_eq!(a.max.x - a.min.x, 3);
    assert_eq!(a.max.y - a.min.y, 3);
    assert_eq!(b.max.x - b.min.x, 3);
    assert_eq!(b.max.y - b.min.y, 3);
    assert!(!rects_overlap(&a, &b));
}

#[test]
fn equal_states_give_equal_outcomes() {
    let (mut builder1, mut layout1, mut store1) = setup(32, 1, 2);
    let (mut builder2, mut layout2, mut store2) = setup(32, 1, 2);
    let first = solid_image(5, 3, 1, 11);
    let second = solid_image(7, 7, 1, 13);
    let r1a = builder1.add_texture(&mut layout1, &mut store1, &first, 0);
    let r1b = builder1.add_texture(&mut layout1, &mut store1, &second, 0);
    let r2a = builder2.add_texture(&mut layout2, &mut store2, &first, 0);
    let r2b = builder2.add_texture(&mut layout2, &mut store2, &second, 0);
    assert_eq!(r1a, r2a);
    assert_eq!(r1b, r2b);
    assert_eq!(layout1.textures, layout2.textures);
    assert_eq!(store1.images[0].data, store2.images[0].data);
}

#[test]
fn copies_rows_with_wide_pixels_exactly() {
    let (mut builder, mut layout, mut store) = setup(4, 2, 0);
    // Overwrite the atlas with a sentinel so untouched bytes are visible.
    store.images[0].data = vec![0xAA; 4 * 4 * 2];
    let texture = Image {
        width: 2,
        height: 2,
        pixel_size: 2,
        main_world: true,
        data: vec![1, 2, 3, 4, 5, 6, 7, 8],
    };
    let index = builder.add_texture(&mut layout, &mut store, &texture, 0);
    assert_eq!(index, Some(0));
    let rect = layout.textures[0];
    let x = rect.min.x as usize;
    let y = rect.min.y as usize;
    let data = &store.images[0].data;
    for row in 0..2usize {
        let dest = ((y + row) * 4 + x) * 2;
        assert_eq!(&data[dest..dest + 4], &texture.data[row * 4..row * 4 + 4]);
    }
    let mut touched = 0;
    for i in 0..data.len() {
        if data[i] != 0xAA {
            touched += 1;
        }
    }
    assert_eq!(touched, 8);
}

#[test]
fn oversized_request_is_rejected_without_side_effects() {
    let (mut builder, mut layout, mut store) = setup(8, 1, 0);
    let texture = solid_image(9, 1, 1, 3);
    assert_eq!(builder.add_texture(&mut layout, &mut store, &texture, 0), None);
    assert_eq!(layout.textures.len(), 0);
    assert_eq!(store.images[0].data, vec![0u8; 64]);
}

#[test]
fn empty_texture_is_rejected_with_zero_padding() {
    let (mut builder, mut layout, mut store) = setup(8, 1, 0);
    let texture = solid_image(0, 0, 1, 0);
    assert_eq!(builder.add_texture(&mut layout, &mut store, &texture, 0), None);
    assert_eq!(layout.textures.len(), 0);
}

#[test]
fn padded_size_outside_coordinate_domain_is_rejected() {
    let (mut builder, mut layout, mut store) = setup(8, 1, u32::MAX);
    let texture = solid_image(2, 2, 1, 1);
    assert_eq!(builder.add_texture(&mut layout, &mut store, &texture, 0), None);
    assert_eq!(layout.textures.len(), 0);
    assert_eq!(store.images[0].data, vec![0u8; 64]);
}

#[test]
fn indices_count_up_from_zero() {
    let (mut builder, mut layout, mut store) = setup(16, 1, 0);
    let texture = solid_image(4, 4, 1, 2);
    assert_eq!(builder.add_texture(&mut layout, &mut store, &texture, 0), Some(0));
    assert_eq!(builder.add_texture(&mut layout, &mut store, &texture, 0), Some(1));
    assert_eq!(builder.add_texture(&mut layout, &mut store, &texture, 0), Some(2));
    assert_eq!(layout.textures.len(), 3);
}

//! Canvases, drawing, templates, pens, partitions and layers, exercised
//! from outside.

use pixelart::image::PixelImageBuilder;
use pixelart::pixels::canvas::drawable::Drawable;
use pixelart::pixels::canvas::layered::{LayerData, LayeredCanvas, TopLayerId};
use pixelart::pixels::canvas::partition::CanvasPartition;
use pixelart::pixels::canvas::pen::{Pen, PenMove};
use pixelart::pixels::canvas::row::PixelRow;
use pixelart::pixels::canvas::table::PixelTable;
use pixelart::pixels::canvas::templates::alien_monster::AlienMonster;
use pixelart::pixels::canvas::templates::heart::Heart;
use pixelart::pixels::canvas::templates::{rectangle, square, Template};
use pixelart::pixels::canvas::{PixelCanvas, SharedMutPixelCanvasExt};
use pixelart::pixels::color::colors;
use pixelart::pixels::color::PixelColor;
use pixelart::pixels::maybe::MaybePixel;
use pixelart::pixels::position::{Direction, IntoPixelStrictPosition, StrictPositions};
use pixelart::pixels::{Pixel, PixelInterface, PixelMutInterface};
use pixelart::prelude::MaybePixelCanvas;

fn count_color<const H: usize, const W: usize>(
    canvas: &PixelCanvas<H, W, Pixel>,
    color: PixelColor,
) -> usize {
    let mut n = 0;
    let mut it = canvas.table.iter_pixels();
    while let Some(h) = it.next() {
        if *h.get().color() == color {
            n += 1;
        }
    }
    n
}

fn count_maybe_color<const H: usize, const W: usize>(
    canvas: &PixelCanvas<H, W, MaybePixel>,
    color: Option<PixelColor>,
) -> usize {
    let mut n = 0;
    let mut it = canvas.table.iter_pixels();
    while let Some(h) = it.next() {
        if *h.get().color() == color {
            n += 1;
        }
    }
    n
}

fn paint_diagonal<const H: usize, const W: usize>(
    canvas: &mut PixelCanvas<H, W, MaybePixel>,
    color: PixelColor,
) {
    let mut it = canvas.table.iter_pixels_mut();
    while let Some(mut h) = it.next(&canvas.table.inner) {
        let (row, column) = h.index();
        if row == column {
            h.get_mut().update_color(Some(color));
            canvas.table.commit_pixel(h);
        }
    }
}

#[test]
fn basic_example_test() {
    // A 5x5 pixel canvas.
    let mut canvas = PixelCanvas::<5, 5>::default();

    // A common position in a square canvas.
    let pos = StrictPositions::BottomLeft;

    assert_eq!(*canvas.table.get_pixel(pos).get().color(), colors::white());

    // Update color of a pixel.
    let mut h = canvas.table.get_pixel_mut(pos);
    let prev_color = h.get_mut().update_color(colors::black());
    canvas.table.commit_pixel(h);
    assert_eq!(prev_color, colors::white());
    assert_eq!(*canvas.table.get_pixel(pos).get().color(), colors::black());

    let black_pixels = count_color(&canvas, colors::black());
    assert_eq!(black_pixels, 1);

    // Change color of all pixels in the main diagonal, where row == column.
    let mut it = canvas.table.iter_pixels_mut();
    while let Some(mut h) = it.next(&canvas.table.inner) {
        let (row, column) = h.index();
        if row == column {
            h.get_mut().update_color(colors::red());
            canvas.table.commit_pixel(h);
        }
    }

    assert_eq!(
        *canvas.table.get_pixel(StrictPositions::TopLeft).get().color(),
        colors::red()
    );
    assert_eq!(
        *canvas.table.get_pixel(StrictPositions::BottomRight).get().color(),
        colors::red()
    );

    println!("Actual filled: {}", canvas.table.filled_len());
}

#[test]
fn test_drawing_maybe_on_real() {
    let mut canvas = PixelCanvas::<5, 5>::new(PixelColor::default());
    let mut template = PixelCanvas::<5, 5, MaybePixel>::new(None);

    template.draw_on(StrictPositions::TopLeft, &mut canvas);
    assert_eq!(
        count_color(&canvas, colors::white()),
        25,
        "All pixels on the canvas must be at default value because the template was empty."
    );

    paint_diagonal(&mut template, colors::black());

    template.draw_on(StrictPositions::TopLeft, &mut canvas);

    assert_eq!(count_color(&canvas, colors::black()), 5);

    canvas.clear();
    template.draw_on(
        pixelart::pixels::position::PixelStrictPosition::<5, 5>::new(0, 2).unwrap(),
        &mut canvas,
    );

    assert_eq!(count_color(&canvas, colors::black()), 3);
}

#[test]
fn test_drawing_on_drawing() {
    let mut template = PixelCanvas::<5, 5, MaybePixel>::new(None);
    paint_diagonal(&mut template, colors::red());

    let mut other = PixelCanvas::<5, 5, MaybePixel>::new(None);
    let mut it = other.table.iter_pixels_mut();
    while let Some(mut h) = it.next(&other.table.inner) {
        let (row, column) = h.index();
        if row + column == 4 {
            h.get_mut().update_color(Some(colors::blue()));
            other.table.commit_pixel(h);
        }
    }

    other.draw_on(StrictPositions::TopLeft, &mut template);

    let mut canvas = PixelCanvas::<5, 5>::new(PixelColor::default());
    template.draw_on(StrictPositions::TopLeft, &mut canvas);

    assert_eq!(count_color(&canvas, colors::red()), 4);
    assert_eq!(count_color(&canvas, colors::blue()), 5);
}

#[test]
fn test_fill_inside() {
    let mut canvas = PixelCanvas::<5, 5>::default();
    let mut it = canvas.table.iter_pixels_mut();
    while let Some(mut h) = it.next(&canvas.table.inner) {
        let (row, column) = h.index();
        if row == column {
            h.get_mut().update_color(colors::red());
            canvas.table.commit_pixel(h);
        }
    }

    canvas.fill_inside(colors::blue(), StrictPositions::BottomLeft);

    canvas.update_color_at(StrictPositions::TopRight, colors::black());

    // The lower triangle flooded blue, the diagonal stayed red.
    assert_eq!(*canvas.table.get_pixel((4usize, 0usize)).get().color(), colors::blue());
    assert_eq!(*canvas.table.get_pixel((3usize, 1usize)).get().color(), colors::blue());
    assert_eq!(*canvas.table.get_pixel((2usize, 2usize)).get().color(), colors::red());
    assert_eq!(*canvas.table.get_pixel((0usize, 4usize)).get().color(), colors::black());
    assert_eq!(*canvas.table.get_pixel((1usize, 4usize)).get().color(), colors::white());
}

#[test]
fn test_swap() {
    let mut canvas = PixelCanvas::<5, 5>::default();

    canvas.update_color_at(StrictPositions::TopLeft, colors::blue());
    canvas.update_color_at(StrictPositions::BottomLeft, colors::red());
    canvas.update_color_at(StrictPositions::BottomRight, colors::yellow());
    canvas.update_color_at(StrictPositions::TopRight, colors::green());

    canvas.table.swap(StrictPositions::TopLeft, StrictPositions::Center);
    canvas.table.swap(StrictPositions::BottomLeft, StrictPositions::BottomRight);
    canvas.table.swap(StrictPositions::TopRight, StrictPositions::RightCenter);

    assert_eq!(*canvas.table.get_pixel((2usize, 2usize)).get().color(), colors::blue());
    assert_eq!(*canvas.table.get_pixel((0usize, 0usize)).get().color(), colors::white());
    assert_eq!(*canvas.table.get_pixel((4usize, 0usize)).get().color(), colors::yellow());
    assert_eq!(*canvas.table.get_pixel((4usize, 4usize)).get().color(), colors::red());
    assert_eq!(*canvas.table.get_pixel((2usize, 4usize)).get().color(), colors::green());
    assert_eq!(*canvas.table.get_pixel((0usize, 4usize)).get().color(), colors::white());
    assert_eq!(canvas.table.filled_len(), 4);
}

#[test]
fn test_name() {
    let mut table = PixelTable::<5, 5, Pixel>::default();

    let mut rows = table.iter();
    while let Some(row) = rows.next(&table) {
        let mut c = 0;
        while c < 5 {
            let pixel = row.get().get(c).unwrap();
            println!("{:?}", pixel.mapped(|p| *p));
            c += 1;
        }
    }

    let pos = pixelart::pixels::position::PixelStrictPosition::<5, 5>::new(0, 0).unwrap();

    let mut pixel00 = table.get_pixel_mut(pos);
    pixel00.get_mut().update_color(colors::blue());
    table.commit_pixel(pixel00);
    assert_eq!(*table.get_pixel(pos).get().color(), colors::blue());
}

#[test]
fn iter_pixels() {
    let mut table = PixelTable::<2, 2, Pixel>::default();
    let mut it = table.iter_pixels();
    while let Some(pix) = it.next() {
        println!("{:?}", (pix.index(), *pix.get()));
    }

    let mut mi = table.iter_pixels_mut();
    while let Some(pix) = mi.next(&table.inner) {
        println!("{:?}", (pix.index(), pix.get()));
        table.commit_pixel(pix);
    }
    assert_eq!(table.filled_len(), 0);
}

#[test]
fn test_flip() {
    let mut canvas = PixelCanvas::<5, 5>::default();

    // Paint row 0 black through a row write handle.
    let mut row = canvas.table.get_row_mut(0).unwrap();
    let mut c = 0;
    while c < 5 {
        let mut h = row.current.get_mut(c).unwrap();
        h.get_mut().update_color(colors::black());
        row.current.commit(h);
        c += 1;
    }
    canvas.table.commit_row(row);

    // Paint the last column of every row black.
    let mut r = 0;
    while r < 5 {
        canvas.update_color_at((r, 4usize), colors::black());
        r += 1;
    }

    canvas.flip_x();
    canvas.flip_y();

    // The black row and column land on the bottom row and first column.
    assert_eq!(*canvas.table.get_pixel((4usize, 2usize)).get().color(), colors::black());
    assert_eq!(*canvas.table.get_pixel((2usize, 0usize)).get().color(), colors::black());
    assert_eq!(*canvas.table.get_pixel((1usize, 2usize)).get().color(), colors::white());
}

#[test]
fn feature_1() {
    let mut canvas = PixelCanvas::<5, 5>::default();
    // Captures a 2x2 partition from the top left of the canvas.
    let mut part: CanvasPartition<2, 2, 5, 5, MaybePixel> =
        CanvasPartition::new(StrictPositions::TopLeft, &canvas);

    part.update_color(&mut canvas, Some(colors::red()));

    assert_eq!(*canvas.table.get_pixel((0usize, 0usize)).get().color(), colors::red());
    assert_eq!(*canvas.table.get_pixel((1usize, 1usize)).get().color(), colors::red());
    assert_eq!(*canvas.table.get_pixel((2usize, 2usize)).get().color(), colors::white());
}

#[test]
fn feature_2() {
    let mut canvas = PixelCanvas::<5, 5>::default();
    let mut part: CanvasPartition<2, 2, 5, 5, MaybePixel> =
        CanvasPartition::new(StrictPositions::TopLeft, &canvas);

    part.update_color(&mut canvas, Some(colors::red()));

    part.crop_to(&mut canvas, StrictPositions::TopCenter);

    // The old window was restored to white, the new one painted red.
    assert_eq!(*canvas.table.get_pixel((0usize, 0usize)).get().color(), colors::white());
    assert_eq!(*canvas.table.get_pixel((0usize, 2usize)).get().color(), colors::red());
    assert_eq!(*canvas.table.get_pixel((1usize, 3usize)).get().color(), colors::red());
}

#[test]
fn feature_3() {
    let mut canvas = PixelCanvas::<5, 5>::default();
    let mut part: CanvasPartition<2, 2, 5, 5, MaybePixel> =
        CanvasPartition::new(StrictPositions::TopLeft, &canvas);

    part.update_color(&mut canvas, Some(colors::red()));

    part.copy_to(&mut canvas, StrictPositions::TopCenter);
    part.copy_to(&mut canvas, StrictPositions::Center);

    // Copies leave the earlier stamps in place.
    assert_eq!(*canvas.table.get_pixel((0usize, 0usize)).get().color(), colors::red());
    assert_eq!(*canvas.table.get_pixel((0usize, 2usize)).get().color(), colors::red());
    assert_eq!(*canvas.table.get_pixel((2usize, 2usize)).get().color(), colors::red());
}

#[test]
fn feature_4() {
    let mut canvas = PixelCanvas::<5, 5>::default();
    let mut part: CanvasPartition<2, 2, 5, 5, MaybePixel> =
        CanvasPartition::new(StrictPositions::TopLeft, &canvas);

    part.update_color(&mut canvas, Some(colors::red()));

    let mut canvas2 = PixelCanvas::<5, 5>::default();

    part.draw_on(StrictPositions::LeftCenter, &mut canvas2);

    assert_eq!(*canvas2.table.get_pixel((2usize, 0usize)).get().color(), colors::red());
    assert_eq!(*canvas2.table.get_pixel((3usize, 1usize)).get().color(), colors::red());
    assert_eq!(*canvas2.table.get_pixel((0usize, 0usize)).get().color(), colors::white());
}

#[test]
fn test_attachments() {
    let mut canvas = PixelCanvas::<5, 5>::default();

    let red_pen = Pen::new(colors::red());
    let blue_pen = Pen::new(colors::blue());

    let attached_pen = red_pen.attach::<5, 5, _>(StrictPositions::TopLeft);
    let _red_pen = attached_pen.detach();

    let mut attached_pen = blue_pen.attach::<5, 5, _>(StrictPositions::TopLeft);
    attached_pen.start(&mut canvas);
    attached_pen.right(2, &mut canvas);
    attached_pen.down_right(2, &mut canvas);
    attached_pen.down_left(2, &mut canvas);
    attached_pen.left(2, &mut canvas);

    canvas.fill_inside(colors::cyan(), StrictPositions::LeftCenter);

    assert_eq!(*canvas.table.get_pixel((0usize, 0usize)).get().color(), colors::blue());
    assert_eq!(*canvas.table.get_pixel((2usize, 4usize)).get().color(), colors::blue());
    assert_eq!(*canvas.table.get_pixel((2usize, 0usize)).get().color(), colors::cyan());
}

#[test]
fn test_pen_branching() {
    let mut canvas = PixelCanvas::<5, 5>::default();

    let mut pen = Pen::new(colors::cyan()).attach::<5, 5, _>(StrictPositions::BottomCenter);
    pen.start(&mut canvas);
    pen.up(2, &mut canvas);
    pen.branch(&vec![PenMove::UpLeft(2)], &mut canvas);
    pen.up_right(2, &mut canvas);

    assert_eq!(*canvas.table.get_pixel((4usize, 2usize)).get().color(), colors::cyan());
    assert_eq!(*canvas.table.get_pixel((2usize, 2usize)).get().color(), colors::cyan());
    assert_eq!(*canvas.table.get_pixel((0usize, 0usize)).get().color(), colors::cyan());
    assert_eq!(*canvas.table.get_pixel((0usize, 4usize)).get().color(), colors::cyan());
}

#[test]
fn heart_test_name() {
    let heart = Heart.create();
    assert!(heart.table.filled_len() > 0);
}

#[test]
fn test_duplicated() {
    let mut canvas = MaybePixelCanvas::<2, 2>::default();

    let mut h = canvas.table.get_pixel_mut(StrictPositions::TopLeft);
    h.get_mut().update_color(Some(colors::red()));
    canvas.table.commit_pixel(h);
    let mut h = canvas.table.get_pixel_mut(StrictPositions::TopLeft);
    h.get_mut().update_color(Some(colors::red()));
    canvas.table.commit_pixel(h);

    assert_eq!(canvas.table.filled_len(), 1);
    assert_eq!(
        *canvas.table.get_pixel(StrictPositions::TopLeft).get().color(),
        Some(colors::red())
    );
}

#[test]
fn monster() {
    let mut canvas = MaybePixelCanvas::<17, 20>::default();
    canvas.draw_exact_abs(AlienMonster.create());

    assert!(canvas.table.filled_len() > 0);
}

#[test]
fn mod_test_name() {
    let mut canvas = PixelCanvas::<5, 5>::default();
    canvas.draw_exact_abs(rectangle::<5, 5>(colors::black()));

    canvas.fill_inside(colors::green(), StrictPositions::Center);

    assert_eq!(*canvas.table.get_pixel((0usize, 0usize)).get().color(), colors::black());
    assert_eq!(*canvas.table.get_pixel((0usize, 4usize)).get().color(), colors::black());
    assert_eq!(*canvas.table.get_pixel((2usize, 2usize)).get().color(), colors::green());
    assert_eq!(*canvas.table.get_pixel((1usize, 3usize)).get().color(), colors::green());
}

#[test]
fn layered_test_name() {
    let mut layered = LayeredCanvas::<50, 50, Pixel>::new(colors::magenta());

    let top_left: pixelart::pixels::position::PixelStrictPosition<50, 50> =
        StrictPositions::TopLeft.into_pixel_strict_position();

    let first = LayerData::new(None, MaybePixelCanvas::<50, 50>::default())
        .with_layer_tag("Alien".to_string())
        .with_drawing_position(top_left.bounding_direction(Direction::DownRight, 2))
        .with_modified_canvas(|mut canvas| {
            canvas.draw(StrictPositions::TopLeft, AlienMonster.create());
            canvas
        });
    layered.new_layer(first).unwrap();

    let second = LayerData::new(None, MaybePixelCanvas::<50, 50>::default())
        .with_layer_tag("Alien 2".to_string())
        .with_drawing_position(StrictPositions::Center)
        .with_modified_canvas(|mut canvas| {
            canvas.draw(StrictPositions::TopLeft, AlienMonster.create());
            canvas
        });
    layered.new_layer(second).unwrap();

    // A third layer reusing a tag is refused.
    let duplicate = LayerData::new(None, MaybePixelCanvas::<50, 50>::default())
        .with_layer_tag("Alien".to_string());
    assert!(layered.new_layer(duplicate).is_err());

    assert!(layered.top_layer(&TopLayerId::Tag("Alien 2".to_string())).is_some());
    assert!(layered.top_layer(&TopLayerId::Index(5)).is_none());

    let resulting = layered.get_resulting_canvas();
    assert_eq!(
        *resulting.table.get_pixel((49usize, 49usize)).get().color(),
        colors::magenta()
    );
}

#[test]
fn test_growth() {
    let mut px = PixelCanvas::<1000, 1000>::default();

    px.draw(StrictPositions::Center, square::<10>(colors::blue()));

    // The border of a ten by ten square: the only stored cells.
    assert_eq!(px.table.filled_len(), 36);
}

#[test]
fn test_maybe_growth() {
    let mut px = PixelCanvas::<500, 500, MaybePixel>::default();

    px.draw(StrictPositions::Center, square::<10>(colors::blue()));
    println!("Filled: {}", px.table.filled_len());

    assert_eq!(px.table.filled_len(), 36);
}

#[test]
fn size() {
    let test: [Box<dyn std::any::Any>; 2] = [Box::new("10usize".to_string()), Box::new(10usize)];

    println!("{}", std::mem::size_of_val(&test))
}

#[test]
fn _1() {
    let mut px = MaybePixelCanvas::<5, 5>::default();

    px.draw(StrictPositions::TopLeft, square::<4>(colors::red()));

    let mut it = px.table.iter_pixels();
    while let Some(pixel) = it.next() {
        let (row, column) = pixel.index();
        println!("({}, {}): {:?}", row, column, pixel.get());
    }

    assert_eq!(px.table.filled_len(), 12);
    assert_eq!(
        *px.table.get_pixel((0usize, 0usize)).get().color(),
        Some(colors::red())
    );
    assert_eq!(*px.table.get_pixel((1usize, 1usize)).get().color(), None);
}

#[test]
fn row_test_name() {
    let r = PixelRow::<2, Pixel>::new(0, PixelColor::default());
    assert_eq!(r.len(), 2);
    assert_eq!(*r.get(0).color(), colors::white());
    assert_eq!(*r.get(1).color(), colors::white());
}

#[test]
fn full_pixel_test() {
    let canvas = PixelCanvas::<3, 3>::new(colors::yellow());

    let builder = PixelImageBuilder::new_default_style(&canvas).with_scale(5);
    let image = builder.get_image();
    let raw = image.inner;
    // 3 blocks of 50 plus 4 borders of 5 on each side.
    assert_eq!(raw.width(), 170);
    assert_eq!(raw.height(), 170);
}

#[test]
fn partial_pixel_test() {
    let mut canvas = MaybePixelCanvas::<3, 3>::default();

    paint_diagonal(&mut canvas, colors::magenta());

    let builder = PixelImageBuilder::new_default_style(&canvas).with_scale(5);
    let image = builder.get_image();
    assert_eq!(image.inner.width(), 170);
    assert_eq!(image.inner.height(), 170);
}

#[test]
fn rectangle_has_exactly_its_border() {
    let c = rectangle::<3, 4>(colors::blue());
    let mut i = 0;
    while i < 3 {
        let mut j = 0;
        while j < 4 {
            let expected = if i == 0 || i == 2 || j == 0 || j == 3 {
                Some(colors::blue())
            } else {
                None
            };
            assert_eq!(*c.table.get_pixel((i, j)).get().color(), expected);
            j += 1;
        }
        i += 1;
    }
}

#[test]
fn included_positions_covers_the_window() {
    let canvas = PixelCanvas::<5, 5>::default();
    let part: CanvasPartition<2, 2, 5, 5, MaybePixel> =
        CanvasPartition::new(StrictPositions::TopLeft, &canvas);
    assert_eq!(part.included_positions().len(), 4);

    // Anchored at the bottom right corner only the anchor cell stays in
    // bounds.
    let corner: CanvasPartition<2, 2, 5, 5, MaybePixel> =
        CanvasPartition::new(StrictPositions::BottomRight, &canvas);
    assert_eq!(corner.included_positions().len(), 1);
}

#[test]
fn from_fill_color_covers_every_cell() {
    let canvas = PixelCanvas::<4, 4>::from_fill_color(colors::green());
    assert_eq!(count_color(&canvas, colors::green()), 16);
    // The default stays white, so every green cell is stored.
    assert_eq!(canvas.table.filled_len(), 16);

    let maybe = MaybePixelCanvas::<4, 4>::from_fill_color(None);
    assert_eq!(count_maybe_color(&maybe, None), 16);
    assert_eq!(maybe.table.filled_len(), 0);
}

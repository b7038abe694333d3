//! Positions, directions and colors, exercised from outside.

use pixelart::pixels::color::colors;
use pixelart::pixels::color::{color_from_maybe, PixelColor};
use pixelart::pixels::position::{
    Direction, PixelPosition, PixelPositionOutOfBoundError, PixelStrictPosition, SingleCycle,
};

#[test]
fn position_test_name() {
    let pos = PixelStrictPosition::<5, 5>::new(0, 0).unwrap();

    assert_eq!(
        PixelStrictPosition { raw: PixelPosition::new(1, 0) },
        pos.bounding_down(1)
    );
    assert_eq!(
        PixelStrictPosition { raw: PixelPosition::new(2, 0) },
        pos.bounding_down(2)
    );
    assert_eq!(
        PixelStrictPosition { raw: PixelPosition::new(3, 0) },
        pos.bounding_down(3)
    );
    assert_eq!(
        PixelStrictPosition { raw: PixelPosition::new(4, 0) },
        pos.bounding_down(4)
    );
    assert_eq!(
        PixelStrictPosition { raw: PixelPosition::new(4, 0) },
        pos.bounding_down(5)
    );
    assert_eq!(
        PixelStrictPosition { raw: PixelPosition::new(0, 4) },
        pos.bounding_right(5)
    );
}

#[test]
fn test_iter() {
    let mut pos = PixelStrictPosition::<2, 2>::new(0, 0).unwrap();

    assert_eq!(
        Some(PixelStrictPosition { raw: PixelPosition::new(0, 1) }),
        pos.next()
    );
    assert_eq!(
        Some(PixelStrictPosition { raw: PixelPosition::new(1, 0) }),
        pos.next()
    );
    assert_eq!(
        Some(PixelStrictPosition { raw: PixelPosition::new(1, 1) }),
        pos.next()
    );
    assert_eq!(None, pos.next());
}

#[test]
fn test_direction_single_cycle() {
    let mut single = SingleCycle::new(Direction::Down);

    assert_eq!(Some(Direction::Down), single.next());
    assert_eq!(Some(Direction::Left), single.next());
    assert_eq!(Some(Direction::Up), single.next());
    assert_eq!(Some(Direction::Right), single.next());
    assert_eq!(None, single.next());
}

#[test]
fn default_color_should_be_white() {
    assert_eq!(
        PixelColor::default(),
        PixelColor { r: 255, b: 255, g: 255 }
    );

    assert_eq!(PixelColor::default(), colors::white());
}

#[test]
fn validation_names_each_failing_coordinate() {
    assert!(PixelStrictPosition::<3, 3>::new(1, 2).is_ok());
    assert_eq!(
        PixelStrictPosition::<3, 3>::new(3, 2),
        Err(PixelPositionOutOfBoundError::InvalidRow(PixelPosition::new(3, 2)))
    );
    assert_eq!(
        PixelStrictPosition::<3, 3>::new(2, 7),
        Err(PixelPositionOutOfBoundError::InvalidColumn(PixelPosition::new(2, 7)))
    );
    assert_eq!(
        PixelStrictPosition::<3, 3>::new(3, 3),
        Err(PixelPositionOutOfBoundError::InvalidBoth(PixelPosition::new(3, 3)))
    );
}

#[test]
fn adjust_clamps_to_last_valid() {
    let err = PixelStrictPosition::<3, 3>::new(9, 1).unwrap_err();
    assert_eq!(err.adjust().raw, PixelPosition::new(2, 1));
    let err = PixelStrictPosition::<3, 3>::new(1, 9).unwrap_err();
    assert_eq!(err.adjust().raw, PixelPosition::new(1, 2));
    let err = PixelStrictPosition::<3, 3>::new(9, 9).unwrap_err();
    assert_eq!(err.adjust().raw, PixelPosition::new(2, 2));
}

#[test]
fn movement_saturates_at_borders() {
    let p = PixelPosition::new(1, 1);
    assert_eq!(p.up(5), PixelPosition::new(0, 1));
    assert_eq!(p.left(5), PixelPosition::new(1, 0));
    assert_eq!(p.down(2), PixelPosition::new(3, 1));
    assert_eq!(p.right(3), PixelPosition::new(1, 4));
    assert_eq!(
        p.direction(Direction::DownRight, 2),
        PixelPosition::new(3, 3)
    );
}

#[test]
fn color_constructors_and_maps() {
    assert_eq!(PixelColor::new(1, 2, 3), PixelColor { r: 1, g: 2, b: 3 });
    assert_eq!(PixelColor::splat(9), PixelColor { r: 9, g: 9, b: 9 });
    assert_eq!(PixelColor::from_red(7), PixelColor { r: 7, g: 0, b: 0 });
    assert_eq!(PixelColor::from_green(7), PixelColor { r: 0, g: 7, b: 0 });
    assert_eq!(PixelColor::from_blue(7), PixelColor { r: 0, g: 0, b: 7 });
    assert_eq!(
        PixelColor::from_red(106).blue(127),
        PixelColor { r: 106, g: 0, b: 127 }
    );
    let c = PixelColor::new(10, 20, 30);
    assert_eq!(c.r(), 10);
    assert_eq!(c.g(), 20);
    assert_eq!(c.b(), 30);
    assert_eq!(c.map_r(|r| r + 1), PixelColor::new(11, 20, 30));
    assert_eq!(c.map_g(|g| g + 1), PixelColor::new(10, 21, 30));
    assert_eq!(c.map_b(|b| b + 1), PixelColor::new(10, 20, 31));
    assert_eq!(c.map_all(|v| v / 10), PixelColor::new(1, 2, 3));
    assert_eq!(c.map(|c| c.red(0)), PixelColor::new(0, 20, 30));
    assert_eq!(c.red(5).green(6).blue(7), PixelColor::new(5, 6, 7));
}

#[test]
fn maybe_color_conversion_fails_without_information() {
    assert_eq!(color_from_maybe(Some(colors::red())), Ok(colors::red()));
    assert!(color_from_maybe(None).is_err());
}

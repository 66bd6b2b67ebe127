use hex_gradient::hsl::{channel_extremes, hue_offset, hue_sector, in_upper_half, HueSector};

#[test]
fn extremes_of_channels() {
    assert_eq!(channel_extremes((1, 2, 3)), (3, 1));
    assert_eq!(channel_extremes((3, 2, 1)), (3, 1));
    assert_eq!(channel_extremes((2, 3, 1)), (3, 1));
    assert_eq!(channel_extremes((2, 1, 3)), (3, 1));
    assert_eq!(channel_extremes((7, 7, 7)), (7, 7));
    assert_eq!(channel_extremes((0, 255, 0)), (255, 0));
}

#[test]
fn greys_are_achromatic() {
    for level in 0..=255u8 {
        assert_eq!(hue_sector((level, level, level)), HueSector::Achromatic);
        assert_eq!(hue_offset((level, level, level)), 0);
    }
}

#[test]
fn only_greys_are_achromatic() {
    assert_ne!(hue_sector((0, 0, 1)), HueSector::Achromatic);
    assert_ne!(hue_sector((128, 127, 128)), HueSector::Achromatic);
    assert_ne!(hue_sector((255, 255, 254)), HueSector::Achromatic);
}

#[test]
fn sector_is_the_leading_channel() {
    assert_eq!(hue_sector((255, 0, 0)), HueSector::Red);
    assert_eq!(hue_sector((0, 255, 0)), HueSector::Green);
    assert_eq!(hue_sector((0, 0, 255)), HueSector::Blue);
    assert_eq!(hue_sector((18, 52, 86)), HueSector::Blue);
    assert_eq!(hue_sector((200, 100, 150)), HueSector::Red);
    assert_eq!(hue_sector((100, 200, 150)), HueSector::Green);
}

#[test]
fn ties_go_to_red_then_green() {
    assert_eq!(hue_sector((255, 255, 0)), HueSector::Red);
    assert_eq!(hue_sector((255, 0, 255)), HueSector::Red);
    assert_eq!(hue_sector((0, 255, 255)), HueSector::Green);
    assert_eq!(hue_sector((9, 9, 8)), HueSector::Red);
    assert_eq!(hue_sector((8, 9, 9)), HueSector::Green);
}

#[test]
fn offsets_by_sector() {
    assert_eq!(hue_offset((255, 0, 0)), 0);
    assert_eq!(hue_offset((255, 10, 0)), 0);
    assert_eq!(hue_offset((255, 10, 10)), 0);
    assert_eq!(hue_offset((255, 0, 10)), 6);
    assert_eq!(hue_offset((255, 0, 255)), 6);
    assert_eq!(hue_offset((0, 255, 0)), 2);
    assert_eq!(hue_offset((0, 255, 255)), 2);
    assert_eq!(hue_offset((0, 0, 255)), 4);
    assert_eq!(hue_offset((10, 0, 255)), 4);
}

#[test]
fn upper_half_starts_above_the_middle() {
    assert!(!in_upper_half((0, 0, 0)));
    assert!(!in_upper_half((255, 0, 0)));
    assert!(!in_upper_half((128, 127, 127)));
    assert!(in_upper_half((128, 128, 128)));
    assert!(in_upper_half((255, 1, 0)) == false);
    assert!(in_upper_half((255, 1, 1)));
    assert!(in_upper_half((255, 255, 255)));
    assert!(!in_upper_half((127, 127, 127)));
}

use asterism::graphics::{next_frame, AnimData, Animation, TexID};
use asterism::graphics::draw_rect;

#[test]
fn looping_strip_starts_over() {
    assert_eq!(next_frame(0, 3, true), 1);
    assert_eq!(next_frame(2, 3, true), 0);
    assert_eq!(next_frame(0, 1, true), 0);
    assert_eq!(next_frame(usize::MAX - 1, usize::MAX, true), 0);
}

#[test]
fn strip_that_does_not_loop_stays_on_its_last_picture() {
    assert_eq!(next_frame(0, 3, false), 1);
    assert_eq!(next_frame(1, 3, false), 2);
    assert_eq!(next_frame(2, 3, false), 2);
    assert_eq!(next_frame(0, 1, false), 0);
}

#[test]
fn animation_goes_through_its_pictures() {
    let mut animation = Animation {
        animations: vec![
            AnimData { frames: vec![TexID(4), TexID(5)], loops: true },
            AnimData { frames: vec![TexID(7), TexID(8), TexID(9)], loops: false },
        ],
        current_frame: (1, 1),
    };
    assert!(animation.is_wf());
    assert_eq!(animation.current_texture(), TexID(8));
    animation.advance();
    assert_eq!(animation.current_frame, (1, 2));
    animation.advance();
    assert_eq!(animation.current_texture(), TexID(9));
    animation.current_frame = (0, 1);
    animation.advance();
    assert_eq!(animation.current_texture(), TexID(4));
    animation.current_frame = (0, 2);
    assert!(!animation.is_wf());
    animation.current_frame = (2, 0);
    assert!(!animation.is_wf());
}

#[test]
fn rectangle_is_drawn_pixel_by_pixel() {
    let mut frame = vec![0u8; 255 * 255 * 4];
    draw_rect(1, 2, 2, 1, [9, 8, 7, 6], &mut frame);
    let start = 4 * (255 * 2 + 1);
    assert_eq!(&frame[start..start + 8], &[9, 8, 7, 6, 9, 8, 7, 6]);
    assert_eq!(frame.iter().filter(|byte| **byte != 0).count(), 8);
}

#[test]
fn rectangle_is_cut_off_at_the_edge_of_the_frame() {
    let mut frame = vec![0u8; 255 * 255 * 4];
    draw_rect(253, 254, 10, 10, [1, 2, 3, 4], &mut frame);
    let last = 4 * (255 * 254 + 253);
    assert_eq!(&frame[last..], &[1, 2, 3, 4, 1, 2, 3, 4]);
    assert_eq!(frame.iter().filter(|byte| **byte != 0).count(), 8);
    let mut other = vec![0u8; 255 * 255 * 4];
    draw_rect(255, 255, 1, 1, [5, 5, 5, 5], &mut other);
    assert_eq!(&other[4 * (255 * 254 + 254)..], &[5, 5, 5, 5]);
    assert_eq!(other.iter().filter(|byte| **byte != 0).count(), 4);
}

#[test]
fn rectangle_needs_no_more_of_the_frame_than_it_covers() {
    let mut frame = vec![0u8; 4];
    draw_rect(0, 0, 1, 1, [1, 2, 3, 4], &mut frame);
    assert_eq!(frame, vec![1, 2, 3, 4]);
    let mut empty: Vec<u8> = Vec::new();
    draw_rect(7, 7, 3, 0, [1, 2, 3, 4], &mut empty);
    assert!(empty.is_empty());
}

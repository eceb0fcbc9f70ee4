use tree_growth::canvas::{clear, draw_line, plot, to_screen};

const RED: [u8; 4] = [255, 0, 0, 255];

fn pixel(frame: &[u8], width: u32, x: u32, y: u32) -> [u8; 4] {
    let o = ((y * width + x) * 4) as usize;
    [frame[o], frame[o + 1], frame[o + 2], frame[o + 3]]
}

#[test]
fn clear_zeroes_every_byte() {
    let mut frame = vec![7u8; 4 * 3 * 2];
    clear(&mut frame);
    assert!(frame.iter().all(|&b| b == 0));
}

#[test]
fn clear_of_empty_frame() {
    let mut frame: Vec<u8> = Vec::new();
    clear(&mut frame);
    assert!(frame.is_empty());
}

#[test]
fn plot_sets_only_the_given_pixels() {
    let mut frame = vec![0u8; 4 * 3 * 2];
    plot(&mut frame, 3, 2, &vec![(2, 1), (0, 0)], RED);
    assert_eq!(pixel(&frame, 3, 2, 1), RED);
    assert_eq!(pixel(&frame, 3, 0, 0), RED);
    assert_eq!(pixel(&frame, 3, 1, 0), [0, 0, 0, 0]);
    assert_eq!(pixel(&frame, 3, 2, 0), [0, 0, 0, 0]);
    assert_eq!(pixel(&frame, 3, 0, 1), [0, 0, 0, 0]);
    assert_eq!(pixel(&frame, 3, 1, 1), [0, 0, 0, 0]);
    assert_eq!(&frame[20..24], &RED);
}

#[test]
fn plot_of_no_points_keeps_frame() {
    let mut frame: Vec<u8> = (0..16).collect();
    plot(&mut frame, 2, 2, &Vec::new(), RED);
    assert_eq!(frame, (0..16).collect::<Vec<u8>>());
}

#[test]
fn horizontal_line_is_half_open() {
    let mut frame = vec![0u8; 4 * 4 * 2];
    draw_line(&mut frame, 4, 2, (0, 1), (3, 1), RED);
    assert_eq!(pixel(&frame, 4, 0, 1), RED);
    assert_eq!(pixel(&frame, 4, 1, 1), RED);
    assert_eq!(pixel(&frame, 4, 2, 1), RED);
    assert_eq!(pixel(&frame, 4, 3, 1), [0, 0, 0, 0]);
    for x in 0..4 {
        assert_eq!(pixel(&frame, 4, x, 0), [0, 0, 0, 0]);
    }
}

#[test]
fn diagonal_line_is_drawn() {
    let mut frame = vec![0u8; 4 * 3 * 3];
    draw_line(&mut frame, 3, 3, (0, 0), (3, 3), RED);
    assert_eq!(pixel(&frame, 3, 0, 0), RED);
    assert_eq!(pixel(&frame, 3, 1, 1), RED);
    assert_eq!(pixel(&frame, 3, 2, 2), RED);
    assert_eq!(pixel(&frame, 3, 1, 0), [0, 0, 0, 0]);
}

#[test]
fn line_is_clipped_to_canvas() {
    let mut frame = vec![0u8; 4 * 2 * 2];
    draw_line(&mut frame, 2, 2, (0, 0), (10, 0), RED);
    assert_eq!(pixel(&frame, 2, 0, 0), RED);
    assert_eq!(pixel(&frame, 2, 1, 0), RED);
    assert_eq!(pixel(&frame, 2, 0, 1), [0, 0, 0, 0]);
    assert_eq!(pixel(&frame, 2, 1, 1), [0, 0, 0, 0]);
}

#[test]
fn line_off_canvas_leaves_frame() {
    let mut frame = vec![9u8; 4 * 2 * 2];
    draw_line(&mut frame, 2, 2, (5, 5), (9, 5), RED);
    assert_eq!(frame, vec![9u8; 16]);
}

#[test]
fn to_screen_flips_rows() {
    assert_eq!(to_screen(768, (10, 0)), (10, 768));
    assert_eq!(to_screen(768, (10, 100)), (10, 668));
    assert_eq!(to_screen(768, (3, 768)), (3, 0));
}

#[test]
fn to_screen_clamps_above_top() {
    assert_eq!(to_screen(768, (4, 769)), (4, 0));
    assert_eq!(to_screen(768, (4, u32::MAX)), (4, 0));
}

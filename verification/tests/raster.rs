use rstr::canvas::Point;
use rstr::raster::{draw_line_horizontal, fill_triangle, sort_by_y, DepthBuffer, Span};
use rstr::scene::Draw;

fn span(y: i32, x_left: i32, depths: &[i32]) -> Span {
    Span { y, x_left, depths: depths.to_vec() }
}

fn untouched(buffer: &DepthBuffer) -> bool {
    for y in 0..640i32 {
        for x in 0..640i32 {
            if buffer.depth_at(x, y) != Some(0) {
                return false;
            }
        }
    }
    true
}

#[test]
fn new_depth_buffer_is_infinitely_far_everywhere() {
    let buffer = DepthBuffer::new();
    assert!(untouched(&buffer));
}

#[test]
fn depth_at_is_none_off_canvas() {
    let buffer = DepthBuffer::new();
    assert_eq!(buffer.depth_at(-1, 0), None);
    assert_eq!(buffer.depth_at(0, -1), None);
    assert_eq!(buffer.depth_at(640, 639), None);
    assert_eq!(buffer.depth_at(639, 640), None);
    assert_eq!(buffer.depth_at(639, 639), Some(0));
}

#[test]
fn plot_draws_a_closer_fragment_and_stores_its_depth() {
    let mut buffer = DepthBuffer::new();
    assert_eq!(buffer.plot(Point::new(0, 0), 5), Some(Point { x: 320, y: 320 }));
    assert_eq!(buffer.depth_at(320, 320), Some(5));
    assert_eq!(buffer.depth_at(321, 320), Some(0));
    assert_eq!(buffer.depth_at(320, 321), Some(0));
}

#[test]
fn plot_needs_a_strictly_greater_depth() {
    let mut buffer = DepthBuffer::new();
    assert_eq!(buffer.plot(Point::new(1, 1), 0), None);
    assert_eq!(buffer.plot(Point::new(1, 1), -3), None);
    assert_eq!(buffer.plot(Point::new(1, 1), 7), Some(Point { x: 321, y: 319 }));
    assert_eq!(buffer.plot(Point::new(1, 1), 7), None);
    assert_eq!(buffer.plot(Point::new(1, 1), 6), None);
    assert_eq!(buffer.plot(Point::new(1, 1), 8), Some(Point { x: 321, y: 319 }));
    assert_eq!(buffer.depth_at(321, 319), Some(8));
}

#[test]
fn plot_at_the_ends_of_the_rank_range() {
    let mut buffer = DepthBuffer::new();
    assert_eq!(buffer.plot(Point::new(0, 0), i32::MIN), None);
    assert_eq!(buffer.depth_at(320, 320), Some(0));
    assert_eq!(buffer.plot(Point::new(0, 0), i32::MAX), Some(Point { x: 320, y: 320 }));
    assert_eq!(buffer.plot(Point::new(0, 0), i32::MAX), None);
    assert_eq!(buffer.depth_at(320, 320), Some(i32::MAX));
}

#[test]
fn plot_addresses_rows_top_to_bottom() {
    let mut buffer = DepthBuffer::new();
    assert_eq!(buffer.plot(Point::new(-320, 320), 1), Some(Point { x: 0, y: 0 }));
    assert_eq!(buffer.plot(Point::new(319, 320), 2), Some(Point { x: 639, y: 0 }));
    assert_eq!(buffer.plot(Point::new(-320, -319), 3), Some(Point { x: 0, y: 639 }));
    assert_eq!(buffer.plot(Point::new(319, -319), 4), Some(Point { x: 639, y: 639 }));
    assert_eq!(buffer.depth_at(0, 0), Some(1));
    assert_eq!(buffer.depth_at(639, 0), Some(2));
    assert_eq!(buffer.depth_at(0, 639), Some(3));
    assert_eq!(buffer.depth_at(639, 639), Some(4));
    assert_eq!(buffer.depth_at(1, 0), Some(0));
    assert_eq!(buffer.depth_at(0, 1), Some(0));
}

#[test]
fn plot_skips_fragments_off_canvas() {
    let mut buffer = DepthBuffer::new();
    assert_eq!(buffer.plot(Point::new(320, 0), 9), None);
    assert_eq!(buffer.plot(Point::new(-321, 0), 9), None);
    assert_eq!(buffer.plot(Point::new(0, 321), 9), None);
    assert_eq!(buffer.plot(Point::new(0, -320), 9), None);
    assert_eq!(buffer.plot(Point::new(i32::MAX, i32::MAX), 9), None);
    assert_eq!(buffer.plot(Point { x: i32::MIN, y: i32::MIN }, 9), None);
    assert!(untouched(&buffer));
}

#[test]
fn nearer_fragment_wins_when_drawn_first() {
    let mut buffer = DepthBuffer::new();
    let p = Point::new(12, -7);
    let near: i32 = 500;
    let far: i32 = 200;
    assert_eq!(buffer.plot(p, near), Some(Point { x: 332, y: 327 }));
    assert_eq!(buffer.plot(p, far), None);
    assert_eq!(buffer.depth_at(332, 327), Some(near));
}

#[test]
fn nearer_fragment_wins_when_drawn_second() {
    let mut buffer = DepthBuffer::new();
    let p = Point::new(12, -7);
    let near: i32 = 500;
    let far: i32 = 200;
    assert_eq!(buffer.plot(p, far), Some(Point { x: 332, y: 327 }));
    assert_eq!(buffer.plot(p, near), Some(Point { x: 332, y: 327 }));
    assert_eq!(buffer.depth_at(332, 327), Some(near));
}

#[test]
fn span_fills_from_left_to_right() {
    let mut buffer = DepthBuffer::new();
    let plots = draw_line_horizontal(&mut buffer, &span(10, -2, &[5, 6, 7]), Draw::Pixels);
    assert_eq!(
        plots,
        vec![
            Some(Point { x: 318, y: 310 }),
            Some(Point { x: 319, y: 310 }),
            Some(Point { x: 320, y: 310 })
        ]
    );
    assert_eq!(buffer.depth_at(317, 310), Some(0));
    assert_eq!(buffer.depth_at(318, 310), Some(5));
    assert_eq!(buffer.depth_at(319, 310), Some(6));
    assert_eq!(buffer.depth_at(320, 310), Some(7));
    assert_eq!(buffer.depth_at(321, 310), Some(0));
}

#[test]
fn span_tests_each_fragment_on_its_own() {
    let mut buffer = DepthBuffer::new();
    draw_line_horizontal(&mut buffer, &span(0, 0, &[4, 4, 4]), Draw::Pixels);
    let plots = draw_line_horizontal(&mut buffer, &span(0, -1, &[9, 3, 4, 5, 0]), Draw::Depths);
    assert_eq!(
        plots,
        vec![
            Some(Point { x: 319, y: 320 }),
            None,
            None,
            Some(Point { x: 322, y: 320 }),
            None
        ]
    );
    assert_eq!(buffer.depth_at(319, 320), Some(9));
    assert_eq!(buffer.depth_at(320, 320), Some(4));
    assert_eq!(buffer.depth_at(321, 320), Some(4));
    assert_eq!(buffer.depth_at(322, 320), Some(5));
    assert_eq!(buffer.depth_at(323, 320), Some(0));
}

#[test]
fn span_is_cut_at_the_canvas_edges() {
    let mut buffer = DepthBuffer::new();
    let left = draw_line_horizontal(&mut buffer, &span(0, -322, &[1, 1, 1, 1]), Draw::Pixels);
    assert_eq!(left, vec![None, None, Some(Point { x: 0, y: 320 }), Some(Point { x: 1, y: 320 })]);
    let right = draw_line_horizontal(&mut buffer, &span(0, 318, &[1, 1, 1, 1]), Draw::Pixels);
    assert_eq!(
        right,
        vec![Some(Point { x: 638, y: 320 }), Some(Point { x: 639, y: 320 }), None, None]
    );
}

#[test]
fn empty_span_does_nothing() {
    let mut buffer = DepthBuffer::new();
    let plots = draw_line_horizontal(&mut buffer, &span(0, 0, &[]), Draw::Pixels);
    assert_eq!(plots, Vec::<Option<Point>>::new());
    assert!(untouched(&buffer));
}

#[test]
fn span_at_the_end_of_the_coordinate_range() {
    let mut buffer = DepthBuffer::new();
    let plots = draw_line_horizontal(&mut buffer, &span(0, i32::MAX, &[1, 1, 1]), Draw::Pixels);
    assert_eq!(plots, vec![None, None, None]);
    let plots = draw_line_horizontal(&mut buffer, &span(i32::MIN, i32::MIN, &[1, 1]), Draw::Pixels);
    assert_eq!(plots, vec![None, None]);
    assert!(untouched(&buffer));
}

#[test]
fn span_off_canvas_draws_nothing_and_leaves_depth_alone() {
    let mut buffer = DepthBuffer::new();
    buffer.plot(Point::new(0, 0), 3);
    let above = draw_line_horizontal(&mut buffer, &span(321, -1, &[9, 9, 9]), Draw::Pixels);
    let below = draw_line_horizontal(&mut buffer, &span(-320, -1, &[9, 9, 9]), Draw::Depths);
    let right = draw_line_horizontal(&mut buffer, &span(0, 320, &[9, 9, 9]), Draw::Pixels);
    let left = draw_line_horizontal(&mut buffer, &span(0, -323, &[9, 9, 9]), Draw::Pixels);
    assert_eq!(above, vec![None, None, None]);
    assert_eq!(below, vec![None, None, None]);
    assert_eq!(right, vec![None, None, None]);
    assert_eq!(left, vec![None, None, None]);
    assert_eq!(buffer.depth_at(320, 320), Some(3));
    buffer = DepthBuffer::new();
    draw_line_horizontal(&mut buffer, &span(321, -1, &[9, 9, 9]), Draw::Pixels);
    assert!(untouched(&buffer));
}

#[test]
fn triangle_off_canvas_draws_nothing_and_leaves_depth_alone() {
    let mut buffer = DepthBuffer::new();
    let spans = vec![
        span(400, -5, &[9]),
        span(399, -5, &[9, 9]),
        span(398, -5, &[9, 9, 9]),
        span(397, -5, &[9, 9]),
    ];
    let plots = fill_triangle(&mut buffer, &spans, Draw::Pixels);
    assert_eq!(
        plots,
        vec![vec![None], vec![None, None], vec![None, None, None], vec![None, None]]
    );
    assert!(untouched(&buffer));
}

#[test]
fn wireframe_span_never_touches_depth() {
    let mut buffer = DepthBuffer::new();
    let plots = draw_line_horizontal(&mut buffer, &span(0, 0, &[9, 9, 9]), Draw::Wireframe);
    assert_eq!(plots, vec![None, None, None]);
    assert!(untouched(&buffer));
}

#[test]
fn wireframe_triangle_never_touches_depth() {
    let mut buffer = DepthBuffer::new();
    let spans = vec![span(1, 0, &[9]), span(0, 0, &[9, 9]), span(-1, 0, &[9, 9, 9])];
    let plots = fill_triangle(&mut buffer, &spans, Draw::Wireframe);
    assert_eq!(plots, vec![vec![None], vec![None, None], vec![None, None, None]]);
    assert!(untouched(&buffer));
    let filled = fill_triangle(&mut buffer, &spans, Draw::Pixels);
    assert_eq!(filled[2][2], Some(Point { x: 322, y: 321 }));
    assert_eq!(buffer.depth_at(322, 321), Some(9));
}

#[test]
fn triangle_fills_its_spans_in_order() {
    let mut buffer = DepthBuffer::new();
    let spans = vec![span(2, 0, &[5, 5]), span(1, 0, &[5, 5]), span(2, 1, &[4, 6])];
    let plots = fill_triangle(&mut buffer, &spans, Draw::Pixels);
    assert_eq!(
        plots,
        vec![
            vec![Some(Point { x: 320, y: 318 }), Some(Point { x: 321, y: 318 })],
            vec![Some(Point { x: 320, y: 319 }), Some(Point { x: 321, y: 319 })],
            vec![None, Some(Point { x: 322, y: 318 })],
        ]
    );
    assert_eq!(buffer.depth_at(320, 318), Some(5));
    assert_eq!(buffer.depth_at(321, 318), Some(5));
    assert_eq!(buffer.depth_at(322, 318), Some(6));
}

#[test]
fn empty_triangle_does_nothing() {
    let mut buffer = DepthBuffer::new();
    let plots = fill_triangle(&mut buffer, &Vec::new(), Draw::Pixels);
    assert_eq!(plots, Vec::<Vec<Option<Point>>>::new());
    assert!(untouched(&buffer));
}

#[test]
fn overlapping_triangles_keep_the_nearer_surface_in_either_order() {
    let near = vec![span(0, 0, &[8, 8, 8])];
    let far = vec![span(0, 1, &[3, 3, 3])];

    let mut first = DepthBuffer::new();
    fill_triangle(&mut first, &near, Draw::Pixels);
    let late = fill_triangle(&mut first, &far, Draw::Pixels);
    assert_eq!(late, vec![vec![None, None, Some(Point { x: 323, y: 320 })]]);

    let mut second = DepthBuffer::new();
    fill_triangle(&mut second, &far, Draw::Pixels);
    let late = fill_triangle(&mut second, &near, Draw::Pixels);
    assert_eq!(
        late,
        vec![vec![
            Some(Point { x: 320, y: 320 }),
            Some(Point { x: 321, y: 320 }),
            Some(Point { x: 322, y: 320 })
        ]]
    );

    for x in 319..325i32 {
        assert_eq!(first.depth_at(x, 320), second.depth_at(x, 320));
    }
    assert_eq!(first.depth_at(320, 320), Some(8));
    assert_eq!(first.depth_at(321, 320), Some(8));
    assert_eq!(first.depth_at(322, 320), Some(8));
    assert_eq!(first.depth_at(323, 320), Some(3));
    assert_eq!(first.depth_at(324, 320), Some(0));
}

#[test]
fn sort_by_y_orders_every_arrangement() {
    assert_eq!(sort_by_y([1, 2, 3]), [0, 1, 2]);
    assert_eq!(sort_by_y([1, 3, 2]), [0, 2, 1]);
    assert_eq!(sort_by_y([2, 1, 3]), [1, 0, 2]);
    assert_eq!(sort_by_y([2, 3, 1]), [2, 0, 1]);
    assert_eq!(sort_by_y([3, 1, 2]), [1, 2, 0]);
    assert_eq!(sort_by_y([3, 2, 1]), [2, 1, 0]);
}

#[test]
fn sort_by_y_keeps_equal_keys_in_place() {
    assert_eq!(sort_by_y([5, 5, 5]), [0, 1, 2]);
    assert_eq!(sort_by_y([5, 5, 1]), [2, 0, 1]);
    assert_eq!(sort_by_y([5, 1, 5]), [1, 0, 2]);
    assert_eq!(sort_by_y([1, 5, 5]), [0, 1, 2]);
    assert_eq!(sort_by_y([5, 1, 1]), [1, 2, 0]);
    assert_eq!(sort_by_y([1, 5, 1]), [0, 2, 1]);
    assert_eq!(sort_by_y([1, 1, 5]), [0, 1, 2]);
}

#[test]
fn sort_by_y_agrees_with_a_stable_sort() {
    let values = [i32::MIN, -1, 0, 7, i32::MAX];
    for a in values.iter() {
        for b in values.iter() {
            for c in values.iter() {
                let keys = [*a, *b, *c];
                let mut expected = [0usize, 1, 2];
                expected.sort_by_key(|i| keys[*i]);
                assert_eq!(sort_by_y(keys), expected);
            }
        }
    }
}

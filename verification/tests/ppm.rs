use ray_tracer::ppm::{encode, push_header, push_pixel, Pixel};

fn px(r: u32, g: u32, b: u32) -> Pixel {
    Pixel { r, g, b }
}

#[test]
fn header_names_format_size_and_range() {
    let mut out = Vec::new();
    push_header(&mut out, 200, 100);
    assert_eq!(out, b"P3\n200 100\n255\n".to_vec());
    let mut out = b"# ".to_vec();
    push_header(&mut out, 0, 4294967295);
    assert_eq!(out, b"# P3\n0 4294967295\n255\n".to_vec());
}

#[test]
fn pixel_is_one_line_of_three_numbers() {
    let mut out = Vec::new();
    push_pixel(&mut out, px(0, 9, 10));
    push_pixel(&mut out, px(99, 100, 255));
    assert_eq!(out, b"0 9 10\n99 100 255\n".to_vec());
}

#[test]
fn channel_above_the_range_is_written_as_the_largest() {
    let mut out = Vec::new();
    push_pixel(&mut out, px(256, 383, 4294967295));
    assert_eq!(out, b"255 255 255\n".to_vec());
}

#[test]
fn picture_is_head_and_lines() {
    let pixels = vec![px(1, 2, 3), px(40, 50, 60), px(255, 0, 128), px(7, 7, 7), px(0, 0, 0), px(300, 1, 1)];
    assert_eq!(
        encode(3, 2, &pixels),
        Some(b"P3\n3 2\n255\n1 2 3\n40 50 60\n255 0 128\n7 7 7\n0 0 0\n255 1 1\n".to_vec())
    );
    assert_eq!(
        encode(2, 3, &pixels),
        Some(b"P3\n2 3\n255\n1 2 3\n40 50 60\n255 0 128\n7 7 7\n0 0 0\n255 1 1\n".to_vec())
    );
    assert_eq!(encode(0, 0, &Vec::new()), Some(b"P3\n0 0\n255\n".to_vec()));
    assert_eq!(encode(0, 17, &Vec::new()), Some(b"P3\n0 17\n255\n".to_vec()));
}

#[test]
fn picture_needs_as_many_elements_as_its_size_says() {
    let pixels = vec![px(1, 2, 3), px(40, 50, 60), px(255, 0, 128)];
    assert_eq!(encode(2, 2, &pixels), None);
    assert_eq!(encode(1, 2, &pixels), None);
    assert_eq!(encode(0, 0, &pixels), None);
    assert_eq!(encode(65536, 65536, &pixels), None);
    assert_eq!(encode(4294967295, 4294967295, &pixels), None);
    assert_eq!(encode(1, 1, &Vec::new()), None);
}

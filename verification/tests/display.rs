use chip_8::display::{Display, Pixel, HEIGHT, PIXEL_COUNT, WIDTH};

#[test]
fn clear() {
    let mut display = Display::new();

    display.set_pixel(1, 1, Pixel::On);
    assert_eq!(display.is_pixel_set(1, 1), true);
    display.clear_screen();

    assert_eq!(Pixel::Off, display.get_pixel(1, 1));
}

#[test]
fn set_pixel() {
    let mut display = Display::new();

    display.set_pixel(0, 0, Pixel::On);
}

#[test]
fn draw() {
    let mut display = Display::new();

    let sprite: [u8; 2] = [0b00110011, 0b11001010];

    display.draw(0, 0, &sprite);

    assert_eq!(Pixel::Off, display.get_pixel(0, 0));
    assert_eq!(Pixel::Off, display.get_pixel(1, 0));
    assert_eq!(Pixel::On, display.get_pixel(2, 0));
    assert_eq!(Pixel::On, display.get_pixel(3, 0));
    assert_eq!(Pixel::Off, display.get_pixel(4, 0));
    assert_eq!(Pixel::Off, display.get_pixel(5, 0));
    assert_eq!(Pixel::On, display.get_pixel(6, 0));
    assert_eq!(Pixel::On, display.get_pixel(7, 0));

    assert_eq!(Pixel::On, display.get_pixel(0, 1));
    assert_eq!(Pixel::On, display.get_pixel(1, 1));
    assert_eq!(Pixel::Off, display.get_pixel(2, 1));
    assert_eq!(Pixel::Off, display.get_pixel(3, 1));
    assert_eq!(Pixel::On, display.get_pixel(4, 1));
    assert_eq!(Pixel::Off, display.get_pixel(5, 1));
    assert_eq!(Pixel::On, display.get_pixel(6, 1));
    assert_eq!(Pixel::Off, display.get_pixel(7, 1));
}

#[test]
fn draw_detects_collisions() {
    let mut display = Display::new();

    let mut sprite: [u8; 1] = [0b00110000];
    let mut collision = display.draw(0, 0, &sprite);
    assert_eq!(false, collision);

    sprite = [0b00000011];
    collision = display.draw(0, 0, &sprite);
    assert_eq!(false, collision);

    sprite = [0b00000001];
    collision = display.draw(0, 0, &sprite);
    assert_eq!(true, collision);
}

fn lit(display: &Display) -> Vec<(usize, usize)> {
    let mut on = Vec::new();
    for y in 0..HEIGHT {
        for x in 0..WIDTH {
            if display.is_pixel_set(x, y) {
                on.push((x, y));
            }
        }
    }
    on
}

#[test]
fn new_and_default_are_dark() {
    assert_eq!(Display::new().get_video_mem(), &[0u8; PIXEL_COUNT]);
    assert_eq!(Display::default().get_video_mem(), &[0u8; PIXEL_COUNT]);
}

#[test]
fn pixel_conversions() {
    assert_eq!(Pixel::from(0), Pixel::Off);
    assert_eq!(Pixel::from(1), Pixel::On);
    assert_eq!(Pixel::from(200), Pixel::On);
    assert_eq!(Pixel::Off.as_bit(), 0);
    assert_eq!(Pixel::On.as_bit(), 1);
}

#[test]
fn video_memory_is_row_major() {
    let mut display = Display::new();
    display.set_pixel(3, 2, Pixel::On);
    display.set_pixel(63, 31, Pixel::On);
    let memory = display.get_video_mem();
    assert_eq!(memory[3 + 2 * 64], 1);
    assert_eq!(memory[2047], 1);
    assert_eq!(memory.iter().filter(|cell| **cell != 0).count(), 2);
    display.set_pixel(3, 2, Pixel::Off);
    assert_eq!(display.get_video_mem()[3 + 2 * 64], 0);
}

#[test]
fn zero_bits_leave_pixels_alone() {
    let mut display = Display::new();
    display.set_pixel(0, 0, Pixel::On);
    display.set_pixel(1, 0, Pixel::On);
    let collided = display.draw(0, 0, &[0b0100_0000]);
    assert!(collided);
    assert_eq!(lit(&display), vec![(0, 0)]);
}

#[test]
fn draw_wraps_around_both_edges() {
    let mut display = Display::new();
    let collided = display.draw(62, 31, &[0b1111_0000, 0b1000_0001]);
    assert!(!collided);
    assert_eq!(
        lit(&display),
        vec![(5, 0), (62, 0), (0, 31), (1, 31), (62, 31), (63, 31)]
    );
}

#[test]
fn draw_wraps_its_origin() {
    let mut a = Display::new();
    let mut b = Display::new();
    a.draw(64 + 5, 32 * 3 + 7, &[0xA5, 0x3C]);
    b.draw(5, 7, &[0xA5, 0x3C]);
    assert_eq!(a.get_video_mem(), b.get_video_mem());
    assert_eq!(lit(&a).len(), 8);

    let mut c = Display::new();
    c.draw(usize::MAX, usize::MAX, &[0xFF, 0xFF]);
    let origin_x = usize::MAX % 64;
    let origin_y = usize::MAX % 32;
    for (x, y) in lit(&c) {
        assert!((x + 64 - origin_x) % 64 < 8);
        assert!((y + 32 - origin_y) % 32 < 2);
    }
    assert_eq!(lit(&c).len(), 16);
}

#[test]
fn drawing_twice_restores_the_screen() {
    let mut display = Display::new();
    display.draw(10, 10, &[0xFF, 0x81, 0xFF]);
    let before = *display.get_video_mem();
    let sprite = [0x3C, 0x7E, 0xDB, 0xFF];
    let first = display.draw(12, 9, &sprite);
    assert!(first);
    assert_ne!(display.get_video_mem(), &before);
    let second = display.draw(12, 9, &sprite);
    assert!(second);
    assert_eq!(display.get_video_mem(), &before);
}

#[test]
fn redraw_collides_where_first_draw_set_a_pixel() {
    let mut display = Display::new();
    assert!(!display.draw(0, 0, &[0x80]));
    assert!(display.draw(0, 0, &[0x80]));
    assert_eq!(lit(&display), vec![]);
    assert!(!display.draw(0, 0, &[0x00]));
    assert!(!display.draw(0, 0, &[0x00]));
}

#[test]
fn sprite_taller_than_the_screen_wraps_onto_itself() {
    let mut display = Display::new();
    let mut sprite = [0u8; 33];
    sprite[0] = 0x80;
    sprite[32] = 0xC0;
    let collided = display.draw(0, 0, &sprite);
    assert!(collided);
    assert_eq!(lit(&display), vec![(1, 0)]);
}

#[test]
fn empty_sprite_draws_nothing() {
    let mut display = Display::new();
    display.set_pixel(5, 5, Pixel::On);
    assert!(!display.draw(5, 5, &[]));
    assert_eq!(lit(&display), vec![(5, 5)]);
}

#[test]
fn rgb_rendering_colors_each_pixel() {
    let mut display = Display::new();
    display.set_pixel(1, 0, Pixel::On);
    display.set_pixel(63, 31, Pixel::On);
    let front = [10, 20, 30];
    let back = [1, 2, 3];
    let rgb = display.to_rgb24(front, back);
    assert_eq!(rgb.len(), 3 * PIXEL_COUNT);
    assert_eq!(&rgb[0..9], &[1, 2, 3, 10, 20, 30, 1, 2, 3]);
    assert_eq!(&rgb[3 * 2047..], &[10, 20, 30]);
    for (p, color) in rgb.chunks(3).enumerate() {
        let expected = if p == 1 || p == 2047 { front } else { back };
        assert_eq!(color, &expected);
    }
}

#[test]
fn pixel_access_is_direct_indexing() {
    let mut display = Display::new();
    display.set_pixel(70, 0, Pixel::On);
    assert!(display.is_pixel_set(6, 1));
    assert_eq!(display.get_pixel(70, 0), Pixel::On);
    assert_eq!(display.get_video_mem()[70], 1);
}

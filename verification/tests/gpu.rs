use aprk_kernel::gpu::{
    draw_boot_screen, draw_logo, draw_pixel, draw_progress, fill_rect, logo_layout,
    progress_glow, update_progress, Glow, LogoLayout, BAR_HEIGHT, BAR_WIDTH,
};

fn screen(width: u32, height: u32, fill: u8) -> Vec<u8> {
    vec![fill; (width * height * 4) as usize]
}

fn pixel(fb: &[u8], width: u32, x: u32, y: u32) -> [u8; 4] {
    let i = ((y * width + x) * 4) as usize;
    [fb[i], fb[i + 1], fb[i + 2], fb[i + 3]]
}

/// A bitmap file of 24 bits a pixel; `rows` holds the rows in file order.
fn bitmap(columns: i32, stored_rows: i32, rows: &[Vec<(u8, u8, u8)>]) -> Vec<u8> {
    let mut d = vec![0u8; 54];
    d[0] = b'B';
    d[1] = b'M';
    d[10..14].copy_from_slice(&54u32.to_le_bytes());
    d[14..18].copy_from_slice(&40u32.to_le_bytes());
    d[18..22].copy_from_slice(&columns.to_le_bytes());
    d[22..26].copy_from_slice(&stored_rows.to_le_bytes());
    d[28..30].copy_from_slice(&24u16.to_le_bytes());
    for row in rows {
        let mut bytes = Vec::new();
        for (r, g, b) in row {
            bytes.extend([*b, *g, *r]);
        }
        while bytes.len() % 4 != 0 {
            bytes.push(0);
        }
        d.extend(bytes);
    }
    d
}

#[test]
fn pixel_is_stored_blue_green_red_opaque() {
    let mut fb = screen(4, 3, 7);
    draw_pixel(&mut fb, 4, 3, 2, 1, (10, 20, 30));
    assert_eq!(pixel(&fb, 4, 2, 1), [30, 20, 10, 255]);
    for y in 0..3 {
        for x in 0..4 {
            if (x, y) != (2, 1) {
                assert_eq!(pixel(&fb, 4, x, y), [7, 7, 7, 7]);
            }
        }
    }
}

#[test]
fn pixel_off_the_screen_is_left_out() {
    let mut fb = screen(4, 3, 7);
    draw_pixel(&mut fb, 4, 3, 4, 0, (1, 2, 3));
    draw_pixel(&mut fb, 4, 3, 0, 3, (1, 2, 3));
    draw_pixel(&mut fb, 4, 3, u32::MAX, u32::MAX, (1, 2, 3));
    assert_eq!(fb, screen(4, 3, 7));
    let mut none: Vec<u8> = Vec::new();
    draw_pixel(&mut none, 0, 0, 0, 0, (1, 2, 3));
    draw_pixel(&mut none, 0, 5, 0, 0, (1, 2, 3));
    assert!(none.is_empty());
}

#[test]
fn rectangle_is_filled() {
    let mut fb = screen(8, 6, 0);
    fill_rect(&mut fb, 8, 6, 2, 1, 3, 2, (200, 100, 50));
    for y in 0..6 {
        for x in 0..8 {
            let inside = (2..5).contains(&x) && (1..3).contains(&y);
            let expected = if inside { [50, 100, 200, 255] } else { [0, 0, 0, 0] };
            assert_eq!(pixel(&fb, 8, x, y), expected);
        }
    }
}

#[test]
fn rectangle_is_clipped_at_the_screen() {
    let mut fb = screen(5, 4, 9);
    fill_rect(&mut fb, 5, 4, 3, 2, 10, 10, (1, 2, 3));
    for y in 0..4 {
        for x in 0..5 {
            let inside = x >= 3 && y >= 2;
            let expected = if inside { [3, 2, 1, 255] } else { [9, 9, 9, 9] };
            assert_eq!(pixel(&fb, 5, x, y), expected);
        }
    }
    let before = fb.clone();
    fill_rect(&mut fb, 5, 4, 5, 0, 3, 3, (0, 0, 0));
    fill_rect(&mut fb, 5, 4, 0, 4, 3, 3, (0, 0, 0));
    fill_rect(&mut fb, 5, 4, 1, 1, 0, 3, (0, 0, 0));
    fill_rect(&mut fb, 5, 4, 1, 1, 3, 0, (0, 0, 0));
    fill_rect(&mut fb, 5, 4, u32::MAX, u32::MAX, 2, 2, (0, 0, 0));
    assert_eq!(fb, before);
}

#[test]
fn layout_centres_the_logo_and_raises_it() {
    let logo = bitmap(100, 40, &[]);
    let mut file = logo.clone();
    file.push(0);
    let l = logo_layout(&file, 640, 480);
    assert_eq!(
        l,
        LogoLayout {
            data_offset: 54,
            columns: 100,
            rows: 40,
            bottom_up: true,
            row_size: 300,
            x_off: 270,
            y_off: 170,
        }
    );
}

#[test]
fn layout_of_a_top_down_bitmap_wider_than_the_screen() {
    let mut file = bitmap(101, -7, &[]);
    file.push(0);
    let l = logo_layout(&file, 80, 60);
    assert_eq!(l.columns, 101);
    assert_eq!(l.rows, 7);
    assert!(!l.bottom_up);
    // 303 bytes of pixels, padded to whole words
    assert_eq!(l.row_size, 304);
    // half of -21, rounded towards zero
    assert_eq!(l.x_off, -10);
    assert_eq!(l.y_off, 26 - 50);
}

#[test]
fn logo_is_drawn_with_its_last_stored_row_on_top() {
    let red = (255, 0, 0);
    let green = (0, 255, 0);
    let blue = (0, 0, 255);
    let white = (255, 255, 255);
    // stored bottom row first
    let file = bitmap(2, 2, &[vec![blue, white], vec![red, green]]);
    let mut fb = screen(4, 4, 1);
    let l = LogoLayout {
        data_offset: 54,
        columns: 2,
        rows: 2,
        bottom_up: true,
        row_size: 8,
        x_off: 1,
        y_off: 1,
    };
    draw_logo(&mut fb, 4, 4, &file, &l);
    assert_eq!(pixel(&fb, 4, 1, 1), [0, 0, 255, 255]);
    assert_eq!(pixel(&fb, 4, 2, 1), [0, 255, 0, 255]);
    assert_eq!(pixel(&fb, 4, 1, 2), [255, 0, 0, 255]);
    assert_eq!(pixel(&fb, 4, 2, 2), [255, 255, 255, 255]);
    assert_eq!(pixel(&fb, 4, 0, 0), [1, 1, 1, 1]);
    assert_eq!(pixel(&fb, 4, 3, 3), [1, 1, 1, 1]);
    assert_eq!(pixel(&fb, 4, 3, 1), [1, 1, 1, 1]);
}

#[test]
fn dark_logo_pixels_are_left_out() {
    // brightness 9 and 10
    let file = bitmap(2, -1, &[vec![(9, 9, 11), (10, 10, 10)]]);
    let mut fb = screen(2, 1, 77);
    let l = LogoLayout {
        data_offset: 54,
        columns: 2,
        rows: 1,
        bottom_up: false,
        row_size: 8,
        x_off: 0,
        y_off: 0,
    };
    draw_logo(&mut fb, 2, 1, &file, &l);
    assert_eq!(pixel(&fb, 2, 0, 0), [77, 77, 77, 77]);
    assert_eq!(pixel(&fb, 2, 1, 0), [10, 10, 10, 255]);
}

#[test]
fn logo_pixels_past_the_end_of_the_file_are_left_out() {
    let mut file = bitmap(2, -2, &[vec![(50, 50, 50), (60, 60, 60)], vec![(70, 70, 70), (80, 80, 80)]]);
    // cut in the last pixel
    file.truncate(54 + 8 + 5);
    let mut fb = screen(2, 2, 0);
    let l = LogoLayout {
        data_offset: 54,
        columns: 2,
        rows: 2,
        bottom_up: false,
        row_size: 8,
        x_off: 0,
        y_off: 0,
    };
    draw_logo(&mut fb, 2, 2, &file, &l);
    assert_eq!(pixel(&fb, 2, 0, 0), [50, 50, 50, 255]);
    assert_eq!(pixel(&fb, 2, 1, 0), [60, 60, 60, 255]);
    assert_eq!(pixel(&fb, 2, 0, 1), [70, 70, 70, 255]);
    assert_eq!(pixel(&fb, 2, 1, 1), [0, 0, 0, 0]);
}

#[test]
fn logo_partly_off_the_screen_is_clipped() {
    let row = vec![(100, 100, 100); 4];
    let file = bitmap(4, -1, &[row]);
    let mut fb = screen(3, 2, 0);
    let l = LogoLayout {
        data_offset: 54,
        columns: 4,
        rows: 1,
        bottom_up: false,
        row_size: 12,
        x_off: -2,
        y_off: 1,
    };
    draw_logo(&mut fb, 3, 2, &file, &l);
    assert_eq!(pixel(&fb, 3, 0, 1), [100, 100, 100, 255]);
    assert_eq!(pixel(&fb, 3, 1, 1), [100, 100, 100, 255]);
    assert_eq!(pixel(&fb, 3, 2, 1), [0, 0, 0, 0]);
    assert_eq!(pixel(&fb, 3, 0, 0), [0, 0, 0, 0]);
}

#[test]
fn boot_screen_draws_logo_and_track() {
    let (width, height) = (320u32, 200u32);
    let rows: Vec<Vec<(u8, u8, u8)>> = (0..4).map(|_| vec![(200, 150, 100); 8]).collect();
    let file = bitmap(8, 4, &rows);
    let mut fb = screen(width, height, 3);
    draw_boot_screen(&mut fb, width, height, &file);
    // the logo: centred, fifty rows above the centre
    let (x_off, y_off) = ((320 - 8) / 2, (200 - 4) / 2 - 50);
    assert_eq!((x_off, y_off), (156, 48));
    for y in 0..height {
        for x in 0..width {
            let in_logo = (x_off..x_off + 8).contains(&x) && (y_off..y_off + 4).contains(&y);
            let in_track = (10..310).contains(&x) && (112..118).contains(&y);
            let expected = if in_logo {
                [100, 150, 200, 255]
            } else if in_track {
                [45, 40, 40, 255]
            } else {
                [3, 3, 3, 3]
            };
            assert_eq!(pixel(&fb, width, x, y), expected);
        }
    }
    assert_eq!((BAR_WIDTH, BAR_HEIGHT), (300, 6));
}

#[test]
fn boot_screen_without_a_bitmap_draws_nothing() {
    let mut fb = screen(320, 20, 3);
    draw_boot_screen(&mut fb, 320, 20, b"not a bitmap");
    assert_eq!(fb, screen(320, 20, 3));
    let mut no_magic = bitmap(2, 2, &[vec![(90, 90, 90); 2], vec![(90, 90, 90); 2]]);
    no_magic[1] = b'X';
    draw_boot_screen(&mut fb, 320, 20, &no_magic);
    assert_eq!(fb, screen(320, 20, 3));
    // headers alone are too short
    let short = bitmap(0, 0, &[]);
    assert_eq!(short.len(), 54);
    draw_boot_screen(&mut fb, 320, 20, &short);
    assert_eq!(fb, screen(320, 20, 3));
}

#[test]
fn boot_screen_on_a_narrow_screen_has_no_track() {
    let file = bitmap(1, 1, &[vec![(90, 90, 90)]]);
    let mut fb = screen(299, 200, 0);
    draw_boot_screen(&mut fb, 299, 200, &file);
    assert_eq!(pixel(&fb, 299, 149, 49), [90, 90, 90, 255]);
    let painted = fb.chunks(4).filter(|p| p[3] == 255).count();
    assert_eq!(painted, 1);
}

#[test]
fn progress_only_grows_and_stops_at_a_hundred() {
    let mut current = 0;
    assert_eq!(update_progress(&mut current, 0), None);
    assert_eq!(update_progress(&mut current, 30), Some((0, 30)));
    assert_eq!(current, 30);
    assert_eq!(update_progress(&mut current, 30), None);
    assert_eq!(update_progress(&mut current, 10), None);
    assert_eq!(current, 30);
    assert_eq!(update_progress(&mut current, 250), Some((30, 100)));
    assert_eq!(current, 100);
    assert_eq!(update_progress(&mut current, 100), None);
    assert_eq!(update_progress(&mut current, u32::MAX), None);
    assert_eq!(current, 100);
}

#[test]
fn progress_bar_grows_with_the_percentage() {
    let (width, height) = (640u32, 800u32);
    // under a logo of 558 rows: (800 - 558) / 2 - 50 + 558 + 60
    let row = 689;
    let mut fb = screen(width, height, 0);
    draw_progress(&mut fb, width, height, 50);
    for y in 0..height {
        for x in 0..width {
            let inside = (170..170 + 150).contains(&x) && (row..row + 6).contains(&y);
            let expected = if inside { [255, 255, 255, 255] } else { [0, 0, 0, 0] };
            assert_eq!(pixel(&fb, width, x, y), expected);
        }
    }
    draw_progress(&mut fb, width, height, 100);
    assert_eq!(pixel(&fb, width, 469, row), [255, 255, 255, 255]);
    assert_eq!(pixel(&fb, width, 470, row), [0, 0, 0, 0]);
    let mut empty = screen(width, height, 0);
    draw_progress(&mut empty, width, height, 0);
    assert_eq!(empty, screen(width, height, 0));
}

#[test]
fn progress_bar_below_a_short_screen_is_left_out() {
    // the row comes out as (100 - 558) / 2 - 50 + 558 + 60 = 339
    let mut fb = screen(400, 100, 0);
    draw_progress(&mut fb, 400, 100, 80);
    assert_eq!(fb, screen(400, 100, 0));
    let mut narrow = screen(200, 800, 0);
    draw_progress(&mut narrow, 200, 800, 80);
    assert_eq!(narrow, screen(200, 800, 0));
}

#[test]
fn glow_sits_at_the_tip_of_a_growing_bar() {
    let alphas = [64, 32, 21, 16, 12, 10, 9];
    for (i, a) in alphas.iter().enumerate() {
        assert_eq!(*a as u32, 128 / ((i as u32 + 1) * 2));
    }
    // row 689 is the bar's first row on a screen of 800 rows
    assert_eq!(progress_glow(640, 800, 50), Some(Glow { x: 170 + 150, y: 692, alphas }));
    assert_eq!(progress_glow(640, 800, 1), Some(Glow { x: 173, y: 692, alphas }));
    assert_eq!(progress_glow(640, 800, 99), Some(Glow { x: 170 + 297, y: 692, alphas }));
    assert_eq!(progress_glow(300, 800, 10), Some(Glow { x: 30, y: 692, alphas }));
}

#[test]
fn an_empty_or_full_bar_does_not_glow() {
    assert_eq!(progress_glow(640, 800, 0), None);
    assert_eq!(progress_glow(640, 800, 100), None);
    assert_eq!(progress_glow(299, 800, 50), None);
}

use moonshine_tray::icon::{coverage, crescent, render, Icon, BODY, MAX_SIZE, NOTCH, SIZES, SUPERSAMPLES};

/// Alpha, red, green and blue of the pixel at the given fraction of the icon.
fn pixel_at(icon: &Icon, x_fraction: f32, y_fraction: f32) -> (u8, u8, u8, u8) {
    let x = (x_fraction * icon.width as f32) as i32;
    let y = (y_fraction * icon.height as f32) as i32;
    let offset = ((y * icon.width + x) * 4) as usize;

    (
        icon.data[offset],
        icon.data[offset + 1],
        icon.data[offset + 2],
        icon.data[offset + 3],
    )
}

/// A length in thousandths of the icon size, as a fraction of it.
fn fraction(thousandths: i64) -> f32 {
    thousandths as f32 / 1000.0
}

#[test]
fn renders_every_requested_size() {
    let icons = crescent(0x3fb950);
    assert_eq!(icons.len(), SIZES.len());

    for (icon, &size) in icons.iter().zip(SIZES.iter()) {
        assert_eq!(icon.width, size);
        assert_eq!(icon.height, size);
        assert_eq!(icon.data.len(), (size * size * 4) as usize);
    }
}

#[test]
fn the_limb_of_the_crescent_is_opaque_and_carries_the_colour() {
    let icon = &crescent(0x3fb950)[3];
    assert_eq!(pixel_at(icon, 0.12, 0.5), (255, 0x3f, 0xb9, 0x50));
}

#[test]
fn the_notch_is_transparent() {
    let icon = &crescent(0x3fb950)[3];
    assert_eq!(pixel_at(icon, fraction(NOTCH.0), fraction(NOTCH.1)).0, 0);
}

#[test]
fn the_corners_are_transparent() {
    let icon = &crescent(0x3fb950)[3];
    assert_eq!(pixel_at(icon, 0.0, 0.0).0, 0);
    assert_eq!(pixel_at(icon, 0.98, 0.98).0, 0);
}

#[test]
fn edges_are_antialiased_rather_than_hard() {
    let icon = &crescent(0x3fb950)[3];
    let partial = icon.data.iter().step_by(4).filter(|&&alpha| alpha > 0 && alpha < 255);
    assert!(partial.count() > 0, "no partially covered pixels, so no antialiasing");
}

#[test]
fn the_crescent_comes_in_the_usual_panel_sizes() {
    assert_eq!(SIZES, [22, 24, 32, 48]);
    assert_eq!(BODY, (500, 500, 420));
    assert_eq!(NOTCH, (690, 438, 390));
    assert!(MAX_SIZE.checked_mul(4 * MAX_SIZE).is_some());
    assert!((MAX_SIZE + 1).checked_mul(4 * (MAX_SIZE + 1)).is_none());
}

/// Whether a point in unit coordinates falls inside the given (centre x, centre y, radius).
fn within(x: f32, y: f32, circle: (f32, f32, f32)) -> bool {
    let (centre_x, centre_y, radius) = circle;
    let (dx, dy) = (x - centre_x, y - centre_y);

    dx * dx + dy * dy <= radius * radius
}

/// Opacity of a pixel, worked out in floating point.
fn opacity(x: i32, y: i32, size: i32) -> u8 {
    let samples = SUPERSAMPLES as i32;
    let mut inside = 0;
    for sample_y in 0..samples {
        for sample_x in 0..samples {
            let offset = |i: i32| (i as f32 + 0.5) / samples as f32;
            let point_x = (x as f32 + offset(sample_x)) / size as f32;
            let point_y = (y as f32 + offset(sample_y)) / size as f32;
            if within(point_x, point_y, (0.5, 0.5, 0.42))
                && !within(point_x, point_y, (0.69, 0.438, 0.39))
            {
                inside += 1;
            }
        }
    }
    (inside as f32 / (samples * samples) as f32 * 255.0).round() as u8
}

#[test]
fn every_pixel_of_every_size_agrees_with_floating_point() {
    for icon in crescent(0x123456) {
        for y in 0..icon.height {
            for x in 0..icon.width {
                let at = ((y * icon.width + x) * 4) as usize;
                assert_eq!(
                    icon.data[at..at + 4],
                    [opacity(x, y, icon.width), 0x12, 0x34, 0x56],
                    "pixel ({x}, {y}) at size {}",
                    icon.width
                );
            }
        }
    }
}

#[test]
fn other_sizes_agree_with_floating_point_too() {
    for size in 1..=64 {
        let icon = render(size, 0);
        for y in 0..size {
            for x in 0..size {
                let at = ((y * size + x) * 4) as usize;
                assert_eq!(icon.data[at], opacity(x, y, size), "pixel ({x}, {y}) at size {size}");
            }
        }
    }
}

#[test]
fn an_icon_exists_at_whatever_size_is_asked_for() {
    let icon = render(0, 0x3fb950);
    assert_eq!((icon.width, icon.height, icon.data.len()), (0, 0, 0));
    let icon = render(-3, 0x3fb950);
    assert_eq!((icon.width, icon.height, icon.data.len()), (-3, -3, 0));
    let icon = render(96, 0xff3fb950);
    assert_eq!((icon.width, icon.height, icon.data.len()), (96, 96, 4 * 96 * 96));
    assert_eq!(pixel_at(&icon, 0.12, 0.5), (255, 0x3f, 0xb9, 0x50));
    assert_eq!(pixel_at(&icon, 0.0, 0.0), (0, 0x3f, 0xb9, 0x50));
}

#[test]
fn coverage_counts_samples() {
    assert_eq!(coverage(0, 0, 1), 5);
    assert_eq!(coverage(0, 0, 48), 0);
    assert_eq!(coverage(6, 24, 48), 16);
    assert_eq!(coverage(-1, 0, 48), 0);
    assert_eq!(coverage(48, 24, 48), 0);
    assert_eq!(coverage(i32::MAX / 8, i32::MAX / 2, i32::MAX), 16);
    assert_eq!(coverage(i32::MIN, i32::MAX, i32::MAX), 0);
}

#[test]
fn bitmaps_of_different_colours_differ() {
    let (green, blue) = (crescent(0x3fb950), crescent(0x3d8bfd));
    for (a, b) in green.iter().zip(blue.iter()) {
        assert_ne!(a.data, b.data);
    }
}

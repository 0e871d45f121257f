use walnut::Sensor;

type Rgb = (f32, f32, f32);

fn zero(width: usize, height: usize) -> Sensor<Rgb> {
    Sensor::constant((0.0, 0.0, 0.0), width, height)
}

#[test]
fn rejects_outside() {
    let sensor = zero(10, 20);
    assert!(!sensor.inside(10, 10));
    assert!(!sensor.inside(5, 20));
    assert!(sensor.inside(5, 10));

    assert!(sensor.get(10, 10).is_none());
    assert!(sensor.get(5, 20).is_none());
    assert!(sensor.get(0, 20).is_none());
    assert!(sensor.get(10, 0).is_none());
    assert!(sensor.get(5, 10).is_some());
    assert!(sensor.get(9, 19).is_some());
    assert!(sensor.get(0, 0).is_some());
    assert!(sensor.get(9, 0).is_some());
    assert!(sensor.get(0, 19).is_some());
}

#[test]
fn clears() {
    let mut sensor = Sensor::constant((1.0f32, 1.0f32, 1.0f32), 10, 20);
    sensor.clear((0.0, 0.0, 0.0));

    for pixel in sensor.pixels() {
        let col = pixel.color;
        assert_eq!(col.0, 0.0);
        assert_eq!(col.1, 0.0);
        assert_eq!(col.2, 0.0);
    }
}

#[test]
fn inside_agrees_with_get_everywhere() {
    let sensor = zero(7, 3);
    for j in 0..6 {
        for i in 0..10 {
            assert_eq!(sensor.inside(i, j), sensor.get(i, j).is_some());
            if let Some(p) = sensor.get(i, j) {
                assert_eq!(p.position, (i, j));
            }
        }
    }
}

#[test]
fn pixels_are_row_major() {
    let sensor = zero(4, 3);
    assert_eq!(sensor.width(), 4);
    assert_eq!(sensor.height(), 3);
    let pixels = sensor.pixels();
    assert_eq!(pixels.len(), 12);
    assert_eq!(pixels[0].position, (0, 0));
    assert_eq!(pixels[3].position, (3, 0));
    assert_eq!(pixels[4].position, (0, 1));
    assert_eq!(pixels[2 * 4 + 1].position, (1, 2));
}

#[test]
fn get_mut_writes_one_pixel() {
    let mut sensor = Sensor::constant(0u32, 3, 2);
    *sensor.get_mut(2, 1).unwrap() = 9;
    assert!(sensor.get_mut(3, 0).is_none());
    assert!(sensor.get_mut(0, 2).is_none());
    assert_eq!(sensor.get(2, 1).unwrap().color, 9);
    assert_eq!(sensor.get(2, 1).unwrap().position, (2, 1));
    let total: u32 = sensor.pixels().iter().map(|p| p.color).sum();
    assert_eq!(total, 9);
    assert_eq!(sensor.pixels()[5].color, 9);
}

#[test]
fn empty_sensor_has_no_pixels() {
    let sensor = zero(0, 5);
    assert!(sensor.pixels().is_empty());
    assert!(sensor.get(0, 0).is_none());
    assert!(sensor.readout(|_| (1, 2, 3)).is_empty());
}

#[test]
fn readout_is_row_major_rgb() {
    let mut sensor = Sensor::constant((0u8, 0u8, 0u8), 2, 2);
    *sensor.get_mut(0, 0).unwrap() = (1, 2, 3);
    *sensor.get_mut(1, 0).unwrap() = (4, 5, 6);
    *sensor.get_mut(0, 1).unwrap() = (7, 8, 9);
    *sensor.get_mut(1, 1).unwrap() = (10, 11, 12);
    let bytes = sensor.readout(|c| *c);
    assert_eq!(bytes, vec![1, 2, 3, 4, 5, 6, 7, 8, 9, 10, 11, 12]);
}

#[test]
fn readout_applies_quantizer_per_pixel() {
    let mut sensor = Sensor::constant(0.0f32, 3, 1);
    *sensor.get_mut(1, 0).unwrap() = 0.5;
    *sensor.get_mut(2, 0).unwrap() = 1.0;
    let bytes = sensor.readout(|c| {
        let b = (c.clamp(0.0, 1.0) * 255.0) as u8;
        (b, b, b)
    });
    assert_eq!(bytes, vec![0, 0, 0, 127, 127, 127, 255, 255, 255]);
}

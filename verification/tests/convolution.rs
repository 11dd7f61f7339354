use rasterconv::engine::convolve;
use rasterconv::kernel::divisor_of;
use rasterconv::kernel::kernel_weight_at;
use rasterconv::Mode;
use rasterconv::Pixel;
use rasterconv::Raster;

fn gray(v: u8) -> Pixel {
    Pixel { r: v, g: v, b: v }
}

fn gray_raster(width: usize, height: usize, values: &[u8]) -> Raster {
    assert_eq!(values.len(), width * height);
    let mut pixels: Vec<Pixel> = Vec::new();
    for &v in values {
        pixels.push(gray(v));
    }
    Raster::from_pixels(width, height, pixels)
}

fn uniform_raster(width: usize, height: usize, p: Pixel) -> Raster {
    Raster::new(width, height, p)
}

#[test]
fn blur_white_5x5_radius1_stays_white() {
    let input = uniform_raster(5, 5, gray(255));
    let out = convolve(&input, 1, Mode::Blur);
    assert_eq!(out.width(), 5);
    assert_eq!(out.height(), 5);
    for y in 0..5 {
        for x in 0..5 {
            assert_eq!(out.get(x, y), gray(255));
        }
    }
}

#[test]
fn blur_uniform_radius2_is_identity() {
    let input = uniform_raster(7, 7, gray(100));
    let out = convolve(&input, 2, Mode::Blur);
    for y in 0..7 {
        for x in 0..7 {
            assert_eq!(out.get(x, y), gray(100));
        }
    }
}

#[test]
fn blur_uniform_radius1_is_identity() {
    let input = uniform_raster(6, 4, gray(37));
    let out = convolve(&input, 1, Mode::Blur);
    for y in 0..4 {
        for x in 0..6 {
            assert_eq!(out.get(x, y), gray(37));
        }
    }
}

#[test]
fn only_center_of_3x3_is_computed_blur() {
    let values: [u8; 9] = [10, 20, 30, 35, 50, 60, 70, 80, 90];
    let input = gray_raster(3, 3, &values);
    let out = convolve(&input, 1, Mode::Blur);
    // The eight border pixels are untouched copies.
    for y in 0..3 {
        for x in 0..3 {
            if x == 1 && y == 1 {
                continue;
            }
            assert_eq!(out.get(x, y), input.get(x, y));
        }
    }
    // The center uses the full 3x3 blur kernel:
    // (1*10 + 2*20 + 1*30 + 2*35 + 4*50 + 2*60 + 1*70 + 2*80 + 1*90) / 16
    // = 790 / 16 = 49, truncating toward zero.
    assert_eq!(out.get(1, 1), gray(49));
}

#[test]
fn only_center_of_3x3_is_computed_sharpen() {
    let values: [u8; 9] = [10, 20, 30, 35, 50, 60, 70, 80, 90];
    let input = gray_raster(3, 3, &values);
    let out = convolve(&input, 1, Mode::Sharpen);
    for y in 0..3 {
        for x in 0..3 {
            if x == 1 && y == 1 {
                continue;
            }
            assert_eq!(out.get(x, y), input.get(x, y));
        }
    }
    // Center: 50 + (4*50 - 20 - 35 - 60 - 80) = 50 + 5 = 55.
    assert_eq!(out.get(1, 1), gray(55));
}

#[test]
fn sharpen_black_center_among_white_clamps_to_zero() {
    let mut input = uniform_raster(5, 5, gray(255));
    input.set(2, 2, gray(0));
    let out = convolve(&input, 1, Mode::Sharpen);
    // Center: 0 + (4*0 - 4*255) = -1020, clamped to 0.
    assert_eq!(out.get(2, 2), gray(0));
    // Border pixels stay white.
    for x in 0..5 {
        assert_eq!(out.get(x, 0), gray(255));
        assert_eq!(out.get(x, 4), gray(255));
    }
}

#[test]
fn sharpen_white_center_among_black_clamps_to_255() {
    let mut input = uniform_raster(5, 5, gray(0));
    input.set(2, 2, gray(255));
    let out = convolve(&input, 1, Mode::Sharpen);
    // Center: 255 + 4*255 = 1275, clamped to 255.
    assert_eq!(out.get(2, 2), gray(255));
}

#[test]
fn sharpen_radius2_black_center_among_white_clamps_to_zero() {
    let mut input = uniform_raster(5, 5, gray(255));
    input.set(2, 2, gray(0));
    let out = convolve(&input, 2, Mode::Sharpen);
    // The off-center sharpen weights sum to -16, so the accumulated sum is
    // -16 * 255 = -4080; the center comes out as clamp(0 - 4080) = 0.
    assert_eq!(out.get(2, 2), gray(0));
    // Every other pixel of a 5x5 raster is a border pixel at radius 2.
    for y in 0..5 {
        for x in 0..5 {
            if x == 2 && y == 2 {
                continue;
            }
            assert_eq!(out.get(x, y), input.get(x, y));
        }
    }
}

#[test]
fn blur_radius2_white_center_among_black() {
    let mut input = uniform_raster(5, 5, gray(0));
    input.set(2, 2, gray(255));
    let out = convolve(&input, 2, Mode::Blur);
    // Center: (36 * 255) / 256 = 9180 / 256 = 35, truncating.
    assert_eq!(out.get(2, 2), gray(35));
}

#[test]
fn raster_too_small_for_radius_is_copied_whole() {
    let values: [u8; 9] = [1, 2, 3, 4, 5, 6, 7, 8, 9];
    let input = gray_raster(3, 3, &values);
    // A 3x3 raster has no interior at radius 2: every pixel is copied.
    let out = convolve(&input, 2, Mode::Sharpen);
    assert_eq!(out, input);
    let one = uniform_raster(1, 1, gray(77));
    let out1 = convolve(&one, 1, Mode::Blur);
    assert_eq!(out1, one);
}

#[test]
fn border_pixels_copied_both_modes() {
    let mut values: Vec<u8> = Vec::new();
    for i in 0..25u32 {
        values.push((i * 9 % 251) as u8);
    }
    let input = gray_raster(5, 5, &values);
    for mode in [Mode::Sharpen, Mode::Blur] {
        let out = convolve(&input, 1, mode);
        for y in 0..5 {
            for x in 0..5 {
                if x == 0 || x == 4 || y == 0 || y == 4 {
                    assert_eq!(out.get(x, y), input.get(x, y));
                }
            }
        }
    }
}

#[test]
fn convolve_twice_is_bit_identical() {
    let mut pixels: Vec<Pixel> = Vec::new();
    for i in 0..36u32 {
        pixels.push(Pixel {
            r: (i * 7 % 256) as u8,
            g: (i * 31 % 256) as u8,
            b: (i * 101 % 256) as u8,
        });
    }
    let input = Raster::from_pixels(6, 6, pixels);
    for mode in [Mode::Sharpen, Mode::Blur] {
        for radius in [1usize, 2] {
            let a = convolve(&input, radius, mode);
            let b = convolve(&input, radius, mode);
            assert_eq!(a, b);
        }
    }
}

#[test]
fn permuting_input_planes_permutes_output_planes() {
    let mut original: Vec<Pixel> = Vec::new();
    let mut rotated: Vec<Pixel> = Vec::new();
    for i in 0..30u32 {
        let a = (i * 13 % 256) as u8;
        let b = (i * 57 % 256) as u8;
        let c = (i * 201 % 256) as u8;
        original.push(Pixel { r: a, g: b, b: c });
        rotated.push(Pixel { r: b, g: c, b: a });
    }
    let input_a = Raster::from_pixels(6, 5, original);
    let input_b = Raster::from_pixels(6, 5, rotated);
    for mode in [Mode::Sharpen, Mode::Blur] {
        let out_a = convolve(&input_a, 1, mode);
        let out_b = convolve(&input_b, 1, mode);
        for y in 0..5 {
            for x in 0..6 {
                let pa = out_a.get(x, y);
                let pb = out_b.get(x, y);
                assert_eq!(pb.r, pa.g);
                assert_eq!(pb.g, pa.b);
                assert_eq!(pb.b, pa.r);
            }
        }
    }
}

#[test]
fn kernel_tables_match_catalog() {
    let sharpen3: [[i32; 3]; 3] = [[0, -1, 0], [-1, 4, -1], [0, -1, 0]];
    let sharpen5: [[i32; 5]; 5] = [
        [0, 0, -1, 0, 0],
        [0, -1, -2, -1, 0],
        [-1, -2, 16, -2, -1],
        [0, -1, -2, -1, 0],
        [0, 0, -1, 0, 0],
    ];
    let blur3: [[i32; 3]; 3] = [[1, 2, 1], [2, 4, 2], [1, 2, 1]];
    let blur5: [[i32; 5]; 5] = [
        [1, 4, 6, 4, 1],
        [4, 16, 24, 16, 4],
        [6, 24, 36, 24, 6],
        [4, 16, 24, 16, 4],
        [1, 4, 6, 4, 1],
    ];
    for i in 0..3 {
        for j in 0..3 {
            assert_eq!(kernel_weight_at(Mode::Sharpen, 1, i, j), sharpen3[i][j]);
            assert_eq!(kernel_weight_at(Mode::Blur, 1, i, j), blur3[i][j]);
        }
    }
    for i in 0..5 {
        for j in 0..5 {
            assert_eq!(kernel_weight_at(Mode::Sharpen, 2, i, j), sharpen5[i][j]);
            assert_eq!(kernel_weight_at(Mode::Blur, 2, i, j), blur5[i][j]);
        }
    }
    assert_eq!(divisor_of(Mode::Sharpen, 1), 1);
    assert_eq!(divisor_of(Mode::Sharpen, 2), 1);
    assert_eq!(divisor_of(Mode::Blur, 1), 16);
    assert_eq!(divisor_of(Mode::Blur, 2), 256);
}

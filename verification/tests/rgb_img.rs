use cvr::RgbImg;

#[test]
fn rgb_img_packed() {
    let height: usize = 3;
    let width: usize = 3;
    let num_channels: usize = 3;

    let total = height * width * num_channels;

    assert_eq!(total, 27);

    let buf: Vec<u8> = std::iter::successors(Some(1u8), |x| Some(x + 1))
        .take(total)
        .collect();

    let rgb_img = RgbImg::from_packed_buf(&buf, height as u32, width as u32);

    assert_eq!(rgb_img.r().len(), height * width);
    assert_eq!(rgb_img.g().len(), height * width);
    assert_eq!(rgb_img.b().len(), height * width);

    assert_eq!(rgb_img.r(), [1, 4, 7, 10, 13, 16, 19, 22, 25]);
    assert_eq!(rgb_img.g(), [2, 5, 8, 11, 14, 17, 20, 23, 26]);
    assert_eq!(rgb_img.b(), [3, 6, 9, 12, 15, 18, 21, 24, 27]);

    assert_eq!(rgb_img.height() as usize, height);
    assert_eq!(rgb_img.width() as usize, width);

    let packed = rgb_img.to_packed_buf();
    assert_eq!(packed, buf);

    let mut img_iter = rgb_img.iter();
    let mut pixels: Vec<(u8, u8, u8)> = Vec::new();
    while let Some(pixel) = img_iter.next() {
        pixels.push((pixel[0], pixel[1], pixel[2]));
    }

    assert_eq!(pixels.len(), height * width);

    for (idx, (r, g, b)) in std::iter::successors(Some((1u8, 2u8, 3u8)), |(x, y, z)| {
        Some((*x + 3, *y + 3, *z + 3))
    })
    .take(height * width)
    .enumerate()
    {
        assert_eq!(pixels[idx], (r, g, b));
    }

    // The grey value of a pixel is its red sample, not a weighted sum.
    let mut grey_iter = rgb_img.iter().greyscale();
    let mut grey: Vec<u8> = Vec::new();
    while let Some(value) = grey_iter.next() {
        grey.push(value);
    }
    assert_eq!(grey, [1, 4, 7, 10, 13, 16, 19, 22, 25]);
}

#[test]
fn from_packed_one_row_of_three() {
    let buf: [u8; 9] = [1, 2, 3, 4, 5, 6, 7, 8, 9];
    let img = RgbImg::from_packed_buf(&buf, 1, 3);
    assert_eq!(img.r(), [1, 4, 7]);
    assert_eq!(img.g(), [2, 5, 8]);
    assert_eq!(img.b(), [3, 6, 9]);
    assert_eq!(img.height(), 1);
    assert_eq!(img.width(), 3);
    assert_eq!(img.total(), 3);
}

#[test]
fn from_packed_takes_each_channel_from_its_offset() {
    let buf: Vec<u8> = (0..60u8).map(|x| x.wrapping_mul(7).wrapping_add(3)).collect();
    let img = RgbImg::from_packed_buf(&buf, 4, 5);
    for i in 0..20usize {
        assert_eq!(img.r()[i], buf[3 * i]);
        assert_eq!(img.g()[i], buf[3 * i + 1]);
        assert_eq!(img.b()[i], buf[3 * i + 2]);
    }
}

#[test]
fn packed_round_trip_is_exact() {
    let buf: Vec<u8> = (0..(2 * 7 * 3) as u8).map(|x| 255 - x.wrapping_mul(5)).collect();
    let img = RgbImg::from_packed_buf(&buf, 2, 7);
    assert_eq!(img.to_packed_buf(), buf);
    let again = RgbImg::from_packed_buf(&img.to_packed_buf(), 2, 7);
    assert_eq!(again.r(), img.r());
    assert_eq!(again.g(), img.g());
    assert_eq!(again.b(), img.b());
}

#[test]
fn from_packed_ignores_bytes_behind_the_last_pixel() {
    let buf: [u8; 8] = [10, 20, 30, 40, 50, 60, 70, 80];
    let img = RgbImg::from_packed_buf(&buf, 2, 1);
    assert_eq!(img.r(), [10, 40]);
    assert_eq!(img.g(), [20, 50]);
    assert_eq!(img.b(), [30, 60]);
    assert_eq!(img.to_packed_buf(), [10, 20, 30, 40, 50, 60]);
}

#[test]
fn empty_image_has_no_pixels() {
    let img = RgbImg::new();
    assert_eq!(img.total(), 0);
    assert_eq!(img.height(), 0);
    assert_eq!(img.width(), 0);
    assert!(img.r().is_empty());
    assert!(img.g().is_empty());
    assert!(img.b().is_empty());
    assert!(img.to_packed_buf().is_empty());
    assert!(img.iter().next().is_none());
}

#[test]
fn total_is_height_times_width() {
    let buf: Vec<u8> = vec![9; 3 * 4 * 6];
    let img = RgbImg::from_packed_buf(&buf, 4, 6);
    assert_eq!(img.total(), 24);
    assert_eq!(img.height() as usize * img.width() as usize, img.total());
    assert_eq!(img.to_packed_buf().len(), 72);

    let flat = RgbImg::from_packed_buf(&[], 0, 5);
    assert_eq!(flat.total(), 0);
    assert_eq!(flat.width(), 5);
}

#[test]
fn from_rows_of_three_bytes_a_pixel() {
    let rows: Vec<Vec<u8>> = vec![vec![1, 2, 3, 4, 5, 6], vec![7, 8, 9, 10, 11, 12]];
    let img = RgbImg::from_rows(&rows, 2, 2, 3).unwrap();
    assert_eq!(img.r(), [1, 4, 7, 10]);
    assert_eq!(img.g(), [2, 5, 8, 11]);
    assert_eq!(img.b(), [3, 6, 9, 12]);
    assert_eq!(img.height(), 2);
    assert_eq!(img.width(), 2);
}

#[test]
fn from_rows_of_four_bytes_a_pixel_drops_the_fourth() {
    let rows: Vec<Vec<u8>> = vec![
        vec![1, 2, 3, 200, 4, 5, 6, 201],
        vec![7, 8, 9, 202, 10, 11, 12, 203],
        vec![13, 14, 15, 204, 16, 17, 18, 205],
    ];
    let img = RgbImg::from_rows(&rows, 3, 2, 4).unwrap();
    assert_eq!(img.r(), [1, 4, 7, 10, 13, 16]);
    assert_eq!(img.g(), [2, 5, 8, 11, 14, 17]);
    assert_eq!(img.b(), [3, 6, 9, 12, 15, 18]);
    assert_eq!(img.to_packed_buf().len(), 18);
}

#[test]
fn from_rows_uses_only_the_rows_and_bytes_it_needs() {
    let rows: Vec<Vec<u8>> = vec![vec![1, 2, 3, 4, 5, 6, 99], vec![7, 8, 9, 10, 11, 12], vec![0]];
    let img = RgbImg::from_rows(&rows, 2, 2, 3).unwrap();
    assert_eq!(img.to_packed_buf(), [1, 2, 3, 4, 5, 6, 7, 8, 9, 10, 11, 12]);
}

#[test]
fn from_rows_refuses_missing_rows() {
    let rows: Vec<Vec<u8>> = vec![vec![1, 2, 3]];
    assert!(RgbImg::from_rows(&rows, 2, 1, 3).is_none());
}

#[test]
fn from_rows_refuses_a_short_row() {
    let rows: Vec<Vec<u8>> = vec![vec![1, 2, 3, 4, 5, 6], vec![7, 8, 9, 10, 11]];
    assert!(RgbImg::from_rows(&rows, 2, 2, 3).is_none());
    assert!(RgbImg::from_rows(&rows, 1, 2, 3).is_some());
}

#[test]
fn from_rows_refuses_fewer_than_three_bytes_a_pixel() {
    let rows: Vec<Vec<u8>> = vec![vec![1, 2, 3, 4, 5, 6]];
    assert!(RgbImg::from_rows(&rows, 1, 2, 2).is_none());
    assert!(RgbImg::from_rows(&rows, 1, 2, 0).is_none());
}

#[test]
fn from_rows_refuses_a_pixel_size_no_row_can_hold() {
    let rows: Vec<Vec<u8>> = vec![vec![1, 2, 3]];
    assert!(RgbImg::from_rows(&rows, 1, 2, usize::MAX).is_none());
}

#[test]
fn from_rows_without_rows_is_empty() {
    let rows: Vec<Vec<u8>> = Vec::new();
    let img = RgbImg::from_rows(&rows, 0, 4, 3).unwrap();
    assert_eq!(img.total(), 0);
    assert_eq!(img.width(), 4);
}

#[test]
fn rows_cut_from_a_buffer_give_the_image_of_the_buffer() {
    let buf: Vec<u8> = (0..24u8).map(|x| x.wrapping_mul(13)).collect();
    let rows: Vec<Vec<u8>> = buf.chunks(12).map(|row| row.to_vec()).collect();
    let by_rows = RgbImg::from_rows(&rows, 2, 4, 3).unwrap();
    let whole = RgbImg::from_packed_buf(&buf, 2, 4);
    assert_eq!(by_rows.r(), whole.r());
    assert_eq!(by_rows.g(), whole.g());
    assert_eq!(by_rows.b(), whole.b());
    assert_eq!(by_rows.to_packed_buf(), buf);
}

#[test]
fn iter_of_an_image_pairs_the_channels() {
    let buf: [u8; 6] = [1, 2, 3, 4, 5, 6];
    let img = RgbImg::from_packed_buf(&buf, 2, 1);
    let mut it = img.iter();
    assert_eq!(it.next(), Some([1, 2, 3]));
    assert_eq!(it.next(), Some([4, 5, 6]));
    assert_eq!(it.next(), None);
}

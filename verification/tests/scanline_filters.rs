use png_parser::error::DecodeError;
use png_parser::header::PngParam;
use png_parser::scanline::{reconstruct_image, Scanline};

fn line(filter: u8, bpp: usize, data: &[u8]) -> Scanline {
    Scanline { filter, bpp, data: data.to_vec() }
}

fn sample_row(len: usize, seed: usize) -> Vec<u8> {
    (0..len).map(|i| ((i * 37 + seed * 101 + 11) % 256) as u8).collect()
}

fn header(width: u32, height: u32, depth: u8, color_type: u8) -> PngParam {
    let mut body = Vec::new();
    body.extend_from_slice(&width.to_be_bytes());
    body.extend_from_slice(&height.to_be_bytes());
    body.extend_from_slice(&[depth, color_type, 0, 0, 0]);
    PngParam::new(&body).unwrap()
}

fn round_trips(filter: u8) {
    for &bpp in &[1usize, 3, 4] {
        for &pixels in &[1usize, 2, 16] {
            let row = sample_row(pixels * bpp, 1);
            let above = sample_row(pixels * bpp, 2);
            let first = Scanline::encode(filter, bpp, &[], &row);
            assert_eq!(first.filter, filter);
            assert_eq!(first.data.len(), row.len());
            assert_eq!(first.reconstruct(&Vec::new()), row);
            let later = Scanline::encode(filter, bpp, &above, &row);
            assert_eq!(later.reconstruct(&above), row);
        }
    }
}

#[test]
fn paeth_tie_goes_to_the_corner_when_it_is_nearest() {
    assert_eq!(Scanline::paeth_predictor(10, 20, 15), 15);
}

#[test]
fn paeth_of_zeros_is_zero() {
    assert_eq!(Scanline::paeth_predictor(0, 0, 0), 0);
}

#[test]
fn paeth_prefers_left_then_above() {
    assert_eq!(Scanline::paeth_predictor(7, 7, 7), 7);
    assert_eq!(Scanline::paeth_predictor(5, 9, 5), 9);
    assert_eq!(Scanline::paeth_predictor(9, 5, 5), 9);
    assert_eq!(Scanline::paeth_predictor(0, 10, 0), 10);
    assert_eq!(Scanline::paeth_predictor(11, 20, 10), 20);
}

#[test]
fn paeth_is_signed_arithmetic() {
    // p = 0 + 0 - 255 = -255: the left neighbour is nearest.
    assert_eq!(Scanline::paeth_predictor(0, 0, 255), 0);
    // p = 255 + 255 - 0 = 510: left and above tie, left wins.
    assert_eq!(Scanline::paeth_predictor(255, 255, 0), 255);
    // p = 200 + 100 - 250 = 50: distances 150, 50, 200.
    assert_eq!(Scanline::paeth_predictor(200, 100, 250), 100);
}

#[test]
fn recon_byte_by_filter() {
    assert_eq!(Scanline::recon(0, 200, 100, 100, 100), 200);
    assert_eq!(Scanline::recon(1, 200, 100, 7, 9), 44);
    assert_eq!(Scanline::recon(2, 200, 7, 100, 9), 44);
    assert_eq!(Scanline::recon(3, 1, 255, 255, 0), 0);
    assert_eq!(Scanline::recon(3, 1, 3, 4, 0), 4);
    assert_eq!(Scanline::recon(4, 1, 10, 20, 15), 16);
}

#[test]
fn none_keeps_the_bytes() {
    assert_eq!(line(0, 3, &[9, 8, 7, 6]).decode_none(), vec![9, 8, 7, 6]);
}

#[test]
fn sub_adds_the_byte_one_pixel_back() {
    assert_eq!(line(1, 1, &[1, 2, 3]).decode_sub(), vec![1, 3, 6]);
    assert_eq!(line(1, 3, &[1, 2, 3, 4, 5, 6]).decode_sub(), vec![1, 2, 3, 5, 7, 9]);
    assert_eq!(line(1, 1, &[200, 100]).decode_sub(), vec![200, 44]);
}

#[test]
fn up_adds_the_byte_above() {
    assert_eq!(line(2, 1, &[1, 2, 3]).decode_up(&vec![10, 20, 30]), vec![11, 22, 33]);
    assert_eq!(line(2, 1, &[1, 2]).decode_up(&vec![255, 254]), vec![0, 0]);
}

#[test]
fn average_adds_the_floored_mean() {
    assert_eq!(line(3, 1, &[4, 6]).decode_average(&vec![10, 20]), vec![9, 20]);
    assert_eq!(line(3, 2, &[4, 6, 1, 1]).decode_average(&vec![10, 20, 0, 0]), vec![9, 16, 5, 9]);
}

#[test]
fn paeth_adds_the_nearest_neighbour() {
    assert_eq!(line(4, 1, &[1, 2]).decode_paeth(&vec![10, 20]), vec![11, 22]);
    assert_eq!(line(4, 1, &[1, 2]).decode_paeth(&Vec::new()), vec![1, 3]);
}

#[test]
fn reconstruct_follows_the_filter_byte() {
    let above = vec![10, 20];
    assert_eq!(line(0, 1, &[4, 6]).reconstruct(&above), vec![4, 6]);
    assert_eq!(line(1, 1, &[4, 6]).reconstruct(&above), vec![4, 10]);
    assert_eq!(line(2, 1, &[4, 6]).reconstruct(&above), vec![14, 26]);
    assert_eq!(line(3, 1, &[4, 6]).reconstruct(&above), vec![9, 20]);
    assert_eq!(line(4, 1, &[1, 2]).reconstruct(&above), vec![11, 22]);
}

#[test]
fn up_on_the_first_row_is_none() {
    let raw = sample_row(48, 3);
    for &bpp in &[1usize, 3, 4] {
        let up = line(2, bpp, &raw).reconstruct(&Vec::new());
        let none = line(0, bpp, &raw).reconstruct(&Vec::new());
        assert_eq!(up, none);
        assert_eq!(up, raw);
    }
}

#[test]
fn round_trip_none() {
    round_trips(0);
}

#[test]
fn round_trip_sub() {
    round_trips(1);
}

#[test]
fn round_trip_up() {
    round_trips(2);
}

#[test]
fn round_trip_average() {
    round_trips(3);
}

#[test]
fn round_trip_paeth() {
    round_trips(4);
}

#[test]
fn encode_known_values() {
    assert_eq!(Scanline::encode(1, 1, &[], &[1, 3, 6]).data, vec![1, 2, 3]);
    assert_eq!(Scanline::encode(2, 1, &[10, 20, 30], &[11, 22, 33]).data, vec![1, 2, 3]);
    assert_eq!(Scanline::encode(3, 1, &[10, 20], &[9, 20]).data, vec![4, 6]);
    assert_eq!(Scanline::encode(4, 1, &[10, 20], &[11, 22]).data, vec![1, 2]);
    assert_eq!(Scanline::encode(1, 1, &[], &[200, 44]).data, vec![200, 100]);
}

#[test]
fn scanline_new_splits_filter_and_data() {
    let params = header(2, 1, 8, 2);
    let s = Scanline::new(&[1, 10, 20, 30, 40, 50, 60], &params).unwrap();
    assert_eq!(s.filter, 1);
    assert_eq!(s.bpp, 3);
    assert_eq!(s.data, vec![10, 20, 30, 40, 50, 60]);
}

#[test]
fn scanline_new_rejects_a_wrong_length() {
    let params = header(2, 1, 8, 2);
    assert_eq!(
        Scanline::new(&[1, 10, 20, 30, 40, 50], &params).unwrap_err(),
        DecodeError::ScanlineLengthMismatch
    );
    assert_eq!(Scanline::new(&[], &params).unwrap_err(), DecodeError::ScanlineLengthMismatch);
    assert_eq!(
        Scanline::new(&[9, 10, 20, 30, 40, 50, 60, 70], &params).unwrap_err(),
        DecodeError::ScanlineLengthMismatch
    );
}

#[test]
fn scanline_new_rejects_an_unknown_filter() {
    let params = header(2, 1, 8, 2);
    assert_eq!(
        Scanline::new(&[5, 10, 20, 30, 40, 50, 60], &params).unwrap_err(),
        DecodeError::InvalidFilterType
    );
    assert_eq!(Scanline::new(&[4, 10, 20, 30, 40, 50, 60], &params).unwrap().filter, 4);
}

#[test]
fn image_rows_look_back_one_row() {
    // 2 x 3 pixels of 8-bit grey: Sub, then Up, then Paeth.
    let params = header(2, 3, 8, 0);
    let inflated = [1, 5, 5, 2, 1, 1, 4, 1, 1];
    let rows = reconstruct_image(&inflated, &params).unwrap();
    assert_eq!(rows, vec![vec![5, 10], vec![6, 11], vec![7, 12]]);
}

#[test]
fn image_data_must_hold_every_row() {
    let params = header(2, 3, 8, 0);
    assert_eq!(
        reconstruct_image(&[0, 5, 5, 0, 1, 1], &params).unwrap_err(),
        DecodeError::ScanlineLengthMismatch
    );
    assert_eq!(
        reconstruct_image(&[0, 5, 5, 0, 1, 1, 0, 1, 1, 0], &params).unwrap_err(),
        DecodeError::ScanlineLengthMismatch
    );
    assert_eq!(reconstruct_image(&[], &params).unwrap_err(), DecodeError::ScanlineLengthMismatch);
}

#[test]
fn length_is_checked_before_filter_types() {
    let params = header(2, 2, 8, 0);
    assert_eq!(
        reconstruct_image(&[9, 5, 5, 0, 1], &params).unwrap_err(),
        DecodeError::ScanlineLengthMismatch
    );
}

#[test]
fn image_rows_reject_an_unknown_filter() {
    let params = header(2, 2, 8, 0);
    assert_eq!(
        reconstruct_image(&[0, 5, 5, 5, 1, 1], &params).unwrap_err(),
        DecodeError::InvalidFilterType
    );
}

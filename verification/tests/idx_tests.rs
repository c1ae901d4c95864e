use minist::{FormatError, LoadError, MINIST};

fn label_file(labels: &[u8]) -> Vec<u8> {
    let mut f = vec![0x00, 0x00, 0x08, 0x01];
    f.extend_from_slice(&(labels.len() as u32).to_be_bytes());
    f.extend_from_slice(labels);
    f
}

fn image_file(rows: u32, cols: u32, images: &[&[u8]]) -> Vec<u8> {
    let mut f = vec![0x00, 0x00, 0x08, 0x03];
    f.extend_from_slice(&(images.len() as u32).to_be_bytes());
    f.extend_from_slice(&rows.to_be_bytes());
    f.extend_from_slice(&cols.to_be_bytes());
    for img in images {
        f.extend_from_slice(img);
    }
    f
}

#[test]
fn labels_two_items() {
    // [00 00 08 01][00 00 00 02][05][09] parses to labels [5, 9].
    let data = vec![0x00, 0x00, 0x08, 0x01, 0x00, 0x00, 0x00, 0x02, 0x05, 0x09];
    let labels = MINIST::parse_labels(&data).unwrap();
    assert_eq!(labels, vec![5, 9]);
}

#[test]
fn labels_empty() {
    let data = vec![0x00, 0x00, 0x08, 0x01, 0x00, 0x00, 0x00, 0x00];
    let labels = MINIST::parse_labels(&data).unwrap();
    assert_eq!(labels, Vec::<u8>::new());
}

#[test]
fn labels_wrong_magic() {
    // Same two-item file with magic 2048 instead of 2049.
    let data = vec![0x00, 0x00, 0x08, 0x00, 0x00, 0x00, 0x00, 0x02, 0x05, 0x09];
    assert_eq!(MINIST::parse_labels(&data), Err(FormatError::WrongMagic));
}

#[test]
fn labels_wrong_count() {
    // Declares 3 items but carries 2 bytes.
    let data = vec![0x00, 0x00, 0x08, 0x01, 0x00, 0x00, 0x00, 0x03, 0x05, 0x09];
    assert_eq!(MINIST::parse_labels(&data), Err(FormatError::WrongItemCount));
}

#[test]
fn labels_truncated_before_magic() {
    assert_eq!(MINIST::parse_labels(&vec![0x00, 0x00]), Err(FormatError::WrongMagic));
    assert_eq!(MINIST::parse_labels(&Vec::new()), Err(FormatError::WrongMagic));
}

#[test]
fn labels_truncated_before_count() {
    // Correct magic, but the count field is cut off.
    let data = vec![0x00, 0x00, 0x08, 0x01, 0x00, 0x00];
    assert_eq!(MINIST::parse_labels(&data), Err(FormatError::WrongItemCount));
}

#[test]
fn images_one_2x2() {
    // [00 00 08 03][1][2][2][AA BB CC DD] parses to one 2x2 image.
    let data = vec![
        0x00, 0x00, 0x08, 0x03, 0x00, 0x00, 0x00, 0x01, 0x00, 0x00, 0x00, 0x02, 0x00, 0x00, 0x00,
        0x02, 0xAA, 0xBB, 0xCC, 0xDD,
    ];
    let images = MINIST::parse_images(&data).unwrap();
    assert_eq!(images.len(), 1);
    assert_eq!(images[0].rows, 2);
    assert_eq!(images[0].cols, 2);
    assert_eq!(images[0].data, vec![0xAA, 0xBB, 0xCC, 0xDD]);
}

#[test]
fn images_two_1x2_in_order() {
    let data = image_file(1, 2, &[&[10, 11], &[20, 21]]);
    let images = MINIST::parse_images(&data).unwrap();
    assert_eq!(images.len(), 2);
    assert_eq!(images[0].data, vec![10, 11]);
    assert_eq!(images[1].data, vec![20, 21]);
    assert!(images.iter().all(|i| i.rows == 1 && i.cols == 2));
}

#[test]
fn images_zero_items() {
    let data = image_file(28, 28, &[]);
    let images = MINIST::parse_images(&data).unwrap();
    assert!(images.is_empty());
}

#[test]
fn images_wrong_magic() {
    // A label magic number at the head of an image file.
    let data = image_file(1, 1, &[&[7]]);
    let mut bad = data.clone();
    bad[3] = 0x01;
    assert_eq!(MINIST::parse_images(&bad).unwrap_err(), FormatError::WrongMagic);
}

#[test]
fn images_wrong_count() {
    // Declares 2 images of 2x2 but carries only 4 pixel bytes.
    let data = image_file(2, 2, &[&[1, 2, 3, 4]]);
    let mut bad = data;
    bad[7] = 0x02;
    assert_eq!(MINIST::parse_images(&bad).unwrap_err(), FormatError::WrongItemCount);
}

#[test]
fn images_truncated_header() {
    let data = vec![0x00, 0x00, 0x08, 0x03, 0x00, 0x00, 0x00, 0x01];
    assert_eq!(MINIST::parse_images(&data).unwrap_err(), FormatError::WrongItemCount);
}

#[test]
fn round_trip_synthetic_dataset() {
    // Encode a synthetic dataset with the documented layout and parse it
    // back: the pixel and label values come out exactly.
    let pixels: Vec<Vec<u8>> = vec![vec![1, 2, 3, 4, 5, 6], vec![9, 8, 7, 6, 5, 4]];
    let labels: Vec<u8> = vec![3, 8];
    let image_bytes = image_file(2, 3, &[&pixels[0], &pixels[1]]);
    let label_bytes = label_file(&labels);

    let images = MINIST::parse_images(&image_bytes).unwrap();
    let parsed_labels = MINIST::parse_labels(&label_bytes).unwrap();
    assert_eq!(parsed_labels, labels);
    assert_eq!(images.len(), pixels.len());
    for (img, px) in images.iter().zip(pixels.iter()) {
        assert_eq!(img.rows, 2);
        assert_eq!(img.cols, 3);
        assert_eq!(&img.data, px);
    }
}

#[test]
fn new_assembles_dataset() {
    let ti = image_file(1, 2, &[&[1, 2], &[3, 4]]);
    let tl = label_file(&[0, 1]);
    let vi = image_file(1, 2, &[&[5, 6]]);
    let vl = label_file(&[9]);
    let d = MINIST::new(&ti, &tl, &vi, &vl).unwrap();
    assert_eq!(d.train_images.len(), 2);
    assert_eq!(d.train_labels, vec![0, 1]);
    assert_eq!(d.test_images.len(), 1);
    assert_eq!(d.test_images[0].data, vec![5, 6]);
    assert_eq!(d.test_labels, vec![9]);
}

#[test]
fn new_rejects_malformed_file() {
    let ti = image_file(1, 2, &[&[1, 2]]);
    let tl = label_file(&[0]);
    let vi = image_file(1, 2, &[&[5, 6]]);
    let bad_vl = vec![0x00, 0x00, 0x07, 0x01, 0x00, 0x00, 0x00, 0x01, 0x05];
    assert_eq!(
        MINIST::new(&ti, &tl, &vi, &bad_vl).unwrap_err(),
        LoadError::Format(FormatError::WrongMagic)
    );
}

#[test]
fn new_rejects_unpaired_counts() {
    // Two train images but only one train label.
    let ti = image_file(1, 2, &[&[1, 2], &[3, 4]]);
    let tl = label_file(&[0]);
    let vi = image_file(1, 2, &[&[5, 6]]);
    let vl = label_file(&[9]);
    assert_eq!(
        MINIST::new(&ti, &tl, &vi, &vl).unwrap_err(),
        LoadError::Format(FormatError::WrongItemCount)
    );
}

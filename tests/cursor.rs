use hancock_read_bin::{
    progress_position, read_metadata, ByteCursor, ByteOrder, CursorError, DecodeError, ExactFill,
    FillStep,
};

#[test]
fn words_in_both_orders() {
    let mut c = ByteCursor::new(vec![1, 2, 3, 4, 5, 6, 7, 8, 9]);
    assert_eq!(c.read_u32(ByteOrder::Little), Ok(0x0403_0201));
    assert_eq!(c.read_u32(ByteOrder::Big), Ok(0x0506_0708));
    assert_eq!(c.read_u32(ByteOrder::Big), Err(CursorError::Exhausted));
    assert_eq!(c.position(), 8);
    assert_eq!(c.read_u8(), Ok(9));
    assert_eq!(c.read_u8(), Err(CursorError::Exhausted));
    assert_eq!(c.seek_from_start(0), Ok(()));
    assert_eq!(c.read_u64(ByteOrder::Little), Ok(0x0807_0605_0403_0201));
    assert_eq!(c.seek_from_start(0), Ok(()));
    assert_eq!(c.read_u64(ByteOrder::Big), Ok(0x0102_0304_0506_0708));
}

#[test]
fn read_exact_takes_the_requested_bytes() {
    let mut c = ByteCursor::new(vec![10, 11, 12, 13, 14]);
    assert_eq!(c.read_exact(2), Ok(vec![10, 11]));
    assert_eq!(c.read_exact(4), Err(CursorError::Exhausted));
    assert_eq!(c.position(), 2);
    assert_eq!(c.read_exact(3), Ok(vec![12, 13, 14]));
    assert_eq!(c.read_exact(0), Ok(vec![]));
}

#[test]
fn seeks_outside_the_source_fail() {
    let mut c = ByteCursor::new(vec![0; 10]);
    assert_eq!(c.seek_from_end(11), Err(CursorError::OutOfBounds));
    assert_eq!(c.seek_from_start(11), Err(CursorError::OutOfBounds));
    assert_eq!(c.seek_from_end(3), Ok(()));
    assert_eq!(c.position(), 7);
    assert_eq!(c.set_limit(6), Err(CursorError::OutOfBounds));
    assert_eq!(c.set_limit(8), Ok(()));
    assert_eq!(c.read_limit(), 8);
    assert_eq!(c.read_exact(2), Err(CursorError::Exhausted));
    assert_eq!(c.len(), 10);
}

#[test]
fn metadata_comes_from_the_trailer() {
    let mut data = vec![0xEE; 5];
    data.extend_from_slice(&100.0f64.to_le_bytes());
    data.extend_from_slice(&200.0f64.to_le_bytes());
    data.extend_from_slice(&0.0f64.to_le_bytes());
    data.extend_from_slice(&1234u32.to_le_bytes());
    let mut c = ByteCursor::new(data);
    let m = read_metadata(&mut c, ByteOrder::Little).unwrap();
    assert_eq!(m.n_beams, 1234);
    assert_eq!(f64::from_bits(m.xoff_bits), 100.0);
    assert_eq!(f64::from_bits(m.yoff_bits), 200.0);
    assert_eq!(c.position(), 0);
    let mut short = ByteCursor::new(vec![0; 20]);
    assert_eq!(read_metadata(&mut short, ByteOrder::Little), Err(DecodeError::TruncatedFile));
}

#[test]
fn short_reads_are_gathered() {
    let mut f = ExactFill::new(5);
    assert_eq!(f.missing(), 5);
    assert_eq!(f.on_read(&[1, 2]), FillStep::NeedMore(3));
    assert_eq!(f.on_read(&[3]), FillStep::NeedMore(2));
    assert_eq!(f.on_read(&[4, 5]), FillStep::Done);
    assert_eq!(f.into_bytes(), vec![1, 2, 3, 4, 5]);
}

#[test]
fn empty_read_means_end_of_source() {
    let mut f = ExactFill::new(4);
    assert_eq!(f.on_read(&[9]), FillStep::NeedMore(3));
    assert_eq!(f.on_read(&[]), FillStep::Exhausted);
    assert_eq!(f.missing(), 3);
}

#[test]
fn progress_fires_on_steps_and_completion() {
    assert_eq!(progress_position(0, 25000), Some(0));
    assert_eq!(progress_position(9999, 25000), None);
    assert_eq!(progress_position(10000, 25000), Some(10000));
    assert_eq!(progress_position(20001, 25000), None);
    assert_eq!(progress_position(25000, 25000), Some(25000));
    assert_eq!(progress_position(7, 7), Some(7));
}

use hancock_read_bin::{
    decode_file, read_row, ByteCursor, ByteOrder, DecodeError, HancockDataRow, HancockReader,
};

struct Shot {
    zen: f32,
    az: f32,
    x: f32,
    y: f32,
    z: f32,
    shot_n: u32,
    hits: Vec<(f32, f32)>,
}

fn push_record(out: &mut Vec<u8>, s: &Shot) {
    for v in [s.zen, s.az, s.x, s.y, s.z] {
        out.extend_from_slice(&v.to_le_bytes());
    }
    out.extend_from_slice(&s.shot_n.to_le_bytes());
    out.push(s.hits.len() as u8);
    for (r, refl) in &s.hits {
        out.extend_from_slice(&r.to_le_bytes());
        out.extend_from_slice(&refl.to_le_bytes());
    }
}

fn push_trailer(out: &mut Vec<u8>, off: (f64, f64, f64), count: u32) {
    out.extend_from_slice(&off.0.to_le_bytes());
    out.extend_from_slice(&off.1.to_le_bytes());
    out.extend_from_slice(&off.2.to_le_bytes());
    out.extend_from_slice(&count.to_le_bytes());
}

fn shot(shot_n: u32, n_hits: usize) -> Shot {
    Shot {
        zen: 1.5,
        az: 2.5,
        x: 3.0,
        y: 4.0,
        z: 5.0,
        shot_n,
        hits: (0..n_hits).map(|i| (i as f32 + 0.5, i as f32 * 2.0)).collect(),
    }
}

fn file_of(shots: &[Shot], count: u32) -> Vec<u8> {
    let mut data = Vec::new();
    for s in shots {
        push_record(&mut data, s);
    }
    push_trailer(&mut data, (1.0, 2.0, 3.0), count);
    data
}

#[test]
fn test_divide() {
    let test = HancockDataRow {
        zen_bits: 0.0f32.to_bits(),
        az_bits: 0.0f32.to_bits(),
        x_bits: 0.0f32.to_bits(),
        y_bits: 0.0f32.to_bits(),
        z_bits: 0.0f32.to_bits(),
        shot_n: 0,
        n_hits: 0,
        r: vec![0.0f32.to_bits()],
        refl: vec![0.0f32.to_bits()],
    };
    assert_eq!(test.shot_n, 0);
}

#[test]
fn hand_built_record_round_trips() {
    let s = Shot {
        zen: 76.9577,
        az: 10.0,
        x: 1.0,
        y: 2.0,
        z: 3.0,
        shot_n: 42,
        hits: vec![(5.0, 0.1), (6.0, 0.2)],
    };
    let mut data = Vec::new();
    push_record(&mut data, &s);
    push_trailer(&mut data, (100.0, 200.0, 0.0), 1);
    assert_eq!(data.len(), 25 + 2 * 8 + 28);

    let mut reader = HancockReader::from_bytes(data, ByteOrder::Little).unwrap();
    let meta = reader.metadata();
    assert_eq!(meta.n_beams, 1);
    assert_eq!(reader.n_beams(), 1);
    assert_eq!(f64::from_bits(meta.xoff_bits), 100.0);
    assert_eq!(f64::from_bits(meta.yoff_bits), 200.0);
    assert_eq!(f64::from_bits(meta.zoff_bits), 0.0);

    let row = reader.next().unwrap().unwrap();
    assert_eq!(f32::from_bits(row.zen_bits), 76.9577f32);
    assert_eq!(f32::from_bits(row.az_bits), 10.0);
    assert_eq!(f32::from_bits(row.x_bits), 1.0);
    assert_eq!(f32::from_bits(row.y_bits), 2.0);
    assert_eq!(f32::from_bits(row.z_bits), 3.0);
    assert_eq!(row.shot_n, 42);
    assert_eq!(row.n_hits, 2);
    let r: Vec<f32> = row.r.iter().map(|b| f32::from_bits(*b)).collect();
    let refl: Vec<f32> = row.refl.iter().map(|b| f32::from_bits(*b)).collect();
    assert_eq!(r, vec![5.0f32, 6.0]);
    assert_eq!(refl, vec![0.1f32, 0.2]);
    assert_eq!(reader.current_beam(), 1);
    assert!(reader.next().unwrap().is_none());
    assert!(reader.next().unwrap().is_none());
}

#[test]
fn zero_records_decode_to_nothing() {
    let data = file_of(&[], 0);
    let (meta, rows) = decode_file(data.clone(), ByteOrder::Little).unwrap();
    assert_eq!(meta.n_beams, 0);
    assert!(rows.is_empty());
    let mut reader = HancockReader::from_bytes(data, ByteOrder::Little).unwrap();
    assert!(reader.next().unwrap().is_none());
}

#[test]
fn zero_records_ignore_body_bytes() {
    let data = file_of(&[shot(1, 3)], 0);
    let (_, rows) = decode_file(data, ByteOrder::Little).unwrap();
    assert!(rows.is_empty());
}

#[test]
fn declared_count_stops_decoding_before_extra_bytes() {
    let shots = [shot(7, 1), shot(8, 2), shot(9, 0)];
    let data = file_of(&shots, 2);
    let mut reader = HancockReader::from_bytes(data, ByteOrder::Little).unwrap();
    assert_eq!(reader.next().unwrap().unwrap().shot_n, 7);
    assert_eq!(reader.next().unwrap().unwrap().shot_n, 8);
    assert!(reader.next().unwrap().is_none());
    assert_eq!(reader.current_beam(), 2);
}

#[test]
fn garbage_after_records_is_ignored() {
    let mut data = Vec::new();
    push_record(&mut data, &shot(3, 2));
    data.extend_from_slice(&[0xAB; 13]);
    push_trailer(&mut data, (0.0, 0.0, 0.0), 1);
    let (_, rows) = decode_file(data, ByteOrder::Little).unwrap();
    assert_eq!(rows.len(), 1);
    assert_eq!(rows[0].shot_n, 3);
    assert_eq!(rows[0].n_hits, 2);
}

#[test]
fn body_ending_mid_record_is_corrupt() {
    let mut data = Vec::new();
    push_record(&mut data, &shot(1, 1));
    let mut second = Vec::new();
    push_record(&mut second, &shot(2, 3));
    second.truncate(second.len() - 5);
    data.extend_from_slice(&second);
    push_trailer(&mut data, (0.0, 0.0, 0.0), 2);

    let mut reader = HancockReader::from_bytes(data.clone(), ByteOrder::Little).unwrap();
    assert_eq!(reader.next().unwrap().unwrap().shot_n, 1);
    assert_eq!(reader.next().unwrap_err(), DecodeError::CorruptFile);
    assert_eq!(reader.current_beam(), 1);
    assert_eq!(reader.next().unwrap_err(), DecodeError::CorruptFile);
    assert_eq!(decode_file(data, ByteOrder::Little).unwrap_err(), DecodeError::CorruptFile);
}

#[test]
fn count_beyond_body_is_corrupt() {
    let data = file_of(&[shot(1, 0)], 5);
    let mut reader = HancockReader::from_bytes(data, ByteOrder::Little).unwrap();
    assert_eq!(reader.read_all().unwrap_err(), DecodeError::CorruptFile);
}

#[test]
fn short_file_is_truncated() {
    for n in [0usize, 1, 27] {
        let data = vec![0u8; n];
        assert_eq!(
            HancockReader::from_bytes(data.clone(), ByteOrder::Little).err(),
            Some(DecodeError::TruncatedFile)
        );
        assert_eq!(decode_file(data, ByteOrder::Little).err(), Some(DecodeError::TruncatedFile));
    }
    let data = file_of(&[], 0);
    assert_eq!(data.len(), 28);
    assert!(HancockReader::from_bytes(data, ByteOrder::Little).is_ok());
}

#[test]
fn sample_lengths_match_hit_counts() {
    let shots = [shot(1, 0), shot(2, 4), shot(3, 255), shot(4, 1)];
    let data = file_of(&shots, 4);
    let (_, rows) = decode_file(data, ByteOrder::Little).unwrap();
    assert_eq!(rows.len(), 4);
    let mut ranges = 0usize;
    let mut hits = 0usize;
    for (row, s) in rows.iter().zip(shots.iter()) {
        assert_eq!(row.r.len(), row.n_hits as usize);
        assert_eq!(row.refl.len(), row.n_hits as usize);
        assert_eq!(row.n_hits as usize, s.hits.len());
        for (i, (r, refl)) in s.hits.iter().enumerate() {
            assert_eq!(f32::from_bits(row.r[i]), *r);
            assert_eq!(f32::from_bits(row.refl[i]), *refl);
        }
        ranges += row.r.len();
        hits += row.n_hits as usize;
    }
    assert_eq!(ranges, hits);
    assert_eq!(hits, 260);
}

#[test]
fn big_endian_files_decode() {
    let mut data = Vec::new();
    for v in [1.0f32, 2.0, 3.0, 4.0, 5.0] {
        data.extend_from_slice(&v.to_be_bytes());
    }
    data.extend_from_slice(&77u32.to_be_bytes());
    data.push(1);
    data.extend_from_slice(&8.0f32.to_be_bytes());
    data.extend_from_slice(&0.5f32.to_be_bytes());
    data.extend_from_slice(&(-1.0f64).to_be_bytes());
    data.extend_from_slice(&2.0f64.to_be_bytes());
    data.extend_from_slice(&3.0f64.to_be_bytes());
    data.extend_from_slice(&1u32.to_be_bytes());
    let (meta, rows) = decode_file(data, ByteOrder::Big).unwrap();
    assert_eq!(f64::from_bits(meta.xoff_bits), -1.0);
    assert_eq!(meta.n_beams, 1);
    assert_eq!(rows[0].shot_n, 77);
    assert_eq!(f32::from_bits(rows[0].z_bits), 5.0);
    assert_eq!(f32::from_bits(rows[0].r[0]), 8.0);
    assert_eq!(f32::from_bits(rows[0].refl[0]), 0.5);
}

#[test]
fn read_row_decodes_one_record() {
    let mut data = Vec::new();
    push_record(&mut data, &shot(5, 2));
    let mut cursor = ByteCursor::new(data);
    let row = read_row(&mut cursor, ByteOrder::Little).unwrap();
    assert_eq!(row.shot_n, 5);
    assert_eq!(cursor.position(), 41);
    assert!(read_row(&mut cursor, ByteOrder::Little).is_err());
}

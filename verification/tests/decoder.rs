use spaten::read_block;
use spaten::read_file_header;
use spaten::ByteStream;
use spaten::Value;
use spaten::ValueType;

fn put_varint(out: &mut Vec<u8>, mut v: u64) {
    loop {
        let low = (v & 0x7f) as u8;
        v >>= 7;
        if v == 0 {
            out.push(low);
            return;
        }
        out.push(low | 0x80);
    }
}

fn put_chunk(out: &mut Vec<u8>, num: u64, bytes: &[u8]) {
    put_varint(out, num << 3 | 2);
    put_varint(out, bytes.len() as u64);
    out.extend_from_slice(bytes);
}

fn put_word(out: &mut Vec<u8>, num: u64, value: u64) {
    put_varint(out, num << 3);
    put_varint(out, value);
}

pub fn tag_msg(key: &[u8], value: &[u8], code: u64) -> Vec<u8> {
    let mut out = Vec::new();
    put_chunk(&mut out, 1, key);
    put_chunk(&mut out, 2, value);
    put_word(&mut out, 3, code);
    out
}

pub fn feature_msg(geom: &[u8], tags: &[Vec<u8>]) -> Vec<u8> {
    let mut out = Vec::new();
    put_chunk(&mut out, 3, geom);
    for t in tags {
        put_chunk(&mut out, 4, t);
    }
    out
}

pub fn body_msg(features: &[Vec<u8>]) -> Vec<u8> {
    let mut out = Vec::new();
    for f in features {
        put_chunk(&mut out, 2, f);
    }
    out
}

pub fn block(body: &[u8]) -> Vec<u8> {
    let mut out = Vec::new();
    out.extend_from_slice(&(body.len() as u32).to_le_bytes());
    out.extend_from_slice(&[0, 0, 0, 0]);
    out.extend_from_slice(body);
    out
}

pub fn stream(blocks: &[Vec<u8>]) -> Vec<u8> {
    let mut out = Vec::new();
    out.extend_from_slice(b"SPAT\0\0\0\0");
    for b in blocks {
        out.extend_from_slice(b);
    }
    out.extend_from_slice(&[0, 0, 0, 0]);
    out
}

pub fn wkb_point(x: f64, y: f64) -> Vec<u8> {
    let mut out = vec![1u8, 1, 0, 0, 0];
    out.extend_from_slice(&x.to_le_bytes());
    out.extend_from_slice(&y.to_le_bytes());
    out
}

#[test]
fn file_header_test() {
    let mut file = ByteStream::new(b"SPAT\0\0\0\0".to_vec());
    assert!(read_file_header(&mut file).is_ok());
}

#[test]
fn header_rejects_bad_prefix() {
    let mut s = ByteStream::new(b"SPAS\0\0\0\0".to_vec());
    assert_eq!(read_file_header(&mut s), Err(spaten::Error::Format));
    let mut s = ByteStream::new(b"SPAT\0\0\x01\0".to_vec());
    assert_eq!(read_file_header(&mut s), Err(spaten::Error::Format));
    let mut s = ByteStream::new(b"SPAT\0\0".to_vec());
    assert_eq!(read_file_header(&mut s), Err(spaten::Error::Io));
}

#[test]
fn sentinel_reads_only_four_bytes() {
    let mut s = ByteStream::new(vec![0, 0, 0, 0, 0xff, 0xff, 0xff, 0xff]);
    assert_eq!(read_block(&mut s), Ok(None));
    assert_eq!(s.pos, 4);
}

#[test]
fn block_consumes_exact_body() {
    let mut data = block(&[9, 8, 7, 6, 5]);
    data.extend_from_slice(&[0xaa, 0xbb]);
    let mut s = ByteStream::new(data);
    let body = read_block(&mut s).unwrap().unwrap();
    assert_eq!(body, vec![9, 8, 7, 6, 5]);
    assert_eq!(s.pos, 13);
}

#[test]
fn short_body_is_io_error() {
    let mut data = Vec::new();
    data.extend_from_slice(&10u32.to_le_bytes());
    data.extend_from_slice(&[0, 0, 0, 0]);
    data.extend_from_slice(&[1, 2, 3, 4, 5]);
    let mut s = ByteStream::new(data);
    assert_eq!(read_block(&mut s), Err(spaten::Error::Io));
}

#[test]
fn nonzero_flags_rejected() {
    let mut data = block(&[1]);
    data[4] = 1;
    let mut s = ByteStream::new(data);
    assert_eq!(read_block(&mut s), Err(spaten::Error::Format));
}

#[test]
fn nonzero_compression_rejected() {
    let mut data = block(&[1]);
    data[6] = 1;
    let mut s = ByteStream::new(data);
    assert_eq!(read_block(&mut s), Err(spaten::Error::Format));
}

#[test]
fn nonzero_message_type_rejected() {
    let mut data = block(&[1]);
    data[7] = 1;
    let mut s = ByteStream::new(data);
    assert_eq!(read_block(&mut s), Err(spaten::Error::Format));
}

#[test]
fn int_round_trip() {
    for v in [i64::MIN, -1, 0, 42, i64::MAX] {
        let got = Value::from_bytes(v.to_le_bytes().to_vec(), ValueType::Int).unwrap();
        match got {
            Value::Integer(x) => assert_eq!(x, v),
            _ => panic!("expected an integer"),
        }
    }
}

#[test]
fn double_round_trip() {
    for x in [0.0f64, -1.5, 2.25e300, f64::NAN, f64::INFINITY, f64::NEG_INFINITY] {
        let got = Value::from_bytes(x.to_le_bytes().to_vec(), ValueType::Double).unwrap();
        match got {
            Value::Double(bits) => assert_eq!(bits, x.to_bits()),
            _ => panic!("expected a double"),
        }
    }
}

#[test]
fn wrong_size_numeric_rejected() {
    assert!(matches!(
        Value::from_bytes(vec![1, 2, 3], ValueType::Int),
        Err(spaten::Error::Format)
    ));
    assert!(matches!(
        Value::from_bytes(vec![0; 9], ValueType::Double),
        Err(spaten::Error::Format)
    ));
}

#[test]
fn invalid_utf8_is_replaced() {
    let got = Value::from_bytes(vec![0xff, 0xfe], ValueType::Text).unwrap();
    match got {
        Value::Text(s) => assert!(s.contains('\u{fffd}')),
        _ => panic!("expected text"),
    }
}

#[test]
fn ascii_text_decodes() {
    let got = Value::from_bytes(b"A street".to_vec(), ValueType::Text).unwrap();
    match got {
        Value::Text(s) => assert_eq!(s, "A street"),
        _ => panic!("expected text"),
    }
}

#[test]
fn empty_body_gives_no_features() {
    // an outer message with only a metadata field decodes to zero records
    let body = {
        let mut out = Vec::new();
        put_chunk(&mut out, 1, &[]);
        out
    };
    let features = spaten::read_body(body).unwrap();
    assert_eq!(features.len(), 0);
}

#[test]
fn empty_block_is_passed_over() {
    let empty_body = {
        let mut out = Vec::new();
        put_chunk(&mut out, 1, &[]);
        out
    };
    let full_body = body_msg(&[feature_msg(
        &wkb_point(1.0, 2.0),
        &[tag_msg(b"name", b"A street", 0)],
    )]);
    let data = stream(&[block(&empty_body), block(&full_body)]);
    let mut it = spaten::FeatureIterator::new(data).unwrap();
    let first = it.next().unwrap();
    assert!(first.is_some());
    assert!(it.next().unwrap().is_none());
}

#[test]
fn end_to_end_two_features() {
    let body = body_msg(&[
        feature_msg(&wkb_point(1.0, 2.0), &[tag_msg(b"name", b"A street", 0)]),
        feature_msg(&wkb_point(3.0, 4.0), &[tag_msg(b"id", &42i64.to_le_bytes(), 1)]),
    ]);
    let data = stream(&[block(&body)]);
    let mut it = spaten::FeatureIterator::new(data).unwrap();

    let f1 = it.next().unwrap().expect("first feature");
    assert_eq!(f1.geometry, wkb_point(1.0, 2.0));
    assert_eq!(f1.tags.len(), 1);
    assert_eq!(f1.tags[0].0, "name");
    match &f1.tags[0].1 {
        Value::Text(s) => assert_eq!(s, "A street"),
        _ => panic!("expected text"),
    }

    let f2 = it.next().unwrap().expect("second feature");
    assert_eq!(f2.geometry, wkb_point(3.0, 4.0));
    assert_eq!(f2.tags.len(), 1);
    assert_eq!(f2.tags[0].0, "id");
    match &f2.tags[0].1 {
        Value::Integer(v) => assert_eq!(*v, 42),
        _ => panic!("expected an integer"),
    }

    assert!(it.next().unwrap().is_none());
}

#[test]
fn exhaustion_is_sticky() {
    let data = stream(&[]);
    let mut it = spaten::FeatureIterator::new(data).unwrap();
    assert!(it.next().unwrap().is_none());
    let pos_after_end = it.stream.pos;
    assert!(it.next().unwrap().is_none());
    assert!(it.next().unwrap().is_none());
    assert_eq!(it.stream.pos, pos_after_end);
}

#[test]
fn duplicate_keys_overwrite() {
    let body = body_msg(&[feature_msg(
        &wkb_point(0.0, 0.0),
        &[
            tag_msg(b"k", &1i64.to_le_bytes(), 1),
            tag_msg(b"k", &2i64.to_le_bytes(), 1),
        ],
    )]);
    let features = spaten::read_body(body).unwrap();
    assert_eq!(features.len(), 1);
    assert_eq!(features[0].tags.len(), 1);
    assert_eq!(features[0].tags[0].0, "k");
    match &features[0].tags[0].1 {
        Value::Integer(v) => assert_eq!(*v, 2),
        _ => panic!("expected an integer"),
    }
}

#[test]
fn invalid_geometry_rejected() {
    // a big-endian point is not accepted
    let mut geom = wkb_point(1.0, 2.0);
    geom[0] = 0;
    let body = body_msg(&[feature_msg(&geom, &[])]);
    assert!(matches!(spaten::read_body(body), Err(spaten::Error::Format)));
}

#[test]
fn truncated_geometry_rejected() {
    let mut geom = wkb_point(1.0, 2.0);
    geom.truncate(12);
    let body = body_msg(&[feature_msg(&geom, &[])]);
    assert!(matches!(spaten::read_body(body), Err(spaten::Error::Format)));
}

#[test]
fn unknown_value_code_rejected() {
    let body = body_msg(&[feature_msg(
        &wkb_point(0.0, 0.0),
        &[tag_msg(b"k", b"v", 3)],
    )]);
    assert!(matches!(spaten::read_body(body), Err(spaten::Error::Format)));
}

#[test]
fn unknown_fields_are_skipped() {
    let mut feature = feature_msg(&wkb_point(0.0, 0.0), &[]);
    put_chunk(&mut feature, 9, b"future data");
    put_word(&mut feature, 10, 7);
    let body = body_msg(&[feature]);
    let features = spaten::read_body(body).unwrap();
    assert_eq!(features.len(), 1);
    assert_eq!(features[0].geometry, wkb_point(0.0, 0.0));
}

#[test]
fn malformed_message_rejected() {
    // a chunk whose declared length runs past the end of the body
    let body = vec![0x12, 0x05, 0x01];
    assert!(matches!(spaten::read_body(body), Err(spaten::Error::Format)));
}

#[test]
fn iterator_propagates_format_error() {
    let mut data = b"SPAT\0\0\0\0".to_vec();
    let mut bad = block(&[1]);
    bad[6] = 9;
    data.extend_from_slice(&bad);
    let mut it = spaten::FeatureIterator::new(data).unwrap();
    assert!(matches!(it.next(), Err(spaten::Error::Format)));
}

#[test]
fn iterator_rejects_bad_header() {
    assert!(spaten::FeatureIterator::new(b"nope".to_vec()).is_err());
}

#[test]
fn geometry_check_accepts_real_wkb() {
    let shapes: Vec<geo_types::Geometry<f64>> = vec![
        geo_types::Geometry::Point(geo_types::Point::new(7.1, 50.7)),
        geo_types::Geometry::LineString(geo_types::LineString::from(vec![
            (0.0, 0.0),
            (1.0, 1.0),
            (2.0, 0.5),
        ])),
        geo_types::Geometry::Polygon(geo_types::Polygon::new(
            geo_types::LineString::from(vec![(0.0, 0.0), (4.0, 0.0), (4.0, 4.0), (0.0, 0.0)]),
            vec![],
        )),
    ];
    for shape in &shapes {
        let bytes = wkb::geom_to_wkb(shape).unwrap();
        let body = body_msg(&[feature_msg(&bytes, &[])]);
        let features = spaten::read_body(body).unwrap();
        assert_eq!(features.len(), 1);
        // the bytes the feature carries still parse with the geometry library
        let mut cur = std::io::Cursor::new(&features[0].geometry);
        let parsed = wkb::wkb_to_geom(&mut cur).unwrap();
        assert_eq!(&parsed, shape);
    }
}

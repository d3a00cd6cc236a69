use soklyn::io::bytes::{from_bytes, to_bytes};
use soklyn::io::param_name::{name_param, parse_name, ParamName, ParamType};
use soklyn::io::safetensor::{SafetensorDescriptor, SafetensorWriter};
use soklyn::util::log::{Error, IoFault};
use soklyn::util::text::{append_decimal, parse_size};
use soklyn::Precision;

fn image_of(header: &str, data: &[u8]) -> Vec<u8> {
    let mut image = (header.len() as u64).to_le_bytes().to_vec();
    image.extend_from_slice(header.as_bytes());
    image.extend_from_slice(data);
    image
}

fn read(image: &[u8]) -> Result<SafetensorWriter, Error> {
    SafetensorWriter::read(image)
}

fn find<'a>(w: &'a SafetensorWriter, name: &str) -> &'a SafetensorDescriptor {
    w.get_descriptors().iter().find(|d| d.name == name).unwrap()
}

#[test]
fn numbers_are_little_endian() {
    assert_eq!(
        to_bytes(&[0x0403_0201, 0xfffe_fdfc], Precision::FP32),
        vec![1, 2, 3, 4, 0xfc, 0xfd, 0xfe, 0xff]
    );
    assert_eq!(to_bytes(&[0x0201], Precision::FP16), vec![1, 2]);
    assert_eq!(from_bytes(&[1, 2, 3, 4, 5], Precision::FP32), vec![0x0403_0201, 5]);
    assert_eq!(from_bytes(&[1, 2, 3], Precision::FP16), vec![0x0201, 3]);
    let numbers = [0, 1, 0xffff_ffff, 0x8000_0001];
    assert_eq!(from_bytes(&to_bytes(&numbers, Precision::FP32), Precision::FP32), numbers);
}

#[test]
fn sizes_are_printed_and_parsed() {
    for n in [0usize, 7, 10, 99, 100, 1234567890, usize::MAX] {
        let mut s = String::from("x");
        append_decimal(&mut s, n);
        assert_eq!(s, format!("x{n}"));
        assert_eq!(parse_size(&s[1..]), Some(n));
    }
    for s in ["", "+", "-1", "1x", " 1", "++1", "18446744073709551616", "0x1"] {
        assert_eq!(parse_size(s), s.parse::<usize>().ok());
        assert_eq!(parse_size(s), None);
    }
    for s in ["+5", "007", "18446744073709551615"] {
        assert_eq!(parse_size(s), s.parse::<usize>().ok());
        assert!(parse_size(s).is_some());
    }
}

#[test]
fn names_are_taken_apart() {
    let kinds = [
        (ParamType::W, "w"),
        (ParamType::B, "b"),
        (ParamType::MasterW, "master_w"),
        (ParamType::MasterB, "master_b"),
        (ParamType::NormW, "norm_w"),
        (ParamType::NormB, "norm_b"),
        (ParamType::MasterNormW, "master_norm_w"),
        (ParamType::MasterNormB, "master_norm_b"),
        (ParamType::DvW, "dv_w"),
        (ParamType::DvB, "dv_b"),
        (ParamType::DmW, "dm_w"),
        (ParamType::DmB, "dm_b"),
        (ParamType::DvNormW, "dv_norm_w"),
        (ParamType::DvNormB, "dv_norm_b"),
        (ParamType::DmNormW, "dm_norm_w"),
        (ParamType::DmNormB, "dm_norm_b"),
    ];
    for (kind, suffix) in kinds {
        let name = name_param(12, kind);
        assert_eq!(name, format!("layer12.{suffix}"));
        match parse_name(&name) {
            ParamName::Param { layer, index, kind: found } => {
                assert_eq!((layer.as_str(), index, found), ("12", 12, kind));
            }
            _ => panic!("not taken apart"),
        }
    }
    assert!(ParamType::B.is_vector() && !ParamType::MasterB.is_vector());
    assert!(ParamType::MasterB.is_f32_only() && !ParamType::NormB.is_f32_only());
    assert!(matches!(parse_name("embedding.w"), ParamName::Foreign));
    assert!(matches!(parse_name("laye"), ParamName::Foreign));
    for (name, why) in [
        ("layer1w", "missing '.' separator"),
        ("layerx.w", "invalid layer index number"),
        ("layer.w", "invalid layer index number"),
        ("layer1.weights", "unrecognized parameter type"),
        ("layer1.2.w", "unrecognized parameter type"),
    ] {
        match parse_name(name) {
            ParamName::Invalid { reason } => assert_eq!(reason, why),
            _ => panic!("not refused"),
        }
    }
}

#[test]
fn a_file_is_framed_and_aligned() {
    let mut w = SafetensorWriter::empty();
    w.pass("a".to_string(), vec![1, 2], vec![1, 2, 3, 4], Precision::FP16);
    w.pass_descriptor(SafetensorDescriptor {
        name: "b".to_string(),
        shape: vec![1],
        data: vec![5, 6, 7, 8],
        precision: Precision::FP32,
    });
    w.pass_metadata("format".to_string(), "pt".to_string());
    let image = w.write().unwrap();
    let n = u64::from_le_bytes(image[..8].try_into().unwrap()) as usize;
    assert_eq!(n % 8, 0);
    assert_eq!(&image[8 + n..], &[1, 2, 3, 4, 5, 6, 7, 8]);
    let header: serde_json::Value = serde_json::from_slice(&image[8..8 + n]).unwrap();
    assert_eq!(header["a"]["dtype"], "F16");
    assert_eq!(header["a"]["shape"][1], 2);
    assert_eq!(header["a"]["data_offsets"][1], 4);
    assert_eq!(header["b"]["dtype"], "F32");
    assert_eq!(header["b"]["data_offsets"][0], 4);
    assert_eq!(header["b"]["data_offsets"][1], 8);
    assert_eq!(header["__metadata__"]["format"], "pt");
    assert!(image[8..8 + n].starts_with(b"{\n  \""));
}

#[test]
fn what_is_written_is_read_back() {
    let mut w = SafetensorWriter::empty();
    for i in 0..20u8 {
        w.pass(
            format!("tensor \"{i}\" \u{e9}"),
            vec![usize::from(i), 3],
            vec![i; usize::from(i)],
            if i % 2 == 0 { Precision::FP32 } else { Precision::FP16 },
        );
    }
    w.pass_metadata("b".to_string(), "1".to_string());
    w.pass_metadata("a".to_string(), "2".to_string());
    w.pass_metadata("b".to_string(), "3\n\t\\".to_string());
    let back = read(&w.write().unwrap()).unwrap();
    assert_eq!(back.get_descriptors().len(), 20);
    for d in w.get_descriptors() {
        let found = find(&back, &d.name);
        assert_eq!(found.shape, d.shape);
        assert_eq!(found.data, d.data);
        assert_eq!(found.precision, d.precision);
    }
    assert_eq!(back.get_metadata().len(), 2);
    assert_eq!(back.get_metadata()["a"], "2");
    assert_eq!(back.get_metadata()["b"], "3\n\t\\");
    let keys: Vec<&String> = back.get_metadata().keys().collect();
    assert_eq!(keys, vec!["a", "b"]);
    let keys: Vec<&String> = w.get_metadata().keys().collect();
    assert_eq!(keys, vec!["b", "a"]);
}

#[test]
fn an_empty_file_is_read_back() {
    let image = SafetensorWriter::empty().write().unwrap();
    let back = read(&image).unwrap();
    assert!(back.get_descriptors().is_empty());
    assert!(back.get_metadata().is_empty());
}

#[test]
fn files_that_end_early_are_refused() {
    let eof = |r: Result<SafetensorWriter, Error>| {
        matches!(r, Err(Error::IOError(IoFault::UnexpectedEof)))
    };
    assert!(eof(read(&[1, 2, 3])));
    assert!(eof(read(&[9, 0, 0, 0, 0, 0, 0, 0, b'{', b'}'])));
    let entry = "{\"a\":{\"dtype\":\"F32\",\"shape\":[1],\"data_offsets\":[0,4]}}";
    assert!(eof(read(&image_of(entry, &[1, 2, 3]))));
    assert!(read(&image_of(entry, &[1, 2, 3, 4])).is_ok());
}

#[test]
fn headers_that_are_malformed_are_refused() {
    let json = |header: &str| matches!(read(&image_of(header, &[])), Err(Error::SerdeJSON(_)));
    assert!(json("{"));
    assert!(json("[]"));
    assert!(json("{\"a\":1}"));
    assert!(json("{\"a\":{\"dtype\":\"F32\",\"shape\":[1]}}"));
    assert!(json("{\"a\":{\"dtype\":3,\"shape\":[1],\"data_offsets\":[0,0]}}"));
    assert!(json("{\"a\":{\"dtype\":\"F32\",\"shape\":[-1],\"data_offsets\":[0,0]}}"));
    assert!(json("{\"a\":{\"dtype\":\"F32\",\"shape\":[1],\"data_offsets\":[0,0,0]}}"));
    assert!(read(&image_of("{\"a\":[\"F32\",[1],[0,0]]}", &[])).is_ok());
    assert!(read(&image_of("{}   ", &[])).is_ok());
}

#[test]
fn unknown_data_types_are_refused() {
    let header = "{\"a\":{\"dtype\":\"I\\\"8\",\"shape\":[0],\"data_offsets\":[0,0]}}";
    match read(&image_of(header, &[])) {
        Err(Error::UnrecognizedTensorKey { key, dtype }) => {
            assert_eq!(key, "a");
            assert_eq!(dtype, "\"I\\\"8\"");
        }
        _ => panic!("not refused"),
    }
}

#[test]
fn offsets_that_are_out_of_order_are_refused() {
    let header = "{\"a\":{\"dtype\":\"F32\",\"shape\":[1],\"data_offsets\":[4,0]}}";
    assert!(matches!(read(&image_of(header, &[0; 4])), Err(Error::SerdeJSON(_))));
    let header = format!(
        "{{\"a\":{{\"dtype\":\"F32\",\"shape\":[0],\"data_offsets\":[{0},{0}]}}}}",
        usize::MAX
    );
    assert!(matches!(read(&image_of(&header, &[])), Err(Error::SerdeJSON(_))));
}

#[test]
fn metadata_of_any_kind_becomes_text() {
    let header = "{\"__metadata__\":{\"n\":1.5,\"l\":[1, \"x\"],\"t\":\"y\"}}";
    let back = read(&image_of(header, &[])).unwrap();
    assert_eq!(back.get_metadata()["n"], "1.5");
    assert_eq!(back.get_metadata()["l"], "[1,\"x\"]");
    assert_eq!(back.get_metadata()["t"], "y");
    let back = read(&image_of("{\"__metadata__\":[1]}", &[])).unwrap();
    assert!(back.get_metadata().is_empty());
}

use classfile_parser::attribute_info::{
    bootstrap_methods_attribute_parser, code_attribute_opt_parser, code_attribute_parser,
    stack_map_table_attribute_parser, StackMapFrame, VerificationTypeInfo,
};
use classfile_parser::constant_info::{to_text, ConstantInfo, ConstantKind};
use classfile_parser::constant_pool::{ConstantPool, ConstantPoolIndex, ConstantPoolIndexRaw, InvalidConstantPoolIndex};
use classfile_parser::field_info::FieldAccessFlags;
use classfile_parser::method_info::MethodInfoOpt;
use classfile_parser::{
    class_parser, class_parser_opt, ByteRange, ClassFileJavaVersion, ClassFileVersion, LoadError,
    ParseData, ParseError,
};

fn utf8(out: &mut Vec<u8>, s: &str) {
    out.push(1);
    out.extend_from_slice(&(s.len() as u16).to_be_bytes());
    out.extend_from_slice(s.as_bytes());
}

fn u16be(out: &mut Vec<u8>, v: u16) {
    out.extend_from_slice(&v.to_be_bytes());
}

/// A small class: a pool with a `Long`, one field with a constant value,
/// two methods (the first with a `Code` attribute) and a `BootstrapMethods`
/// attribute.
fn sample_class() -> Vec<u8> {
    let mut b = vec![0xCA, 0xFE, 0xBA, 0xBE, 0, 0, 0, 52];
    u16be(&mut b, 15);
    utf8(&mut b, "Foo"); // 1
    b.extend_from_slice(&[7, 0, 1]); // 2
    utf8(&mut b, "java/lang/Object"); // 3
    b.extend_from_slice(&[7, 0, 3]); // 4
    b.extend_from_slice(&[5, 0, 0, 0, 1, 0, 0, 0, 2]); // 5 and 6
    utf8(&mut b, "ConstantValue"); // 7
    utf8(&mut b, "BootstrapMethods"); // 8
    utf8(&mut b, "Code"); // 9
    utf8(&mut b, "m"); // 10
    utf8(&mut b, "()V"); // 11
    b.extend_from_slice(&[3, 0, 0, 0, 42]); // 12
    utf8(&mut b, "x"); // 13
    utf8(&mut b, "I"); // 14
    u16be(&mut b, 0x0021);
    u16be(&mut b, 2);
    u16be(&mut b, 4);
    u16be(&mut b, 0);
    // fields
    u16be(&mut b, 1);
    u16be(&mut b, 0x0018);
    u16be(&mut b, 13);
    u16be(&mut b, 14);
    u16be(&mut b, 1);
    u16be(&mut b, 7);
    b.extend_from_slice(&[0, 0, 0, 2, 0, 12]);
    // methods
    u16be(&mut b, 2);
    u16be(&mut b, 0x0001);
    u16be(&mut b, 10);
    u16be(&mut b, 11);
    u16be(&mut b, 1);
    u16be(&mut b, 9);
    b.extend_from_slice(&[0, 0, 0, 13]);
    b.extend_from_slice(&[0, 1, 0, 1, 0, 0, 0, 1, 0xB1, 0, 0, 0, 0]);
    u16be(&mut b, 0x0009);
    u16be(&mut b, 10);
    u16be(&mut b, 11);
    u16be(&mut b, 0);
    // class attributes
    u16be(&mut b, 1);
    u16be(&mut b, 8);
    b.extend_from_slice(&[0, 0, 0, 8, 0, 1, 0, 2, 0, 1, 0, 12]);
    b
}

#[test]
fn eager_parse_of_sample_class() {
    let data = sample_class();
    let (rest, c) = class_parser(ParseData::new(&data)).unwrap();
    assert!(rest.is_empty());
    assert_eq!(rest.pos(), data.len());
    assert_eq!(c.version, ClassFileVersion { major: 52, minor: 0 });
    assert_eq!(c.version.into_java_version(), Some(ClassFileJavaVersion::V8));
    assert_eq!(c.const_pool_size, 15);
    assert_eq!(c.const_pool.len(), 14);
    assert_eq!(c.access_flags.bits(), 0x0021);
    assert_eq!(c.this_class, ConstantPoolIndexRaw(2));
    assert_eq!(c.super_class, ConstantPoolIndexRaw(4));
    assert_eq!(c.interfaces_count, 0);
    assert_eq!(c.fields_count, 1);
    assert_eq!(c.fields[0].attributes.len(), 1);
    assert!(c.fields[0].access_flags.contains(FieldAccessFlags::STATIC));
    assert_eq!(c.methods_count, 2);
    assert_eq!(c.methods[0].attributes.len(), 1);
    assert_eq!(c.methods[1].attributes.len(), 0);
    assert_eq!(c.attributes_count, 1);
    assert_eq!(c.attributes[0].attribute_length, 8);
}

#[test]
fn long_constant_takes_two_slots() {
    let data = sample_class();
    let (_, c) = class_parser(ParseData::new(&data)).unwrap();
    match c.const_pool.get(ConstantPoolIndexRaw(5)) {
        Some(ConstantInfo::Long(l)) => assert_eq!(l.value, 0x1_0000_0002),
        other => panic!("unexpected {:?}", other),
    }
    assert_eq!(c.const_pool.get(ConstantPoolIndexRaw(6)), Some(&ConstantInfo::Unusable));
    assert!(c.const_pool.get_t(ConstantPoolIndexRaw(6), ConstantKind::Long).is_none());
    assert!(c.const_pool.get_t(ConstantPoolIndexRaw(6), ConstantKind::Utf8).is_none());
    assert!(c.const_pool.get_t(ConstantPoolIndexRaw(5), ConstantKind::Long).is_some());
    match c.const_pool.get(ConstantPoolIndexRaw(12)) {
        Some(ConstantInfo::Integer(i)) => assert_eq!(i.value, 42),
        other => panic!("unexpected {:?}", other),
    }
    assert!(c.const_pool.get(ConstantPoolIndexRaw(0)).is_none());
    assert!(c.const_pool.get(ConstantPoolIndexRaw(15)).is_none());
    let name = c.const_pool.get_utf8(ConstantPoolIndexRaw(1)).unwrap();
    assert_eq!(name.len(), 3);
    assert_eq!(name.as_text(&data), "Foo");
}

#[test]
fn pool_length_is_declared_count_less_one() {
    let data = sample_class();
    let (_, c) = class_parser(ParseData::new(&data)).unwrap();
    assert_eq!(c.const_pool.len(), c.const_pool_size - 1);
    let slices = c.const_pool.as_slice();
    for (i, e) in slices.iter().enumerate() {
        if matches!(e, ConstantInfo::Long(_) | ConstantInfo::Double(_)) {
            assert_eq!(slices[i + 1], ConstantInfo::Unusable);
        }
    }
}

#[test]
fn corrected_index_round_trip() {
    assert_eq!(ConstantPoolIndex::try_from(ConstantPoolIndexRaw::new(0)), Err(InvalidConstantPoolIndex));
    let c = ConstantPoolIndex::try_from(ConstantPoolIndexRaw::new(5)).unwrap();
    assert_eq!(c, ConstantPoolIndex(4));
    assert_eq!(c.to_raw(), ConstantPoolIndexRaw(5));
    assert!(ConstantPoolIndexRaw::new(0).is_zero());
    assert_eq!(ConstantPoolIndex::try_from(ConstantPoolIndexRaw::new(65535)).unwrap().to_raw().0, 65535);
}

#[test]
fn lazy_point_lookup_equals_eager_record() {
    let data = sample_class();
    let (_, eager) = class_parser(ParseData::new(&data)).unwrap();
    let (_, lazy) = class_parser_opt(ParseData::new(&data)).unwrap();
    assert_eq!(lazy.methods.len(), 2);
    assert!(!lazy.methods.has_data());
    for i in 0..2u16 {
        assert_eq!(lazy.load_method_at(&data, i).unwrap(), eager.methods[i as usize]);
        assert_eq!(
            lazy.load_method_opt_at(&data, i).unwrap(),
            MethodInfoOpt::from_method_info(&eager.methods[i as usize])
        );
    }
    assert_eq!(lazy.load_method_at(&data, 2), Err(LoadError::OutOfRange));
    assert_eq!(lazy.load_method_opt_at(&data, 2), Err(LoadError::OutOfRange));
    assert!(!lazy.methods.has_data());
}

#[test]
fn lazy_header_matches_eager_header() {
    let data = sample_class();
    let (r1, eager) = class_parser(ParseData::new(&data)).unwrap();
    let (r2, lazy) = class_parser_opt(ParseData::new(&data)).unwrap();
    assert_eq!(r1.pos(), r2.pos());
    assert_eq!(lazy.version, eager.version);
    assert_eq!(lazy.const_pool.as_slice(), eager.const_pool.as_slice());
    assert_eq!(lazy.fields.len(), eager.fields_count);
    assert_eq!(lazy.attributes.len(), eager.attributes_count);
    let headers = lazy.load_method_opt_iter(&data).unwrap();
    assert_eq!(headers.len(), 2);
    assert_eq!(headers[1].access_flags.bits(), 0x0009);
}

#[test]
fn bulk_load_is_idempotent() {
    let data = sample_class();
    let (_, eager) = class_parser(ParseData::new(&data)).unwrap();
    let (_, mut lazy) = class_parser_opt(ParseData::new(&data)).unwrap();
    let cut = &data[..lazy.methods.start_pos() + 3];
    assert!(matches!(lazy.load_all_methods_mut(cut), Err(LoadError::Decode(ParseError::Incomplete))));
    assert!(!lazy.methods.has_data());
    assert_eq!(lazy.load_all_methods_mut(&data), Ok(()));
    assert_eq!(lazy.methods.data().unwrap(), &eager.methods[..]);
    assert_eq!(lazy.load_all_methods_mut(cut), Ok(()));
    assert_eq!(lazy.methods.data().unwrap(), &eager.methods[..]);
    assert_eq!(lazy.load_method_at(cut, 1).unwrap(), eager.methods[1]);
    assert_eq!(lazy.methods.get_opt(1), Some(&eager.methods[1]));
    assert_eq!(lazy.methods.get_opt(2), None);
}

#[test]
fn class_attribute_search_by_name() {
    let data = sample_class();
    let (_, lazy) = class_parser_opt(ParseData::new(&data)).unwrap();
    let range = lazy.load_attribute_with_name(&data, "BootstrapMethods").unwrap().unwrap();
    assert_eq!(range.end - range.start, 8);
    let (_, bsm) = bootstrap_methods_attribute_parser(ParseData::from_range(&data, range)).unwrap();
    assert_eq!(bsm.num_bootstrap_methods, 1);
    assert_eq!(bsm.bootstrap_methods[0].bootstrap_method_ref, 2);
    assert_eq!(bsm.bootstrap_methods[0].bootstrap_arguments, vec![12]);
    assert_eq!(lazy.load_attribute_with_name(&data, "SourceFile").unwrap(), None);
    assert_eq!(lazy.load_attribute_with_name(&data, "Bootstrap").unwrap(), None);
}

#[test]
fn method_attribute_search_and_code() {
    let data = sample_class();
    let (_, lazy) = class_parser_opt(ParseData::new(&data)).unwrap();
    let range = lazy.load_method_attribute_info_at_with_name(&data, 0, "Code").unwrap().unwrap();
    let (_, code) = code_attribute_parser(ParseData::from_range(&data, range)).unwrap();
    assert_eq!(code.max_stack, 1);
    assert_eq!(code.code_length, 1);
    assert_eq!(data[code.code.start], 0xB1);
    assert_eq!(code.code.end - code.code.start, 1);
    assert!(code.exception_table.is_empty());
    let (_, opt) = code_attribute_opt_parser(ParseData::from_range(&data, range)).unwrap();
    assert_eq!(opt.code_range, code.code);
    assert_eq!(opt.exception_table_start, code.code.end + 2);
    assert_eq!(lazy.load_method_attribute_info_at_with_name(&data, 1, "Code").unwrap(), None);
    assert_eq!(lazy.load_method_attribute_info_at_with_name(&data, 2, "Code"), Err(LoadError::OutOfRange));
}

#[test]
fn field_constant_values() {
    let data = sample_class();
    let (_, lazy) = class_parser_opt(ParseData::new(&data)).unwrap();
    let values = lazy.load_fields_values_iter(&data);
    assert_eq!(values.len(), 1);
    let (field, value) = values[0].unwrap();
    assert_eq!(field.name_index, ConstantPoolIndexRaw(13));
    assert_eq!(field.attributes_count, 1);
    assert_eq!(value, Some(ConstantPoolIndexRaw(12)));
}

#[test]
fn decode_errors() {
    let data = sample_class();
    let mut bad = data.clone();
    bad[0] = 0;
    assert!(matches!(class_parser(ParseData::new(&bad)), Err(ParseError::BadMagic)));
    assert!(matches!(class_parser(ParseData::new(&data[..2])), Err(ParseError::Incomplete)));
    assert!(matches!(class_parser(ParseData::new(&data[..data.len() - 1])), Err(ParseError::Incomplete)));
    assert!(matches!(class_parser_opt(ParseData::new(&data[..data.len() - 1])), Err(ParseError::Incomplete)));
    let mut tag = data.clone();
    tag[10] = 2;
    assert!(matches!(class_parser(ParseData::new(&tag)), Err(ParseError::UnrecognizedConstantTag(2))));
}

#[test]
fn stack_map_frames() {
    let bytes = [
        0, 4, 5, 0x41, 1, 0xFC, 0, 5, 7, 0, 2, 0xFF, 0, 1, 0, 1, 1, 0, 1, 5,
    ];
    let (rest, t) = stack_map_table_attribute_parser(ParseData::new(&bytes)).unwrap();
    assert!(rest.is_empty());
    assert_eq!(t.number_of_entries, 4);
    assert_eq!(t.entries[0], StackMapFrame::SameFrame { frame_type: 5 });
    assert_eq!(
        t.entries[1],
        StackMapFrame::SameLocals1StackItemFrame { frame_type: 0x41, stack: VerificationTypeInfo::Integer }
    );
    assert_eq!(
        t.entries[2],
        StackMapFrame::AppendFrame {
            frame_type: 0xFC,
            offset_delta: 5,
            locals: vec![VerificationTypeInfo::Object { class: ConstantPoolIndexRaw(2) }],
        }
    );
    assert_eq!(
        t.entries[3],
        StackMapFrame::FullFrame {
            frame_type: 0xFF,
            offset_delta: 1,
            number_of_locals: 1,
            locals: vec![VerificationTypeInfo::Integer],
            number_of_stack_items: 1,
            stack: vec![VerificationTypeInfo::Null],
        }
    );
    assert!(matches!(
        stack_map_table_attribute_parser(ParseData::new(&[0, 1, 0x80])),
        Err(ParseError::UnrecognizedFrameTag(0x80))
    ));
    assert!(matches!(
        stack_map_table_attribute_parser(ParseData::new(&[0, 1, 0x40, 9])),
        Err(ParseError::UnrecognizedVerificationTag(9))
    ));
    assert!(matches!(
        stack_map_table_attribute_parser(ParseData::new(&[0, 1, 0x40])),
        Err(ParseError::Incomplete)
    ));
}

#[test]
fn java_versions() {
    assert_eq!(ClassFileJavaVersion::from_version(45, 3), Some(ClassFileJavaVersion::V1_1));
    assert_eq!(ClassFileJavaVersion::from_version(57, 0), Some(ClassFileJavaVersion::V13));
    assert_eq!(ClassFileJavaVersion::from_version(44, 0), None);
    assert_eq!(ClassFileJavaVersion::from_version(58, 0), None);
}

#[test]
fn utf8_text_decoding() {
    assert_eq!(to_text(b"BootstrapMethods"), "BootstrapMethods");
    assert_eq!(to_text(&[0xED, 0xA0, 0xBD, 0xED, 0xB8, 0x80]), "\u{1F600}");
    assert_eq!(to_text(&[0xC0, 0x80]), "\u{0}");
    assert_eq!(to_text(&[0xFF]), "\u{FFFD}");
}

#[test]
fn parse_data_cursor() {
    let bytes = [1u8, 2, 3, 4, 5];
    let d = ParseData::from_range(&bytes, ByteRange { start: 1, end: 4 });
    assert_eq!(d.data(), &[2, 3, 4]);
    assert_eq!(d.pos(), 1);
    assert_eq!(d.as_range(), ByteRange { start: 1, end: 4 });
    let (rest, first) = d.take_split(2);
    assert_eq!(first.data(), &[2, 3]);
    assert_eq!(rest.pos(), 3);
    assert_eq!(d.slice(1).as_range(), ByteRange { start: 2, end: 4 });
    assert_eq!(d.take(1).len(), 1);
}

#[test]
fn pool_capacity_is_a_construction_error() {
    assert!(matches!(
        ConstantPool::new(vec![ConstantInfo::Unusable; 65536]),
        Err(ParseError::ConstantPoolTooLarge)
    ));
    let p = ConstantPool::new(vec![ConstantInfo::Unusable; 65535]).unwrap();
    assert_eq!(p.len(), 65535);
    assert!(ConstantPool::default().is_empty());
}

#[test]
fn constant_pool_count_of_zero_is_refused() {
    let bytes = [
        0xCA, 0xFE, 0xBA, 0xBE, 0, 0, 0, 52, 0, 0, 0, 0x21, 0, 1, 0, 0, 0, 0, 0, 0, 0, 0, 0, 0,
    ];
    assert!(matches!(class_parser(ParseData::new(&bytes)), Err(ParseError::InvalidConstantPoolCount)));
    assert!(matches!(class_parser_opt(ParseData::new(&bytes)), Err(ParseError::InvalidConstantPoolCount)));
}

#[test]
fn java_version_major_numbers() {
    assert_eq!(ClassFileJavaVersion::V1_1.major_version(), 45);
    assert_eq!(ClassFileJavaVersion::V8.major_version(), 52);
    assert_eq!(ClassFileJavaVersion::V13.major_version(), 57);
    for major in 45..=57u16 {
        assert_eq!(ClassFileJavaVersion::from_version(major, 0).unwrap().major_version(), major);
    }
}

#[test]
fn second_bulk_load_leaves_header_untouched() {
    let data = sample_class();
    let (_, mut lazy) = class_parser_opt(ParseData::new(&data)).unwrap();
    assert_eq!(lazy.load_all_methods_mut(&data), Ok(()));
    let version = lazy.version;
    let interfaces = lazy.interfaces.clone();
    assert_eq!(lazy.load_all_methods_mut(&data[..4]), Ok(()));
    assert_eq!(lazy.version, version);
    assert_eq!(lazy.interfaces, interfaces);
    assert_eq!(lazy.this_class, ConstantPoolIndexRaw(2));
}

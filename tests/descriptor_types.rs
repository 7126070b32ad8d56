use classfile_parser::descriptor::{DescriptorType, DescriptorTypeBasic, DescriptorTypeError};

#[test]
fn types_parsing() -> Result<(), DescriptorTypeError> {
    let one = 1;
    let two = 2;
    assert_eq!(DescriptorType::parse(b"B")?, (DescriptorTypeBasic::Byte.into(), b"" as &[u8]));
    assert_eq!(DescriptorType::parse(b"C")?, (DescriptorTypeBasic::Char.into(), b"" as &[u8]));
    assert_eq!(DescriptorType::parse(b"D")?, (DescriptorTypeBasic::Double.into(), b"" as &[u8]));
    assert_eq!(DescriptorType::parse(b"F")?, (DescriptorTypeBasic::Float.into(), b"" as &[u8]));
    assert_eq!(DescriptorType::parse(b"I")?, (DescriptorTypeBasic::Int.into(), b"" as &[u8]));
    assert_eq!(DescriptorType::parse(b"J")?, (DescriptorTypeBasic::Long.into(), b"" as &[u8]));
    assert_eq!(DescriptorType::parse(b"S")?, (DescriptorTypeBasic::Short.into(), b"" as &[u8]));
    assert_eq!(DescriptorType::parse(b"Z")?, (DescriptorTypeBasic::Boolean.into(), b"" as &[u8]));
    assert_eq!(DescriptorType::parse(b"ZB")?, (DescriptorTypeBasic::Boolean.into(), b"B" as &[u8]));
    assert_eq!(
        DescriptorType::parse(b"ZBLjava/test;")?,
        (DescriptorTypeBasic::Boolean.into(), b"BLjava/test;" as &[u8])
    );

    // Arrays
    assert_eq!(DescriptorType::parse(b"["), Err(DescriptorTypeError::NoInput));
    assert_eq!(
        DescriptorType::parse(b"[I")?,
        (DescriptorType::Array { level: one, component: DescriptorTypeBasic::Int }, b"" as &[u8])
    );
    assert_eq!(
        DescriptorType::parse(b"[IB")?,
        (DescriptorType::Array { level: one, component: DescriptorTypeBasic::Int }, b"B" as &[u8])
    );
    assert_eq!(
        DescriptorType::parse(b"[[I")?,
        (DescriptorType::Array { level: two, component: DescriptorTypeBasic::Int }, b"" as &[u8])
    );
    assert_eq!(
        DescriptorType::parse(b"[[IB")?,
        (DescriptorType::Array { level: two, component: DescriptorTypeBasic::Int }, b"B" as &[u8])
    );

    // Classes
    assert_eq!(DescriptorType::parse(b"L"), Err(DescriptorTypeError::NoClassNameEnd));
    assert_eq!(DescriptorType::parse(b"L;"), Err(DescriptorTypeError::EmptyClassName));
    assert_eq!(
        DescriptorType::parse(b"Ljava/util/Scanner;")?,
        (DescriptorTypeBasic::ClassName(b"java/util/Scanner".to_vec()).into(), b"" as &[u8])
    );

    assert_eq!(
        DescriptorType::parse(b"Ljava/util;B[I")?,
        (DescriptorTypeBasic::ClassName(b"java/util".to_vec()).into(), b"B[I" as &[u8])
    );
    Ok(())
}

#[test]
fn type_descriptor_rejects_unknown_opener_and_empty_input() {
    assert_eq!(DescriptorType::parse(b"V"), Err(DescriptorTypeError::InvalidTypeOpener));
    assert_eq!(DescriptorType::parse(b"X"), Err(DescriptorTypeError::InvalidTypeOpener));
    assert_eq!(DescriptorType::parse(b""), Err(DescriptorTypeError::NoInput));
    assert_eq!(DescriptorType::parse(b"[["), Err(DescriptorTypeError::NoInput));
    assert_eq!(DescriptorType::parse(b"[X"), Err(DescriptorTypeError::InvalidTypeOpener));
}

#[test]
fn array_of_class_with_remainder() {
    assert_eq!(
        DescriptorType::parse(b"[[[Lpkg/A;J").unwrap(),
        (
            DescriptorType::Array { level: 3, component: DescriptorTypeBasic::ClassName(b"pkg/A".to_vec()) },
            b"J" as &[u8]
        )
    );
}

use classfile_parser::descriptor::{
    DescriptorType, DescriptorTypeBasic, DescriptorTypeError, MethodDescriptor, MethodDescriptorError,
};

#[test]
fn method_parsing() {
    assert_eq!(MethodDescriptor::parse(b""), Err(MethodDescriptorError::Empty));
    assert_eq!(MethodDescriptor::parse(b")"), Err(MethodDescriptorError::NoOpeningBracket));
    assert_eq!(MethodDescriptor::parse(b"("), Err(MethodDescriptorError::NoClosingBracket));
    assert_eq!(MethodDescriptor::parse(b"()"), Err(MethodDescriptorError::NoReturnType));
    assert_eq!(
        MethodDescriptor::parse(b"()R"),
        Err(MethodDescriptorError::ReturnTypeError(DescriptorTypeError::InvalidTypeOpener))
    );
    assert_eq!(
        MethodDescriptor::parse(b"()V"),
        Ok(MethodDescriptor { parameter_types: Vec::new(), return_type: None })
    );
    assert_eq!(
        MethodDescriptor::parse(b"(I)V"),
        Ok(MethodDescriptor { parameter_types: vec![DescriptorTypeBasic::Int.into()], return_type: None })
    );
    assert_eq!(
        MethodDescriptor::parse(b"(IDJ)V"),
        Ok(MethodDescriptor {
            parameter_types: vec![
                DescriptorTypeBasic::Int.into(),
                DescriptorTypeBasic::Double.into(),
                DescriptorTypeBasic::Long.into()
            ],
            return_type: None,
        })
    );
    assert_eq!(
        MethodDescriptor::parse(b"(IDLjava/lang/Thread;)Ljava/lang/Object;"),
        Ok(MethodDescriptor {
            parameter_types: vec![
                DescriptorTypeBasic::Int.into(),
                DescriptorTypeBasic::Double.into(),
                DescriptorTypeBasic::ClassName(b"java/lang/Thread".to_vec()).into()
            ],
            return_type: Some(DescriptorTypeBasic::ClassName(b"java/lang/Object".to_vec()).into()),
        })
    );
}

#[test]
fn method_descriptor_trailing_bytes_after_return_type() {
    assert_eq!(MethodDescriptor::parse(b"()II"), Err(MethodDescriptorError::RemainingData));
}

#[test]
fn method_descriptor_parameter_errors_carry_position() {
    assert_eq!(
        MethodDescriptor::parse(b"(L;)V"),
        Err(MethodDescriptorError::ParameterTypeError(DescriptorTypeError::EmptyClassName, 0))
    );
    assert_eq!(
        MethodDescriptor::parse(b"(IL)V"),
        Err(MethodDescriptorError::ParameterTypeError(DescriptorTypeError::NoClassNameEnd, 1))
    );
}

#[test]
fn method_descriptor_array_parameters_and_return() {
    assert_eq!(
        MethodDescriptor::parse(b"([[IZ)[Ljava/lang/String;"),
        Ok(MethodDescriptor {
            parameter_types: vec![
                DescriptorType::Array { level: 2, component: DescriptorTypeBasic::Int },
                DescriptorTypeBasic::Boolean.into(),
            ],
            return_type: Some(DescriptorType::Array {
                level: 1,
                component: DescriptorTypeBasic::ClassName(b"java/lang/String".to_vec()),
            }),
        })
    );
}

#[test]
fn parameter_iterator_then_return_type() {
    let mut it = MethodDescriptor::parse_iter(b"(BC)S").unwrap();
    assert_eq!(it.next(), Some(Ok(DescriptorTypeBasic::Byte.into())));
    assert_eq!(it.next(), Some(Ok(DescriptorTypeBasic::Char.into())));
    assert_eq!(it.next(), None);
    assert_eq!(it.next(), None);
    assert_eq!(it.finish_return_type(), Ok(Some(DescriptorTypeBasic::Short.into())));
}

#[test]
fn parameter_iterator_reports_missing_bracket_once() {
    let mut it = MethodDescriptor::parse_iter(b"(IV").unwrap();
    assert_eq!(it.next(), Some(Ok(DescriptorTypeBasic::Int.into())));
    assert_eq!(it.next(), Some(Err(MethodDescriptorError::NoClosingBracket)));
    assert_eq!(it.next(), None);
}

#[test]
fn method_descriptor_to_owned_keeps_value() {
    let d = MethodDescriptor::parse(b"(J)Ljava/lang/Object;").unwrap();
    assert_eq!(d.clone().to_owned(), d);
}

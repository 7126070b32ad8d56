use classfile_parser::attribute_info::bootstrap_methods_attribute_parser;
use classfile_parser::constant_info::ConstantInfo;
use classfile_parser::{class_parser, class_parser_opt, ParseData};

fn utf8(out: &mut Vec<u8>, s: &str) {
    out.push(1);
    out.extend_from_slice(&(s.len() as u16).to_be_bytes());
    out.extend_from_slice(s.as_bytes());
}

/// A class whose pool has a method handle at index 36 and, when
/// `with_bootstrap` holds, a `BootstrapMethods` attribute naming it.
fn class_bytes(with_bootstrap: bool) -> Vec<u8> {
    let mut b = vec![0xCA, 0xFE, 0xBA, 0xBE, 0, 0, 0, 52, 0, 37];
    utf8(&mut b, "Foo"); // 1
    b.extend_from_slice(&[7, 0, 1]); // 2
    utf8(&mut b, "java/lang/Object"); // 3
    b.extend_from_slice(&[7, 0, 3]); // 4
    utf8(&mut b, if with_bootstrap { "BootstrapMethods" } else { "SourceFile" }); // 5
    for i in 6..36 {
        utf8(&mut b, &format!("f{}", i));
    }
    b.extend_from_slice(&[15, 6, 0, 4]); // 36
    b.extend_from_slice(&[0, 0x21, 0, 2, 0, 4, 0, 0, 0, 0, 0, 0]);
    if with_bootstrap {
        b.extend_from_slice(&[0, 1, 0, 5, 0, 0, 0, 6, 0, 1, 0, 36, 0, 0]);
    } else {
        b.extend_from_slice(&[0, 0]);
    }
    b
}

#[test]
fn test_attribute_bootstrap_methods() {
    let class_file_data = class_bytes(true);
    match class_parser(ParseData::new(&class_file_data)) {
        Ok((_, c)) => {
            let mut bootstrap_method_const_index = 0;
            for (const_index, const_item) in c.const_pool.iter().enumerate() {
                if let ConstantInfo::Utf8(ref u) = *const_item {
                    if u.as_text(&class_file_data) == "BootstrapMethods" {
                        if bootstrap_method_const_index != 0 {
                            panic!("Should not find more than one BootstrapMethods constant");
                        }
                        bootstrap_method_const_index = (const_index + 1) as u16;
                    }
                }
            }
            assert_ne!(bootstrap_method_const_index, 0);

            for attribute_item in c.attributes.iter() {
                if attribute_item.attribute_name_index.0 == bootstrap_method_const_index {
                    match bootstrap_methods_attribute_parser(ParseData::from_range(
                        &class_file_data,
                        attribute_item.info,
                    )) {
                        Ok((_, bsma)) => {
                            assert_eq!(bsma.num_bootstrap_methods, 1);
                            let bsm = &bsma.bootstrap_methods[0];
                            assert_eq!(bsm.bootstrap_method_ref, 36);
                            assert!(matches!(
                                c.const_pool.get(classfile_parser::constant_pool::ConstantPoolIndexRaw(36)),
                                Some(ConstantInfo::MethodHandle(_))
                            ));
                            return;
                        }
                        _ => panic!("Failed to parse bootstrap method attribute"),
                    }
                }
            }

            panic!("Should not get to here");
        }
        _ => panic!("Not a valid class file"),
    }
}

#[test]
fn should_have_no_bootstrap_method_attr_if_no_invoke_dynamic() {
    let class_file_data = class_bytes(false);
    match class_parser(ParseData::new(&class_file_data)) {
        Ok((_, c)) => {
            for const_item in c.const_pool.iter() {
                if let ConstantInfo::Utf8(ref u) = *const_item {
                    if u.as_text(&class_file_data) == "BootstrapMethods" {
                        panic!("Should not have found a BootstrapMethods constant in a class not requiring it")
                    }
                }
            }
            let (_, lazy) = class_parser_opt(ParseData::new(&class_file_data)).unwrap();
            assert_eq!(lazy.load_attribute_with_name(&class_file_data, "BootstrapMethods"), Ok(None));
        }
        _ => panic!("Not a valid class file"),
    }
}

use cargo_wipe::command::{DirectoryEnum, LanguageEnum};

#[test]
fn language_string_to_enum() {
    let cases: Vec<(&str, LanguageEnum)> = vec![
        ("node", LanguageEnum::Node),
        ("rust", LanguageEnum::Rust),
        ("terraform", LanguageEnum::Terraform),
        ("RUST", LanguageEnum::Rust),
        ("ruSt ", LanguageEnum::Rust),
        (" Node", LanguageEnum::Node),
    ];
    for (language_string, language_enum) in cases {
        assert_eq!(
            LanguageEnum::from_str(language_string).unwrap(),
            language_enum
        );
    }
}

#[test]
fn language_string_to_enum_error() {
    for language_string in ["node-modules", "rustt", "", "terra form"] {
        let result = LanguageEnum::from_str(language_string);
        let err = result.err().unwrap();
        assert_eq!(
            err.message(),
            "Valid options are: node | rust | terraform"
        );
    }
}

#[test]
fn language_enum_to_string() {
    assert_eq!(LanguageEnum::Node.to_string(), "node");
    assert_eq!(LanguageEnum::Rust.to_string(), "rust");
    assert_eq!(LanguageEnum::Terraform.to_string(), "terraform");
}

#[test]
fn language_enum_to_directory_enum() {
    let cases: Vec<(LanguageEnum, DirectoryEnum)> = vec![
        (LanguageEnum::Node, DirectoryEnum::NodeModules),
        (LanguageEnum::Rust, DirectoryEnum::Target),
        (LanguageEnum::Terraform, DirectoryEnum::Terraform),
    ];
    for (language_enum, expected_directory_enum) in cases {
        let directory_enum: DirectoryEnum = language_enum.into();
        assert_eq!(directory_enum, expected_directory_enum);
    }
}

#[test]
fn directory_enum_to_string() {
    assert_eq!(DirectoryEnum::NodeModules.to_string(), "node_modules");
    assert_eq!(DirectoryEnum::Target.to_string(), "target");
    assert_eq!(DirectoryEnum::Terraform.to_string(), ".terraform");
}

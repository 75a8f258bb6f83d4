use pen::infra::json_package_configuration_reader::JsonPackageConfigurationReader;

#[test]
fn configuration_file_is_in_the_package_directory() {
    let reader = JsonPackageConfigurationReader::new("pen.json".to_string(), "pen-ffi".to_string());
    assert_eq!(
        reader.configuration_file_path(&["home".to_string(), "package".to_string()]),
        vec!["home".to_string(), "package".to_string(), "pen.json".to_string()]
    );
    assert_eq!(reader.configuration_file_path(&[]), vec!["pen.json".to_string()]);
    assert_eq!(reader.ffi_build_script_basename(), "pen-ffi");
}

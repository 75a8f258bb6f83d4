pub mod json_package_configuration_reader;

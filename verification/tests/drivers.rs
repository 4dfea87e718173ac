use convertor::Convertor;
use convertor::Extension;
use convertor::Failure;
use convertor::Pulumi;

const INPUT: &str = "
resources:
  app:
    type: azure-native:app:ContainerApp
    properties:
      configuration:
        dapr:
          enabled: true
      template:
        containers:
          - name: web
            image: nginx
";

#[test]
fn a_driver_keeps_what_it_was_made_with() {
    let language = Extension::Yaml;
    let driver = Pulumi::new("docker-compose.yml".to_string(), &language);
    assert_eq!(driver.output, "docker-compose.yml");
    assert_eq!(*driver.language, Extension::Yaml);
}

#[test]
fn the_yaml_driver_reads_the_manifest() {
    let language = Extension::Yaml;
    let driver = Pulumi::new(String::new(), &language);
    let services = driver.deserialize_value(INPUT).expect("the manifest converts");
    let names: Vec<&str> = services.iter().map(|s| s.name.as_str()).collect();
    assert_eq!(names, vec!["web", "web_dapr"]);
    assert_eq!(driver.deserialize_value("other: 1\n"), Err(Failure::StructuralError));
    assert_eq!(driver.deserialize_value("{"), Err(Failure::UnsupportedFormat));
}

#[test]
fn the_other_syntaxes_are_unsupported() {
    for language in [Extension::Json, Extension::Bicep, Extension::NotSupported] {
        let driver = Pulumi::new(String::new(), &language);
        assert_eq!(driver.deserialize_value(INPUT), Err(Failure::UnsupportedFormat));
    }
}

#[test]
fn writing_through_a_driver_always_succeeds() {
    for language in [
        Extension::Yaml,
        Extension::Typescript,
        Extension::Json,
        Extension::Bicep,
        Extension::NotSupported,
    ] {
        let driver = Pulumi::new("out".to_string(), &language);
        assert_eq!(driver.serialize_value(), Ok(()));
    }
}

use convertor::deserialize_yaml;
use convertor::serialize_to_compose;
use convertor::ContainerAppConfiguration;
use convertor::Failure;
use serde_yaml::Value;

const PLAIN: &str = "
resources:
  app:
    type: azure-native:app:ContainerApp
    properties:
      configuration:
        ingress: {}
      template:
        containers:
          - name: web
            image: nginx
";

const MESH: &str = "
resources:
  app:
    type: azure-native:app:ContainerApp
    properties:
      configuration:
        dapr: {}
      template:
        containers:
          - name: web
            image: nginx
";

fn text(s: &str) -> Value {
    Value::String(s.to_string())
}

fn list(items: &[&str]) -> Value {
    Value::Sequence(items.iter().map(|s| text(s)).collect())
}

fn keys(value: &Value) -> Vec<String> {
    value
        .as_mapping()
        .expect("a mapping")
        .keys()
        .map(|k| k.as_str().expect("a string key").to_string())
        .collect()
}

fn written(services: Vec<ContainerAppConfiguration>) -> Value {
    let bytes = serialize_to_compose(services).expect("the document is written");
    serde_yaml::from_slice(&bytes).expect("the output is YAML")
}

fn check_placement(placement: &Value) {
    assert_eq!(keys(placement), vec!["networks", "image", "ports", "command"]);
    assert_eq!(placement.get("image"), Some(&text("daprio/dapr")));
    assert_eq!(placement.get("networks"), Some(&list(&["dapr-network"])));
    assert_eq!(placement.get("ports"), Some(&list(&["5006:5006"])));
    assert_eq!(placement.get("command"), Some(&list(&["./placement", "-port", "50006"])));
}

#[test]
fn round_trip_without_mesh() {
    let services = deserialize_yaml(PLAIN).expect("the manifest converts");
    assert_eq!(services.len(), 1);
    let document = written(services);
    assert_eq!(keys(&document), vec!["version", "services"]);
    assert_eq!(document.get("version"), Some(&text("3.9")));
    let services = document.get("services").expect("services");
    assert_eq!(keys(services), vec!["web", "placement"]);
    let web = services.get("web").expect("web");
    assert_eq!(keys(web), vec!["image"]);
    assert_eq!(web.get("image"), Some(&text("nginx")));
    check_placement(services.get("placement").expect("placement"));
}

#[test]
fn round_trip_text_is_exact() {
    let services = deserialize_yaml(PLAIN).expect("the manifest converts");
    let bytes = serialize_to_compose(services).expect("the document is written");
    let expected = "version: '3.9'
services:
  web:
    image: nginx
  placement:
    networks:
    - dapr-network
    image: daprio/dapr
    ports:
    - 5006:5006
    command:
    - ./placement
    - -port
    - '50006'
";
    assert_eq!(String::from_utf8(bytes).expect("the output is UTF-8"), expected);
}

#[test]
fn mesh_adds_sidecar_and_network() {
    let services = deserialize_yaml(MESH).expect("the manifest converts");
    assert_eq!(services.len(), 2);
    let document = written(services);
    let services = document.get("services").expect("services");
    assert_eq!(keys(services), vec!["web", "web_dapr", "placement"]);
    let web = services.get("web").expect("web");
    assert_eq!(keys(web), vec!["depends_on", "networks", "image"]);
    assert_eq!(web.get("networks"), Some(&list(&["dapr-network"])));
    assert_eq!(web.get("depends_on"), Some(&list(&["placement"])));
    assert_eq!(web.get("image"), Some(&text("nginx")));
    let sidecar = services.get("web_dapr").expect("web_dapr");
    assert_eq!(keys(sidecar), vec!["depends_on", "image", "command", "network_mode"]);
    assert_eq!(sidecar.get("network_mode"), Some(&text("service:web")));
    assert_eq!(sidecar.get("depends_on"), Some(&list(&["web"])));
    assert_eq!(sidecar.get("image"), Some(&text("daprio/daprd:edge")));
    assert_eq!(
        sidecar.get("command"),
        Some(&list(&[
            "./daprd",
            "-app-id",
            "web",
            "-app-port",
            "port",
            "-placement-host-address",
            "placement:50006",
            "air",
        ]))
    );
    check_placement(services.get("placement").expect("placement"));
}

#[test]
fn name_collision_keeps_the_last() {
    let input = "
resources:
  first:
    type: azure-native:app:ContainerApp
    properties:
      template:
        containers:
          - name: web
            image: nginx
          - name: api
            image: node
  second:
    type: azure-native:app:ContainerApp
    properties:
      template:
        containers:
          - name: web
            image: httpd
";
    let services = deserialize_yaml(input).expect("the manifest converts");
    let names: Vec<&str> = services.iter().map(|s| s.name.as_str()).collect();
    assert_eq!(names, vec!["web", "api", "web"]);
    let document = written(services);
    let services = document.get("services").expect("services");
    assert_eq!(keys(services), vec!["web", "api", "placement"]);
    assert_eq!(services.get("web").and_then(|w| w.get("image")), Some(&text("httpd")));
    assert_eq!(services.get("api").and_then(|w| w.get("image")), Some(&text("node")));
}

#[test]
fn an_entry_named_placement_gives_way_to_the_placement_service() {
    let input = "
resources:
  first:
    type: azure-native:app:ContainerApp
    properties:
      template:
        containers:
          - name: placement
            image: mine
          - name: web
            image: nginx
";
    let services = deserialize_yaml(input).expect("the manifest converts");
    let document = written(services);
    let services = document.get("services").expect("services");
    assert_eq!(keys(services), vec!["placement", "web"]);
    check_placement(services.get("placement").expect("placement"));
}

#[test]
fn placement_is_there_without_any_service() {
    let document = written(Vec::new());
    assert_eq!(document.get("version"), Some(&text("3.9")));
    let services = document.get("services").expect("services");
    assert_eq!(keys(services), vec!["placement"]);
    check_placement(services.get("placement").expect("placement"));
}

#[test]
fn text_that_is_no_yaml_is_an_unsupported_format() {
    assert_eq!(deserialize_yaml("resources: [unclosed"), Err(Failure::UnsupportedFormat));
    assert_eq!(deserialize_yaml("a: 1\n---\nb: 2\n"), Err(Failure::UnsupportedFormat));
}

#[test]
fn text_without_resources_is_a_structural_error() {
    assert_eq!(deserialize_yaml("name: demo\n"), Err(Failure::StructuralError));
    assert_eq!(deserialize_yaml(""), Err(Failure::StructuralError));
    assert_eq!(deserialize_yaml("- resources\n"), Err(Failure::StructuralError));
}

#[test]
fn absent_fields_are_left_out_and_present_ones_written() {
    let service = ContainerAppConfiguration {
        name: "db".to_string(),
        depends_on: None,
        networks: None,
        image: String::new(),
        environment: Some(vec!["A=1".to_string(), "B=2".to_string()]),
        ports: Some(vec!["5432:5432".to_string()]),
        command: None,
        network_mode: None,
    };
    let document = written(vec![service]);
    let db = document.get("services").and_then(|s| s.get("db")).expect("db");
    assert_eq!(keys(db), vec!["image", "environment", "ports"]);
    assert_eq!(db.get("image"), Some(&text("")));
    assert_eq!(db.get("environment"), Some(&list(&["A=1", "B=2"])));
    assert_eq!(db.get("ports"), Some(&list(&["5432:5432"])));
}

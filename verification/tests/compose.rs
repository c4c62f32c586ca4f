use nub::compose::spec::{RestartPolicySpec, StackSpec};
use nub::compose::substitute::substitute;
use nub::compose::transform::transform;
use nub::compose::wire::{
    Compose, ConfigYaml, HealthcheckYaml, MapOrList, SecretYaml, ServiceConfigYaml, ServiceSecretYaml, ServiceYaml,
    StringOrList, VolumeYaml,
};

fn s(x: &str) -> String {
    x.to_string()
}

fn service(image: &str) -> ServiceYaml {
    ServiceYaml { image: Some(s(image)), ..Default::default() }
}

fn one_service(svc: ServiceYaml) -> Compose {
    Compose { services: vec![(s("app"), svc)], ..Default::default() }
}

fn parse(c: Compose) -> Result<StackSpec, String> {
    transform(c).map_err(|e| e.0)
}

fn external_secret() -> SecretYaml {
    SecretYaml { external: true, ..Default::default() }
}

fn inline_config(content: &str) -> ConfigYaml {
    ConfigYaml { content: Some(s(content)), ..Default::default() }
}

// services: app: image: nginx:1.27
#[test]
fn parse_minimal_service() {
    let spec = parse(one_service(service("nginx:1.27"))).unwrap();
    assert_eq!(spec.services.len(), 1);
    assert_eq!(spec.services[0].name, "app");
    assert_eq!(spec.services[0].container.image, "nginx:1.27");
}

// services: app: {}
#[test]
fn parse_missing_image_errors() {
    let err = parse(one_service(ServiceYaml::default())).unwrap_err();
    assert!(err.contains("image"));
}

#[test]
fn parse_environment_map_and_list() {
    let mut a = service("x");
    a.environment = Some(MapOrList::Mapping(vec![(s("KEY"), Some(s("val"))), (s("OTHER"), Some(s("thing")))]));
    let mut b = service("x");
    b.environment = Some(MapOrList::List(vec![s("K=v"), s("LONE")]));
    let spec = parse(Compose { services: vec![(s("a"), a), (s("b"), b)], ..Default::default() }).unwrap();
    let a = spec.services.iter().find(|s| s.name == "a").unwrap();
    let mut ae = a.container.env.clone();
    ae.sort();
    assert_eq!(ae, vec!["KEY=val", "OTHER=thing"]);
    let b = spec.services.iter().find(|s| s.name == "b").unwrap();
    let mut be = b.container.env.clone();
    be.sort();
    assert_eq!(be, vec!["K=v", "LONE"]);
}

#[test]
fn parse_command_string_is_shell_split() {
    let mut svc = service("x");
    svc.command = Some(StringOrList::Str(s("npm run start")));
    let spec = parse(one_service(svc)).unwrap();
    assert_eq!(spec.services[0].container.cmd, vec!["npm", "run", "start"]);
}

#[test]
fn parse_command_list_is_verbatim() {
    let mut svc = service("x");
    svc.command = Some(StringOrList::List(vec![s("sh"), s("-c"), s("echo hi")]));
    let spec = parse(one_service(svc)).unwrap();
    assert_eq!(spec.services[0].container.cmd, vec!["sh", "-c", "echo hi"]);
}

#[test]
fn parse_ports_short_form() {
    let mut svc = service("x");
    svc.ports = vec![s("8080:80"), s("443"), s("127.0.0.1:9090:9090")];
    let spec = parse(one_service(svc)).unwrap();
    let ports = &spec.services[0].container.ports;
    assert_eq!(ports.len(), 3);
    assert_eq!(ports[0].host, "8080");
    assert_eq!(ports[0].container, "80");
    assert_eq!(ports[1].host, "443");
    assert_eq!(ports[1].container, "443");
    assert_eq!(ports[2].host, "127.0.0.1:9090");
    assert_eq!(ports[2].container, "9090");
}

#[test]
fn parse_volumes_ro_and_rw() {
    let mut svc = service("x");
    svc.volumes = vec![s("./data:/data"), s("./readonly:/etc/conf:ro")];
    let spec = parse(one_service(svc)).unwrap();
    let vols = &spec.services[0].container.volumes;
    assert_eq!(vols[0].source, "./data");
    assert_eq!(vols[0].target, "/data");
    assert!(!vols[0].read_only);
    assert_eq!(vols[1].source, "./readonly");
    assert!(vols[1].read_only);
}

#[test]
fn parse_restart_on_failure_with_count() {
    let mut svc = service("x");
    svc.restart = Some(s("on-failure:5"));
    let spec = parse(one_service(svc)).unwrap();
    let r = spec.services[0].container.restart.as_ref().unwrap();
    match r {
        RestartPolicySpec::OnFailure { max_retries } => assert_eq!(*max_retries, Some(5)),
        _ => panic!("wrong policy"),
    }
}

#[test]
fn parse_healthcheck_durations_to_nanos() {
    let mut svc = service("x");
    svc.healthcheck = Some(HealthcheckYaml {
        test: Some(StringOrList::List(vec![s("CMD"), s("curl"), s("http://localhost")])),
        interval: Some(s("1m30s")),
        timeout: Some(s("500ms")),
        retries: Some(3),
        start_period: Some(s("10s")),
        disable: false,
    });
    let spec = parse(one_service(svc)).unwrap();
    let hc = spec.services[0].container.healthcheck.as_ref().unwrap();
    assert_eq!(hc.test, vec!["CMD", "curl", "http://localhost"]);
    assert_eq!(hc.interval_ns, Some(90_000_000_000));
    assert_eq!(hc.timeout_ns, Some(500_000_000));
    assert_eq!(hc.retries, Some(3));
    assert_eq!(hc.start_period_ns, Some(10_000_000_000));
}

#[test]
fn parse_collects_unsupported_top_level_and_service_keys() {
    let mut svc = service("x");
    svc.extra = vec![s("build"), s("depends_on")];
    let mut c = one_service(svc);
    c.extra = vec![s("x-custom")];
    let spec = parse(c).unwrap();
    assert!(spec.unsupported.contains(&"x-custom".to_string()));
    let svc = &spec.services[0];
    assert!(svc.unsupported.contains(&"build".to_string()));
    assert!(svc.unsupported.contains(&"depends_on".to_string()));
}

#[test]
fn parse_top_level_volumes_and_external_flag() {
    let mut c = one_service(service("x"));
    c.volumes = vec![(s("data"), VolumeYaml { external: false }), (s("shared"), VolumeYaml { external: true })];
    let spec = parse(c).unwrap();
    assert_eq!(spec.volumes.len(), 2);
    let ext = spec.volumes.iter().find(|v| v.name == "shared").unwrap();
    assert!(ext.external);
}

#[test]
fn parse_substitutes_variables_before_yaml() {
    let yaml = "services:\n  app:\n    image: nginx:${TAG:-latest}\n";
    let substituted = substitute(yaml, &[]).map_err(|e| e.to_message()).unwrap();
    assert_eq!(substituted, "services:\n  app:\n    image: nginx:latest\n");
    let spec = parse(one_service(service("nginx:latest"))).unwrap();
    assert_eq!(spec.services[0].container.image, "nginx:latest");
}

fn secrets_short_and_long() -> Compose {
    let mut svc = service("x");
    svc.secrets = vec![
        ServiceSecretYaml::Short(s("api_key")),
        ServiceSecretYaml::Long { source: s("db_password"), target: Some(s("/etc/db.pw")) },
    ];
    let mut c = one_service(svc);
    c.secrets = vec![(s("api_key"), external_secret()), (s("db_password"), external_secret())];
    c
}

fn check_secrets_short_and_long(spec: StackSpec) {
    assert_eq!(spec.secrets.len(), 2);
    let names: Vec<_> = spec.secrets.iter().map(|s| s.name.as_str()).collect();
    assert_eq!(names, ["api_key", "db_password"]);
    let svc = &spec.services[0];
    assert_eq!(svc.secrets.len(), 2);
    let api = svc.secrets.iter().find(|r| r.source == "api_key").unwrap();
    assert_eq!(api.target, "/run/secrets/api_key");
    let db = svc.secrets.iter().find(|r| r.source == "db_password").unwrap();
    assert_eq!(db.target, "/etc/db.pw");
}

#[test]
fn external_short_and_long_form() {
    check_secrets_short_and_long(parse(secrets_short_and_long()).unwrap());
}

#[test]
fn parse_secrets_external_short_and_long_form() {
    check_secrets_short_and_long(parse(secrets_short_and_long()).unwrap());
}

fn secret_from_file() -> Compose {
    let mut c = one_service(service("x"));
    c.secrets = vec![(s("api_key"), SecretYaml { file: Some(s("./key")), ..Default::default() })];
    c
}

#[test]
fn file_source_rejected_with_clear_error() {
    let err = parse(secret_from_file()).unwrap_err();
    assert!(err.contains("api_key"), "got: {err}");
    assert!(err.contains("nub secret put"), "got: {err}");
}

#[test]
fn parse_secrets_file_source_rejected_with_clear_error() {
    let err = parse(secret_from_file()).unwrap_err();
    assert!(err.contains("api_key"), "got: {err}");
    assert!(err.contains("nub secret put"), "got: {err}");
}

fn secret_not_external() -> Compose {
    let mut c = one_service(service("x"));
    c.secrets = vec![(s("api_key"), SecretYaml::default())];
    c
}

#[test]
fn requires_external_true() {
    let err = parse(secret_not_external()).unwrap_err();
    assert!(err.contains("external: true"), "got: {err}");
}

#[test]
fn parse_secrets_requires_external_true() {
    let err = parse(secret_not_external()).unwrap_err();
    assert!(err.contains("external: true"), "got: {err}");
}

fn rogue_secret() -> Compose {
    let mut svc = service("x");
    svc.secrets = vec![ServiceSecretYaml::Short(s("rogue"))];
    let mut c = one_service(svc);
    c.secrets = vec![(s("declared"), external_secret())];
    c
}

#[test]
fn service_secret_must_be_declared() {
    let err = parse(rogue_secret()).unwrap_err();
    assert!(err.contains("rogue"), "got: {err}");
    assert!(err.contains("isn't declared"), "got: {err}");
}

#[test]
fn parse_service_secret_must_be_declared() {
    let err = parse(rogue_secret()).unwrap_err();
    assert!(err.contains("rogue"), "got: {err}");
    assert!(err.contains("isn't declared"), "got: {err}");
}

fn secret_relative_target() -> Compose {
    let mut svc = service("x");
    svc.secrets = vec![ServiceSecretYaml::Long { source: s("db_password"), target: Some(s("db_pw")) }];
    let mut c = one_service(svc);
    c.secrets = vec![(s("db_password"), external_secret())];
    c
}

#[test]
fn secret_target_relative_goes_under_run_secrets() {
    let spec = parse(secret_relative_target()).unwrap();
    assert_eq!(spec.services[0].secrets[0].target, "/run/secrets/db_pw");
}

#[test]
fn parse_secret_target_relative_goes_under_run_secrets() {
    let spec = parse(secret_relative_target()).unwrap();
    assert_eq!(spec.services[0].secrets[0].target, "/run/secrets/db_pw");
}

fn secret_renamed() -> Compose {
    let mut svc = service("x");
    svc.secrets = vec![ServiceSecretYaml::Short(s("api_key"))];
    let mut c = one_service(svc);
    c.secrets = vec![(s("api_key"), SecretYaml { external: true, name: Some(s("prod_api_key")), ..Default::default() })];
    c
}

#[test]
fn secret_name_override_threads_through_lookup() {
    let spec = parse(secret_renamed()).unwrap();
    assert_eq!(spec.secrets[0].name, "api_key");
    assert_eq!(spec.secrets[0].lookup, "prod_api_key");
}

#[test]
fn parse_secret_name_override_threads_through_lookup() {
    let spec = parse(secret_renamed()).unwrap();
    assert_eq!(spec.secrets[0].name, "api_key");
    assert_eq!(spec.secrets[0].lookup, "prod_api_key");
}

fn configs_short_and_long() -> Compose {
    let mut svc = service("nginx");
    svc.configs = vec![
        ServiceConfigYaml::Short(s("nginx_conf")),
        ServiceConfigYaml::Long { source: s("site_html"), target: Some(s("/usr/share/nginx/html/index.html")) },
    ];
    let mut c = one_service(svc);
    c.configs = vec![
        (s("nginx_conf"), inline_config("server { listen 80; }\n")),
        (s("site_html"), inline_config("<h1>hello</h1>")),
    ];
    c
}

fn check_configs_short_and_long(spec: StackSpec) {
    assert_eq!(spec.configs.len(), 2);
    let names: Vec<_> = spec.configs.iter().map(|c| c.name.as_str()).collect();
    assert_eq!(names, ["nginx_conf", "site_html"]);
    assert!(spec.configs[0].content.contains("listen 80"));
    assert_eq!(spec.configs[1].content, "<h1>hello</h1>");
    let svc = &spec.services[0];
    assert_eq!(svc.configs.len(), 2);
    let nginx = svc.configs.iter().find(|r| r.source == "nginx_conf").unwrap();
    assert_eq!(nginx.target, "/nginx_conf");
    let site = svc.configs.iter().find(|r| r.source == "site_html").unwrap();
    assert_eq!(site.target, "/usr/share/nginx/html/index.html");
}

#[test]
fn inline_content_short_and_long_form() {
    check_configs_short_and_long(parse(configs_short_and_long()).unwrap());
}

#[test]
fn parse_configs_inline_content_short_and_long_form() {
    check_configs_short_and_long(parse(configs_short_and_long()).unwrap());
}

fn config_with(decl: ConfigYaml) -> Compose {
    let mut c = one_service(service("x"));
    c.configs = vec![(s("cfg"), decl)];
    c
}

#[test]
fn file_source_rejected() {
    let err = parse(config_with(ConfigYaml { file: Some(s("./cfg")), ..Default::default() })).unwrap_err();
    assert!(err.contains("cfg"), "got: {err}");
    assert!(err.contains("content:"), "got: {err}");
}

#[test]
fn parse_configs_file_source_rejected() {
    let err = parse(config_with(ConfigYaml { file: Some(s("./cfg")), ..Default::default() })).unwrap_err();
    assert!(err.contains("cfg"), "got: {err}");
    assert!(err.contains("content:"), "got: {err}");
}

#[test]
fn external_rejected() {
    let err = parse(config_with(ConfigYaml { external: true, ..Default::default() })).unwrap_err();
    assert!(err.contains("external"), "got: {err}");
    assert!(err.contains("content:"), "got: {err}");
}

#[test]
fn parse_configs_external_rejected() {
    let err = parse(config_with(ConfigYaml { external: true, ..Default::default() })).unwrap_err();
    assert!(err.contains("external"), "got: {err}");
    assert!(err.contains("content:"), "got: {err}");
}

#[test]
fn environment_rejected() {
    let err = parse(config_with(ConfigYaml { environment: Some(s("SOME_VAR")), ..Default::default() })).unwrap_err();
    assert!(err.contains("environment"), "got: {err}");
}

#[test]
fn parse_configs_environment_rejected() {
    let err = parse(config_with(ConfigYaml { environment: Some(s("SOME_VAR")), ..Default::default() })).unwrap_err();
    assert!(err.contains("environment"), "got: {err}");
}

#[test]
fn requires_content() {
    let err = parse(config_with(ConfigYaml::default())).unwrap_err();
    assert!(err.contains("content:"), "got: {err}");
}

#[test]
fn parse_configs_requires_content() {
    let err = parse(config_with(ConfigYaml::default())).unwrap_err();
    assert!(err.contains("content:"), "got: {err}");
}

fn rogue_config() -> Compose {
    let mut svc = service("x");
    svc.configs = vec![ServiceConfigYaml::Short(s("rogue"))];
    let mut c = one_service(svc);
    c.configs = vec![(s("declared"), inline_config("value"))];
    c
}

#[test]
fn service_config_must_be_declared() {
    let err = parse(rogue_config()).unwrap_err();
    assert!(err.contains("rogue"), "got: {err}");
    assert!(err.contains("isn't declared"), "got: {err}");
}

#[test]
fn parse_service_config_must_be_declared() {
    let err = parse(rogue_config()).unwrap_err();
    assert!(err.contains("rogue"), "got: {err}");
    assert!(err.contains("isn't declared"), "got: {err}");
}

fn config_relative_target() -> Compose {
    let mut svc = service("x");
    svc.configs = vec![ServiceConfigYaml::Long { source: s("cfg"), target: Some(s("app.conf")) }];
    let mut c = one_service(svc);
    c.configs = vec![(s("cfg"), inline_config("x"))];
    c
}

#[test]
fn target_relative_lands_at_root() {
    let spec = parse(config_relative_target()).unwrap();
    assert_eq!(spec.services[0].configs[0].target, "/app.conf");
}

#[test]
fn parse_config_target_relative_lands_at_root() {
    let spec = parse(config_relative_target()).unwrap();
    assert_eq!(spec.services[0].configs[0].target, "/app.conf");
}

#[test]
fn services_and_volumes_come_out_sorted() {
    let mut c = Compose {
        services: vec![(s("web"), service("a")), (s("api"), service("b")), (s("db"), service("c"))],
        ..Default::default()
    };
    c.volumes = vec![(s("z"), VolumeYaml::default()), (s("a"), VolumeYaml::default())];
    c.extra = vec![s("x-b"), s("x-a")];
    let spec = parse(c).unwrap();
    let names: Vec<_> = spec.services.iter().map(|s| s.name.as_str()).collect();
    assert_eq!(names, ["api", "db", "web"]);
    assert_eq!(spec.services[0].container.image, "b");
    let vols: Vec<_> = spec.volumes.iter().map(|v| v.name.as_str()).collect();
    assert_eq!(vols, ["a", "z"]);
    assert_eq!(spec.unsupported, vec!["x-a", "x-b"]);
}

#[test]
fn first_failing_check_wins() {
    let mut svc = service("x");
    svc.ports = vec![s("1:2:3:4")];
    svc.volumes = vec![s("a:b:c:d")];
    let err = parse(one_service(svc)).unwrap_err();
    assert_eq!(err, "service `app`: bad port `1:2:3:4`");
    let mut svc = service("x");
    svc.volumes = vec![s("a:b:c:d")];
    assert_eq!(parse(one_service(svc)).unwrap_err(), "service `app`: bad volume `a:b:c:d`");
    let mut svc = service("x");
    svc.restart = Some(s("sometimes"));
    assert_eq!(parse(one_service(svc)).unwrap_err(), "service `app`: unknown restart policy `sometimes`");
    let mut svc = service("x");
    svc.restart = Some(s("on-failure:x"));
    assert_eq!(
        parse(one_service(svc)).unwrap_err(),
        "service `app`: bad on-failure count: invalid digit found in string"
    );
    assert_eq!(parse(one_service(ServiceYaml::default())).unwrap_err(), "service `app` has no `image`");
}

#[test]
fn labels_last_value_wins() {
    let mut svc = service("x");
    svc.labels = Some(MapOrList::List(vec![s("a=1"), s("b=2"), s("a=3"), s("novalue")]));
    let spec = parse(one_service(svc)).unwrap();
    let mut labels = spec.services[0].container.labels.clone();
    labels.sort();
    assert_eq!(labels, vec![(s("a"), s("3")), (s("b"), s("2"))]);
}

#[test]
fn healthcheck_disable_and_bad_duration() {
    let mut svc = service("x");
    svc.healthcheck = Some(HealthcheckYaml { disable: true, interval: Some(s("bogus")), ..Default::default() });
    let spec = parse(one_service(svc)).unwrap();
    assert_eq!(spec.services[0].container.healthcheck.as_ref().unwrap().test, vec!["NONE"]);
    let mut svc = service("x");
    svc.healthcheck = Some(HealthcheckYaml { interval: Some(s("5x")), ..Default::default() });
    assert!(parse(one_service(svc)).is_err());
}

#[test]
fn undefined_variable_without_default_fails() {
    assert!(substitute("image: ${NOPE}", &[]).is_err());
    let env = vec![(s("TAG"), s("1.0"))];
    assert_eq!(substitute("image: x:${TAG}", &env).map_err(|e| e.to_message()).unwrap(), "image: x:1.0");
    assert_eq!(substitute("cost: $$5", &[]).map_err(|e| e.to_message()).unwrap(), "cost: $5");
}

#[test]
fn plain_text_is_left_alone() {
    let yaml = "services:\n  app:\n    image: nginx:1.27\n";
    assert_eq!(substitute(yaml, &[(s("X"), s("y"))]).map_err(|e| e.to_message()).unwrap(), yaml);
}

use fungi_daemon::endpoint_listeners::{endpoints_to_restore, plan_listener_restores, ListeningRule};
use fungi_daemon::instances::service_port_protocol;
use fungi_daemon::model::{
    RuntimeKind, ServiceExpose, ServiceExposeEndpointBinding, ServiceExposeTransport, ServiceExposeTransportKind,
    ServiceInstance, ServiceManifest, ServicePort, ServicePortAllocation, ServicePortProtocol, ServiceRunMode,
    ServiceSource, ServiceStatus,
};

fn binding(service: &str, port_name: &str, host_port: u16) -> ServiceExposeEndpointBinding {
    ServiceExposeEndpointBinding {
        name: port_name.to_string(),
        protocol: service_port_protocol(service, port_name),
        host_port,
        service_port: 80,
    }
}

fn instance(name: &str, status: ServiceStatus, endpoints: Vec<ServiceExposeEndpointBinding>) -> ServiceInstance {
    ServiceInstance {
        id: format!("wasmtime:{name}"),
        runtime: RuntimeKind::Wasmtime,
        name: name.to_string(),
        definition_id: None,
        source: "s".into(),
        labels: Vec::new(),
        ports: Vec::new(),
        exposed_endpoints: endpoints,
        status,
    }
}

fn exposed_manifest(name: &str, port_name: &str, host_port: u16) -> ServiceManifest {
    ServiceManifest {
        name: name.to_string(),
        definition_id: None,
        runtime: RuntimeKind::Wasmtime,
        run_mode: ServiceRunMode::Command,
        source: ServiceSource::WasmtimeUrl { url: "https://example.test/app.wasm".into() },
        expose: Some(ServiceExpose {
            transport: ServiceExposeTransport { kind: ServiceExposeTransportKind::Tcp },
            usage: None,
            icon_url: None,
            catalog_id: None,
        }),
        env: Vec::new(),
        mounts: Vec::new(),
        ports: vec![ServicePort {
            name: Some(port_name.to_string()),
            host_port,
            host_port_allocation: ServicePortAllocation::Fixed,
            service_port: 80,
            protocol: ServicePortProtocol::Tcp,
        }],
        command: Vec::new(),
        entrypoint: Vec::new(),
        working_dir: None,
        labels: Vec::new(),
    }
}

#[test]
fn running_and_desired_services_give_the_endpoints_to_restore() {
    let running = vec![
        instance("web", ServiceStatus::running(), vec![binding("web", "http", 18080)]),
        instance("old", ServiceStatus::stopped(), vec![binding("old", "http", 18081)]),
    ];
    let desired = vec![exposed_manifest("web", "http", 18080), exposed_manifest("api", "rest", 18082)];

    let endpoints = endpoints_to_restore(&running, &desired);

    assert_eq!(
        endpoints,
        vec![
            (18080, "/fungi/service/web/http/0.2.0".to_string()),
            (18080, "/fungi/service/web/http/0.2.0".to_string()),
            (18082, "/fungi/service/api/rest/0.2.0".to_string()),
        ]
    );
}

#[test]
fn each_endpoint_without_a_listener_gets_exactly_one() {
    let rules = vec![(
        "rule-1".to_string(),
        ListeningRule { host: "127.0.0.1".into(), port: 18082, protocol: Some("/fungi/service/api/rest/0.2.0".into()) },
    )];
    let endpoints = vec![
        (18080, "/fungi/service/web/http/0.2.0".to_string()),
        (18080, "/fungi/service/web/http/0.2.0".to_string()),
        (18082, "/fungi/service/api/rest/0.2.0".to_string()),
        (18083, "/fungi/service/api/rest/0.2.0".to_string()),
    ];

    let planned = plan_listener_restores(&rules, &endpoints);

    assert_eq!(
        planned,
        vec![
            (18080, "/fungi/service/web/http/0.2.0".to_string()),
            (18083, "/fungi/service/api/rest/0.2.0".to_string()),
        ]
    );

    let other_host = vec![(
        "rule-2".to_string(),
        ListeningRule { host: "0.0.0.0".into(), port: 18080, protocol: Some("/fungi/service/web/http/0.2.0".into()) },
    )];
    assert_eq!(plan_listener_restores(&other_host, &endpoints[..1].to_vec()).len(), 1);
}

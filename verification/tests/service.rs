use atm::package::{Config, Protocol, Route};

#[test]
fn service_config_holds_its_declaration() {
    let routes = vec![
        Route::new(Protocol::MCP, "/a".to_string()),
        Route::new(Protocol::MCP, "/b".to_string()),
    ];
    let c = Config::new("svc".to_string(), 8080, routes);
    assert_eq!(c.name, "svc");
    assert_eq!(c.port, 8080);
    assert_eq!(c.route_count(), 2);
    assert_eq!(c.routes[0].path, "/a");
    assert!(matches!(c.routes[1].protocol, Protocol::MCP));
    let r = c.routes[1].clone();
    assert_eq!(r.path, "/b");
}

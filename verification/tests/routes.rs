use vector_index_build::routes::{EmptyResponse, HttpActionRouteMapper};

#[test]
fn user_http_action_routes_share_one_tag() {
    let mapper = HttpActionRouteMapper;
    assert_eq!(
        mapper.map_route(String::from("/http/sendEmail")),
        "/http/:user_http_action"
    );
}

#[test]
fn the_bare_prefix_is_grouped_too() {
    let mapper = HttpActionRouteMapper;
    assert_eq!(
        mapper.map_route(String::from("/http/")),
        "/http/:user_http_action"
    );
}

#[test]
fn other_routes_are_kept() {
    let mapper = HttpActionRouteMapper;
    assert_eq!(mapper.map_route(String::from("/api/query")), "/api/query");
    assert_eq!(mapper.map_route(String::from("/http")), "/http");
    assert_eq!(mapper.map_route(String::from("")), "");
    assert_eq!(mapper.map_route(String::from("/httpx/")), "/httpx/");
}

#[test]
fn empty_response_exists() {
    let _ = EmptyResponse {};
}

use warp_rpc::route::route_path;
use warp_rpc::route::route_segment;
use warp_rpc::RouteDecision;
use warp_rpc::ServiceDescriptor;
use warp_rpc::MAX_REQUEST_BODY_BYTES;

fn descriptor(service: &str, methods: &[&str]) -> ServiceDescriptor {
    ServiceDescriptor::new(
        service.to_string(),
        methods.iter().map(|m| m.to_string()).collect(),
    )
    .unwrap()
}

#[test]
fn snake_identifiers_pass_through() {
    assert_eq!(route_segment("get_image"), "get_image");
    assert_eq!(route_segment("get_video"), "get_video");
    assert_eq!(route_path("get_image"), "/get_image");
}

#[test]
fn camel_identifiers_are_lowered_word_by_word() {
    assert_eq!(route_segment("GetImage"), "get_image");
    assert_eq!(route_segment("getImage"), "get_image");
    assert_eq!(route_segment("HTTPServer"), "h_t_t_p_server");
    assert_eq!(route_segment("get_HD_video"), "get_h_d_video");
    assert_eq!(route_segment(""), "");
}

#[test]
fn identical_method_identifiers_give_identical_paths() {
    let a = descriptor("media", &["get_image", "get_video"]);
    let b = descriptor("archive", &["get_image", "get_video"]);
    assert_eq!(a.route_paths(), b.route_paths());
    assert_eq!(a.route_paths(), vec!["/get_image", "/get_video"]);
}

#[test]
fn duplicate_method_identifiers_are_refused() {
    let dup = ServiceDescriptor::new(
        "media".to_string(),
        vec!["get_image".to_string(), "get_image".to_string()],
    );
    assert!(dup.is_none());
}

#[test]
fn post_routes_to_the_matching_method() {
    let d = descriptor("media", &["get_image", "get_video"]);
    assert_eq!(d.route(false, "get_image", 10), RouteDecision::Invoke(0));
    assert_eq!(d.route(false, "get_video", 10), RouteDecision::Invoke(1));
    assert_eq!(d.route(false, "get_audio", 10), RouteDecision::NoRoute);
    assert_eq!(d.route(true, "get_image", 0), RouteDecision::NoRoute);
}

#[test]
fn oversized_bodies_never_reach_a_method() {
    let d = descriptor("media", &["get_image"]);
    assert_eq!(
        d.route(false, "get_image", MAX_REQUEST_BODY_BYTES),
        RouteDecision::Invoke(0)
    );
    assert_eq!(
        d.route(false, "get_image", MAX_REQUEST_BODY_BYTES + 1),
        RouteDecision::TooLarge
    );
    assert_eq!(d.route(false, "get_image", usize::MAX), RouteDecision::TooLarge);
}

#[test]
fn health_is_routed_whatever_the_descriptor() {
    let d = descriptor("media", &["get_image"]);
    let empty = descriptor("idle", &[]);
    assert_eq!(d.route(true, "_health", 0), RouteDecision::Health);
    assert_eq!(d.route(true, "_health", usize::MAX), RouteDecision::Health);
    assert_eq!(empty.route(true, "_health", 0), RouteDecision::Health);
    assert_eq!(d.route(false, "_health", 0), RouteDecision::NoRoute);
}

#[test]
fn service_name_is_kept() {
    let d = descriptor("media", &["get_image"]);
    assert_eq!(d.service_name(), "media");
}

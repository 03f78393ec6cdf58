use tachydom::route_list::{Method, RouteGeneration, RouteList, RouteListing, SsrMode, StaticMode};

#[test]
fn a_listing_gives_back_its_parts() {
    let listing = RouteListing::new(
        "/users/:id",
        "/users/:id",
        SsrMode::OutOfOrder,
        vec![Method::Get, Method::Post, Method::Get],
        Some(StaticMode::Upfront),
    );
    assert_eq!(listing.path(), "/users/:id");
    assert_eq!(listing.leptos_path(), "/users/:id");
    assert_eq!(listing.mode(), SsrMode::OutOfOrder);
    // each method once, where it first occurred
    assert_eq!(listing.methods(), vec![Method::Get, Method::Post]);
    assert_eq!(listing.static_mode(), Some(StaticMode::Upfront));
}

#[test]
fn a_route_list_gives_back_its_routes() {
    let listing = RouteListing::new("/", "/", SsrMode::Async, vec![], None);
    let list = RouteList::new(vec![(listing, 7u8)]);
    let routes = list.into_inner();
    assert_eq!(routes.len(), 1);
    assert_eq!(routes[0].0.path(), "/");
    assert_eq!(routes[0].0.methods(), vec![]);
    assert_eq!(routes[0].1, 7);
}

#[test]
fn generating_collects_what_the_app_registers() {
    let mut pass: RouteGeneration<u8> = RouteGeneration::new();
    assert!(!RouteList::is_generating(&pass));
    let routes = RouteList::generate(&mut pass, |mut pass: RouteGeneration<u8>| {
        // the app runs while the pass is collecting
        assert!(RouteList::is_generating(&pass));
        let listing = RouteListing::new("/a", "/a", SsrMode::InOrder, vec![Method::Get], None);
        RouteList::register(&mut pass, RouteList::new(vec![(listing, 1)]));
        pass
    });
    let routes = routes.expect("the app registered its routes").into_inner();
    assert_eq!(routes.len(), 1);
    assert_eq!(routes[0].0.path(), "/a");
    assert!(!RouteList::is_generating(&pass));

    // an app that registers nothing leaves nothing
    let routes = RouteList::generate(&mut pass, |pass: RouteGeneration<u8>| pass);
    assert!(routes.is_none());
}

use tachydom::html::element::ElementType;
use tachydom::renderer::mock_dom::MockDom;
use tachydom::renderer::Renderer;

struct Article;

impl ElementType for Article {
    fn tag() -> &'static str {
        "article"
    }
}

#[test]
fn creates_element_of_a_caller_defined_type() {
    let mut dom = MockDom::new();
    let article = dom.create_element::<Article>();
    assert_eq!(article.to_debug_html(&dom), "<article></article>");
}

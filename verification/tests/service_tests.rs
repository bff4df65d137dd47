use bbox::inventory::{FeatureCollection, Inventory};
use bbox::ogcapi::CoreCollection;
use bbox::service::FeatureService;

fn service() -> FeatureService<()> {
    let mut inventory: Inventory<()> = Inventory::new(None);
    inventory.add_collection(FeatureCollection {
        collection: CoreCollection {
            id: "lakes".to_string(),
            title: None,
            description: None,
            links: vec![],
            extent: None,
            item_type: None,
            crs: vec![],
            stac_type: None,
            stac_version: None,
            license: None,
        },
        source: (),
    });
    FeatureService { inventory }
}

#[test]
fn conformance_classes_by_build() {
    let s = service();
    assert_eq!(s.conformance_classes(false, false).len(), 4);
    let html = s.conformance_classes(true, false);
    assert_eq!(html.len(), 5);
    assert_eq!(html[4], "http://www.opengis.net/spec/ogcapi-features-1/1.0/conf/html");
    let all = s.conformance_classes(true, true);
    assert_eq!(all.len(), 8);
    assert_eq!(all[7], "https://api.stacspec.org/v1.0.0/item-search");
}

#[test]
fn landing_page_links_without_stac() {
    let links = service().landing_page_links("http://h", false);
    let hrefs: Vec<&str> = links.iter().map(|l| l.href.as_str()).collect();
    assert_eq!(hrefs, vec!["http://h/collections", "http://h/openapi.json", "http://h/conformance"]);
    assert_eq!(links[1].rel.as_deref(), Some("service-desc"));
}

#[test]
fn landing_page_links_with_stac() {
    let links = service().landing_page_links("http://h", true);
    assert_eq!(links.len(), 8);
    assert_eq!(links[0].rel.as_deref(), Some("self"));
    assert_eq!(links[2].href, "http://h/catalog");
    assert_eq!(links[6].method.as_deref(), Some("GET"));
    assert_eq!(links[7].href, "http://h/collections/lakes");
    assert_eq!(links[7].title.as_deref(), Some("lakes"));
    assert_eq!(service().collections().len(), 1);
    let s = service();
    let ids: Vec<String> = s.collections().iter().map(|c| c.id.clone()).collect();
    let children: Vec<Option<String>> = s.landing_page_links("http://h", true)[7..].iter().map(|l| l.title.clone()).collect();
    assert_eq!(children, ids.into_iter().map(Some).collect::<Vec<_>>());
}

use bbox::config::STACCatalogCfg;
use bbox::error::Error;
use bbox::feature_endpoints::{
    catalog, collections, feature_answer, search_collection_ids, search_result, search_step, source_outcome, FeatureAnswer,
};
use bbox::inventory::{items_links, items_page, page_link, page_links, FeatureCollection, Inventory, PageLinks};
use bbox::ogcapi::CoreCollection;

fn coll(id: &str) -> CoreCollection {
    CoreCollection {
        id: id.to_string(),
        title: Some(format!("{id} title")),
        description: None,
        links: vec![],
        extent: None,
        item_type: Some("feature".to_string()),
        crs: vec![],
        stac_type: None,
        stac_version: None,
        license: None,
    }
}

fn fc(id: &str, source: u32) -> FeatureCollection<u32> {
    FeatureCollection { collection: coll(id), source }
}

#[test]
fn base_url_and_href_prefix() {
    let inv: Inventory<u32> = Inventory::new(Some("http://localhost:8080/api//".to_string()));
    assert_eq!(inv.base_url(), "http://localhost:8080/api/");
    assert_eq!(inv.href_prefix(), "http://localhost:8080/api");
    let inv: Inventory<u32> = Inventory::new(Some("http://localhost:8080".to_string()));
    assert_eq!(inv.base_url(), "http://localhost:8080/");
    assert_eq!(inv.href_prefix(), "http://localhost:8080");
    let inv: Inventory<u32> = Inventory::new(None);
    assert_eq!(inv.base_url(), "/");
    assert_eq!(inv.href_prefix(), "");
}

#[test]
fn added_collection_is_found() {
    let mut inv: Inventory<u32> = Inventory::new(None);
    inv.add_collection(fc("ne_10m_lakes", 1));
    inv.add_collection(fc("rivers", 2));
    assert_eq!(inv.core_collection("ne_10m_lakes").map(|c| c.id.clone()), Some("ne_10m_lakes".to_string()));
    assert_eq!(inv.collection("rivers").map(|c| c.source), Some(2));
    assert!(inv.core_collection("missing").is_none());
    assert_eq!(inv.collections().len(), 2);
}

#[test]
fn same_id_replaces_collection() {
    let mut inv: Inventory<u32> = Inventory::new(None);
    inv.add_collections(vec![fc("a", 1), fc("b", 2), fc("a", 3)]);
    assert_eq!(inv.collections().len(), 2);
    assert_eq!(inv.collection("a").map(|c| c.source), Some(3));
}

#[test]
fn collections_document_links() {
    let mut inv: Inventory<u32> = Inventory::new(Some("http://h/".to_string()));
    inv.add_collection(fc("a", 1));
    let doc = collections(&inv, false);
    assert_eq!(doc.type_, None);
    assert_eq!(collections(&inv, true).type_.as_deref(), Some("Catalog"));
    assert_eq!(doc.links.len(), 2);
    assert_eq!(doc.links[0].href, "http://h");
    assert_eq!(doc.links[0].rel.as_deref(), Some("root"));
    assert_eq!(doc.links[0].title.as_deref(), Some("landing page"));
    assert_eq!(doc.links[1].href, "http://h/collections");
    assert_eq!(doc.links[1].rel.as_deref(), Some("self"));
    assert_eq!(doc.collections.len(), 1);
    assert_eq!(doc.collections[0].id, "a");
}

#[test]
fn catalog_lists_configured_collections_present() {
    let mut inv: Inventory<u32> = Inventory::new(Some("http://h".to_string()));
    inv.add_collection(fc("a", 1));
    inv.add_collection(fc("c", 3));
    inv.set_catalog(STACCatalogCfg {
        title: "My catalog".to_string(),
        description: "All of it".to_string(),
        collections: vec!["c".to_string(), "b".to_string(), "a".to_string()],
    });
    assert_eq!(inv.catalog().title, "My catalog");
    let cat = catalog(&inv);
    assert_eq!(cat.id, "My catalog");
    assert_eq!(cat.title.as_deref(), Some("My catalog"));
    assert_eq!(cat.type_, "Catalog");
    assert_eq!(cat.description, "All of it");
    assert_eq!(cat.stac_version, "1.0.0");
    let hrefs: Vec<&str> = cat.links.iter().map(|l| l.href.as_str()).collect();
    assert_eq!(hrefs, vec![
        "http://h/catalog.json",
        "http://h/collections",
        "http://h/catalog.json",
        "http://h/collections/c",
        "http://h/collections/a",
    ]);
    assert_eq!(cat.links[3].rel.as_deref(), Some("child"));
    assert_eq!(cat.links[3].title, None);
}

#[test]
fn search_covers_requested_or_all() {
    let mut inv: Inventory<u32> = Inventory::new(None);
    inv.add_collection(fc("a", 1));
    inv.add_collection(fc("b", 2));
    let ids = search_collection_ids(&Some("x,y".to_string()), &inv);
    assert_eq!(ids, vec!["x".to_string(), "y".to_string()]);
    let mut ids = search_collection_ids(&None, &inv);
    ids.sort();
    assert_eq!(ids, vec!["a".to_string(), "b".to_string()]);
}

#[test]
fn items_page_links() {
    let links = items_links("http://h", "lakes");
    assert_eq!(links.len(), 3);
    assert_eq!(links[0].href, "http://h/");
    assert_eq!(links[0].title.as_deref(), Some("The landing page of this server"));
    assert_eq!(links[1].href, "http://h/collections/lakes");
    assert_eq!(links[1].type_.as_deref(), Some("application/geo+json"));
    assert_eq!(links[2].href, "http://h/collections/lakes/items");
    assert_eq!(links[2].rel.as_deref(), Some("self"));
    let next = page_link("http://h", "lakes", "?offset=10", "next");
    assert_eq!(next.href, "http://h/collections/lakes/items?offset=10");
    assert_eq!(next.rel.as_deref(), Some("next"));
    assert_eq!(next.title.as_deref(), Some("next"));
    assert_eq!(next.type_.as_deref(), Some("text/html"));
}

#[test]
fn paging_decisions() {
    assert_eq!(page_links(Some(100), 10, 0, 10), PageLinks::Neighbours { matched: 100 });
    assert_eq!(page_links(Some(10), 10, 20, 50), PageLinks::NextBelow { bound: 31 });
    assert_eq!(page_links(None, 10, 20, 50), PageLinks::NextBelow { bound: 31 });
    assert_eq!(page_links(None, 10, 20, 5), PageLinks::NextBelow { bound: 26 });
}

#[test]
fn inventory_clone_keeps_collections() {
    let mut inv: Inventory<u32> = Inventory::new(Some("http://h".to_string()));
    inv.add_collection(fc("a", 1));
    let copy = inv.clone();
    assert_eq!(copy.base_url(), "http://h/");
    assert_eq!(copy.core_collection("a").map(|c| c.title.clone()), Some(Some("a title".to_string())));
}

#[test]
fn default_inventory_is_empty() {
    let inv: Inventory<u32> = Inventory::default();
    assert_eq!(inv.base_url(), "");
    assert_eq!(inv.href_prefix(), "");
    assert!(inv.collections().is_empty());
    assert!(inv.catalog().collections.is_empty());
}

#[test]
fn trailing_slashes_do_not_change_base_url() {
    let a: Inventory<u32> = Inventory::new(Some("http://h/x".to_string()));
    let b: Inventory<u32> = Inventory::new(Some("http://h/x///".to_string()));
    assert_eq!(a.base_url(), b.base_url());
    assert_eq!(format!("{}/", a.href_prefix()), a.base_url());
}

#[test]
fn collections_document_follows_inventory_order() {
    let mut inv: Inventory<u32> = Inventory::new(None);
    for id in ["c", "a", "b"] {
        inv.add_collection(fc(id, 0));
    }
    let listed: Vec<String> = inv.collections().iter().map(|c| c.id.clone()).collect();
    let doc: Vec<String> = collections(&inv, false).collections.iter().map(|c| c.id.clone()).collect();
    assert_eq!(listed, doc);
}

#[test]
fn unknown_collection_items_are_refused() {
    let mut inv: Inventory<u32> = Inventory::new(None);
    inv.add_collection(fc("a", 5));
    assert_eq!(inv.collection_for_items("a").map(|c| c.source), Ok(5));
    assert_eq!(inv.collection_for_items("zz").map(|c| c.source), Err(Error::InvalidCollection));
}

#[test]
fn items_page_composition() {
    let page = items_page("http://h", "lakes", vec![1, 2, 3], Some(30), 3, Some("t".to_string()),
        Some("?offset=0".to_string()), Some("?offset=6".to_string()));
    assert_eq!(page.type_, "FeatureCollection");
    assert_eq!(page.features, vec![1, 2, 3]);
    assert_eq!(page.number_matched, Some(30));
    assert_eq!(page.number_returned, Some(3));
    assert_eq!(page.time_stamp.as_deref(), Some("t"));
    assert_eq!(page.links.len(), 5);
    assert_eq!(page.links[3].href, "http://h/collections/lakes/items?offset=0");
    assert_eq!(page.links[3].rel.as_deref(), Some("prev"));
    assert_eq!(page.links[4].href, "http://h/collections/lakes/items?offset=6");
    assert_eq!(page.links[4].rel.as_deref(), Some("next"));
    let page = items_page("http://h", "lakes", Vec::<u8>::new(), None, 0, None, None, Some("?x".to_string()));
    assert_eq!(page.links.len(), 4);
    assert_eq!(page.links[3].rel.as_deref(), Some("next"));
}

#[test]
fn search_combines_or_refuses() {
    let found = search_step(vec![1], Some(vec![2, 3])).unwrap();
    assert_eq!(found, vec![1, 2, 3]);
    assert_eq!(search_step(found.clone(), None), None);
    let r = search_result(found);
    assert_eq!(r.type_, "FeatureCollection");
    assert_eq!(r.number_matched, Some(3));
    assert_eq!(r.number_returned, Some(3));
    assert!(r.links.is_empty());
    assert_eq!(r.time_stamp, None);
}

#[test]
fn scanned_sources_are_added_or_skipped() {
    let mut inv: Inventory<u32> = Inventory::new(None);
    assert!(inv.add_scanned::<String>(Ok(vec![fc("a", 1), fc("b", 2)])));
    assert!(!inv.add_scanned::<String>(Err("no pool".to_string())));
    assert_eq!(inv.collections().len(), 2);
}

#[test]
fn search_order_follows_collections() {
    let mut inv: Inventory<u32> = Inventory::new(None);
    for id in ["c", "a", "b"] {
        inv.add_collection(fc(id, 0));
    }
    let listed: Vec<String> = inv.collections().iter().map(|c| c.id.clone()).collect();
    assert_eq!(search_collection_ids(&None, &inv), listed);
}

#[test]
fn feature_answers() {
    let mut inv: Inventory<u32> = Inventory::new(None);
    inv.add_collection(fc("a", 1));
    assert_eq!(feature_answer(&inv, "a", Some(7)), FeatureAnswer::Found(7));
    assert_eq!(feature_answer(&inv, "a", None::<u8>), FeatureAnswer::NotFound);
    assert_eq!(feature_answer(&inv, "zz", Some(7)), FeatureAnswer::NotFound);
    assert_eq!(source_outcome::<u8, String>(Ok(Some(3))), Some(3));
    assert_eq!(source_outcome::<u8, String>(Ok(None)), None);
    assert_eq!(source_outcome::<u8, String>(Err("down".to_string())), None);
}

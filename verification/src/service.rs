//! The feature service: its conformance classes, landing page links and
//! collections.
use vstd::prelude::*;
use crate::inventory::{lists_collections, same_collections, Inventory};
use crate::ogcapi::{link_is, make_link, ApiLink, CoreCollection};
use crate::text::{concat, string_views};

verus! {

/// A feature service over an inventory of collections.
#[derive(Clone, Debug)]
pub struct FeatureService<S> {
    pub inventory: Inventory<S>,
}

/// The conformance classes that the service declares: OGC API Features
/// core, GeoJSON and OpenAPI, then HTML where that output is built in, then
/// the STAC classes where STAC is built in.
pub open spec fn conformance_spec(html: bool, stac: bool) -> Seq<Seq<char>> {
    let base = seq![
        "http://www.opengis.net/spec/ogcapi-common-2/1.0/conf/collections"@,
        "http://www.opengis.net/spec/ogcapi-features-1/1.0/conf/core"@,
        "http://www.opengis.net/spec/ogcapi-features-1/1.0/conf/geojson"@,
        "http://www.opengis.net/spec/ogcapi-features-1/1.0/conf/oas30"@,
    ];
    let with_html = if html {
        base.push("http://www.opengis.net/spec/ogcapi-features-1/1.0/conf/html"@)
    } else {
        base
    };
    if stac {
        with_html + seq![
            "https://api.stacspec.org/v1.0.0/core"@,
            "https://api.stacspec.org/v1.0.0/ogcapi-features"@,
            "https://api.stacspec.org/v1.0.0/item-search"@,
        ]
    } else {
        with_html
    }
}

/// The declared classes always begin with the four OGC classes (common
/// collections, features core, GeoJSON, OpenAPI 3.0), HTML output adds its
/// class right after them, and with STAC built in the list ends with the
/// three STAC classes (core, OGC API features, item search) whatever `html`
/// is; without STAC nothing follows the OGC classes.
pub proof fn law_declared_classes(html: bool, stac: bool)
    ensures
        conformance_spec(html, stac).len() == 4 + (if html { 1int } else { 0 }) + (if stac { 3int } else { 0 }),
        conformance_spec(html, stac)[0] == "http://www.opengis.net/spec/ogcapi-common-2/1.0/conf/collections"@,
        conformance_spec(html, stac)[1] == "http://www.opengis.net/spec/ogcapi-features-1/1.0/conf/core"@,
        conformance_spec(html, stac)[2] == "http://www.opengis.net/spec/ogcapi-features-1/1.0/conf/geojson"@,
        conformance_spec(html, stac)[3] == "http://www.opengis.net/spec/ogcapi-features-1/1.0/conf/oas30"@,
        html ==> conformance_spec(html, stac)[4] == "http://www.opengis.net/spec/ogcapi-features-1/1.0/conf/html"@,
        stac ==> conformance_spec(html, stac)[conformance_spec(html, stac).len() - 3]
            == "https://api.stacspec.org/v1.0.0/core"@,
        stac ==> conformance_spec(html, stac)[conformance_spec(html, stac).len() - 2]
            == "https://api.stacspec.org/v1.0.0/ogcapi-features"@,
        stac ==> conformance_spec(html, stac)[conformance_spec(html, stac).len() - 1]
            == "https://api.stacspec.org/v1.0.0/item-search"@,
{
}

/// The child links of a landing page: one per collection, in the order of
/// `cs`, titled with the collection id.
pub open spec fn child_links(r: Seq<ApiLink>, api_base: Seq<char>, cs: Seq<CoreCollection>) -> bool {
    &&& r.len() == cs.len()
    &&& forall|i: int| 0 <= i < cs.len() ==> link_is(#[trigger] r[i], api_base + "/collections/"@ + cs[i].id@,
        "child"@, "application/geo+json"@, Some(cs[i].id@), None)
}

/// With STAC built in, the child links of the landing page name the
/// collections in the order that `collections()` lists them.
pub proof fn law_landing_children_follow_collections(
    children: Seq<ApiLink>,
    api_base: Seq<char>,
    listed: Seq<CoreCollection>,
    order: Seq<CoreCollection>,
)
    requires
        child_links(children, api_base, order),
        same_collections(listed, order),
    ensures
        children.len() == listed.len(),
        forall|i: int| 0 <= i < listed.len() ==> link_is(#[trigger] children[i], api_base + "/collections/"@
            + listed[i].id@, "child"@, "application/geo+json"@, Some(listed[i].id@), None),
{
    assert forall|i: int| 0 <= i < listed.len() implies link_is(#[trigger] children[i], api_base + "/collections/"@
        + listed[i].id@, "child"@, "application/geo+json"@, Some(listed[i].id@), None) by {
        assert(listed[i]@ == order[i]@);
        assert(listed[i].id == order[i].id);
    }
}

impl<S> FeatureService<S> {
    /// The conformance classes of the service; `html` and `stac` tell
    /// whether HTML output and STAC are built in.
    pub fn conformance_classes(&self, html: bool, stac: bool) -> (r: Vec<String>)
        ensures
            string_views(r@) == conformance_spec(html, stac),
            r@.len() == 4 + (if html { 1int } else { 0 }) + (if stac { 3int } else { 0 }),
            r@[0]@ == "http://www.opengis.net/spec/ogcapi-common-2/1.0/conf/collections"@,
            r@[1]@ == "http://www.opengis.net/spec/ogcapi-features-1/1.0/conf/core"@,
            r@[2]@ == "http://www.opengis.net/spec/ogcapi-features-1/1.0/conf/geojson"@,
            r@[3]@ == "http://www.opengis.net/spec/ogcapi-features-1/1.0/conf/oas30"@,
            html ==> r@[4]@ == "http://www.opengis.net/spec/ogcapi-features-1/1.0/conf/html"@,
            stac ==> r@[r@.len() - 3]@ == "https://api.stacspec.org/v1.0.0/core"@,
            stac ==> r@[r@.len() - 2]@ == "https://api.stacspec.org/v1.0.0/ogcapi-features"@,
            stac ==> r@[r@.len() - 1]@ == "https://api.stacspec.org/v1.0.0/item-search"@,
    {
        let mut classes: Vec<String> = Vec::new();
        classes.push("http://www.opengis.net/spec/ogcapi-common-2/1.0/conf/collections".to_owned());
        classes.push("http://www.opengis.net/spec/ogcapi-features-1/1.0/conf/core".to_owned());
        classes.push("http://www.opengis.net/spec/ogcapi-features-1/1.0/conf/geojson".to_owned());
        classes.push("http://www.opengis.net/spec/ogcapi-features-1/1.0/conf/oas30".to_owned());
        if html {
            classes.push("http://www.opengis.net/spec/ogcapi-features-1/1.0/conf/html".to_owned());
        }
        if stac {
            classes.push("https://api.stacspec.org/v1.0.0/core".to_owned());
            classes.push("https://api.stacspec.org/v1.0.0/ogcapi-features".to_owned());
            classes.push("https://api.stacspec.org/v1.0.0/item-search".to_owned());
        }
        assert(string_views(classes@) =~= conformance_spec(html, stac));
        classes
    }

    /// The links of the landing page under `api_base`: the collections, the
    /// API definition and the conformance classes; with STAC built in, also
    /// the page itself, the root, the catalog, the search, and one child link
    /// per collection.
    pub fn landing_page_links(&self, api_base: &str, stac: bool) -> (r: Vec<ApiLink>)
        ensures
            ({
                let k: int = if stac { 3 } else { 0 };
                &&& stac ==> link_is(r@[0], api_base@, "self"@, "application/json"@, None, None)
                &&& stac ==> link_is(r@[1], api_base@, "root"@, "application/json"@, None, None)
                &&& stac ==> link_is(r@[2], api_base@ + "/catalog"@, "child"@, "application/json"@,
                    Some("Information about the catalog"@), None)
                &&& link_is(r@[k], api_base@ + "/collections"@, "data"@, "application/json"@,
                    Some("Information about the feature collections"@), None)
                &&& link_is(r@[k + 1], api_base@ + "/openapi.json"@, "service-desc"@, "application/json"@,
                    Some("the API definition"@), None)
                &&& link_is(r@[k + 2], api_base@ + "/conformance"@, "conformance"@, "application/json"@,
                    Some("OGC conformance classes implemented by this API"@), None)
                &&& !stac ==> r@.len() == 3
                &&& stac ==> r@.len() >= 7 && link_is(r@[6], api_base@ + "/search"@, "search"@,
                    "application/geo+json"@, Some("search"@), Some("GET"@))
                &&& stac ==> child_links(r@.subrange(7, r@.len() as int), api_base@, self.inventory.collection_list())
            }),
    {
        let mut links: Vec<ApiLink> = Vec::new();
        if stac {
            links.push(make_link(api_base.to_owned(), "self", "application/json", None, None));
            links.push(make_link(api_base.to_owned(), "root", "application/json", None, None));
            links.push(make_link(concat(api_base, "/catalog"), "child", "application/json",
                Some("Information about the catalog"), None));
        }
        links.push(make_link(concat(api_base, "/collections"), "data", "application/json",
            Some("Information about the feature collections"), None));
        links.push(make_link(concat(api_base, "/openapi.json"), "service-desc", "application/json",
            Some("the API definition"), None));
        links.push(make_link(concat(api_base, "/conformance"), "conformance", "application/json",
            Some("OGC conformance classes implemented by this API"), None));
        if stac {
            links.push(make_link(concat(api_base, "/search"), "search", "application/geo+json",
                Some("search"), Some("GET")));
            let cs = self.inventory.collections();
            let n = cs.len();
            let prefix = concat(api_base, "/collections/");
            let mut i: usize = 0;
            while i < n
                invariant
                    n == cs@.len(),
                    i <= n,
                    links@.len() == 7 + i,
                    prefix@ == api_base@ + "/collections/"@,
                    link_is(links@[0], api_base@, "self"@, "application/json"@, None, None),
                    link_is(links@[1], api_base@, "root"@, "application/json"@, None, None),
                    link_is(links@[2], api_base@ + "/catalog"@, "child"@, "application/json"@,
                        Some("Information about the catalog"@), None),
                    link_is(links@[3], api_base@ + "/collections"@, "data"@, "application/json"@,
                        Some("Information about the feature collections"@), None),
                    link_is(links@[4], api_base@ + "/openapi.json"@, "service-desc"@, "application/json"@,
                        Some("the API definition"@), None),
                    link_is(links@[5], api_base@ + "/conformance"@, "conformance"@, "application/json"@,
                        Some("OGC conformance classes implemented by this API"@), None),
                    link_is(links@[6], api_base@ + "/search"@, "search"@, "application/geo+json"@,
                        Some("search"@), Some("GET"@)),
                    forall|j: int| 0 <= j < i ==> link_is(#[trigger] links@[7 + j],
                        api_base@ + "/collections/"@ + cs@[j].id@, "child"@, "application/geo+json"@,
                        Some(cs@[j].id@), None),
                decreases n - i,
            {
                let id = cs[i].id.as_str();
                links.push(make_link(concat(prefix.as_str(), id), "child", "application/geo+json", Some(id), None));
                i = i + 1;
            }
            proof {
                let tail = links@.subrange(7, links@.len() as int);
                assert forall|j: int| 0 <= j < cs@.len() implies link_is(#[trigger] tail[j],
                    api_base@ + "/collections/"@ + cs@[j].id@, "child"@, "application/geo+json"@,
                    Some(cs@[j].id@), None) by {
                    assert(tail[j] == links@[7 + j]);
                }
                assert forall|j: int| 0 <= j < cs@.len() implies cs@[j].id == self.inventory.collection_list()[j].id by {
                    assert(cs@[j]@ == self.inventory.collection_list()[j]@);
                }
                assert(child_links(tail, api_base@, self.inventory.collection_list()));
            }
        }
        links
    }

    /// All collections of the service, each once, as the inventory lists them.
    pub fn collections(&self) -> (r: Vec<CoreCollection>)
        ensures
            same_collections(r@, self.inventory.collection_list()),
            lists_collections(r@, self.inventory.collection_map()),
    {
        self.inventory.collections()
    }
}

} // verus!

//! Request-side logic of the feature endpoints: query parameters.
use vstd::prelude::*;
use crate::assoc::{assoc_get, assoc_insert, assoc_map, assoc_remove, keys_unique};
use crate::filter_params::{opt_view, string_map_view, FilterParams, FilterParamsView};
use crate::inventory::{lists_collections, same_collections, FeatureCollection, Inventory};
use crate::ogcapi::{link_is, make_link, ApiLink, CoreCollection, CoreCollections, CoreFeatures, STACCatalog};
use crate::text::{concat, parse_u64, parse_u64_spec, split_char, split_char_str, string_views, trim_end_char, IntErrorKind};

verus! {

/// Why the query string of a feature request was refused.
#[derive(Clone, Copy, Debug, PartialEq, Eq)]
pub enum QueryParamsError {
    /// The query string is no `application/x-www-form-urlencoded` text.
    Undecodable,
    /// Both `bbox` and `intersects` were given.
    BboxAndIntersects,
    /// `offset` or `limit` is no `u64`.
    InvalidNumber(IntErrorKind),
}

/// The message of a refused query string.
pub open spec fn query_error_message(e: QueryParamsError) -> Seq<char> {
    match e {
        QueryParamsError::Undecodable => "Bad"@,
        QueryParamsError::BboxAndIntersects => "bbox and intersects are mutually exclusive options"@,
        QueryParamsError::InvalidNumber(IntErrorKind::Empty) => "cannot parse integer from empty string"@,
        QueryParamsError::InvalidNumber(IntErrorKind::InvalidDigit) => "invalid digit found in string"@,
        QueryParamsError::InvalidNumber(IntErrorKind::PosOverflow) => "number too large to fit in target type"@,
    }
}

impl QueryParamsError {
    /// The message of this error.
    pub fn message(&self) -> (r: String)
        ensures
            r@ == query_error_message(*self),
    {
        match self {
            QueryParamsError::Undecodable => "Bad".to_owned(),
            QueryParamsError::BboxAndIntersects => "bbox and intersects are mutually exclusive options".to_owned(),
            QueryParamsError::InvalidNumber(IntErrorKind::Empty) => "cannot parse integer from empty string".to_owned(),
            QueryParamsError::InvalidNumber(IntErrorKind::InvalidDigit) => "invalid digit found in string".to_owned(),
            QueryParamsError::InvalidNumber(IntErrorKind::PosOverflow) => "number too large to fit in target type".to_owned(),
        }
    }
}

/// The views of a list of string pairs.
pub open spec fn pair_views(p: Seq<(String, String)>) -> Seq<(Seq<char>, Seq<char>)> {
    p.map_values(|x: (String, String)| (x.0@, x.1@))
}

/// The map that a list of (name, value) pairs gives when a later pair
/// overrides an earlier one with the same name.
pub open spec fn pairs_map(p: Seq<(Seq<char>, Seq<char>)>) -> Map<Seq<char>, Seq<char>>
    decreases p.len(),
{
    if p.len() == 0 {
        Map::empty()
    } else {
        pairs_map(p.drop_last()).insert(p.last().0, p.last().1)
    }
}

/// The value at `k`, if any.
pub open spec fn map_opt(m: Map<Seq<char>, Seq<char>>, k: Seq<char>) -> Option<Seq<char>> {
    if m.contains_key(k) {
        Some(m[k])
    } else {
        None
    }
}

/// The `u64` value at `k`, where it parses.
pub open spec fn number_opt(m: Map<Seq<char>, Seq<char>>, k: Seq<char>) -> Option<u64> {
    if m.contains_key(k) {
        match parse_u64_spec(m[k]) {
            Ok(n) => Some(n),
            Err(_) => None,
        }
    } else {
        None
    }
}

/// The parameters that have fields of their own.
pub open spec fn reserved_names() -> Seq<Seq<char>> {
    seq!["bbox"@, "datetime"@, "collections"@, "ids"@, "intersects"@, "offset"@, "limit"@]
}

/// The filter parameters that a list of decoded query pairs describes, or
/// why it is refused: `bbox` excludes `intersects`, and `offset` and `limit`
/// are `u64` numbers where given. Every other parameter stays a filter.
pub open spec fn filter_params_spec(p: Seq<(Seq<char>, Seq<char>)>) -> Result<FilterParamsView, QueryParamsError> {
    let m = pairs_map(p);
    if m.contains_key("bbox"@) && m.contains_key("intersects"@) {
        Err(QueryParamsError::BboxAndIntersects)
    } else if m.contains_key("offset"@) && parse_u64_spec(m["offset"@]) is Err {
        Err(QueryParamsError::InvalidNumber(parse_u64_spec(m["offset"@])->Err_0))
    } else if m.contains_key("limit"@) && parse_u64_spec(m["limit"@]) is Err {
        Err(QueryParamsError::InvalidNumber(parse_u64_spec(m["limit"@])->Err_0))
    } else {
        Ok(FilterParamsView {
            offset: number_opt(m, "offset"@),
            limit: number_opt(m, "limit"@),
            bbox: map_opt(m, "bbox"@),
            datetime: map_opt(m, "datetime"@),
            filters: m.remove_keys(reserved_names().to_set()),
            collections: map_opt(m, "collections"@),
            intersects: map_opt(m, "intersects"@),
            ids: map_opt(m, "ids"@),
        })
    }
}

/// A query is accepted when it does not give both `bbox` and `intersects`,
/// and each of `offset` and `limit` that it gives reads as a `u64`.
pub open spec fn query_accepted(m: Map<Seq<char>, Seq<char>>) -> bool {
    &&& !(m.contains_key("bbox"@) && m.contains_key("intersects"@))
    &&& m.contains_key("offset"@) ==> parse_u64_spec(m["offset"@]) is Ok
    &&& m.contains_key("limit"@) ==> parse_u64_spec(m["limit"@]) is Ok
}

/// Each parameter with a field of its own holds the value that the query
/// gives it last, and is empty where the query does not give it.
pub open spec fn reserved_fields_from(fp: FilterParamsView, m: Map<Seq<char>, Seq<char>>) -> bool {
    &&& fp.bbox == (if m.contains_key("bbox"@) { Some(m["bbox"@]) } else { None })
    &&& fp.datetime == (if m.contains_key("datetime"@) { Some(m["datetime"@]) } else { None })
    &&& fp.collections == (if m.contains_key("collections"@) { Some(m["collections"@]) } else { None })
    &&& fp.ids == (if m.contains_key("ids"@) { Some(m["ids"@]) } else { None })
    &&& fp.intersects == (if m.contains_key("intersects"@) { Some(m["intersects"@]) } else { None })
    &&& fp.offset == (if m.contains_key("offset"@) { Some(parse_u64_spec(m["offset"@])->Ok_0) } else { None })
    &&& fp.limit == (if m.contains_key("limit"@) { Some(parse_u64_spec(m["limit"@])->Ok_0) } else { None })
}

/// The remaining filters are the parameters of `m` other than `bbox`,
/// `datetime`, `collections`, `ids`, `intersects`, `offset` and `limit`,
/// each with the value that the query gives it last.
pub open spec fn filters_from(fp: FilterParamsView, m: Map<Seq<char>, Seq<char>>) -> bool {
    &&& forall|k: Seq<char>| #[trigger] fp.filters.contains_key(k) <==> (m.contains_key(k) && k != "bbox"@
        && k != "datetime"@ && k != "collections"@ && k != "ids"@ && k != "intersects"@ && k != "offset"@
        && k != "limit"@)
    &&& forall|k: Seq<char>| #[trigger] fp.filters.contains_key(k) ==> fp.filters[k] == m[k]
}

/// A query is accepted exactly when it does not mix `bbox` and
/// `intersects` and its paging numbers read as `u64`; then every parameter
/// with a field of its own (the spatial filters `bbox` and `intersects`
/// among them) keeps the value that the query gives it last.
pub proof fn law_reserved_fields(p: Seq<(Seq<char>, Seq<char>)>)
    ensures
        filter_params_spec(p) is Ok <==> query_accepted(pairs_map(p)),
        filter_params_spec(p) matches Ok(fp) ==> reserved_fields_from(fp, pairs_map(p)),
        filter_params_spec(p) matches Ok(fp) ==> filters_from(fp, pairs_map(p)),
{
    let r = reserved_names();
    assert(r[0] == "bbox"@ && r[1] == "datetime"@ && r[2] == "collections"@ && r[3] == "ids"@);
    assert(r[4] == "intersects"@ && r[5] == "offset"@ && r[6] == "limit"@);
    assert forall|k: Seq<char>| r.to_set().contains(k) <==> (k == "bbox"@ || k == "datetime"@
        || k == "collections"@ || k == "ids"@ || k == "intersects"@ || k == "offset"@ || k == "limit"@) by {
        if r.contains(k) {
            let i = choose|i: int| 0 <= i < r.len() && r[i] == k;
            assert(0 <= i < 7);
        }
        if k == "bbox"@ { assert(r[0] == k); }
        if k == "datetime"@ { assert(r[1] == k); }
        if k == "collections"@ { assert(r[2] == k); }
        if k == "ids"@ { assert(r[3] == k); }
        if k == "intersects"@ { assert(r[4] == k); }
        if k == "offset"@ { assert(r[5] == k); }
        if k == "limit"@ { assert(r[6] == k); }
    }
}

/// A query that gives `intersects` and no `bbox` (and no paging) is
/// accepted, and its spatial filter is the last `intersects` value given.
pub proof fn law_intersects_kept(p: Seq<(Seq<char>, Seq<char>)>)
    requires
        pairs_map(p).contains_key("intersects"@),
        !pairs_map(p).contains_key("bbox"@),
        !pairs_map(p).contains_key("offset"@),
        !pairs_map(p).contains_key("limit"@),
    ensures
        filter_params_spec(p) is Ok,
        filter_params_spec(p)->Ok_0.intersects == Some(pairs_map(p)["intersects"@]),
        filter_params_spec(p)->Ok_0.bbox is None,
{
}

/// A query never holds both `bbox` and `intersects`.
pub proof fn law_bbox_excludes_intersects(p: Seq<(Seq<char>, Seq<char>)>)
    ensures
        filter_params_spec(p) matches Ok(fp) ==> !(fp.bbox is Some && fp.intersects is Some),
{
}

/// The parameters with fields of their own never remain among the filters.
pub proof fn law_reserved_names_are_not_filters(p: Seq<(Seq<char>, Seq<char>)>, k: Seq<char>)
    requires
        reserved_names().contains(k),
    ensures
        filter_params_spec(p) matches Ok(fp) ==> !fp.filters.contains_key(k),
{
}

/// A parameter given last wins over earlier ones with the same name, and a
/// name without a field of its own stays a filter with that value.
pub proof fn law_last_value_wins(p: Seq<(Seq<char>, Seq<char>)>, k: Seq<char>, v: Seq<char>)
    requires
        !reserved_names().contains(k),
    ensures
        filter_params_spec(p.push((k, v))) matches Ok(fp) ==> fp.filters.contains_key(k) && fp.filters[k] == v,
{
    let q = p.push((k, v));
    assert(q.drop_last() =~= p);
    assert(pairs_map(q).contains_key(k) && pairs_map(q)[k] == v);
}

/// The view of a result of `filter_params_from_pairs`.
pub open spec fn params_result_view(r: Result<FilterParams, QueryParamsError>) -> Result<FilterParamsView, QueryParamsError> {
    match r {
        Ok(fp) => Ok(fp@),
        Err(e) => Err(e),
    }
}

/// Builds the filter parameters from the decoded pairs of a query string.
pub fn filter_params_from_pairs(pairs: &Vec<(String, String)>) -> (r: Result<FilterParams, QueryParamsError>)
    ensures
        params_result_view(r) == filter_params_spec(pair_views(pairs@)),
        r is Ok <==> query_accepted(pairs_map(pair_views(pairs@))),
        r matches Ok(fp) ==> reserved_fields_from(fp@, pairs_map(pair_views(pairs@))),
        r matches Ok(fp) ==> filters_from(fp@, pairs_map(pair_views(pairs@))),
        r matches Ok(fp) ==> fp.wf(),
{
    let ghost pv = pair_views(pairs@);
    let mut filters: Vec<(String, String)> = Vec::new();
    let n = pairs.len();
    let mut i: usize = 0;
    assert(pv.take(0) =~= Seq::<(Seq<char>, Seq<char>)>::empty());
    assert(string_map_view(filters@) =~= Map::<Seq<char>, Seq<char>>::empty());
    while i < n
        invariant
            n == pairs@.len(),
            pv == pair_views(pairs@),
            i <= n,
            keys_unique(filters@),
            string_map_view(filters@) == pairs_map(pv.take(i as int)),
        decreases n - i,
    {
        let k = pairs[i].0.clone();
        let v = pairs[i].1.clone();
        let ghost before = string_map_view(filters@);
        assoc_insert(&mut filters, k, v);
        assert(pv.take(i + 1).drop_last() =~= pv.take(i as int));
        assert(pv.take(i + 1).last() == (k@, v@));
        assert(string_map_view(filters@) =~= before.insert(k@, v@));
        i = i + 1;
    }
    assert(pv.take(n as int) =~= pv);
    let ghost m = pairs_map(pv);
    proof {
        reveal_strlit("bbox");
        reveal_strlit("datetime");
        reveal_strlit("collections");
        reveal_strlit("ids");
        reveal_strlit("intersects");
        reveal_strlit("offset");
        reveal_strlit("limit");
    }
    assert("datetime"@.len() == 8 && "bbox"@.len() == 4 && "collections"@.len() == 11 && "ids"@.len() == 3
        && "intersects"@.len() == 10 && "offset"@.len() == 6 && "limit"@.len() == 5);
    assert("datetime"@ != "bbox"@);
    assert("collections"@ != "bbox"@ && "collections"@ != "datetime"@);
    assert("ids"@ != "bbox"@ && "ids"@ != "datetime"@ && "ids"@ != "collections"@);
    assert("intersects"@ != "bbox"@ && "intersects"@ != "datetime"@ && "intersects"@ != "collections"@
        && "intersects"@ != "ids"@);
    let bbox = assoc_remove(&mut filters, "bbox");
    let ghost m1 = m.remove("bbox"@);
    assert(string_map_view(filters@) =~= m1);
    let datetime = assoc_remove(&mut filters, "datetime");
    let ghost m2 = m1.remove("datetime"@);
    assert(string_map_view(filters@) =~= m2);
    let collections = assoc_remove(&mut filters, "collections");
    let ghost m3 = m2.remove("collections"@);
    assert(string_map_view(filters@) =~= m3);
    let ids = assoc_remove(&mut filters, "ids");
    let ghost m4 = m3.remove("ids"@);
    assert(string_map_view(filters@) =~= m4);
    let intersects = assoc_remove(&mut filters, "intersects");
    let ghost m5 = m.remove("bbox"@).remove("datetime"@).remove("collections"@).remove("ids"@).remove("intersects"@);
    assert(string_map_view(filters@) =~= m5);
    assert(opt_view(bbox) == map_opt(m, "bbox"@));
    assert(opt_view(datetime) == map_opt(m, "datetime"@));
    assert(opt_view(collections) == map_opt(m, "collections"@));
    assert(opt_view(ids) == map_opt(m, "ids"@));
    assert(opt_view(intersects) == map_opt(m, "intersects"@));
    if bbox.is_some() && intersects.is_some() {
        return Err(QueryParamsError::BboxAndIntersects);
    }
    let offset = match assoc_get(&filters, "offset") {
        Some(s) => match parse_u64(s.as_str()) {
            Ok(o) => {
                let _ = assoc_remove(&mut filters, "offset");
                Some(o)
            },
            Err(e) => {
                return Err(QueryParamsError::InvalidNumber(e));
            },
        },
        None => None,
    };
    assert(offset == number_opt(m, "offset"@));
    let ghost m6 = if m.contains_key("offset"@) { m5.remove("offset"@) } else { m5 };
    assert(string_map_view(filters@) =~= m6);
    let limit = match assoc_get(&filters, "limit") {
        Some(s) => match parse_u64(s.as_str()) {
            Ok(o) => {
                let _ = assoc_remove(&mut filters, "limit");
                Some(o)
            },
            Err(e) => {
                return Err(QueryParamsError::InvalidNumber(e));
            },
        },
        None => None,
    };
    assert(limit == number_opt(m, "limit"@));
    assert(string_map_view(filters@) =~= m.remove_keys(reserved_names().to_set()));
    proof { law_reserved_fields(pv); }
    Ok(FilterParams { offset, limit, bbox, datetime, filters, collections, intersects, ids })
}


/// Name for what `serde_urlencoded::from_str::<Vec<(String, String)>>` gives
/// for a query string: its decoded (name, value) pairs in order, or nothing
/// where decoding fails.
pub uninterp spec fn urlencoded_pairs(query: Seq<char>) -> Option<Seq<(Seq<char>, Seq<char>)>>;

/// Decodes a query string with `serde_urlencoded::from_str` into its
/// (name, value) pairs. The contract names the decoding and states no more
/// of it: percent-decoding and `+` for space are not spelled out.
#[verifier::external_body]
fn decode_query(query: &str) -> (r: Option<Vec<(String, String)>>)
    ensures
        r is Some == urlencoded_pairs(query@) is Some,
        r matches Some(p) ==> pair_views(p@) == urlencoded_pairs(query@)->0,
{
    serde_urlencoded::from_str::<Vec<(String, String)>>(query).ok()
}

/// The filter parameters of a query string, or why it is refused.
pub open spec fn query_params_spec(query: Seq<char>) -> Result<FilterParamsView, QueryParamsError> {
    match urlencoded_pairs(query) {
        None => Err(QueryParamsError::Undecodable),
        Some(p) => filter_params_spec(p),
    }
}

/// Parses the query string of a feature request into filter parameters.
pub fn parse_query_params(query: &str) -> (r: Result<FilterParams, QueryParamsError>)
    ensures
        params_result_view(r) == query_params_spec(query@),
        urlencoded_pairs(query@) is None ==> r == Err::<FilterParams, QueryParamsError>(QueryParamsError::Undecodable),
        urlencoded_pairs(query@) matches Some(p) ==> (r is Ok <==> query_accepted(pairs_map(p))),
        urlencoded_pairs(query@) matches Some(p) ==> (r matches Ok(fp) ==> reserved_fields_from(fp@, pairs_map(p))),
        urlencoded_pairs(query@) matches Some(p) ==> (r matches Ok(fp) ==> filters_from(fp@, pairs_map(p))),
        r matches Ok(fp) ==> fp.wf(),
{
    match decode_query(query) {
        Some(pairs) => filter_params_from_pairs(&pairs),
        None => Err(QueryParamsError::Undecodable),
    }
}


/// The `/collections` document: links to the landing page and to itself,
/// and the collections of the inventory as `Inventory::collections` lists
/// them; with STAC built in (`stac`), it is typed as a catalog.
pub fn collections<S>(inventory: &Inventory<S>, stac: bool) -> (r: CoreCollections)
    ensures
        stac ==> opt_view(r.type_) == Some("Catalog"@),
        !stac ==> r.type_ is None,
        same_collections(r.collections@, inventory.collection_list()),
        r.links@.len() == 2,
        link_is(r.links@[0], trim_end_char(inventory.base_url_spec(), '/'), "root"@, "application/json"@,
            Some("landing page"@), None),
        link_is(r.links@[1], trim_end_char(inventory.base_url_spec(), '/') + "/collections"@, "self"@,
            "application/json"@, Some("this document"@), None),
        lists_collections(r.collections@, inventory.collection_map()),
{
    let url = inventory.href_prefix();
    let mut links: Vec<ApiLink> = Vec::new();
    links.push(make_link(url.to_owned(), "root", "application/json", Some("landing page"), None));
    links.push(make_link(concat(url, "/collections"), "self", "application/json", Some("this document"), None));
    let type_ = if stac { Some("Catalog".to_owned()) } else { None };
    CoreCollections { type_, links, collections: inventory.collections() }
}

/// The ids of `ids` that name a collection of `m`, in order.
pub open spec fn present_ids<S>(ids: Seq<String>, m: Map<Seq<char>, FeatureCollection<S>>) -> Seq<Seq<char>>
    decreases ids.len(),
{
    if ids.len() == 0 {
        Seq::empty()
    } else if m.contains_key(ids.last()@) {
        present_ids(ids.drop_last(), m).push(ids.last()@)
    } else {
        present_ids(ids.drop_last(), m)
    }
}

/// The catalog's children are exactly the configured ids that name a
/// collection of the inventory: each child is held, and each configured id
/// that is held becomes a child.
pub proof fn law_catalog_children_are_held<S>(ids: Seq<String>, m: Map<Seq<char>, FeatureCollection<S>>)
    ensures
        forall|i: int| 0 <= i < present_ids(ids, m).len() ==> m.contains_key(#[trigger] present_ids(ids, m)[i]),
        forall|j: int| 0 <= j < ids.len() && m.contains_key((#[trigger] ids[j])@) ==> present_ids(ids, m).contains(
            ids[j]@,
        ),
        present_ids(ids, m).len() <= ids.len(),
    decreases ids.len(),
{
    if ids.len() > 0 {
        let front = ids.drop_last();
        law_catalog_children_are_held(front, m);
        let pf = present_ids(front, m);
        let p = present_ids(ids, m);
        assert forall|i: int| 0 <= i < p.len() implies m.contains_key(#[trigger] p[i]) by {
            if i < pf.len() {
                assert(p[i] == pf[i]);
            }
        }
        assert forall|j: int| 0 <= j < ids.len() && m.contains_key((#[trigger] ids[j])@) implies p.contains(
            ids[j]@,
        ) by {
            if j < front.len() {
                assert(front[j] == ids[j]);
                let w = choose|w: int| 0 <= w < pf.len() && pf[w] == ids[j]@;
                assert(p[w] == pf[w]);
            } else {
                assert(p[p.len() - 1] == ids.last()@);
            }
        }
    }
}

/// The STAC catalog document: links to itself and to the collections, then
/// one child link for each configured collection that the inventory holds.
pub fn catalog<S>(inventory: &Inventory<S>) -> (r: STACCatalog)
    ensures
        ({
            let url = trim_end_char(inventory.base_url_spec(), '/');
            let cfg = inventory.catalog_spec()@;
            let children = present_ids(cfg.collections, inventory.collection_map());
            &&& r.id@ == cfg.title
            &&& r.type_@ == "Catalog"@
            &&& opt_view(r.title) == Some(cfg.title)
            &&& r.description@ == cfg.description
            &&& r.stac_version@ == "1.0.0"@
            &&& r.stac_extensions is None
            &&& r.links@.len() == 3 + children.len()
            &&& link_is(r.links@[0], url + "/catalog.json"@, "root"@, "application/json"@, Some("this document"@), None)
            &&& link_is(r.links@[1], url + "/collections"@, "collections"@, "application/json"@,
                Some("collections"@), None)
            &&& link_is(r.links@[2], url + "/catalog.json"@, "self"@, "application/json"@, Some("this document"@), None)
            &&& forall|i: int| 0 <= i < children.len() ==> link_is(#[trigger] r.links@[3 + i],
                url + "/collections/"@ + children[i], "child"@, "application/json"@, None, None)
        }),
{
    let cfg = inventory.catalog();
    let url = inventory.href_prefix();
    let ghost m = inventory.collection_map();
    let mut links: Vec<ApiLink> = Vec::new();
    links.push(make_link(concat(url, "/catalog.json"), "root", "application/json", Some("this document"), None));
    links.push(make_link(concat(url, "/collections"), "collections", "application/json", Some("collections"), None));
    links.push(make_link(concat(url, "/catalog.json"), "self", "application/json", Some("this document"), None));
    let n = cfg.collections.len();
    let mut i: usize = 0;
    let prefix = concat(url, "/collections/");
    while i < n
        invariant
            n == cfg.collections@.len(),
            i <= n,
            prefix@ == url@ + "/collections/"@,
            links@.len() == 3 + present_ids(cfg.collections@.take(i as int), m).len(),
            link_is(links@[0], url@ + "/catalog.json"@, "root"@, "application/json"@, Some("this document"@), None),
            link_is(links@[1], url@ + "/collections"@, "collections"@, "application/json"@, Some("collections"@), None),
            link_is(links@[2], url@ + "/catalog.json"@, "self"@, "application/json"@, Some("this document"@), None),
            forall|j: int| 0 <= j < present_ids(cfg.collections@.take(i as int), m).len() ==> link_is(
                #[trigger] links@[3 + j],
                url@ + "/collections/"@ + present_ids(cfg.collections@.take(i as int), m)[j],
                "child"@,
                "application/json"@,
                None,
                None,
            ),
            m == inventory.collection_map(),
        decreases n - i,
    {
        let ghost before = present_ids(cfg.collections@.take(i as int), m);
        assert(cfg.collections@.take(i + 1).drop_last() =~= cfg.collections@.take(i as int));
        match inventory.core_collection(cfg.collections[i].as_str()) {
            Some(coll) => {
                links.push(make_link(concat(prefix.as_str(), coll.id.as_str()), "child", "application/json", None, None));
                assert(present_ids(cfg.collections@.take(i + 1), m) == before.push(cfg.collections@[i as int]@));
            },
            None => {
                assert(present_ids(cfg.collections@.take(i + 1), m) == before);
            },
        }
        i = i + 1;
    }
    assert(cfg.collections@.take(n as int) =~= cfg.collections@);
    let title = cfg.title.clone();
    STACCatalog {
        id: cfg.title,
        type_: "Catalog".to_owned(),
        title: Some(title),
        description: cfg.description,
        stac_version: "1.0.0".to_owned(),
        stac_extensions: None,
        links,
    }
}

/// The collections that a search covers: the comma-separated ids that the
/// request names, or else every collection of the inventory.
pub fn search_collection_ids<S>(requested: &Option<String>, inventory: &Inventory<S>) -> (r: Vec<String>)
    ensures
        requested matches Some(c) ==> string_views(r@) == split_char(c@, ','),
        requested is None ==> string_views(r@) == inventory.collection_list().map_values(
            |c: CoreCollection| c.id@,
        ),
        requested is None ==> {
            &&& forall|i: int| 0 <= i < r@.len() ==> inventory.collection_map().contains_key((#[trigger] r@[i])@)
            &&& forall|k: Seq<char>| #[trigger] inventory.collection_map().contains_key(k) ==> exists|i: int|
                0 <= i < r@.len() && (#[trigger] r@[i])@ == k
            &&& forall|i: int, j: int| 0 <= i < r@.len() && 0 <= j < r@.len() && i != j ==> (#[trigger] r@[i])@
                != (#[trigger] r@[j])@
        },
{
    match requested {
        Some(c) => split_char_str(c.as_str(), ','),
        None => {
            let all = inventory.collections();
            let n = all.len();
            let mut ids: Vec<String> = Vec::new();
            let mut i: usize = 0;
            while i < n
                invariant
                    n == all@.len(),
                    i <= n,
                    ids@.len() == i,
                    forall|j: int| 0 <= j < i ==> (#[trigger] ids@[j])@ == all@[j].id@,
                decreases n - i,
            {
                ids.push(all[i].id.clone());
                i = i + 1;
            }
            proof {
                let l = inventory.collection_list();
                assert forall|j: int| 0 <= j < ids@.len() implies ids@[j]@ == l[j].id@ by {
                    assert(all@[j]@ == l[j]@);
                }
                assert(string_views(ids@) =~= l.map_values(|c: CoreCollection| c.id@));
                let m = inventory.collection_map();
                assert forall|k: Seq<char>| #[trigger] m.contains_key(k) implies exists|j: int|
                    0 <= j < ids@.len() && (#[trigger] ids@[j])@ == k by {
                    let j = choose|j: int| 0 <= j < all@.len() && (#[trigger] all@[j]).id@ == k;
                    assert(ids@[j]@ == k);
                }
                assert forall|a: int, b: int| 0 <= a < ids@.len() && 0 <= b < ids@.len() && a != b
                    implies (#[trigger] ids@[a])@ != (#[trigger] ids@[b])@ by {
                    assert(ids@[a]@ == all@[a].id@);
                    assert(ids@[b]@ == all@[b].id@);
                }
            }
            ids
        },
    }
}


/// Adds the outcome of one collection to a search: its features when it
/// returned a page, or the refusal of the whole search when it failed or
/// found no page.
pub fn search_step<F>(found: Vec<F>, outcome: Option<Vec<F>>) -> (r: Option<Vec<F>>)
    ensures
        outcome is None ==> r is None,
        outcome matches Some(fs) ==> (r matches Some(v) && v@ == found@ + fs@),
{
    match outcome {
        Some(mut fs) => {
            let mut all = found;
            all.append(&mut fs);
            Some(all)
        },
        None => None,
    }
}

/// The result of a search over all its collections: every feature found,
/// counted as both matched and returned, with no links.
pub fn search_result<F>(features: Vec<F>) -> (r: CoreFeatures<F>)
    ensures
        r.type_@ == "FeatureCollection"@,
        r.links@.len() == 0,
        r.time_stamp is None,
        r.number_matched == Some(features@.len() as u64),
        r.number_returned == Some(features@.len() as u64),
        r.features == features,
{
    let n = features.len() as u64;
    CoreFeatures {
        type_: "FeatureCollection".to_owned(),
        links: Vec::new(),
        time_stamp: None,
        number_matched: Some(n),
        number_returned: Some(n),
        features,
    }
}


/// What a data source's answer for one item or one queryables document
/// gives: the value where the source found it, nothing where it found none
/// or failed.
pub fn source_outcome<T, E>(r: Result<Option<T>, E>) -> (o: Option<T>)
    ensures
        r matches Ok(Some(v)) ==> o == Some(v),
        !(r matches Ok(Some(_))) ==> o is None,
{
    match r {
        Ok(v) => v,
        Err(_) => None,
    }
}

/// The answer to a request for one feature or one queryables document.
#[derive(Debug, PartialEq, Eq)]
pub enum FeatureAnswer<F> {
    Found(F),
    NotFound,
}

/// The answer to a request for a value of collection `collection_id`, given
/// what its source gave: not found for an unknown collection or where the
/// source had nothing, the value otherwise.
pub fn feature_answer<S, F>(inventory: &Inventory<S>, collection_id: &str, item: Option<F>) -> (r: FeatureAnswer<F>)
    ensures
        !inventory.collection_map().contains_key(collection_id@) ==> r == FeatureAnswer::<F>::NotFound,
        inventory.collection_map().contains_key(collection_id@) ==> match item {
            Some(f) => r == FeatureAnswer::Found(f),
            None => r == FeatureAnswer::<F>::NotFound,
        },
{
    match inventory.core_collection(collection_id) {
        Some(_) => match item {
            Some(f) => FeatureAnswer::Found(f),
            None => FeatureAnswer::NotFound,
        },
        None => FeatureAnswer::NotFound,
    }
}

} // verus!

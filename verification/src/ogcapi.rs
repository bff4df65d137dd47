//! OGC API documents: links, collections, extents, queryables and STAC
//! catalogs, as the endpoints serve them.
use vstd::prelude::*;
use std::collections::HashMap;
use crate::filter_params::opt_view;

verus! {

/// A link of an OGC API document.
#[derive(Debug)]
pub struct ApiLink {
    pub href: String,
    pub rel: Option<String>,
    pub type_: Option<String>,
    pub hreflang: Option<String>,
    pub title: Option<String>,
    pub length: Option<u64>,
    pub method: Option<String>,
}

impl Clone for ApiLink {
    fn clone(&self) -> (r: Self)
        ensures
            r == *self,
    {
        ApiLink {
            href: self.href.clone(),
            rel: self.rel.clone(),
            type_: self.type_.clone(),
            hreflang: self.hreflang.clone(),
            title: self.title.clone(),
            length: self.length,
            method: self.method.clone(),
        }
    }
}

/// The view of an optional string slice.
pub open spec fn opt_str_view(o: Option<&str>) -> Option<Seq<char>> {
    match o {
        Some(s) => Some(s@),
        None => None,
    }
}

/// `l` links to `href` with relation `rel` and media type `type_`, with the
/// given title and method, and no language or length.
pub open spec fn link_is(
    l: ApiLink,
    href: Seq<char>,
    rel: Seq<char>,
    type_: Seq<char>,
    title: Option<Seq<char>>,
    method: Option<Seq<char>>,
) -> bool {
    &&& l.href@ == href
    &&& opt_view(l.rel) == Some(rel)
    &&& opt_view(l.type_) == Some(type_)
    &&& l.hreflang is None
    &&& opt_view(l.title) == title
    &&& l.length is None
    &&& opt_view(l.method) == method
}

fn opt_string(o: Option<&str>) -> (r: Option<String>)
    ensures
        opt_view(r) == opt_str_view(o),
{
    match o {
        Some(s) => Some(s.to_owned()),
        None => None,
    }
}

/// A link to `href` with relation `rel`, media type `type_`, and the given
/// title and method.
pub fn make_link(href: String, rel: &str, type_: &str, title: Option<&str>, method: Option<&str>) -> (r: ApiLink)
    ensures
        link_is(r, href@, rel@, type_@, opt_str_view(title), opt_str_view(method)),
{
    ApiLink {
        href,
        rel: Some(rel.to_owned()),
        type_: Some(type_.to_owned()),
        hreflang: None,
        title: opt_string(title),
        length: None,
        method: opt_string(method),
    }
}

/// The landing page of an OGC API service.
#[derive(Debug)]
pub struct CoreLandingPage {
    /// The STAC object type, with STAC built in.
    pub type_: Option<String>,
    /// The STAC id, with STAC built in.
    pub id: Option<String>,
    /// The STAC version, with STAC built in.
    pub stac_version: Option<String>,
    pub title: Option<String>,
    pub description: Option<String>,
    pub links: Vec<ApiLink>,
    /// The conformance classes that a STAC landing page carries.
    pub conforms_to: Option<CoreConformsTo>,
    pub extent: Option<CoreExtent>,
}

/// The conformance classes that a service declares.
#[derive(Debug)]
pub struct CoreConformsTo {
    pub conforms_to: Vec<String>,
}

/// The `/collections` document.
#[derive(Debug)]
pub struct CoreCollections {
    /// `Catalog` with STAC built in, otherwise absent.
    pub type_: Option<String>,
    pub links: Vec<ApiLink>,
    pub collections: Vec<CoreCollection>,
}

/// A page of features: the `/collections/{collectionId}/items` document
/// and the result of a search. `F` is the type of one feature.
#[derive(Debug)]
pub struct CoreFeatures<F> {
    pub type_: String,
    pub links: Vec<ApiLink>,
    pub time_stamp: Option<String>,
    pub number_matched: Option<u64>,
    pub number_returned: Option<u64>,
    pub features: Vec<F>,
}

/// The description of one collection.
#[derive(Debug)]
pub struct CoreCollection {
    pub id: String,
    pub title: Option<String>,
    pub description: Option<String>,
    pub links: Vec<ApiLink>,
    pub extent: Option<CoreExtent>,
    pub item_type: Option<String>,
    pub crs: Vec<String>,
    /// The STAC object type, with STAC built in.
    pub stac_type: Option<STACType>,
    /// The STAC version, with STAC built in.
    pub stac_version: Option<String>,
    /// The license, with STAC built in.
    pub license: Option<String>,
}

/// The spatial and temporal extent of a collection.
#[derive(Debug)]
pub struct CoreExtent {
    pub spatial: Option<CoreExtentSpatial>,
    pub temporal: Option<CoreExtentTemporal>,
}

/// The spatial extent: bounding boxes, each coordinate held as the
/// IEEE-754 bit pattern of its `f64` value.
#[derive(Debug)]
pub struct CoreExtentSpatial {
    pub bbox: Vec<Vec<u64>>,
    pub crs: Option<String>,
}

/// The temporal extent: intervals of RFC 3339 date-times, where `None` is
/// an open end.
#[derive(Debug)]
pub struct CoreExtentTemporal {
    pub interval: Vec<Vec<Option<String>>>,
    pub trs: Option<String>,
}

/// The queryable properties of a collection.
#[derive(Debug)]
pub struct Queryables {
    pub type_: String,
    pub title: Option<String>,
    pub id: String,
    pub schema: String,
    pub properties: HashMap<String, QueryableProperty>,
}

/// One queryable property.
#[derive(Debug)]
pub struct QueryableProperty {
    pub type_: Option<QueryableType>,
    pub title: Option<String>,
    pub format: Option<String>,
}

/// The type of a queryable property.
#[derive(Clone, Copy, Debug, PartialEq, Eq)]
pub enum QueryableType {
    String,
    Integer,
    Number,
    Bool,
    Datetime,
}

/// A STAC catalog.
#[derive(Debug)]
pub struct STACCatalog {
    pub id: String,
    pub type_: String,
    pub title: Option<String>,
    pub description: String,
    pub stac_version: String,
    pub stac_extensions: Option<Vec<String>>,
    pub links: Vec<ApiLink>,
}

/// A STAC asset.
#[derive(Debug)]
pub struct STACAsset {
    pub href: String,
    pub title: Option<String>,
    pub description: Option<String>,
    pub type_: Option<String>,
    pub roles: Option<Vec<String>>,
}

/// The kind of a STAC object.
#[derive(Clone, Copy, Debug, PartialEq, Eq)]
pub enum STACType {
    Catalog,
    Collection,
    Feature,
}

/// The rows of a vector of vectors.
pub open spec fn rows<T>(v: Seq<Vec<T>>) -> Seq<Seq<T>> {
    v.map_values(|r: Vec<T>| r@)
}

/// The content of a spatial extent.
pub struct CoreExtentSpatialView {
    pub bbox: Seq<Seq<u64>>,
    pub crs: Option<String>,
}

impl View for CoreExtentSpatial {
    type V = CoreExtentSpatialView;

    open spec fn view(&self) -> CoreExtentSpatialView {
        CoreExtentSpatialView { bbox: rows(self.bbox@), crs: self.crs }
    }
}

/// The content of a temporal extent.
pub struct CoreExtentTemporalView {
    pub interval: Seq<Seq<Option<String>>>,
    pub trs: Option<String>,
}

impl View for CoreExtentTemporal {
    type V = CoreExtentTemporalView;

    open spec fn view(&self) -> CoreExtentTemporalView {
        CoreExtentTemporalView { interval: rows(self.interval@), trs: self.trs }
    }
}

/// The content of an extent.
pub struct CoreExtentView {
    pub spatial: Option<CoreExtentSpatialView>,
    pub temporal: Option<CoreExtentTemporalView>,
}

impl View for CoreExtent {
    type V = CoreExtentView;

    open spec fn view(&self) -> CoreExtentView {
        CoreExtentView {
            spatial: match self.spatial {
                Some(s) => Some(s@),
                None => None,
            },
            temporal: match self.temporal {
                Some(t) => Some(t@),
                None => None,
            },
        }
    }
}

/// The content of a collection description.
pub struct CoreCollectionView {
    pub id: String,
    pub title: Option<String>,
    pub description: Option<String>,
    pub links: Seq<ApiLink>,
    pub extent: Option<CoreExtentView>,
    pub item_type: Option<String>,
    pub crs: Seq<String>,
    pub stac_type: Option<STACType>,
    pub stac_version: Option<String>,
    pub license: Option<String>,
}

impl View for CoreCollection {
    type V = CoreCollectionView;

    open spec fn view(&self) -> CoreCollectionView {
        CoreCollectionView {
            id: self.id,
            title: self.title,
            description: self.description,
            links: self.links@,
            extent: match self.extent {
                Some(e) => Some(e@),
                None => None,
            },
            item_type: self.item_type,
            crs: self.crs@,
            stac_type: self.stac_type,
            stac_version: self.stac_version,
            license: self.license,
        }
    }
}

/// The content of a STAC catalog.
pub struct STACCatalogView {
    pub id: String,
    pub type_: String,
    pub title: Option<String>,
    pub description: String,
    pub stac_version: String,
    pub stac_extensions: Option<Seq<String>>,
    pub links: Seq<ApiLink>,
}

impl View for STACCatalog {
    type V = STACCatalogView;

    open spec fn view(&self) -> STACCatalogView {
        STACCatalogView {
            id: self.id,
            type_: self.type_,
            title: self.title,
            description: self.description,
            stac_version: self.stac_version,
            stac_extensions: match self.stac_extensions {
                Some(e) => Some(e@),
                None => None,
            },
            links: self.links@,
        }
    }
}

fn clone_strings(v: &Vec<String>) -> (r: Vec<String>)
    ensures
        r@ == v@,
{
    let r = v.clone();
    assert(r@ =~= v@);
    r
}

fn clone_links(v: &Vec<ApiLink>) -> (r: Vec<ApiLink>)
    ensures
        r@ == v@,
{
    let r = v.clone();
    assert(r@ =~= v@);
    r
}

fn clone_rows<T: Copy>(v: &Vec<Vec<T>>) -> (r: Vec<Vec<T>>)
    ensures
        rows(r@) == rows(v@),
{
    let mut out: Vec<Vec<T>> = Vec::new();
    let n = v.len();
    let mut i: usize = 0;
    while i < n
        invariant
            n == v@.len(),
            i <= n,
            rows(out@) == rows(v@).take(i as int),
        decreases n - i,
    {
        let src = &v[i];
        let mut row: Vec<T> = Vec::new();
        let m = src.len();
        let mut j: usize = 0;
        while j < m
            invariant
                m == src@.len(),
                j <= m,
                row@ == src@.take(j as int),
            decreases m - j,
        {
            row.push(src[j]);
            assert(row@ =~= src@.take(j + 1));
            j = j + 1;
        }
        assert(row@ =~= src@);
        let ghost prev = out@;
        out.push(row);
        assert(rows(out@) =~= rows(prev).push(row@));
        assert(rows(out@) =~= rows(v@).take(i + 1));
        i = i + 1;
    }
    assert(rows(v@).take(n as int) =~= rows(v@));
    out
}

fn clone_option_rows(v: &Vec<Vec<Option<String>>>) -> (r: Vec<Vec<Option<String>>>)
    ensures
        rows(r@) == rows(v@),
{
    let mut out: Vec<Vec<Option<String>>> = Vec::new();
    let n = v.len();
    let mut i: usize = 0;
    while i < n
        invariant
            n == v@.len(),
            i <= n,
            rows(out@) == rows(v@).take(i as int),
        decreases n - i,
    {
        let row = v[i].clone();
        assert(row@ =~= v@[i as int]@);
        let ghost prev = out@;
        out.push(row);
        assert(rows(out@) =~= rows(prev).push(row@));
        assert(rows(out@) =~= rows(v@).take(i + 1));
        i = i + 1;
    }
    assert(rows(v@).take(n as int) =~= rows(v@));
    out
}

impl Clone for CoreExtentSpatial {
    fn clone(&self) -> (r: Self)
        ensures
            r@ == self@,
    {
        CoreExtentSpatial { bbox: clone_rows(&self.bbox), crs: self.crs.clone() }
    }
}

impl Clone for CoreExtentTemporal {
    fn clone(&self) -> (r: Self)
        ensures
            r@ == self@,
    {
        CoreExtentTemporal { interval: clone_option_rows(&self.interval), trs: self.trs.clone() }
    }
}

impl Clone for CoreExtent {
    fn clone(&self) -> (r: Self)
        ensures
            r@ == self@,
    {
        CoreExtent {
            spatial: match &self.spatial {
                Some(s) => Some(s.clone()),
                None => None,
            },
            temporal: match &self.temporal {
                Some(t) => Some(t.clone()),
                None => None,
            },
        }
    }
}

impl Clone for CoreCollection {
    fn clone(&self) -> (r: Self)
        ensures
            r@ == self@,
    {
        CoreCollection {
            id: self.id.clone(),
            title: self.title.clone(),
            description: self.description.clone(),
            links: clone_links(&self.links),
            extent: match &self.extent {
                Some(e) => Some(e.clone()),
                None => None,
            },
            item_type: self.item_type.clone(),
            crs: clone_strings(&self.crs),
            stac_type: self.stac_type,
            stac_version: self.stac_version.clone(),
            license: self.license.clone(),
        }
    }
}

impl Clone for STACCatalog {
    fn clone(&self) -> (r: Self)
        ensures
            r@ == self@,
    {
        STACCatalog {
            id: self.id.clone(),
            type_: self.type_.clone(),
            title: self.title.clone(),
            description: self.description.clone(),
            stac_version: self.stac_version.clone(),
            stac_extensions: match &self.stac_extensions {
                Some(e) => Some(clone_strings(e)),
                None => None,
            },
            links: clone_links(&self.links),
        }
    }
}


/// Name for whether `chrono::DateTime::parse_from_rfc3339` accepts a text.
pub uninterp spec fn rfc3339_accepts(s: Seq<char>) -> bool;

/// Whether `chrono::DateTime::parse_from_rfc3339` parses `s`. The contract
/// names the RFC 3339 grammar that chrono implements and states no more of it.
#[verifier::external_body]
fn is_rfc3339(s: &str) -> (r: bool)
    ensures
        r == rfc3339_accepts(s@),
{
    chrono::DateTime::parse_from_rfc3339(s).is_ok()
}

/// The message of a refused temporal extent.
pub open spec fn invalid_datetime_message() -> Seq<char> {
    "invalid datetime format"@
}

/// What a configured interval bound stands for: an empty text is an open
/// end, any other text is the date-time itself.
pub open spec fn bound_view(s: Seq<char>) -> Option<Seq<char>> {
    if s.len() == 0 {
        None
    } else {
        Some(s)
    }
}

/// An empty bound is an open end; any other bound stands for itself.
pub proof fn law_bound_view(s: Seq<char>)
    ensures
        bound_view(s) is None <==> s.len() == 0,
        bound_view(s) matches Some(x) ==> x == s,
{
}

/// One bound of a configured interval, given whether it parses as RFC 3339:
/// the empty text is an open end, a date-time is kept as given, any other
/// text is refused.
pub fn interval_bound(s: &String, accepted: bool) -> (r: Result<Option<String>, &'static str>)
    ensures
        s@.len() == 0 ==> r == Ok::<Option<String>, &'static str>(None),
        s@.len() > 0 && accepted ==> (r matches Ok(Some(x)) && x@ == s@),
        s@.len() > 0 && !accepted ==> (r matches Err(e) && e@ == invalid_datetime_message()),
{
    if s.as_str().unicode_len() == 0 {
        Ok(None)
    } else if accepted {
        Ok(Some(s.clone()))
    } else {
        Err("invalid datetime format")
    }
}

/// Every non-empty bound of the configured intervals is an RFC 3339 date-time.
pub open spec fn bounds_valid(iv: Seq<Vec<String>>) -> bool {
    forall|i: int, j: int|
        0 <= i < iv.len() && 0 <= j < iv[i]@.len() && (#[trigger] iv[i]@[j])@.len() > 0
            ==> rfc3339_accepts(iv[i]@[j]@)
}

/// `t` holds the configured intervals, with empty bounds as open ends.
pub open spec fn intervals_match(t: Seq<Vec<Option<String>>>, iv: Seq<Vec<String>>) -> bool {
    &&& t.len() == iv.len()
    &&& forall|i: int| 0 <= i < iv.len() ==> (#[trigger] t[i])@.len() == iv[i]@.len()
    &&& forall|i: int, j: int|
        0 <= i < iv.len() && 0 <= j < iv[i]@.len() ==> opt_view(#[trigger] t[i]@[j]) == bound_view(iv[i]@[j]@)
}

impl CoreExtentTemporal {
    /// Builds a temporal extent from configured intervals, where an empty
    /// text stands for an open end. Refused when a non-empty bound is no
    /// RFC 3339 date-time.
    pub fn try_from(intervals: Vec<Vec<String>>) -> (r: Result<CoreExtentTemporal, &'static str>)
        ensures
            r is Ok <==> bounds_valid(intervals@),
            r matches Ok(t) ==> t.trs is None && intervals_match(t.interval@, intervals@),
            r matches Err(e) ==> e@ == invalid_datetime_message(),
    {
        let mut out: Vec<Vec<Option<String>>> = Vec::new();
        let n = intervals.len();
        let mut i: usize = 0;
        while i < n
            invariant
                n == intervals@.len(),
                i <= n,
                out@.len() == i,
                forall|a: int| 0 <= a < i ==> (#[trigger] out@[a])@.len() == intervals@[a]@.len(),
                forall|a: int, b: int|
                    0 <= a < i && 0 <= b < intervals@[a]@.len() ==> opt_view(#[trigger] out@[a]@[b])
                        == bound_view(intervals@[a]@[b]@),
                forall|a: int, b: int|
                    0 <= a < i && 0 <= b < intervals@[a]@.len() && (#[trigger] intervals@[a]@[b])@.len() > 0
                        ==> rfc3339_accepts(intervals@[a]@[b]@),
            decreases n - i,
        {
            let row_in = &intervals[i];
            let m = row_in.len();
            let mut row: Vec<Option<String>> = Vec::new();
            let mut j: usize = 0;
            while j < m
                invariant
                    i < intervals@.len(),
                    intervals@[i as int] == *row_in,
                    m == row_in@.len(),
                    j <= m,
                    row@.len() == j,
                    forall|b: int| 0 <= b < j ==> opt_view(#[trigger] row@[b]) == bound_view(row_in@[b]@),
                    forall|b: int|
                        0 <= b < j && (#[trigger] row_in@[b])@.len() > 0 ==> rfc3339_accepts(row_in@[b]@),
                decreases m - j,
            {
                let text = &row_in[j];
                let accepted = text.as_str().unicode_len() > 0 && is_rfc3339(text.as_str());
                match interval_bound(text, accepted) {
                    Ok(b) => {
                        row.push(b);
                    },
                    Err(e) => {
                        proof {
                            assert(row_in@[j as int]@.len() > 0 && !rfc3339_accepts(row_in@[j as int]@));
                            assert(intervals@[i as int]@[j as int] == row_in@[j as int]);
                        }
                        return Err(e);
                    },
                }
                j = j + 1;
            }
            out.push(row);
            i = i + 1;
        }
        Ok(CoreExtentTemporal { interval: out, trs: None })
    }
}

} // verus!

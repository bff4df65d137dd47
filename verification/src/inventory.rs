//! The inventory of feature collections that a feature service serves.
use vstd::prelude::*;
use crate::assoc::{assoc_get, assoc_insert, assoc_map, keys_unique, lemma_assoc_at};
use crate::config::STACCatalogCfg;
use crate::error::Error;
use crate::ogcapi::{link_is, make_link, ApiLink, CoreCollection, CoreFeatures};
use crate::text::{concat, lemma_trim_end_idempotent, lemma_trim_end_no_trailing, trim_end_char, trim_end_char_str};

verus! {

/// A collection description with the data source that serves its features.
#[derive(Debug)]
pub struct FeatureCollection<S> {
    pub collection: CoreCollection,
    pub source: S,
}

impl<S: Clone> Clone for FeatureCollection<S> {
    fn clone(&self) -> (r: Self)
        ensures
            r.collection@ == self.collection@,
            cloned(self.source, r.source),
    {
        FeatureCollection { collection: self.collection.clone(), source: self.source.clone() }
    }
}

/// `r` lists the collections of `m`, each once, in some order.
pub open spec fn lists_collections<S>(r: Seq<CoreCollection>, m: Map<Seq<char>, FeatureCollection<S>>) -> bool {
    &&& forall|i: int|
        0 <= i < r.len() ==> m.contains_key((#[trigger] r[i]).id@) && r[i]@ == m[r[i].id@].collection@
    &&& forall|k: Seq<char>| #[trigger] m.contains_key(k) ==> exists|i: int| 0 <= i < r.len() && (#[trigger] r[i]).id@ == k
    &&& forall|i: int, j: int| 0 <= i < r.len() && 0 <= j < r.len() && i != j ==> (#[trigger] r[i]).id@ != (#[trigger] r[j]).id@
}

/// `r` holds the collections of `l` in the same order, each with the same
/// content.
pub open spec fn same_collections(r: Seq<CoreCollection>, l: Seq<CoreCollection>) -> bool {
    &&& r.len() == l.len()
    &&& forall|i: int| 0 <= i < l.len() ==> (#[trigger] r[i])@ == l[i]@
}

/// A base URL as the inventory keeps it: empty, or a text without trailing
/// `/` followed by one `/`.
pub open spec fn base_url_ok(b: Seq<char>) -> bool {
    b.len() == 0 || b == trim_end_char(b, '/').push('/')
}

/// The base URL that a public server URL gives: the URL without trailing
/// `/`, then one `/`.
pub open spec fn base_url_of(url: Option<String>) -> Seq<char> {
    match url {
        Some(u) => trim_end_char(u@, '/').push('/'),
        None => seq!['/'],
    }
}

/// The feature collections of a service, keyed by collection id, with the
/// base URL of its links and its catalog configuration.
#[derive(Debug)]
pub struct Inventory<S> {
    feat_collections: Vec<(String, FeatureCollection<S>)>,
    base_url: String,
    catalog: STACCatalogCfg,
}

impl<S> Inventory<S> {
    #[verifier::type_invariant]
    spec fn inv(self) -> bool {
        &&& keys_unique(self.feat_collections@)
        &&& forall|k: Seq<char>| #[trigger] assoc_map(self.feat_collections@).contains_key(k)
            ==> assoc_map(self.feat_collections@)[k].collection.id@ == k
        &&& base_url_ok(self.base_url@)
    }

    /// The collections, by id.
    pub closed spec fn collection_map(&self) -> Map<Seq<char>, FeatureCollection<S>> {
        assoc_map(self.feat_collections@)
    }

    /// The collections in the order in which `collections` lists them.
    pub closed spec fn collection_list(&self) -> Seq<CoreCollection> {
        self.feat_collections@.map_values(|e: (String, FeatureCollection<S>)| e.1.collection)
    }

    /// The base URL, ending with `/` unless empty.
    pub closed spec fn base_url_spec(&self) -> Seq<char> {
        self.base_url@
    }

    /// The catalog configuration.
    pub closed spec fn catalog_spec(&self) -> STACCatalogCfg {
        self.catalog
    }

    /// An empty inventory whose links start at the public server URL.
    pub fn new(public_server_url: Option<String>) -> (r: Self)
        ensures
            r.base_url_spec() == base_url_of(public_server_url),
            r.collection_map() == Map::<Seq<char>, FeatureCollection<S>>::empty(),
            r.catalog_spec()@.collections.len() == 0,
            r.catalog_spec()@.title.len() == 0,
            r.catalog_spec()@.description.len() == 0,
    {
        let trimmed: String = match &public_server_url {
            Some(u) => trim_end_char_str(u.as_str(), '/').to_owned(),
            None => String::new(),
        };
        let sep = "/";
        proof { reveal_strlit("/"); }
        let base_url = concat(trimmed.as_str(), sep);
        proof {
            match public_server_url {
                Some(u) => {
                    lemma_trim_end_idempotent(u@, '/');
                    assert(base_url@ =~= trimmed@.push('/'));
                    assert(base_url@.drop_last() =~= trimmed@);
                    assert(trim_end_char(base_url@, '/') == trim_end_char(trim_end_char(u@, '/'), '/'));
                },
                None => {
                    assert(trimmed@ =~= Seq::<char>::empty());
                    assert(trim_end_char(trimmed@, '/') == trimmed@);
                },
            }
            assert(base_url@ =~= trimmed@.push('/'));
            assert(base_url@.drop_last() =~= trimmed@);
            assert(trim_end_char(base_url@, '/') == trim_end_char(trimmed@, '/'));
            assert(trim_end_char(trimmed@, '/') == trimmed@);
            assert(base_url_ok(base_url@));
            assert(base_url@ == base_url_of(public_server_url));
        }
        let feat_collections: Vec<(String, FeatureCollection<S>)> = Vec::new();
        assert(assoc_map(feat_collections@) =~= Map::<Seq<char>, FeatureCollection<S>>::empty());
        Inventory { feat_collections, base_url, catalog: STACCatalogCfg::default() }
    }

    /// The base URL of the service, ending with `/` unless empty.
    pub fn base_url(&self) -> (r: &str)
        ensures
            r@ == self.base_url_spec(),
            r@.len() == 0 || r@ == trim_end_char(r@, '/').push('/'),
    {
        proof { use_type_invariant(self); }
        self.base_url.as_str()
    }

    /// The base URL without its trailing `/`: the prefix of every link.
    pub fn href_prefix(&self) -> (r: &str)
        ensures
            r@ == trim_end_char(self.base_url_spec(), '/'),
            r@.len() == 0 || r@.last() != '/',
            self.base_url_spec().len() == 0 || self.base_url_spec() == r@.push('/'),
    {
        proof {
            use_type_invariant(self);
            lemma_trim_end_no_trailing(self.base_url@, '/');
        }
        trim_end_char_str(self.base_url.as_str(), '/')
    }

    /// Adds a collection under its id; a collection with the same id is
    /// replaced.
    pub fn add_collection(&mut self, fc: FeatureCollection<S>)
        ensures
            final(self).collection_map() == old(self).collection_map().insert(fc.collection.id@, fc),
            final(self).base_url_spec() == old(self).base_url_spec(),
            final(self).catalog_spec() == old(self).catalog_spec(),
    {
        proof { use_type_invariant(&*self); }
        let id = fc.collection.id.clone();
        let ghost key = id@;
        let ghost value = fc;
        let mut entries: Vec<(String, FeatureCollection<S>)> = Vec::new();
        std::mem::swap(&mut entries, &mut self.feat_collections);
        assoc_insert(&mut entries, id, fc);
        proof {
            assert forall|k: Seq<char>| #[trigger] assoc_map(entries@).contains_key(k)
                implies assoc_map(entries@)[k].collection.id@ == k by {
                if k != key {
                    assert(assoc_map(old(self).feat_collections@).contains_key(k));
                }
            }
        }
        self.feat_collections = entries;
    }

    /// Adds each collection in turn, as `add_collection` does.
    pub fn add_collections(&mut self, feat_collections: Vec<FeatureCollection<S>>)
        ensures
            final(self).collection_map() == inserted_all(old(self).collection_map(), feat_collections@),
            final(self).base_url_spec() == old(self).base_url_spec(),
            final(self).catalog_spec() == old(self).catalog_spec(),
    {
        let ghost start = self.collection_map();
        let ghost items = feat_collections@;
        let mut rest = feat_collections;
        let ghost n = items.len();
        assert(items.subrange(0, 0) =~= Seq::<FeatureCollection<S>>::empty());
        assert(rest@ =~= items.subrange(0, n as int));
        while rest.len() > 0
            invariant
                rest@.len() <= n,
                n == items.len(),
                rest@ == items.subrange(n - rest@.len(), n as int),
                self.collection_map() == inserted_all(start, items.subrange(0, n - rest@.len())),
                self.base_url_spec() == old(self).base_url_spec(),
                self.catalog_spec() == old(self).catalog_spec(),
            decreases rest@.len(),
        {
            let ghost done = n - rest@.len();
            let fc = rest.remove(0);
            assert(fc == items[done]);
            assert(items.subrange(0, done + 1).drop_last() =~= items.subrange(0, done));
            self.add_collection(fc);
            assert(rest@ =~= items.subrange(done + 1, n as int));
        }
        assert(items.subrange(0, n as int) =~= items);
    }

    /// Takes in what scanning one data source gave: its collections are
    /// added in order when the scan succeeded; a failed source is skipped.
    /// Tells whether the collections were added.
    pub fn add_scanned<E>(&mut self, outcome: Result<Vec<FeatureCollection<S>>, E>) -> (r: bool)
        ensures
            r == outcome is Ok,
            outcome matches Ok(v) ==> final(self).collection_map() == inserted_all(old(self).collection_map(), v@),
            outcome is Err ==> final(self).collection_map() == old(self).collection_map(),
            final(self).base_url_spec() == old(self).base_url_spec(),
            final(self).catalog_spec() == old(self).catalog_spec(),
    {
        match outcome {
            Ok(collections) => {
                self.add_collections(collections);
                true
            },
            Err(_) => false,
        }
    }

    /// Replaces the catalog configuration.
    pub fn set_catalog(&mut self, cat: STACCatalogCfg)
        ensures
            final(self).catalog_spec() == cat,
            final(self).collection_map() == old(self).collection_map(),
            final(self).base_url_spec() == old(self).base_url_spec(),
    {
        proof { use_type_invariant(&*self); }
        self.catalog = cat;
    }

    /// All collections, each once, in the order of `collection_list`.
    pub fn collections(&self) -> (r: Vec<CoreCollection>)
        ensures
            same_collections(r@, self.collection_list()),
            lists_collections(r@, self.collection_map()),
            lists_collections(self.collection_list(), self.collection_map()),
    {
        proof { use_type_invariant(self); }
        let entries = &self.feat_collections;
        let n = entries.len();
        let mut r: Vec<CoreCollection> = Vec::new();
        let mut i: usize = 0;
        while i < n
            invariant
                n == entries@.len(),
                i <= n,
                r@.len() == i,
                forall|j: int| 0 <= j < i ==> (#[trigger] r@[j])@ == entries@[j].1.collection@,
            decreases n - i,
        {
            r.push(entries[i].1.collection.clone());
            i = i + 1;
        }
        proof {
            let m = assoc_map(entries@);
            let l = self.collection_list();
            assert forall|j: int| 0 <= j < l.len() implies (#[trigger] l[j]) == entries@[j].1.collection by {}
            assert forall|j: int| 0 <= j < l.len() implies m.contains_key((#[trigger] l[j]).id@)
                && l[j]@ == m[l[j].id@].collection@ by {
                lemma_assoc_at(entries@, j);
            }
            assert forall|k: Seq<char>| #[trigger] m.contains_key(k) implies exists|j: int|
                0 <= j < l.len() && (#[trigger] l[j]).id@ == k by {
                let j = choose|j: int| 0 <= j < entries@.len() && (#[trigger] entries@[j]).0@ == k;
                lemma_assoc_at(entries@, j);
                assert(l[j].id@ == k);
            }
            assert forall|a: int, b: int| 0 <= a < l.len() && 0 <= b < l.len() && a != b
                implies (#[trigger] l[a]).id@ != (#[trigger] l[b]).id@ by {
                lemma_assoc_at(entries@, a);
                lemma_assoc_at(entries@, b);
            }
            assert forall|j: int| 0 <= j < r@.len() implies r@[j].id@ == entries@[j].0@ by {
                lemma_assoc_at(entries@, j);
            }
            assert forall|j: int| 0 <= j < r@.len() implies m.contains_key((#[trigger] r@[j]).id@)
                && r@[j]@ == m[r@[j].id@].collection@ by {
                lemma_assoc_at(entries@, j);
            }
            assert forall|k: Seq<char>| #[trigger] m.contains_key(k) implies exists|j: int|
                0 <= j < r@.len() && (#[trigger] r@[j]).id@ == k by {
                let j = choose|j: int| 0 <= j < entries@.len() && (#[trigger] entries@[j]).0@ == k;
                assert(r@[j].id@ == k);
            }
        }
        r
    }

    /// The description of the collection with id `collection_id`.
    pub fn core_collection(&self, collection_id: &str) -> (r: Option<&CoreCollection>)
        ensures
            r is Some == self.collection_map().contains_key(collection_id@),
            r matches Some(c) ==> *c == self.collection_map()[collection_id@].collection,
            r matches Some(c) ==> c.id@ == collection_id@,
    {
        proof { use_type_invariant(self); }
        match assoc_get(&self.feat_collections, collection_id) {
            Some(fc) => Some(&fc.collection),
            None => None,
        }
    }

    /// The collection with id `collection_id`, with its data source.
    pub fn collection(&self, collection_id: &str) -> (r: Option<&FeatureCollection<S>>)
        ensures
            r is Some == self.collection_map().contains_key(collection_id@),
            r matches Some(c) ==> *c == self.collection_map()[collection_id@],
    {
        proof { use_type_invariant(self); }
        assoc_get(&self.feat_collections, collection_id)
    }

    /// The collection whose items are asked for; an unknown id is answered
    /// with `Error::InvalidCollection`.
    pub fn collection_for_items(&self, collection_id: &str) -> (r: Result<&FeatureCollection<S>, Error>)
        ensures
            r is Ok == self.collection_map().contains_key(collection_id@),
            r matches Ok(c) ==> *c == self.collection_map()[collection_id@],
            r matches Err(e) ==> e == Error::InvalidCollection,
    {
        match self.collection(collection_id) {
            Some(fc) => Ok(fc),
            None => Err(Error::InvalidCollection),
        }
    }

    /// The catalog configuration.
    pub fn catalog(&self) -> (r: STACCatalogCfg)
        ensures
            r@ == self.catalog_spec()@,
    {
        self.catalog.clone()
    }
}

impl<S> Default for Inventory<S> {
    fn default() -> (r: Self)
        ensures
            r.base_url_spec().len() == 0,
            r.collection_map() == Map::<Seq<char>, FeatureCollection<S>>::empty(),
            r.catalog_spec()@.collections.len() == 0,
            r.catalog_spec()@.title.len() == 0,
            r.catalog_spec()@.description.len() == 0,
    {
        let feat_collections: Vec<(String, FeatureCollection<S>)> = Vec::new();
        assert(assoc_map(feat_collections@) =~= Map::<Seq<char>, FeatureCollection<S>>::empty());
        Inventory { feat_collections, base_url: String::new(), catalog: STACCatalogCfg::default() }
    }
}

impl<S: Clone> Clone for Inventory<S> {
    fn clone(&self) -> (r: Self)
        ensures
            r.base_url_spec() == self.base_url_spec(),
            r.catalog_spec()@ == self.catalog_spec()@,
            r.collection_map().dom() == self.collection_map().dom(),
            forall|k: Seq<char>| #[trigger] r.collection_map().contains_key(k)
                ==> r.collection_map()[k].collection@ == self.collection_map()[k].collection@,
            forall|k: Seq<char>| #[trigger] r.collection_map().contains_key(k)
                ==> cloned(self.collection_map()[k].source, r.collection_map()[k].source),
    {
        proof { use_type_invariant(self); }
        let entries = &self.feat_collections;
        let n = entries.len();
        let mut copy: Vec<(String, FeatureCollection<S>)> = Vec::new();
        let mut i: usize = 0;
        while i < n
            invariant
                n == entries@.len(),
                i <= n,
                copy@.len() == i,
                forall|j: int| 0 <= j < i ==> (#[trigger] copy@[j]).0@ == entries@[j].0@
                    && copy@[j].1.collection@ == entries@[j].1.collection@
                    && cloned(entries@[j].1.source, copy@[j].1.source),
            decreases n - i,
        {
            copy.push((entries[i].0.clone(), entries[i].1.clone()));
            i = i + 1;
        }
        proof {
            let m = assoc_map(entries@);
            let c = assoc_map(copy@);
            assert forall|a: int, b: int|
                0 <= a < copy@.len() && 0 <= b < copy@.len() && a != b implies (#[trigger] copy@[a]).0@
                != (#[trigger] copy@[b]).0@ by {
                assert(entries@[a].0@ == copy@[a].0@);
                assert(entries@[b].0@ == copy@[b].0@);
            }
            assert forall|k: Seq<char>| c.contains_key(k) <==> m.contains_key(k) by {
                if c.contains_key(k) {
                    let j = choose|j: int| 0 <= j < copy@.len() && (#[trigger] copy@[j]).0@ == k;
                    assert(entries@[j].0@ == k);
                }
                if m.contains_key(k) {
                    let j = choose|j: int| 0 <= j < entries@.len() && (#[trigger] entries@[j]).0@ == k;
                    assert(copy@[j].0@ == k);
                }
            }
            assert forall|k: Seq<char>| #[trigger] c.contains_key(k) implies c[k].collection@ == m[k].collection@
                && c[k].collection.id@ == k && cloned(m[k].source, c[k].source) by {
                let j = choose|j: int| 0 <= j < copy@.len() && (#[trigger] copy@[j]).0@ == k;
                lemma_assoc_at(copy@, j);
                lemma_assoc_at(entries@, j);
            }
            assert(c.dom() =~= m.dom());
        }
        let base_url = self.base_url.clone();
        let catalog = self.catalog.clone();
        Inventory { feat_collections: copy, base_url, catalog }
    }
}

/// A copy made by `clone` (as each app's endpoints get their own inventory)
/// serves the same collections, each described as before and served from a
/// clone of its own data source, never from that of another collection.
pub proof fn law_clone_keeps_sources<S: Clone>(orig: Inventory<S>, copy: Inventory<S>)
    requires
        vstd::pervasive::strictly_cloned(orig, copy),
    ensures
        copy.collection_map().dom() == orig.collection_map().dom(),
        forall|k: Seq<char>| #[trigger] copy.collection_map().contains_key(k)
            ==> copy.collection_map()[k].collection@ == orig.collection_map()[k].collection@
            && cloned(orig.collection_map()[k].source, copy.collection_map()[k].source),
        copy.base_url_spec() == orig.base_url_spec(),
{
}

/// The fixed links of an items page of collection `collection_id`: the
/// landing page, the collection and the page itself.
pub fn items_links(base_url: &str, collection_id: &str) -> (r: Vec<ApiLink>)
    ensures
        r@.len() == 3,
        link_is(r@[0], base_url@ + "/"@, "root"@, "application/json"@, Some("The landing page of this server"@), None),
        link_is(r@[1], base_url@ + "/collections/"@ + collection_id@, "collection"@, "application/geo+json"@,
            Some("the collection document"@), None),
        link_is(r@[2], base_url@ + "/collections/"@ + collection_id@ + "/items"@, "self"@,
            "application/geo+json"@, Some("this document"@), None),
{
    let root = concat(base_url, "/");
    let coll = concat(base_url, "/collections/");
    let coll = concat(coll.as_str(), collection_id);
    let items = concat(coll.as_str(), "/items");
    let mut r: Vec<ApiLink> = Vec::new();
    r.push(make_link(root, "root", "application/json", Some("The landing page of this server"), None));
    r.push(make_link(coll, "collection", "application/geo+json", Some("the collection document"), None));
    r.push(make_link(items, "self", "application/geo+json", Some("this document"), None));
    r
}

/// A paging link of an items page of collection `collection_id`, whose
/// query string is `params` and whose relation and title are `rel`.
pub fn page_link(base_url: &str, collection_id: &str, params: &str, rel: &str) -> (r: ApiLink)
    ensures
        link_is(r, base_url@ + "/collections/"@ + collection_id@ + "/items"@ + params@, rel@, "text/html"@,
            Some(rel@), None),
{
    let href = concat(base_url, "/collections/");
    let href = concat(href.as_str(), collection_id);
    let href = concat(href.as_str(), "/items");
    let href = concat(href.as_str(), params);
    make_link(href, rel, "text/html", Some(rel), None)
}

/// The number of given paging query strings.
pub open spec fn given(o: Option<String>) -> int {
    if o is Some { 1 } else { 0 }
}

/// The links of an items page: the fixed links, then a link to the previous
/// page where `prev_args` is given, then one to the next page where
/// `next_args` is given, each with its query string.
pub fn items_page_links(
    href_prefix: &str,
    collection_id: &str,
    prev_args: Option<String>,
    next_args: Option<String>,
) -> (r: Vec<ApiLink>)
    ensures
        r@.len() == 3 + given(prev_args) + given(next_args),
        link_is(r@[0], href_prefix@ + "/"@, "root"@, "application/json"@, Some("The landing page of this server"@),
            None),
        link_is(r@[1], href_prefix@ + "/collections/"@ + collection_id@, "collection"@, "application/geo+json"@,
            Some("the collection document"@), None),
        link_is(r@[2], href_prefix@ + "/collections/"@ + collection_id@ + "/items"@, "self"@,
            "application/geo+json"@, Some("this document"@), None),
        prev_args matches Some(p) ==> link_is(r@[3], href_prefix@ + "/collections/"@ + collection_id@ + "/items"@
            + p@, "prev"@, "text/html"@, Some("prev"@), None),
        next_args matches Some(n) ==> link_is(r@[3 + given(prev_args)], href_prefix@ + "/collections/"@
            + collection_id@ + "/items"@ + n@, "next"@, "text/html"@, Some("next"@), None),
{
    let mut links = items_links(href_prefix, collection_id);
    if let Some(p) = &prev_args {
        links.push(page_link(href_prefix, collection_id, p.as_str(), "prev"));
    }
    if let Some(n) = &next_args {
        links.push(page_link(href_prefix, collection_id, n.as_str(), "next"));
    }
    links
}

/// The items page of collection `collection_id`: the features that its
/// source returned, their counts and time stamp, and the page links.
pub fn items_page<F>(
    href_prefix: &str,
    collection_id: &str,
    features: Vec<F>,
    number_matched: Option<u64>,
    number_returned: u64,
    time_stamp: Option<String>,
    prev_args: Option<String>,
    next_args: Option<String>,
) -> (r: CoreFeatures<F>)
    ensures
        r.type_@ == "FeatureCollection"@,
        r.features == features,
        r.number_matched == number_matched,
        r.number_returned == Some(number_returned),
        r.time_stamp == time_stamp,
        r.links@.len() == 3 + given(prev_args) + given(next_args),
        link_is(r.links@[0], href_prefix@ + "/"@, "root"@, "application/json"@,
            Some("The landing page of this server"@), None),
        link_is(r.links@[1], href_prefix@ + "/collections/"@ + collection_id@, "collection"@,
            "application/geo+json"@, Some("the collection document"@), None),
        link_is(r.links@[2], href_prefix@ + "/collections/"@ + collection_id@ + "/items"@, "self"@,
            "application/geo+json"@, Some("this document"@), None),
        prev_args matches Some(p) ==> link_is(r.links@[3], href_prefix@ + "/collections/"@ + collection_id@
            + "/items"@ + p@, "prev"@, "text/html"@, Some("prev"@), None),
        next_args matches Some(n) ==> link_is(r.links@[3 + given(prev_args)], href_prefix@ + "/collections/"@
            + collection_id@ + "/items"@ + n@, "next"@, "text/html"@, Some("next"@), None),
{
    let links = items_page_links(href_prefix, collection_id, prev_args, next_args);
    CoreFeatures {
        type_: "FeatureCollection".to_owned(),
        links,
        time_stamp,
        number_matched,
        number_returned: Some(number_returned),
        features,
    }
}

/// Which paging links an items page gets.
#[derive(Clone, Copy, Debug, PartialEq, Eq)]
pub enum PageLinks {
    /// More features matched than the page returned: a link to the previous
    /// page where there is one, and to the next page below `matched`.
    Neighbours { matched: u64 },
    /// The match count is unknown or all matches were returned: a link to
    /// the next page below `bound`.
    NextBelow { bound: u64 },
}

/// The page size that an items page without a match count went by: the
/// requested size, but no more than the features that came back.
pub open spec fn page_size(limit: u64, number_returned: u64) -> u64 {
    if limit > number_returned { number_returned } else { limit }
}

/// The page size is the smaller of the requested size and the number of
/// features that came back.
pub proof fn law_page_size_is_smaller(limit: u64, number_returned: u64)
    ensures
        page_size(limit, number_returned) <= limit,
        page_size(limit, number_returned) <= number_returned,
        page_size(limit, number_returned) == limit || page_size(limit, number_returned) == number_returned,
{
}

/// Whether the paging bound of a page fits in a `u64`.
pub open spec fn paging_fits(number_matched: Option<u64>, number_returned: u64, offset: u64, limit: u64) -> bool {
    (number_matched matches Some(m) && m > number_returned) || offset + page_size(limit, number_returned) + 1
        <= u64::MAX
}

/// The paging links of an items page with `number_returned` features of
/// `number_matched`, asked for at `offset` with page size `limit`.
pub fn page_links(number_matched: Option<u64>, number_returned: u64, offset: u64, limit: u64) -> (r: PageLinks)
    requires
        paging_fits(number_matched, number_returned, offset, limit),
    ensures
        match number_matched {
            Some(m) if m > number_returned => r == PageLinks::Neighbours { matched: m },
            _ => r == PageLinks::NextBelow {
                bound: (offset + page_size(limit, number_returned) + 1) as u64,
            },
        },
{
    match number_matched {
        Some(m) if m > number_returned => PageLinks::Neighbours { matched: m },
        _ => {
            let size = if limit > number_returned { number_returned } else { limit };
            PageLinks::NextBelow { bound: offset + size + 1 }
        },
    }
}

/// The base URL that a public server URL gives, on texts.
pub open spec fn base_url_for(url: Seq<char>) -> Seq<char> {
    trim_end_char(url, '/').push('/')
}

/// Trailing slashes of the public server URL do not change the base URL,
/// and the link prefix is the URL without them.
pub proof fn law_base_url_ignores_trailing_slashes(url: Seq<char>)
    ensures
        base_url_for(url.push('/')) == base_url_for(url),
        trim_end_char(base_url_for(url), '/') == trim_end_char(url, '/'),
        base_url_for(url) == trim_end_char(base_url_for(url), '/').push('/'),
{
    assert(url.push('/').drop_last() =~= url);
    assert(base_url_for(url).drop_last() =~= trim_end_char(url, '/'));
    lemma_trim_end_idempotent(url, '/');
}

/// An inventory made by `new` from a public server URL has a base URL that
/// ends with `/`, whose link prefix is the URL without trailing `/`, never
/// ends with `/`, and gives the base URL back with one `/` appended. Since
/// `add_collection`, `add_collections` and `set_catalog` keep the base URL,
/// this holds after any sequence of them.
pub proof fn law_href_prefix_of_server_url(url: Option<String>)
    ensures
        base_url_of(url).len() > 0 && base_url_of(url).last() == '/',
        trim_end_char(base_url_of(url), '/') == trim_end_char(
            match url {
                Some(u) => u@,
                None => Seq::<char>::empty(),
            },
            '/',
        ),
        trim_end_char(base_url_of(url), '/').len() == 0 || trim_end_char(base_url_of(url), '/').last() != '/',
        base_url_of(url) == trim_end_char(base_url_of(url), '/').push('/'),
{
    let u = match url {
        Some(u) => u@,
        None => Seq::<char>::empty(),
    };
    assert(base_url_of(url) == base_url_for(u));
    law_base_url_ignores_trailing_slashes(u);
    lemma_trim_end_no_trailing(u, '/');
}

/// A collection that was added is found under its id with the description
/// it was added with, and every other id finds what it found before.
pub proof fn law_added_collection_is_found<S>(
    before: Inventory<S>,
    fc: FeatureCollection<S>,
    after: Inventory<S>,
    other: Seq<char>,
)
    requires
        after.collection_map() == before.collection_map().insert(fc.collection.id@, fc),
        other != fc.collection.id@,
    ensures
        after.collection_map().contains_key(fc.collection.id@),
        after.collection_map()[fc.collection.id@].collection == fc.collection,
        after.collection_map().contains_key(other) == before.collection_map().contains_key(other),
        after.collection_map().contains_key(other) ==> after.collection_map()[other]
            == before.collection_map()[other],
{
}

/// The map after inserting each collection of `items` in order under its id.
pub open spec fn inserted_all<S>(m: Map<Seq<char>, FeatureCollection<S>>, items: Seq<FeatureCollection<S>>) -> Map<
    Seq<char>,
    FeatureCollection<S>,
>
    decreases items.len(),
{
    if items.len() == 0 {
        m
    } else {
        inserted_all(m, items.drop_last()).insert(items.last().collection.id@, items.last())
    }
}

} // verus!

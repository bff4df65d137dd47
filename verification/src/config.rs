//! Service configuration that the inventory keeps.
use vstd::prelude::*;

verus! {

/// The configured STAC catalog: its title, description and the ids of the
/// collections it lists.
#[derive(Debug)]
pub struct STACCatalogCfg {
    pub title: String,
    pub description: String,
    pub collections: Vec<String>,
}

/// The content of a catalog configuration.
pub struct STACCatalogCfgView {
    pub title: Seq<char>,
    pub description: Seq<char>,
    pub collections: Seq<String>,
}

impl View for STACCatalogCfg {
    type V = STACCatalogCfgView;

    open spec fn view(&self) -> STACCatalogCfgView {
        STACCatalogCfgView { title: self.title@, description: self.description@, collections: self.collections@ }
    }
}

impl Clone for STACCatalogCfg {
    fn clone(&self) -> (r: Self)
        ensures
            r@ == self@,
    {
        let collections = self.collections.clone();
        assert(collections@ =~= self.collections@);
        STACCatalogCfg { title: self.title.clone(), description: self.description.clone(), collections }
    }
}

impl Default for STACCatalogCfg {
    fn default() -> (r: Self)
        ensures
            r@.title.len() == 0,
            r@.description.len() == 0,
            r@.collections.len() == 0,
    {
        STACCatalogCfg { title: String::new(), description: String::new(), collections: Vec::new() }
    }
}

} // verus!

//! PostGIS data sources: the schemas a connection searches.
use vstd::prelude::*;
use crate::text::{join_char, lemma_join_split, lemma_split_pieces_lack_separator, split_char, split_char_str, string_views};

verus! {

/// The schemas of a connection: the comma-separated entries of its search
/// path, or `public` when none is configured.
pub open spec fn schemas_spec(search_path: Option<Seq<char>>) -> Seq<Seq<char>> {
    match search_path {
        Some(sp) => split_char(sp, ','),
        None => seq!["public"@],
    }
}

/// Without a search path the connection searches `public` alone; with one,
/// the schemas are the comma-free runs of the search path that, joined with
/// commas, give it back.
pub proof fn law_schemas_of_search_path(sp: Seq<char>)
    ensures
        schemas_spec(None) == seq!["public"@],
        join_char(schemas_spec(Some(sp)), ',') == sp,
        forall|i: int| 0 <= i < schemas_spec(Some(sp)).len() ==> !(#[trigger] schemas_spec(Some(sp))[i]).contains(','),
{
    lemma_join_split(sp, ',');
    lemma_split_pieces_lack_separator(sp, ',');
}

/// The schemas that a connection with the given search path searches.
pub fn search_path_schemas(search_path: Option<String>) -> (r: Vec<String>)
    ensures
        string_views(r@) == schemas_spec(match search_path {
            Some(sp) => Some(sp@),
            None => None,
        }),
        search_path matches Some(sp) ==> join_char(string_views(r@), ',') == sp@,
{
    match search_path {
        Some(sp) => {
            let r = split_char_str(sp.as_str(), ',');
            proof { lemma_join_split(sp@, ','); }
            r
        },
        None => {
            let mut r: Vec<String> = Vec::new();
            r.push("public".to_owned());
            assert(string_views(r@) =~= seq!["public"@]);
            r
        },
    }
}

} // verus!

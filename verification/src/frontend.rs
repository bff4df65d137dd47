//! Paths of the embedded web viewer assets.
use vstd::prelude::*;
use crate::text::{join_path, path_join};

verus! {

/// The path of a QWC2 viewer asset: under `qwc2`, where an empty name asks
/// for `index.html`.
pub open spec fn qwc2_asset_spec(filename: Seq<char>) -> Seq<char> {
    join_path("qwc2"@, if filename.len() == 0 { "index.html"@ } else { filename })
}

/// Every asset lies under `qwc2/`, an empty name asks for
/// `qwc2/index.html`, and an absolute name is taken as it is.
pub proof fn law_qwc2_assets_under_qwc2(filename: Seq<char>)
    ensures
        filename.len() == 0 ==> qwc2_asset_spec(filename) == "qwc2/index.html"@,
        filename.len() > 0 && filename[0] != '/' ==> qwc2_asset_spec(filename) == "qwc2/"@ + filename,
        filename.len() > 0 && filename[0] == '/' ==> qwc2_asset_spec(filename) == filename,
{
    reveal_strlit("qwc2");
    reveal_strlit("index.html");
    reveal_strlit("qwc2/index.html");
    reveal_strlit("qwc2/");
    assert("qwc2"@ + seq!['/'] + "index.html"@ =~= "qwc2/index.html"@);
    assert("qwc2"@ + seq!['/'] + filename =~= "qwc2/"@ + filename);
}

/// The embedded path of the QWC2 viewer asset that a request names.
pub fn qwc2_assets(filename: &str) -> (r: String)
    ensures
        r@ == qwc2_asset_spec(filename@),
{
    if filename.unicode_len() == 0 {
        path_join("qwc2", "index.html")
    } else {
        path_join("qwc2", filename)
    }
}

} // verus!

use bbox::frontend::qwc2_assets;
use bbox::pg_ds::search_path_schemas;

#[test]
fn qwc2_asset_paths() {
    assert_eq!(qwc2_assets(""), "qwc2/index.html");
    assert_eq!(qwc2_assets("app.js"), "qwc2/app.js");
    assert_eq!(qwc2_assets("assets/img/a.png"), "qwc2/assets/img/a.png");
    assert_eq!(qwc2_assets("/abs"), "/abs");
}

#[test]
fn schemas_from_search_path() {
    assert_eq!(search_path_schemas(Some("a,b".to_string())), vec!["a".to_string(), "b".to_string()]);
    assert_eq!(search_path_schemas(Some("only".to_string())), vec!["only".to_string()]);
    assert_eq!(search_path_schemas(None), vec!["public".to_string()]);
    let sp = "x,,y";
    assert_eq!(search_path_schemas(Some(sp.to_string())).join(","), sp);
}

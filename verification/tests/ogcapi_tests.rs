use bbox::ogcapi::{interval_bound, CoreCollection, CoreExtent, CoreExtentSpatial, CoreExtentTemporal, STACType};

#[test]
fn temporal_extent_from_config() {
    let t = CoreExtentTemporal::try_from(vec![vec!["2019-01-01T00:00:00Z".to_string(), "".to_string()]]).unwrap();
    assert_eq!(t.interval, vec![vec![Some("2019-01-01T00:00:00Z".to_string()), None]]);
    assert_eq!(t.trs, None);
    let t = CoreExtentTemporal::try_from(vec![]).unwrap();
    assert!(t.interval.is_empty());
}

#[test]
fn invalid_datetime_is_refused() {
    let e = CoreExtentTemporal::try_from(vec![vec!["".to_string(), "yesterday".to_string()]]).unwrap_err();
    assert_eq!(e, "invalid datetime format");
    assert!(CoreExtentTemporal::try_from(vec![vec!["2019-13-01T00:00:00Z".to_string()]]).is_err());
}

#[test]
fn interval_bounds() {
    assert_eq!(interval_bound(&"".to_string(), false), Ok(None));
    assert_eq!(interval_bound(&"t".to_string(), true), Ok(Some("t".to_string())));
    assert_eq!(interval_bound(&"t".to_string(), false), Err("invalid datetime format"));
}

#[test]
fn collection_clone_keeps_content() {
    let c = CoreCollection {
        id: "a".to_string(),
        title: Some("A".to_string()),
        description: Some("d".to_string()),
        links: vec![],
        extent: Some(CoreExtent {
            spatial: Some(CoreExtentSpatial { bbox: vec![vec![(-180.0f64).to_bits(), 90.0f64.to_bits()]], crs: None }),
            temporal: Some(CoreExtentTemporal { interval: vec![vec![None]], trs: None }),
        }),
        item_type: None,
        crs: vec!["EPSG:4326".to_string()],
        stac_type: Some(STACType::Collection),
        stac_version: Some("1.0.0".to_string()),
        license: Some("proprietary".to_string()),
    };
    let d = c.clone();
    assert_eq!(d.id, "a");
    assert_eq!(d.crs, c.crs);
    assert_eq!(d.stac_type, Some(STACType::Collection));
    assert_eq!(d.license.as_deref(), Some("proprietary"));
    let e = d.extent.unwrap();
    assert_eq!(f64::from_bits(e.spatial.unwrap().bbox[0][0]), -180.0);
    assert_eq!(e.temporal.unwrap().interval, vec![vec![None]]);
}

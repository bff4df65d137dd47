use bbox::store::{
    CacheLayout, CacheStore, FileCache, FileStoreCfg, NoCache, S3Cache, S3StoreCfg, TileCache, TileCacheCfg, Xyz,
};

#[test]
fn zxy_layout_paths() {
    let t = Xyz { x: 1, y: 2, z: 3 };
    assert_eq!(CacheLayout::Zxy.path("/tiles", &t, "png"), "/tiles/3/1/2.png");
    assert_eq!(CacheLayout::Zxy.path("/tiles/", &t, "png"), "/tiles/3/1/2.png");
    assert_eq!(CacheLayout::Zxy.path("", &t, "mvt"), "3/1/2.mvt");
    assert_eq!(CacheLayout::Zxy.path("/tiles", &t, ""), "/tiles/3/1/2");
    assert_eq!(CacheLayout::Zxy.path_string("cache", &Xyz { x: 1024, y: 77, z: 12 }, "png"), "cache/12/1024/77.png");
}

#[test]
fn zxy_matches_pathbuf() {
    let t = Xyz { x: 5, y: 6, z: 7 };
    let mut p = std::path::PathBuf::from("base/dir");
    p.push(t.z.to_string());
    p.push(t.x.to_string());
    p.push(t.y.to_string());
    p.set_extension("pbf");
    assert_eq!(CacheLayout::Zxy.path("base/dir", &t, "pbf"), p.to_string_lossy());
}

#[test]
fn distinct_tiles_distinct_paths() {
    let a = CacheLayout::Zxy.path("t", &Xyz { x: 1, y: 11, z: 1 }, "png");
    let b = CacheLayout::Zxy.path("t", &Xyz { x: 11, y: 1, z: 1 }, "png");
    assert_ne!(a, b);
}

#[test]
fn caches_from_config() {
    let c = TileCache::from_config(&TileCacheCfg::Files(FileStoreCfg { base_dir: "/data/tiles".to_string() }), "osm");
    match &c {
        TileCache::Files(f) => assert_eq!(f.base_dir, "/data/tiles/osm"),
        _ => panic!("expected a file cache"),
    }
    assert!(matches!(c.write(), CacheStore::Files(_)));
    let c = TileCache::from_config(&TileCacheCfg::S3(S3StoreCfg { path: "s3://tiles".to_string() }), "osm");
    match &c {
        TileCache::S3(s) => assert_eq!(s.bucket, "tiles"),
        _ => panic!("expected an s3 cache"),
    }
    assert!(matches!(c.read(), CacheStore::S3(_)));
    assert!(matches!(TileCache::NoCache.write(), CacheStore::NoCache(_)));
    assert_eq!(FileCache::from_config(&FileStoreCfg { base_dir: "d/".to_string() }, "x").base_dir, "d/x");
}

#[test]
fn s3_paths() {
    assert!(S3Cache::from_config(&S3StoreCfg { path: "s3://a/b".to_string() }).is_err());
    assert!(S3Cache::from_config(&S3StoreCfg { path: "http://a".to_string() }).is_err());
    assert!(S3Cache::from_config(&S3StoreCfg { path: "s3:/".to_string() }).is_err());
    assert_eq!(S3Cache::from_config(&S3StoreCfg { path: "s3://b".to_string() }).unwrap().bucket, "b");
}

#[test]
fn no_cache_finds_nothing() {
    assert!(!NoCache.tile_exists("0/0/0.png"));
}

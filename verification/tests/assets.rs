use veltrix::assets::cache::AssetCache;
use veltrix::assets::handle::AssetId;

struct Texture {
    width: u32,
}

#[test]
fn cache_insert_and_get() {
    let mut cache = AssetCache::new();
    let id = AssetId(1);
    cache.insert(id, Texture { width: 1024 });

    let tex = cache.get::<Texture>(id).unwrap();
    assert_eq!(tex.width, 1024);
}

use veltrix::assets::cache::AssetCache;
use veltrix::assets::handle::{AssetId, Handle};
use veltrix::assets::server::{Asset, AssetServer, LoadStep};

#[derive(Debug, PartialEq)]
struct Text(String, String);

impl Asset for Text {
    fn load(bytes: &[u8], ext: &str) -> Result<Self, anyhow::Error> {
        let s = std::str::from_utf8(bytes)?;
        Ok(Text(s.to_string(), ext.to_string()))
    }
}

#[test]
fn handles_keep_their_id() {
    let h: Handle<u8> = Handle::new(AssetId(4));
    let copy = h;
    assert_eq!(copy.id(), AssetId(4));
    assert_eq!(h.untyped().typed::<u8>(), h);
    assert_eq!(h.untyped().id(), AssetId(4));
    assert_ne!(h, Handle::new(AssetId(5)));
}

#[test]
fn cache_types_are_separate() {
    let mut cache = AssetCache::new();
    cache.insert(AssetId(1), 10_u32);
    cache.insert(AssetId(1), "ten");
    assert_eq!(cache.get::<u32>(AssetId(1)), Some(&10));
    *cache.get_mut::<u32>(AssetId(1)).unwrap() = 11;
    assert_eq!(cache.remove::<u32>(AssetId(1)), Some(11));
    assert_eq!(cache.get::<u32>(AssetId(1)), None);
    assert_eq!(cache.get::<&str>(AssetId(1)), Some(&"ten"));
    cache.clear::<&str>();
    assert_eq!(cache.get::<&str>(AssetId(1)), None);
}

#[test]
fn server_hands_out_fresh_ids() {
    let mut server = AssetServer::new("assets");
    assert_eq!(server.root(), "assets");
    assert!(server.has_free_id());
    let a = server.add(1_u8);
    let b = server.add(2_u8);
    assert_eq!(a.id(), AssetId(1));
    assert_eq!(b.id(), AssetId(2));
    assert_eq!(server.with_asset(&b, |v| *v + 1), Some(3));
    assert_eq!(server.with_asset_mut(&a, |v| { *v = 7; *v }), Some(7));
    assert_eq!(server.with_asset(&a, |v| *v), Some(7));
    assert_eq!(server.with_asset(&Handle::<u8>::new(AssetId(9)), |v| *v), None);
}

#[test]
fn server_loads_embedded_bytes_once() {
    let mut server = AssetServer::new("assets");
    assert!(matches!(server.begin_load::<Text>("intro.txt"), LoadStep::NeedsDisk));
    server.embed_asset("intro.txt", b"hello".to_vec());
    let bytes = match server.begin_load::<Text>("intro.txt") {
        LoadStep::Embedded(b) => b,
        _ => panic!("expected embedded bytes"),
    };
    let h = server.finish_load::<Text>("intro.txt", &bytes).unwrap();
    assert_eq!(server.with_asset(&h, |t| t.clone_parts()), Some(("hello".to_string(), "txt".to_string())));
    match server.begin_load::<Text>("intro.txt") {
        LoadStep::Cached(again) => assert_eq!(again, h),
        _ => panic!("expected the cached handle"),
    }
    assert!(server.finish_load::<Text>("bad.txt", &[0xff, 0xfe]).is_err());
    assert!(matches!(server.begin_load::<Text>("bad.txt"), LoadStep::NeedsDisk));
}

trait CloneParts {
    fn clone_parts(&self) -> (String, String);
}

impl CloneParts for Text {
    fn clone_parts(&self) -> (String, String) {
        (self.0.clone(), self.1.clone())
    }
}

#[test]
fn paths_compare_as_paths() {
    let mut server = AssetServer::new("assets");
    server.embed_asset("dir/intro.txt", b"hi".to_vec());
    let bytes = match server.begin_load::<Text>("dir//intro.txt") {
        LoadStep::Embedded(b) => b,
        _ => panic!("expected embedded bytes"),
    };
    let h = server.finish_load::<Text>("dir/./intro.txt", &bytes).unwrap();
    match server.begin_load::<Text>("dir/intro.txt") {
        LoadStep::Cached(again) => assert_eq!(again, h),
        _ => panic!("expected the cached handle"),
    }
}

#[test]
fn store_parsed_caches_or_passes_the_error_on() {
    let mut server = AssetServer::new("assets");
    let h = server.store_parsed("a.txt", Ok(5_u32)).unwrap();
    assert_eq!(h.id(), AssetId(1));
    assert_eq!(server.with_asset(&h, |v| *v), Some(5));
    let err = server.store_parsed::<u32>("b.txt", Err(anyhow::Error::msg("bad"))).unwrap_err();
    assert_eq!(err.to_string(), "bad");
    assert!(matches!(server.begin_load::<u32>("b.txt"), LoadStep::NeedsDisk));
    assert_eq!(server.add(1_u8).id(), AssetId(2));
}

#[test]
fn a_path_without_extension_parses_with_an_empty_one() {
    let mut server = AssetServer::new("assets");
    let h = server.finish_load::<Text>("README", b"plain").unwrap();
    assert_eq!(server.with_asset(&h, |t| t.clone_parts()), Some(("plain".to_string(), "".to_string())));
}

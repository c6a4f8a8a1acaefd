use space_game::asset::{Asset, AssetMetadata, AssetStore};
use space_game::asset_id::AssetId;
use space_game::components::{LightType, MeshComponent, LIGHT_TYPE_COUNT};
use space_game::id::Id;
use space_game::pool::{Handle, Pool};
use space_game::render_cache::{RenderCache, RenderMesh};
use space_game::text::{decimal_text, push_decimal, push_last_segment};
use std::cmp::Ordering;

struct Mesh;

#[test]
fn id_keeps_its_number() {
    assert_eq!(Id::from_u64(17).value(), 17);
    assert_eq!(Id::from_u64(0), Id::default());
    assert_eq!(Id::empty().value(), u64::MAX);
    assert!(Id::empty().is_empty());
    assert!(!Id::from_u64(3).is_empty());
    assert_eq!(Id::from_u64(5), Id::from_u64(5));
    assert_ne!(Id::from_u64(5), Id::from_u64(6));
    assert!(Id::from_u64(5) < Id::from_u64(6));
}

#[test]
fn id_is_shown_as_its_number_or_as_empty() {
    assert_eq!(Id::from_u64(0).to_text(), "0");
    assert_eq!(Id::from_u64(9).to_text(), "9");
    assert_eq!(Id::from_u64(10).to_text(), "10");
    assert_eq!(Id::from_u64(1234567890).to_text(), "1234567890");
    assert_eq!(Id::from_u64(u64::MAX - 1).to_text(), "18446744073709551614");
    assert_eq!(Id::empty().to_text(), "empty");
}

#[test]
fn random_ids_differ() {
    let ids: Vec<Id> = (0..8).map(|_| Id::new()).collect();
    let first = ids[0];
    assert!(ids.iter().any(|id| *id != first));
}

#[test]
fn decimal_text_of_numbers() {
    assert_eq!(decimal_text(0), "0");
    assert_eq!(decimal_text(7), "7");
    assert_eq!(decimal_text(100), "100");
    assert_eq!(decimal_text(9_007_199_254_740_993), "9007199254740993");
    assert_eq!(decimal_text(u64::MAX), "18446744073709551615");
    let mut text = String::from("n=");
    push_decimal(&mut text, 42);
    assert_eq!(text, "n=42");
}

#[test]
fn last_segment_of_a_path() {
    let last = |path: &str| {
        let mut text = String::new();
        push_last_segment(&mut text, path);
        text
    };
    assert_eq!(last("space_game::rendering::Mesh"), "Mesh");
    assert_eq!(last("Mesh"), "Mesh");
    assert_eq!(last(""), "");
    assert_eq!(last("a::"), "");
    assert_eq!(last("::a"), "a");
    assert_eq!(last("a:b"), "a:b");
    assert_eq!(last("a:::b"), ":b");
    assert_eq!(last("a::b::"), "");
    assert_eq!(last("größe::maß"), "maß");
    for path in ["alloc::vec::Vec<u8>", "a::b::c", ":::", "::::", "a:", ":", "x::y:z"] {
        assert_eq!(last(path), path.split("::").last().unwrap());
    }
}

#[test]
fn asset_id_compares_by_number() {
    let three: AssetId<Mesh> = AssetId::from_id(Id::from_u64(3));
    let four: AssetId<Mesh> = AssetId::from_id(Id::from_u64(4));
    let copy = three;
    assert!(three == copy);
    assert!(three != four);
    assert_eq!(three.partial_cmp(&four), Some(Ordering::Less));
    assert_eq!(four.partial_cmp(&three), Some(Ordering::Greater));
    assert_eq!(three.partial_cmp(&copy), Some(Ordering::Equal));
    assert!(three < four);
    assert_eq!(three.id(), Id::from_u64(3));
    assert_eq!(three.clone().id().value(), 3);
    assert_eq!(AssetId::<Mesh>::empty().id(), Id::empty());
    assert_eq!(AssetId::<Mesh>::default().id().value(), 0);
    assert_eq!(three.to_text(), "3");
    assert_eq!(AssetId::<Mesh>::empty().to_text(), "empty");
}

#[test]
fn asset_gets_its_name_or_a_default_name() {
    let id: AssetId<i32> = AssetId::from_id(Id::from_u64(77));
    let named = Asset::with_id(
        id,
        5,
        AssetMetadata { name: Some(String::from("five")) },
        "space_game::rendering::Mesh",
    );
    assert_eq!(named.metadata().name, Some(String::from("five")));
    assert_eq!(*named.asset(), 5);
    assert!(named.id() == id);
    let unnamed = Asset::with_id(id, 6, AssetMetadata::default(), "space_game::rendering::Mesh");
    assert_eq!(unnamed.metadata().name, Some(String::from("Mesh_77")));
    let empty = Asset::with_id(AssetId::empty(), 6, AssetMetadata { name: None }, "Texture");
    assert_eq!(empty.metadata().name, Some(String::from("Texture_18446744073709551615")));
    let random = Asset::new(7, AssetMetadata::default(), "a::Model");
    let expected = format!("Model_{}", random.id().id().value());
    assert_eq!(random.metadata().name, Some(expected));
    assert_eq!(*random.asset(), 7);
}

#[test]
fn asset_is_changed_in_place() {
    let id: AssetId<i32> = AssetId::from_id(Id::from_u64(1));
    let mut asset = Asset::with_id(id, 5, AssetMetadata::default(), "i32");
    *asset.asset_mut() += 1;
    assert_eq!(*asset.asset(), 6);
    asset.rename(String::from("six"));
    assert_eq!(asset.metadata().name, Some(String::from("six")));
    assert!(asset.id() == id);
}

#[test]
fn asset_store_adds_finds_and_removes() {
    let mut store: AssetStore<i32> = AssetStore::new();
    assert_eq!(store.len(), 0);
    assert!(store.get_at_index(0).is_none());
    let first = store.add(10, AssetMetadata::default(), "i32").id();
    let second = {
        let added = store.add(20, AssetMetadata { name: Some(String::from("twenty")) }, "i32");
        *added.asset_mut() += 1;
        added.id()
    };
    let third = store.add(30, AssetMetadata::default(), "i32").id();
    assert_eq!(store.len(), 3);
    assert_eq!(*store.get_at_index(1).unwrap().asset(), 21);
    assert_eq!(store.get_at_index(1).unwrap().metadata().name, Some(String::from("twenty")));
    assert!(store.get_at_index(3).is_none());
    assert_eq!(*store.get(&first).unwrap().asset(), 10);
    assert_eq!(*store.get(&second).unwrap().asset(), 21);
    assert_eq!(
        store.get(&first).unwrap().metadata().name,
        Some(format!("i32_{}", first.id().value()))
    );
    let contents: Vec<i32> = store.iter().map(|asset| *asset.asset()).collect();
    assert_eq!(contents, vec![10, 21, 30]);
    store.remove_at_index(0);
    assert_eq!(store.len(), 2);
    assert_eq!(*store.get_at_index(0).unwrap().asset(), 21);
    assert_eq!(*store.get_at_index(1).unwrap().asset(), 30);
    assert!(store.get(&third).is_some());
    if first != second && first != third {
        assert!(store.get(&first).is_none());
    }
    assert_eq!(AssetStore::<i32>::default().len(), 0);
}

#[test]
fn pool_finds_objects_by_handle() {
    let mut pool: Pool<String> = Pool::new();
    let first = pool.add(String::from("first"));
    let second = pool.add(String::from("second"));
    assert_eq!((first.index, first.generation), (0, 0));
    assert_eq!((second.index, second.generation), (1, 0));
    assert_eq!(pool.get(&first), Some(&String::from("first")));
    assert_eq!(pool.get(&second), Some(&String::from("second")));
    let copy = second;
    pool.get_mut(&copy).unwrap().push_str(" changed");
    assert_eq!(pool.get(&second), Some(&String::from("second changed")));
    assert_eq!(pool.get(&first), Some(&String::from("first")));
    let mut stale = first.clone();
    stale.generation = 1;
    assert_eq!(pool.get(&stale), None);
    assert!(pool.get_mut(&stale).is_none());
    let mut beyond = first;
    beyond.index = 2;
    assert_eq!(pool.get(&beyond), None);
    assert!(pool.get_mut(&beyond).is_none());
}

#[test]
fn empty_handle_names_nothing() {
    let empty: Handle<String> = Handle::empty();
    assert_eq!(empty.index, usize::MAX);
    assert_eq!(empty.generation, usize::MAX);
    let default: Handle<String> = Handle::default();
    assert_eq!((default.index, default.generation), (usize::MAX, usize::MAX));
    let mut pool: Pool<String> = Pool::default();
    assert_eq!(pool.get(&empty), None);
    pool.add(String::from("first"));
    assert_eq!(pool.get(&empty), None);
    assert!(pool.get_mut(&empty).is_none());
}

#[test]
fn light_types_have_numbers_and_names() {
    let kinds = [LightType::DirectionalLight, LightType::PointLight, LightType::SpotLight];
    let names = ["DirectionalLight", "PointLight", "SpotLight"];
    assert_eq!(LIGHT_TYPE_COUNT, 3);
    for (index, kind) in kinds.into_iter().enumerate() {
        assert_eq!(kind.index(), index as i32);
        assert_eq!(LightType::from_index(index as i32), Some(kind));
        assert_eq!(kind.name(), names[index]);
    }
    assert_eq!(LightType::from_index(3), None);
    assert_eq!(LightType::from_index(-1), None);
    assert!(!LightType::DirectionalLight.has_falloff_radius());
    assert!(LightType::PointLight.has_falloff_radius());
    assert!(LightType::SpotLight.has_falloff_radius());
    assert!(!LightType::DirectionalLight.has_cone_angles());
    assert!(!LightType::PointLight.has_cone_angles());
    assert!(LightType::SpotLight.has_cone_angles());
}

#[test]
fn mesh_component_refers_to_mesh_zero_by_default() {
    let component: MeshComponent<Mesh> = MeshComponent::default();
    assert_eq!(component.mesh_id.id().value(), 0);
}

#[test]
fn render_cache_puts_down_what_is_asked_for_in_vain() {
    let mut cache: RenderCache<Mesh, &'static str> = RenderCache::new();
    let one: AssetId<Mesh> = AssetId::from_id(Id::from_u64(1));
    let two: AssetId<Mesh> = AssetId::from_id(Id::from_u64(2));
    let empty: AssetId<Mesh> = AssetId::empty();
    assert_eq!(cache.get(&one), None);
    assert!(!cache.request(&empty));
    assert_eq!(cache.missing_count(), 0);
    assert!(!cache.request(&one));
    assert!(!cache.request(&two));
    assert!(!cache.request(&one));
    assert_eq!(cache.missing_count(), 3);
    cache.insert(&one, "first");
    assert!(cache.request(&one));
    assert_eq!(cache.missing_count(), 3);
    assert_eq!(cache.get(&one), Some(&"first"));
    assert_eq!(cache.get(&two), None);
    assert_eq!(cache.get(&empty), None);
    assert!(cache.next_missing().unwrap() == one);
    assert!(cache.next_missing().unwrap() == two);
    assert!(cache.next_missing().unwrap() == one);
    assert!(cache.next_missing().is_none());
    cache.insert(&one, "second");
    assert_eq!(cache.get(&one), Some(&"second"));
    cache.insert(&empty, "never found");
    assert_eq!(cache.get(&empty), None);
    assert!(!cache.request(&empty));
    assert_eq!(cache.missing_count(), 0);
}

#[test]
fn render_mesh_begins_at_the_start_of_its_buffers() {
    let mut pool: Pool<String> = Pool::new();
    let vertices = pool.add(String::from("vertices"));
    let indices = pool.add(String::from("indices"));
    let mesh = RenderMesh::new(vertices, 8, indices, 36);
    assert_eq!((mesh.vertex_offset, mesh.vertex_count), (0, 8));
    assert_eq!((mesh.index_offset, mesh.index_count), (0, 36));
    assert_eq!(pool.get(&mesh.vertex_buffer_handle), Some(&String::from("vertices")));
    assert_eq!(pool.get(&mesh.index_buffer_handle), Some(&String::from("indices")));
}

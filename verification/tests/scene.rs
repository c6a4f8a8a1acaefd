use space_game::id::Id;
use space_game::scene::{copy_ids, find_id, Scene, SceneObject};

fn id(number: u64) -> Id {
    Id::from_u64(number)
}

fn ids(numbers: &[u64]) -> Vec<Id> {
    numbers.iter().map(|number| id(*number)).collect()
}

/// A scene with the objects 1 to `count`, each carrying its number times ten.
fn scene_of(count: u64) -> Scene<u64> {
    let mut scene: Scene<u64> = Scene::new();
    for number in 1..=count {
        scene.add_scene_object_with_id(id(number), number * 10);
    }
    scene
}

fn order(scene: &Scene<u64>) -> Vec<u64> {
    scene.scene_objects.iter().map(|object| object.id().value()).collect()
}

fn children(scene: &Scene<u64>, parent: u64) -> Vec<u64> {
    scene.get(id(parent)).unwrap().children.iter().map(|child| child.value()).collect()
}

fn parent(scene: &Scene<u64>, child: u64) -> Id {
    scene.get(id(child)).unwrap().parent_id
}

#[test]
fn new_object_stands_at_the_top() {
    let object = SceneObject::new(id(4), 40u64);
    assert_eq!(object.name, "Scene object");
    assert_eq!(object.id(), id(4));
    assert_eq!(object.parent_id, Id::empty());
    assert!(object.children.is_empty());
    assert_eq!(object.components, 40);
}

#[test]
fn objects_are_added_and_found() {
    let mut scene = scene_of(3);
    assert_eq!(scene.camera_scene_object_id, id(0));
    assert_eq!(scene.sun_scene_object_id, id(0));
    assert_eq!(order(&scene), vec![1, 2, 3]);
    assert_eq!(scene.find(id(2)), Some(1));
    assert_eq!(scene.find(id(4)), None);
    assert!(scene.contains(id(3)));
    assert!(!scene.contains(Id::empty()));
    assert_eq!(scene.get(id(2)).unwrap().components, 20);
    assert!(scene.get(id(9)).is_none());
    scene.get_mut(id(2)).unwrap().components = 21;
    scene.get_mut(id(2)).unwrap().name = String::from("second");
    assert!(scene.get_mut(id(9)).is_none());
    assert_eq!(scene.get(id(2)).unwrap().components, 21);
    assert_eq!(scene.get(id(2)).unwrap().name, "second");
    assert_eq!(scene.get(id(1)).unwrap().components, 10);
    let added = scene.add_scene_object(50);
    added.name = String::from("random");
    let random = added.id();
    assert_eq!(scene.scene_objects.len(), 4);
    assert_eq!(scene.scene_objects[3].id(), random);
    assert_eq!(scene.scene_objects[3].name, "random");
    assert_eq!(scene.scene_objects[3].parent_id, Id::empty());
}

#[test]
fn first_of_two_objects_with_one_identifier_is_found() {
    let mut scene = scene_of(2);
    scene.add_scene_object_with_id(id(1), 99);
    assert_eq!(scene.find(id(1)), Some(0));
    assert_eq!(scene.get(id(1)).unwrap().components, 10);
}

#[test]
fn reparent_moves_a_child_between_parents() {
    let mut scene = scene_of(4);
    assert!(scene.can_reparent(id(2), id(1)));
    scene.reparent(id(2), id(1));
    scene.reparent(id(3), id(1));
    scene.reparent(id(4), id(1));
    assert_eq!(children(&scene, 1), vec![2, 3, 4]);
    assert_eq!(parent(&scene, 2), id(1));
    // The last child takes the place of the one that leaves.
    assert!(scene.can_reparent(id(2), id(3)));
    scene.reparent(id(2), id(3));
    assert_eq!(children(&scene, 1), vec![4, 3]);
    assert_eq!(children(&scene, 3), vec![2]);
    assert_eq!(parent(&scene, 2), id(3));
    // To the top of the hierarchy.
    assert!(scene.can_reparent(id(2), Id::empty()));
    scene.reparent(id(2), Id::empty());
    assert_eq!(children(&scene, 3), Vec::<u64>::new());
    assert_eq!(parent(&scene, 2), Id::empty());
    assert_eq!(order(&scene), vec![1, 2, 3, 4]);
}

#[test]
fn reparent_is_refused_where_it_would_fail() {
    let mut scene = scene_of(3);
    assert!(!scene.can_reparent(id(9), id(1)));
    assert!(!scene.can_reparent(id(2), id(9)));
    assert!(scene.can_reparent(id(2), Id::empty()));
    // The parent that the child names does not list it.
    scene.get_mut(id(2)).unwrap().parent_id = id(1);
    assert!(!scene.can_reparent(id(2), id(3)));
    // The parent that the child names is not there.
    scene.get_mut(id(2)).unwrap().parent_id = id(9);
    assert!(!scene.can_reparent(id(2), id(3)));
}

#[test]
fn child_is_removed_from_the_list_of_its_parent() {
    let mut scene = scene_of(4);
    scene.reparent(id(2), id(1));
    scene.reparent(id(3), id(1));
    scene.reparent(id(4), id(1));
    scene.remove_child(id(1), id(2));
    assert_eq!(children(&scene, 1), vec![4, 3]);
    assert!(scene.detach_child(id(1), id(3)));
    assert_eq!(children(&scene, 1), vec![4]);
    assert!(!scene.detach_child(id(1), id(3)));
    assert!(!scene.detach_child(id(9), id(4)));
    assert_eq!(children(&scene, 1), vec![4]);
    assert!(scene.detach_child(id(1), id(4)));
    assert_eq!(children(&scene, 1), Vec::<u64>::new());
}

/// 1 is above 2 and 3; 2 is above 4 and 5; 6 and 7 are at the top.
fn tree() -> Scene<u64> {
    let mut scene = scene_of(7);
    scene.reparent(id(2), id(1));
    scene.reparent(id(3), id(1));
    scene.reparent(id(4), id(2));
    scene.reparent(id(5), id(2));
    scene
}

#[test]
fn removing_an_object_removes_all_below_it() {
    let mut scene = tree();
    scene.remove_scene_object(id(2));
    // 4 leaves first and 7 takes its place, then 5 and 6 takes its place,
    // then 2, whose place 6 takes.
    assert_eq!(order(&scene), vec![1, 6, 3, 7]);
    assert_eq!(children(&scene, 1), vec![3]);
    assert_eq!(scene.get(id(7)).unwrap().components, 70);
    // The object and all below it are gone; every other object is as it was
    // but for the list of the parent.
    for gone in [2, 4, 5] {
        assert!(!scene.contains(id(gone)));
    }
    let before = tree();
    for kept in [1, 3, 6, 7] {
        let was = before.get(id(kept)).unwrap();
        let is = scene.get(id(kept)).unwrap();
        assert_eq!((&is.name, is.id, is.parent_id, is.components), (&was.name, was.id, was.parent_id, was.components));
        if kept != 1 {
            assert_eq!(is.children, was.children);
        }
    }
    let mut scene = tree();
    scene.remove_scene_object(id(1));
    // After 2 and all below it are gone, 3 leaves [1, 6, 3, 7] and 7 takes its
    // place, then 1 leaves [1, 6, 7] and 7 takes its place.
    assert_eq!(order(&scene), vec![7, 6]);
    let mut scene = tree();
    scene.remove_scene_object(id(7));
    assert_eq!(order(&scene), vec![1, 2, 3, 4, 5, 6]);
    let mut scene = tree();
    scene.remove_scene_object(id(4));
    assert_eq!(order(&scene), vec![1, 2, 3, 7, 5, 6]);
    assert_eq!(children(&scene, 2), vec![5]);
}

#[test]
fn removal_stops_where_the_hierarchy_is_broken() {
    let mut scene = tree();
    assert!(!scene.try_remove_scene_object(id(9), 7));
    assert_eq!(order(&scene), vec![1, 2, 3, 4, 5, 6, 7]);
    // Deeper than the budget allows.
    assert!(!scene.try_remove_scene_object(id(1), 2));
    let mut scene = tree();
    assert!(!scene.try_remove_scene_object(id(1), 0));
    assert!(scene.try_remove_scene_object(id(1), 3));
    assert_eq!(order(&scene), vec![7, 6]);
    // A child that is listed but not there.
    let mut scene = tree();
    scene.get_mut(id(3)).unwrap().children.push(id(9));
    assert!(!scene.try_remove_scene_object(id(3), 7));
    // An object that names itself as its child, in a circle.
    let mut scene = scene_of(2);
    scene.get_mut(id(1)).unwrap().children.push(id(1));
    assert!(!scene.try_remove_scene_object(id(1), 2));
}

#[test]
fn ancestors_are_listed_from_the_parent_to_the_top() {
    let scene = tree();
    assert_eq!(scene.ancestors(0), Some(vec![]));
    assert_eq!(scene.ancestors(1), Some(vec![0]));
    assert_eq!(scene.ancestors(3), Some(vec![1, 0]));
    assert_eq!(scene.ancestors(4), Some(vec![1, 0]));
    assert_eq!(scene.ancestors(6), Some(vec![]));
    let mut broken = tree();
    broken.get_mut(id(1)).unwrap().parent_id = id(9);
    assert_eq!(broken.ancestors(3), None);
    let mut circle = tree();
    circle.get_mut(id(1)).unwrap().parent_id = id(4);
    assert_eq!(circle.ancestors(3), None);
    assert_eq!(circle.ancestors(6), Some(vec![]));
}

#[test]
fn identifiers_are_found_and_copied() {
    let list = ids(&[5, 6, 5, 7]);
    assert_eq!(find_id(&list, id(5)), Some(0));
    assert_eq!(find_id(&list, id(7)), Some(3));
    assert_eq!(find_id(&list, id(8)), None);
    assert_eq!(find_id(&Vec::new(), id(8)), None);
    assert_eq!(copy_ids(&list), list);
    assert_eq!(copy_ids(&Vec::new()), Vec::<Id>::new());
}

//! The scene: its objects and the hierarchy among them.

use vstd::prelude::*;
use crate::id::{lemma_id_from_number, lemma_id_is_its_number, Id};

verus! {

/// The identifier of a scene object.
pub type SceneObjectId = Id;

/// One object of the scene.  `C` holds what the object carries besides its
/// place in the hierarchy.
#[derive(Debug)]
pub struct SceneObject<C> {
    /// The name under which the object is shown.
    pub name: String,
    /// The identifier of the object.
    pub id: SceneObjectId,
    /// The identifier of the parent, or the empty identifier at the top.
    pub parent_id: SceneObjectId,
    /// The identifiers of the children.
    pub children: Vec<SceneObjectId>,
    /// What the object carries.
    pub components: C,
}

/// What is to be known of a scene object.
pub struct ObjectView<C> {
    pub name: Seq<char>,
    pub id: SceneObjectId,
    pub parent_id: SceneObjectId,
    pub children: Seq<SceneObjectId>,
    pub components: C,
}

impl<C> View for SceneObject<C> {
    type V = ObjectView<C>;

    open spec fn view(&self) -> ObjectView<C> {
        ObjectView {
            name: self.name@,
            id: self.id,
            parent_id: self.parent_id,
            children: self.children@,
            components: self.components,
        }
    }
}

impl<C> SceneObject<C> {
    /// An object at the top of the hierarchy, without children, with the name
    /// `Scene object`.
    pub fn new(id: SceneObjectId, components: C) -> (object: SceneObject<C>)
        ensures
            object@ == fresh_object(id, components),
    {
        SceneObject {
            name: "Scene object".to_owned(),
            id,
            parent_id: Id::empty(),
            children: Vec::new(),
            components,
        }
    }

    /// The identifier of the object.
    pub fn id(&self) -> (id: SceneObjectId)
        ensures
            id == self@.id,
    {
        self.id
    }
}

/// The object that `SceneObject::new` makes: at the top of the hierarchy,
/// without children, with the name `Scene object`.
pub open spec fn fresh_object<C>(id: SceneObjectId, components: C) -> ObjectView<C> {
    ObjectView {
        name: "Scene object"@,
        id,
        parent_id: empty_id(),
        children: Seq::<SceneObjectId>::empty(),
        components,
    }
}

/// The identifier that stands for "no object".
pub open spec fn empty_id() -> SceneObjectId {
    Id::spec_from_u64(u64::MAX)
}

/// The empty identifier is the one whose number is the largest.
pub proof fn lemma_empty_id(id: SceneObjectId)
    ensures
        id == empty_id() <==> id@ == u64::MAX,
{
    lemma_id_from_number(u64::MAX);
    lemma_id_is_its_number(id, empty_id());
}

/// The position of the first object with the given identifier, if there is
/// one.
pub open spec fn position_of<C>(objects: Seq<ObjectView<C>>, id: SceneObjectId) -> Option<int>
    decreases objects.len(),
{
    if objects.len() == 0 {
        None
    } else {
        match position_of(objects.drop_last(), id) {
            Some(position) => Some(position),
            None => if objects.last().id == id {
                Some(objects.len() - 1)
            } else {
                None
            },
        }
    }
}

/// The position of the first occurrence of an identifier among others, if
/// there is one.
pub open spec fn index_of(ids: Seq<SceneObjectId>, id: SceneObjectId) -> Option<int>
    decreases ids.len(),
{
    if ids.len() == 0 {
        None
    } else {
        match index_of(ids.drop_last(), id) {
            Some(position) => Some(position),
            None => if ids.last() == id {
                Some(ids.len() - 1)
            } else {
                None
            },
        }
    }
}

/// A sequence without the element at a position, whose place the last
/// element takes.
pub open spec fn swap_removed<T>(items: Seq<T>, position: int) -> Seq<T> {
    items.update(position, items.last()).drop_last()
}

/// What `position_of` finds is the first object with the identifier, and it
/// finds none only where there is none.
pub proof fn lemma_position_of<C>(objects: Seq<ObjectView<C>>, id: SceneObjectId)
    ensures
        match position_of(objects, id) {
            Some(position) => {
                &&& 0 <= position < objects.len()
                &&& objects[position].id == id
                &&& forall|earlier: int|
                    0 <= earlier < position ==> (#[trigger] objects[earlier]).id != id
            },
            None => forall|any: int| 0 <= any < objects.len() ==> (#[trigger] objects[any]).id != id,
        },
    decreases objects.len(),
{
    if objects.len() > 0 {
        lemma_position_of(objects.drop_last(), id);
        match position_of(objects.drop_last(), id) {
            Some(position) => {
                assert(objects.drop_last()[position] == objects[position]);
                assert forall|earlier: int| 0 <= earlier < position implies (#[trigger] objects[earlier]).id
                    != id by {
                    assert(objects.drop_last()[earlier] == objects[earlier]);
                }
            },
            None => {
                assert forall|any: int| 0 <= any < objects.len() - 1 implies (#[trigger] objects[any]).id
                    != id by {
                    assert(objects.drop_last()[any] == objects[any]);
                }
            },
        }
    }
}

/// What `index_of` finds is the first occurrence of the identifier, and it
/// finds none only where there is none.
pub proof fn lemma_index_of(ids: Seq<SceneObjectId>, id: SceneObjectId)
    ensures
        match index_of(ids, id) {
            Some(position) => {
                &&& 0 <= position < ids.len()
                &&& ids[position] == id
                &&& forall|earlier: int| 0 <= earlier < position ==> #[trigger] ids[earlier] != id
            },
            None => forall|any: int| 0 <= any < ids.len() ==> #[trigger] ids[any] != id,
        },
    decreases ids.len(),
{
    if ids.len() > 0 {
        lemma_index_of(ids.drop_last(), id);
        match index_of(ids.drop_last(), id) {
            Some(position) => {
                assert(ids.drop_last()[position] == ids[position]);
                assert forall|earlier: int| 0 <= earlier < position implies #[trigger] ids[earlier]
                    != id by {
                    assert(ids.drop_last()[earlier] == ids[earlier]);
                }
            },
            None => {
                assert forall|any: int| 0 <= any < ids.len() - 1 implies #[trigger] ids[any] != id by {
                    assert(ids.drop_last()[any] == ids[any]);
                }
            },
        }
    }
}

/// The position of the first occurrence of an identifier among others.
pub fn find_id(ids: &Vec<SceneObjectId>, id: SceneObjectId) -> (found: Option<usize>)
    ensures
        found is Some <==> index_of(ids@, id) is Some,
        found matches Some(position) ==> index_of(ids@, id) == Some(position as int),
{
    let mut position: usize = 0;
    while position < ids.len()
        invariant
            position <= ids@.len(),
            forall|earlier: int| 0 <= earlier < position ==> #[trigger] ids@[earlier] != id,
        decreases ids@.len() - position,
    {
        if ids[position] == id {
            proof {
                lemma_index_of(ids@, id);
            }
            return Some(position);
        }
        position = position + 1;
    }
    proof {
        lemma_index_of(ids@, id);
    }
    None
}

/// An object with other children.
pub open spec fn with_children<C>(object: ObjectView<C>, children: Seq<SceneObjectId>) -> ObjectView<
    C,
> {
    ObjectView {
        name: object.name,
        id: object.id,
        parent_id: object.parent_id,
        children,
        components: object.components,
    }
}

/// An object with another parent.
pub open spec fn with_parent<C>(object: ObjectView<C>, parent_id: SceneObjectId) -> ObjectView<C> {
    ObjectView {
        name: object.name,
        id: object.id,
        parent_id,
        children: object.children,
        components: object.components,
    }
}

/// The objects with the child removed from the list of children of the
/// parent: the last child takes its place.  `None` where the parent is not
/// there or does not list the child.
pub open spec fn without_child<C>(
    objects: Seq<ObjectView<C>>,
    parent_id: SceneObjectId,
    child_id: SceneObjectId,
) -> Option<Seq<ObjectView<C>>> {
    match position_of(objects, parent_id) {
        None => None,
        Some(parent) => match index_of(objects[parent].children, child_id) {
            None => None,
            Some(child) => Some(
                objects.update(
                    parent,
                    with_children(objects[parent], swap_removed(objects[parent].children, child)),
                ),
            ),
        },
    }
}

/// The objects with one more child at the end of the list of children of
/// the parent.  `None` where the parent is not there.
pub open spec fn with_child<C>(
    objects: Seq<ObjectView<C>>,
    parent_id: SceneObjectId,
    child_id: SceneObjectId,
) -> Option<Seq<ObjectView<C>>> {
    match position_of(objects, parent_id) {
        None => None,
        Some(parent) => Some(
            objects.update(
                parent,
                with_children(objects[parent], objects[parent].children.push(child_id)),
            ),
        ),
    }
}

/// The objects after the child was given another parent: the child names
/// the new parent; the old parent, if the child had one, lists it no longer;
/// the new parent, if there is to be one, lists it last.  `None` where the
/// child is not there, where the old parent is not there or does not list the
/// child, and where the new parent is not there.
pub open spec fn reparented<C>(
    objects: Seq<ObjectView<C>>,
    child_id: SceneObjectId,
    new_parent_id: SceneObjectId,
) -> Option<Seq<ObjectView<C>>> {
    match position_of(objects, child_id) {
        None => None,
        Some(child) => {
            let old_parent_id = objects[child].parent_id;
            let renamed = objects.update(child, with_parent(objects[child], new_parent_id));
            let detached = if old_parent_id != empty_id() {
                without_child(renamed, old_parent_id, child_id)
            } else {
                Some(renamed)
            };
            match detached {
                None => None,
                Some(detached) => if new_parent_id != empty_id() {
                    with_child(detached, new_parent_id, child_id)
                } else {
                    Some(detached)
                },
            }
        },
    }
}

/// The objects after the attempt to remove an object together with all that
/// is below it, and whether the attempt went through.  The object is taken
/// from the list of its parent, then each of its children is removed in the
/// same way, in the order of the list, then the object itself, whose place
/// the last object takes.  The attempt stops, with what it did so far, where
/// an object or a parent is not found, where a parent does not list its child,
/// and where the hierarchy is deeper than `budget`.  What an attempt that went
/// through leaves is said in `hierarchy::lemma_removal_leaves_the_rest`.
pub open spec fn removal<C>(objects: Seq<ObjectView<C>>, id: SceneObjectId, budget: nat) -> (
    Seq<ObjectView<C>>,
    bool,
)
    decreases budget, 0nat, 0nat,
{
    if budget == 0 {
        (objects, false)
    } else {
        match position_of(objects, id) {
            None => (objects, false),
            Some(position) => {
                let parent_id = objects[position].parent_id;
                let children = objects[position].children;
                let detached = if parent_id != empty_id() {
                    without_child(objects, parent_id, id)
                } else {
                    Some(objects)
                };
                match detached {
                    None => (objects, false),
                    Some(detached) => {
                        let (pruned, done) = removal_of_all(
                            detached,
                            children,
                            0,
                            (budget - 1) as nat,
                        );
                        if !done {
                            (pruned, false)
                        } else {
                            match position_of(pruned, id) {
                                None => (pruned, false),
                                Some(last) => (swap_removed(pruned, last), true),
                            }
                        }
                    },
                }
            },
        }
    }
}

/// The objects after the attempt to remove the objects named from position
/// `from` of a list on, one after the other, and whether it went through.
pub open spec fn removal_of_all<C>(
    objects: Seq<ObjectView<C>>,
    ids: Seq<SceneObjectId>,
    from: nat,
    budget: nat,
) -> (Seq<ObjectView<C>>, bool)
    decreases budget, 1nat, ids.len() - from,
{
    if from >= ids.len() {
        (objects, true)
    } else {
        let (next, done) = removal(objects, ids[from as int], budget);
        if !done {
            (next, false)
        } else {
            removal_of_all(next, ids, from + 1, budget)
        }
    }
}

/// A copy of a list of identifiers.
pub fn copy_ids(ids: &Vec<SceneObjectId>) -> (copy: Vec<SceneObjectId>)
    ensures
        copy@ == ids@,
{
    let mut copy: Vec<SceneObjectId> = Vec::new();
    let mut next: usize = 0;
    while next < ids.len()
        invariant
            next <= ids@.len(),
            copy@ == ids@.take(next as int),
        decreases ids@.len() - next,
    {
        copy.push(ids[next]);
        proof {
            assert(ids@.take(next + 1) =~= ids@.take(next as int).push(ids@[next as int]));
        }
        next = next + 1;
    }
    proof {
        assert(ids@.take(ids@.len() as int) =~= ids@);
    }
    copy
}

/// The positions of the objects above the object at `position`, the parent
/// first and the top of the hierarchy last.  `None` where a parent is not
/// found and where more than `budget` objects stand above.
pub open spec fn ancestors<C>(objects: Seq<ObjectView<C>>, position: int, budget: nat) -> Option<
    Seq<int>,
>
    decreases budget,
{
    let parent_id = objects[position].parent_id;
    if parent_id == empty_id() {
        Some(Seq::<int>::empty())
    } else if budget == 0 {
        None
    } else {
        match position_of(objects, parent_id) {
            None => None,
            Some(parent) => match ancestors(objects, parent, (budget - 1) as nat) {
                None => None,
                Some(above) => Some(seq![parent] + above),
            },
        }
    }
}

/// The scene: its objects, and which of them are the camera and the sun.
#[derive(Debug)]
pub struct Scene<C> {
    /// The objects of the scene.
    pub scene_objects: Vec<SceneObject<C>>,
    /// The identifier of the object that is the camera.
    pub camera_scene_object_id: SceneObjectId,
    /// The identifier of the object that is the sun.
    pub sun_scene_object_id: SceneObjectId,
}

impl<C> Scene<C> {
    /// The objects of the scene, in the order in which they are stored.
    pub open spec fn objects(&self) -> Seq<ObjectView<C>> {
        Seq::new(self.scene_objects@.len(), |i: int| self.scene_objects@[i]@)
    }

    /// A scene without objects.  Camera and sun have the identifier 0.
    pub fn new() -> (scene: Scene<C>)
        ensures
            scene.objects() == Seq::<ObjectView<C>>::empty(),
            scene.camera_scene_object_id@ == 0,
            scene.sun_scene_object_id@ == 0,
    {
        let scene = Scene {
            scene_objects: Vec::new(),
            camera_scene_object_id: Id::default(),
            sun_scene_object_id: Id::default(),
        };
        assert(scene.objects() =~= Seq::<ObjectView<C>>::empty());
        scene
    }

    /// Adds an object with the given identifier behind the others, at the top
    /// of the hierarchy, and returns it, to be changed in place.
    pub fn add_scene_object_with_id(&mut self, id: SceneObjectId, components: C) -> (added: &mut SceneObject<
        C,
    >)
        ensures
            added@ == fresh_object(id, components),
            final(self).objects() == old(self).objects().push(final(added)@),
            final(self).camera_scene_object_id == old(self).camera_scene_object_id,
            final(self).sun_scene_object_id == old(self).sun_scene_object_id,
    {
        let position = self.scene_objects.len();
        self.scene_objects.push(SceneObject::new(id, components));
        let ghost pushed = self.scene_objects@;
        let ghost before = old(self).objects();
        let added = &mut self.scene_objects[position];
        proof {
            let after = Seq::new(
                pushed.len(),
                |i: int| pushed.update(position as int, *final(added))[i]@,
            );
            assert(after =~= before.push(final(added)@));
        }
        added
    }

    /// Adds an object with an identifier drawn at random behind the others,
    /// at the top of the hierarchy, and returns it, to be changed in place.
    pub fn add_scene_object(&mut self, components: C) -> (added: &mut SceneObject<C>)
        ensures
            added@ == fresh_object(added@.id, components),
            final(self).objects() == old(self).objects().push(final(added)@),
            final(self).camera_scene_object_id == old(self).camera_scene_object_id,
            final(self).sun_scene_object_id == old(self).sun_scene_object_id,
    {
        self.add_scene_object_with_id(Id::new(), components)
    }

    /// The position of the first object with the given identifier, or `None`
    /// where no object has it.
    pub fn find(&self, scene_object_id: SceneObjectId) -> (found: Option<usize>)
        ensures
            found is Some <==> position_of(self.objects(), scene_object_id) is Some,
            found matches Some(position) ==> position_of(self.objects(), scene_object_id) == Some(
                position as int,
            ),
    {
        let mut position: usize = 0;
        while position < self.scene_objects.len()
            invariant
                position <= self.scene_objects@.len(),
                forall|earlier: int|
                    0 <= earlier < position ==> (#[trigger] self.objects()[earlier]).id
                        != scene_object_id,
            decreases self.scene_objects@.len() - position,
        {
            if self.scene_objects[position].id == scene_object_id {
                proof {
                    assert(self.objects()[position as int].id == scene_object_id);
                    lemma_position_of(self.objects(), scene_object_id);
                }
                return Some(position);
            }
            proof {
                assert(self.objects()[position as int].id != scene_object_id);
            }
            position = position + 1;
        }
        proof {
            lemma_position_of(self.objects(), scene_object_id);
        }
        None
    }

    /// The first object with the given identifier, or `None` where no object
    /// has it.
    pub fn get(&self, scene_object_id: SceneObjectId) -> (found: Option<&SceneObject<C>>)
        ensures
            match found {
                Some(object) => position_of(self.objects(), scene_object_id) is Some && object@
                    == self.objects()[position_of(self.objects(), scene_object_id)->0],
                None => position_of(self.objects(), scene_object_id) is None,
            },
    {
        match self.find(scene_object_id) {
            Some(position) => {
                proof {
                    lemma_position_of(self.objects(), scene_object_id);
                }
                Some(&self.scene_objects[position])
            },
            None => None,
        }
    }

    /// The first object with the given identifier, to be changed in place,
    /// or `None` where no object has it.  Nothing else of the scene changes.
    pub fn get_mut(&mut self, scene_object_id: SceneObjectId) -> (found: Option<&mut SceneObject<C>>)
        ensures
            final(self).camera_scene_object_id == old(self).camera_scene_object_id,
            final(self).sun_scene_object_id == old(self).sun_scene_object_id,
            match found {
                Some(object) => {
                    let position = position_of(old(self).objects(), scene_object_id);
                    &&& position is Some
                    &&& object@ == old(self).objects()[position->0]
                    &&& final(self).objects() == old(self).objects().update(
                        position->0,
                        final(object)@,
                    )
                },
                None => {
                    &&& position_of(old(self).objects(), scene_object_id) is None
                    &&& final(self).objects() == old(self).objects()
                },
            },
    {
        match self.find(scene_object_id) {
            Some(position) => {
                proof {
                    lemma_position_of(self.objects(), scene_object_id);
                }
                let ghost stored = self.scene_objects@;
                let ghost before = self.objects();
                let object = &mut self.scene_objects[position];
                proof {
                    let after = Seq::new(
                        stored.len(),
                        |i: int| stored.update(position as int, *final(object))[i]@,
                    );
                    assert(after =~= before.update(position as int, final(object)@));
                }
                Some(object)
            },
            None => None,
        }
    }

    /// Whether an object has the given identifier.
    pub fn contains(&self, scene_object_id: SceneObjectId) -> (found: bool)
        ensures
            found == position_of(self.objects(), scene_object_id) is Some,
    {
        self.find(scene_object_id).is_some()
    }

    /// Removes a child from the list of children of its parent, where the
    /// parent is there and lists the child, and says whether it did; the last
    /// child of the list takes the place of the removed one.
    pub fn detach_child(&mut self, parent_id: SceneObjectId, removed_child_id: SceneObjectId) -> (done:
        bool)
        ensures
            done == without_child(old(self).objects(), parent_id, removed_child_id) is Some,
            final(self).objects() == match without_child(
                old(self).objects(),
                parent_id,
                removed_child_id,
            ) {
                Some(objects) => objects,
                None => old(self).objects(),
            },
            final(self).camera_scene_object_id == old(self).camera_scene_object_id,
            final(self).sun_scene_object_id == old(self).sun_scene_object_id,
    {
        let ghost before = self.objects();
        proof {
            lemma_position_of(before, parent_id);
        }
        match self.find(parent_id) {
            Some(parent) => {
                match find_id(&self.scene_objects[parent].children, removed_child_id) {
                    Some(child) => {
                        proof {
                            lemma_index_of(before[parent as int].children, removed_child_id);
                        }
                        self.scene_objects[parent].children.swap_remove(child);
                        proof {
                            assert(self.objects() =~= without_child(
                                before,
                                parent_id,
                                removed_child_id,
                            )->0);
                        }
                        true
                    },
                    None => false,
                }
            },
            None => false,
        }
    }

    /// Removes a child from the list of children of its parent; the last
    /// child of the list takes its place.
    pub fn remove_child(&mut self, parent_id: SceneObjectId, removed_child_id: SceneObjectId)
        requires
            without_child(old(self).objects(), parent_id, removed_child_id) is Some,
        ensures
            Some(final(self).objects()) == without_child(
                old(self).objects(),
                parent_id,
                removed_child_id,
            ),
            final(self).camera_scene_object_id == old(self).camera_scene_object_id,
            final(self).sun_scene_object_id == old(self).sun_scene_object_id,
    {
        self.detach_child(parent_id, removed_child_id);
    }

    /// Tries to remove an object together with all that is below it, in a
    /// hierarchy that is at most `budget` deep, and says whether it went
    /// through.  An attempt that does not go through leaves the scene as it
    /// was when it stopped.
    #[verifier::loop_isolation(false)]
    pub fn try_remove_scene_object(&mut self, scene_object_id: SceneObjectId, budget: usize) -> (done:
        bool)
        ensures
            (final(self).objects(), done) == removal(
                old(self).objects(),
                scene_object_id,
                budget as nat,
            ),
            final(self).camera_scene_object_id == old(self).camera_scene_object_id,
            final(self).sun_scene_object_id == old(self).sun_scene_object_id,
        decreases budget,
    {
        let ghost before = self.objects();
        if budget == 0 {
            return false;
        }
        proof {
            lemma_position_of(before, scene_object_id);
        }
        let position = match self.find(scene_object_id) {
            Some(position) => position,
            None => {
                return false;
            },
        };
        let parent_id = self.scene_objects[position].parent_id;
        let children = copy_ids(&self.scene_objects[position].children);
        proof {
            lemma_empty_id(parent_id);
        }
        // If the object has a parent, take it from the parent's children.
        if !parent_id.is_empty() {
            if !self.detach_child(parent_id, scene_object_id) {
                return false;
            }
        }
        // Remove all the children.
        let ghost detached = self.objects();
        let mut next: usize = 0;
        while next < children.len()
            invariant
                next <= children@.len(),
                budget > 0,
                self.camera_scene_object_id == old(self).camera_scene_object_id,
                self.sun_scene_object_id == old(self).sun_scene_object_id,
                removal_of_all(detached, children@, 0, (budget - 1) as nat) == removal_of_all(
                    self.objects(),
                    children@,
                    next as nat,
                    (budget - 1) as nat,
                ),
            decreases children@.len() - next,
        {
            if !self.try_remove_scene_object(children[next], budget - 1) {
                return false;
            }
            next = next + 1;
        }
        // Remove the object itself.
        let ghost pruned = self.objects();
        proof {
            lemma_position_of(pruned, scene_object_id);
        }
        match self.find(scene_object_id) {
            Some(last) => {
                self.scene_objects.swap_remove(last);
                proof {
                    assert(self.objects() =~= swap_removed(pruned, last as int));
                }
                true
            },
            None => false,
        }
    }

    /// Removes an object together with all that is below it: the object is
    /// taken from the list of its parent, then its children are removed in the
    /// same way, then the object itself, whose place the last object takes.
    pub fn remove_scene_object(&mut self, scene_object_id: SceneObjectId)
        requires
            removal(old(self).objects(), scene_object_id, old(self).objects().len()).1,
        ensures
            final(self).objects() == removal(
                old(self).objects(),
                scene_object_id,
                old(self).objects().len(),
            ).0,
            final(self).camera_scene_object_id == old(self).camera_scene_object_id,
            final(self).sun_scene_object_id == old(self).sun_scene_object_id,
    {
        let budget = self.scene_objects.len();
        self.try_remove_scene_object(scene_object_id, budget);
    }

    /// The positions of the objects above the object at `position`, the
    /// parent first and the top of the hierarchy last.  `None` where a parent
    /// is not found, and where the hierarchy runs in a circle, so that more
    /// objects would stand above than the scene has.
    pub fn ancestors(&self, position: usize) -> (above: Option<Vec<usize>>)
        requires
            position < self.objects().len(),
        ensures
            match above {
                Some(positions) => ancestors(
                    self.objects(),
                    position as int,
                    self.objects().len(),
                ) == Some(Seq::new(positions@.len(), |i: int| positions@[i] as int)),
                None => ancestors(self.objects(), position as int, self.objects().len()) is None,
            },
    {
        let ghost objects = self.objects();
        let mut above: Vec<usize> = Vec::new();
        let mut current: usize = position;
        let mut budget: usize = self.scene_objects.len();
        loop
            invariant
                objects == self.objects(),
                current < objects.len(),
                budget <= objects.len(),
                ancestors(objects, position as int, objects.len()) == match ancestors(
                    objects,
                    current as int,
                    budget as nat,
                ) {
                    None => None,
                    Some(rest) => Some(Seq::new(above@.len(), |i: int| above@[i] as int) + rest),
                },
            decreases budget,
        {
            let parent_id = self.scene_objects[current].parent_id;
            proof {
                lemma_empty_id(parent_id);
                lemma_position_of(objects, parent_id);
                assert(objects[current as int].parent_id == parent_id);
            }
            if parent_id.is_empty() {
                proof {
                    assert(Seq::new(above@.len(), |i: int| above@[i] as int) + Seq::<int>::empty()
                        =~= Seq::new(above@.len(), |i: int| above@[i] as int));
                }
                return Some(above);
            }
            if budget == 0 {
                return None;
            }
            let parent = match self.find(parent_id) {
                Some(parent) => parent,
                None => {
                    return None;
                },
            };
            let ghost before = Seq::new(above@.len(), |i: int| above@[i] as int);
            above.push(parent);
            proof {
                let after = Seq::new(above@.len(), |i: int| above@[i] as int);
                assert(after =~= before.push(parent as int));
                match ancestors(objects, parent as int, (budget - 1) as nat) {
                    Some(rest) => {
                        assert(before + (seq![parent as int] + rest) =~= after + rest);
                    },
                    None => {},
                }
            }
            current = parent;
            budget = budget - 1;
        }
    }

    /// Whether `reparent` may be called: the child is there, its old parent,
    /// if it has one, is there and lists it, and the new parent, if there is to
    /// be one, is there.
    pub fn can_reparent(&self, child_id: SceneObjectId, new_parent_id: SceneObjectId) -> (ok: bool)
        ensures
            ok == reparented(self.objects(), child_id, new_parent_id) is Some,
    {
        let objects = &self.scene_objects;
        let ghost before = self.objects();
        proof {
            lemma_position_of(before, child_id);
            lemma_position_of(before, new_parent_id);
        }
        let child = match self.find(child_id) {
            Some(child) => child,
            None => {
                return false;
            },
        };
        let old_parent_id = objects[child].parent_id;
        let ghost renamed = before.update(
            child as int,
            with_parent(before[child as int], new_parent_id),
        );
        proof {
            lemma_empty_id(old_parent_id);
            lemma_empty_id(new_parent_id);
            lemma_same_ids_same_positions(before, renamed, old_parent_id);
            lemma_same_ids_same_positions(before, renamed, new_parent_id);
            lemma_position_of(before, old_parent_id);
        }
        if !old_parent_id.is_empty() {
            match self.find(old_parent_id) {
                Some(old_parent) => {
                    if find_id(&objects[old_parent].children, child_id).is_none() {
                        return false;
                    }
                },
                None => {
                    return false;
                },
            }
        }
        if !new_parent_id.is_empty() {
            proof {
                if old_parent_id != empty_id() {
                    let detached = without_child(renamed, old_parent_id, child_id)->0;
                    lemma_same_ids_same_positions(renamed, detached, new_parent_id);
                }
            }
            return self.find(new_parent_id).is_some();
        }
        true
    }

    /// Gives a child another parent.  The child names the new parent; the
    /// old parent, if the child had one, lists it no longer; the new parent, if
    /// there is to be one, lists it last.  The empty identifier stands for "no
    /// parent".
    pub fn reparent(&mut self, child_id: SceneObjectId, new_parent_id: SceneObjectId)
        requires
            reparented(old(self).objects(), child_id, new_parent_id) is Some,
        ensures
            Some(final(self).objects()) == reparented(
                old(self).objects(),
                child_id,
                new_parent_id,
            ),
            final(self).camera_scene_object_id == old(self).camera_scene_object_id,
            final(self).sun_scene_object_id == old(self).sun_scene_object_id,
    {
        let ghost before = self.objects();
        proof {
            lemma_position_of(before, child_id);
        }
        let child = match self.find(child_id) {
            Some(child) => child,
            None => {
                return ;
            },
        };
        let old_parent_id = self.scene_objects[child].parent_id;
        self.scene_objects[child].parent_id = new_parent_id;
        let ghost renamed = before.update(
            child as int,
            with_parent(before[child as int], new_parent_id),
        );
        proof {
            assert(self.objects() =~= renamed);
            lemma_empty_id(old_parent_id);
            lemma_empty_id(new_parent_id);
        }
        if !old_parent_id.is_empty() {
            self.remove_child(old_parent_id, child_id);
        }
        if !new_parent_id.is_empty() {
            let ghost detached = self.objects();
            proof {
                lemma_position_of(detached, new_parent_id);
            }
            match self.find(new_parent_id) {
                Some(new_parent) => {
                    self.scene_objects[new_parent].children.push(child_id);
                    proof {
                        assert(self.objects() =~= with_child(detached, new_parent_id, child_id)->0);
                    }
                },
                None => {},
            }
        }
    }
}

/// Objects that have the same identifiers at the same positions are found
/// at the same positions.
pub proof fn lemma_same_ids_same_positions<C>(
    first: Seq<ObjectView<C>>,
    second: Seq<ObjectView<C>>,
    id: SceneObjectId,
)
    requires
        first.len() == second.len(),
        forall|i: int| 0 <= i < first.len() ==> (#[trigger] first[i]).id == second[i].id,
    ensures
        position_of(first, id) == position_of(second, id),
    decreases first.len(),
{
    if first.len() > 0 {
        assert forall|i: int| 0 <= i < first.drop_last().len() implies (#[trigger] first.drop_last()[i]).id
            == second.drop_last()[i].id by {
            assert(first[i].id == second[i].id);
        }
        lemma_same_ids_same_positions(first.drop_last(), second.drop_last(), id);
        assert(first[first.len() - 1].id == second[first.len() - 1].id);
    }
}

/// An object without children that stands at the top of the hierarchy is
/// removed by taking it out of the objects: the last object takes its place.
pub proof fn lemma_removal_of_lone_object<C>(
    objects: Seq<ObjectView<C>>,
    id: SceneObjectId,
    budget: nat,
)
    requires
        budget > 0,
        position_of(objects, id) is Some,
        objects[position_of(objects, id)->0].parent_id == empty_id(),
        objects[position_of(objects, id)->0].children.len() == 0,
    ensures
        removal(objects, id, budget) == (swap_removed(objects, position_of(objects, id)->0), true),
{
}

/// A child without children of its own is removed by taking it from the
/// list of its parent and then out of the objects.
pub proof fn lemma_removal_of_leaf<C>(objects: Seq<ObjectView<C>>, id: SceneObjectId, budget: nat)
    requires
        budget > 0,
        position_of(objects, id) is Some,
        objects[position_of(objects, id)->0].parent_id != empty_id(),
        objects[position_of(objects, id)->0].children.len() == 0,
        without_child(objects, objects[position_of(objects, id)->0].parent_id, id) is Some,
    ensures
        ({
            let parent_id = objects[position_of(objects, id)->0].parent_id;
            let detached = without_child(objects, parent_id, id)->0;
            &&& position_of(detached, id) == position_of(objects, id)
            &&& removal(objects, id, budget) == (
                swap_removed(detached, position_of(objects, id)->0),
                true,
            )
        }),
{
    let parent_id = objects[position_of(objects, id)->0].parent_id;
    let detached = without_child(objects, parent_id, id)->0;
    lemma_position_of(objects, parent_id);
    lemma_same_ids_same_positions(objects, detached, id);
}

} // verus!

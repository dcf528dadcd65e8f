//! Open projects: their documents, folders and paths, and which of them is
//! active.
use crate::hashing::{word, write_word};
use crate::model::SectionKind;
use crate::text::{same_text, texts};
use std::collections::hash_map::DefaultHasher;
use std::hash::Hasher;
use vstd::prelude::*;
use vstd::std_specs::hash::DefaultHasherAdditionalSpecFns;

verus! {

/// A layer of a document.
pub struct Layer {
    pub id: u64,
    pub name: String,
    /// Where the name stands in natural order among all names.
    pub name_rank: u64,
    pub loaded: bool,
    pub folder: Option<u64>,
    pub section: SectionKind,
}

/// An object of a document and the layer it is on.
#[derive(Debug, Clone, Copy, PartialEq, Eq, Structural)]
pub struct ObjectRow {
    pub id: u64,
    pub layer: u64,
}

/// The design document of a project.
pub struct Document {
    pub layers: Vec<Layer>,
    pub objects: Vec<ObjectRow>,
    /// Objects that the project keeps hidden.
    pub hidden_objects: Vec<u64>,
    /// Layers whose contents wait on disk.
    pub deferred_layers: Vec<u64>,
    /// Counts the edits.
    pub revision: u64,
}

/// The first layer with the id.
pub open spec fn first_layer(layers: Seq<Layer>, id: u64) -> Option<Layer>
    decreases layers.len(),
{
    if layers.len() == 0 {
        None
    } else if layers[0].id == id {
        Some(layers[0])
    } else {
        first_layer(layers.drop_first(), id)
    }
}

/// The first object with the id.
pub open spec fn first_object(objects: Seq<ObjectRow>, id: u64) -> Option<ObjectRow>
    decreases objects.len(),
{
    if objects.len() == 0 {
        None
    } else if objects[0].id == id {
        Some(objects[0])
    } else {
        first_object(objects.drop_first(), id)
    }
}

/// Whether a list of ids holds one.
pub fn holds_id(ids: &Vec<u64>, id: u64) -> (yes: bool)
    ensures
        yes == ids@.contains(id),
{
    let mut i: usize = 0;
    while i < ids.len()
        invariant
            i <= ids@.len(),
            forall|j: int| 0 <= j < i ==> ids@[j] != id,
        decreases ids.len() - i,
    {
        if ids[i] == id {
            return true;
        }
        i += 1;
    }
    false
}

/// A copy of a list of ids.
pub fn copied_ids(ids: &Vec<u64>) -> (copy: Vec<u64>)
    ensures
        copy@ == ids@,
{
    let mut copy: Vec<u64> = Vec::new();
    let mut i: usize = 0;
    while i < ids.len()
        invariant
            i <= ids@.len(),
            copy@ == ids@.take(i as int),
        decreases ids.len() - i,
    {
        copy.push(ids[i]);
        i += 1;
    }
    proof {
        assert(ids@.take(i as int) =~= ids@);
    }
    copy
}

/// A copy of a list of texts.
pub fn copied_texts(list: &Vec<String>) -> (copy: Vec<String>)
    ensures
        copy@ == list@,
{
    let mut copy: Vec<String> = Vec::new();
    let mut i: usize = 0;
    while i < list.len()
        invariant
            i <= list@.len(),
            copy@ == list@.take(i as int),
        decreases list.len() - i,
    {
        copy.push(list[i].clone());
        i += 1;
    }
    proof {
        assert(list@.take(i as int) =~= list@);
    }
    copy
}

/// Whether two lists hold the same texts in the same order.
pub fn same_texts(a: &Vec<String>, b: &Vec<String>) -> (same: bool)
    ensures
        same == (texts(a@) == texts(b@)),
{
    if a.len() != b.len() {
        proof {
            assert(texts(a@).len() != texts(b@).len());
        }
        return false;
    }
    let mut i: usize = 0;
    while i < a.len()
        invariant
            i <= a@.len() == b@.len(),
            forall|j: int| 0 <= j < i ==> a@[j]@ == b@[j]@,
        decreases a.len() - i,
    {
        if !same_text(a[i].as_str(), b[i].as_str()) {
            proof {
                assert(texts(a@)[i as int] != texts(b@)[i as int]);
            }
            return false;
        }
        i += 1;
    }
    proof {
        assert(texts(a@) =~= texts(b@));
    }
    true
}

impl Document {
    /// The document has the layer and it is loaded.
    pub open spec fn layer_is_loaded(&self, id: u64) -> bool {
        first_layer(self.layers@, id) is Some && first_layer(self.layers@, id)->0.loaded
    }

    /// The document has the object, on a layer that is loaded.
    pub open spec fn object_is_loaded(&self, id: u64) -> bool {
        first_object(self.objects@, id) is Some && self.layer_is_loaded(
            first_object(self.objects@, id)->0.layer,
        )
    }

    /// Some object stands on a loaded layer.
    pub open spec fn has_renderables(&self) -> bool {
        exists|i: int|
            0 <= i < self.objects@.len() && self.layer_is_loaded((#[trigger] self.objects@[i]).layer)
    }

    /// An empty document.
    pub fn new() -> (document: Document)
        ensures
            document.layers@ == Seq::<Layer>::empty(),
            document.objects@ == Seq::<ObjectRow>::empty(),
            document.hidden_objects@ == Seq::<u64>::empty(),
            document.deferred_layers@ == Seq::<u64>::empty(),
            document.revision == 0,
    {
        Document {
            layers: Vec::new(),
            objects: Vec::new(),
            hidden_objects: Vec::new(),
            deferred_layers: Vec::new(),
            revision: 0,
        }
    }

    /// The first layer with the id.
    pub fn layer(&self, id: u64) -> (layer: Option<&Layer>)
        ensures
            layer == (match first_layer(self.layers@, id) {
                Some(l) => Some(&l),
                None => None::<&Layer>,
            }),
    {
        let mut i: usize = 0;
        proof {
            assert(self.layers@.skip(0) =~= self.layers@);
        }
        while i < self.layers.len()
            invariant
                i <= self.layers@.len(),
                first_layer(self.layers@, id) == first_layer(self.layers@.skip(i as int), id),
            decreases self.layers.len() - i,
        {
            proof {
                assert(self.layers@.skip(i as int).drop_first() =~= self.layers@.skip(i + 1));
            }
            if self.layers[i].id == id {
                return Some(&self.layers[i]);
            }
            i += 1;
        }
        None
    }

    /// The first object with the id.
    pub fn get_object(&self, id: u64) -> (object: Option<ObjectRow>)
        ensures
            object == first_object(self.objects@, id),
    {
        let mut i: usize = 0;
        proof {
            assert(self.objects@.skip(0) =~= self.objects@);
        }
        while i < self.objects.len()
            invariant
                i <= self.objects@.len(),
                first_object(self.objects@, id) == first_object(self.objects@.skip(i as int), id),
            decreases self.objects.len() - i,
        {
            proof {
                assert(self.objects@.skip(i as int).drop_first() =~= self.objects@.skip(i + 1));
            }
            if self.objects[i].id == id {
                return Some(self.objects[i]);
            }
            i += 1;
        }
        None
    }

    /// Whether the document has the layer and it is loaded.
    pub fn has_loaded_layer(&self, id: u64) -> (yes: bool)
        ensures
            yes == self.layer_is_loaded(id),
    {
        match self.layer(id) {
            Some(layer) => layer.loaded,
            None => false,
        }
    }

    /// Whether the document has the object, on a layer that is loaded.
    pub fn has_loaded_object(&self, id: u64) -> (yes: bool)
        ensures
            yes == self.object_is_loaded(id),
    {
        match self.get_object(id) {
            Some(object) => self.has_loaded_layer(object.layer),
            None => false,
        }
    }

    /// Whether any object stands on a loaded layer.
    pub fn holds_renderables(&self) -> (yes: bool)
        ensures
            yes == self.has_renderables(),
    {
        let mut i: usize = 0;
        while i < self.objects.len()
            invariant
                i <= self.objects@.len(),
                forall|j: int|
                    0 <= j < i ==> !self.layer_is_loaded((#[trigger] self.objects@[j]).layer),
            decreases self.objects.len() - i,
        {
            if self.has_loaded_layer(self.objects[i].layer) {
                return true;
            }
            i += 1;
        }
        false
    }
}

/// The names of the folders of each section.
pub struct Folders {
    pub designs: Vec<String>,
    pub triangulations: Vec<String>,
    pub block_models: Vec<String>,
    pub drill_holes: Vec<String>,
    pub point_clouds: Vec<String>,
    pub rasters: Vec<String>,
}

impl Folders {
    /// The folders of a section, in order.
    pub open spec fn section_names(&self, section: SectionKind) -> Seq<Seq<char>> {
        match section {
            SectionKind::Designs => texts(self.designs@),
            SectionKind::Triangulations => texts(self.triangulations@),
            SectionKind::BlockModels => texts(self.block_models@),
            SectionKind::DrillHoles => texts(self.drill_holes@),
            SectionKind::PointClouds => texts(self.point_clouds@),
            SectionKind::Rasters => texts(self.rasters@),
        }
    }

    /// Every section has the same folders in both.
    pub open spec fn same(&self, other: &Folders) -> bool {
        forall|section: SectionKind| #[trigger]
            self.section_names(section) == other.section_names(section)
    }

    /// No folders.
    pub fn new() -> (folders: Folders)
        ensures
            forall|section: SectionKind| #[trigger]
                folders.section_names(section) == Seq::<Seq<char>>::empty(),
    {
        let folders = Folders {
            designs: Vec::new(),
            triangulations: Vec::new(),
            block_models: Vec::new(),
            drill_holes: Vec::new(),
            point_clouds: Vec::new(),
            rasters: Vec::new(),
        };
        proof {
            assert(texts(Seq::<String>::empty()) =~= Seq::<Seq<char>>::empty());
        }
        folders
    }

    /// The folders of a section, in order.
    pub fn names(&self, section: SectionKind) -> (names: &Vec<String>)
        ensures
            texts(names@) == self.section_names(section),
    {
        match section {
            SectionKind::Designs => &self.designs,
            SectionKind::Triangulations => &self.triangulations,
            SectionKind::BlockModels => &self.block_models,
            SectionKind::DrillHoles => &self.drill_holes,
            SectionKind::PointClouds => &self.point_clouds,
            SectionKind::Rasters => &self.rasters,
        }
    }

    /// A copy.
    pub fn copied(&self) -> (copy: Folders)
        ensures
            copy.same(self),
    {
        Folders {
            designs: copied_texts(&self.designs),
            triangulations: copied_texts(&self.triangulations),
            block_models: copied_texts(&self.block_models),
            drill_holes: copied_texts(&self.drill_holes),
            point_clouds: copied_texts(&self.point_clouds),
            rasters: copied_texts(&self.rasters),
        }
    }
}

/// A place on disk. Equal ids, equal paths.
pub struct ProjectPath {
    pub id: u64,
    /// The last component without its extension, where it is text.
    pub stem: Option<String>,
}

impl ProjectPath {
    /// The same place under the same name.
    pub open spec fn same(&self, other: &ProjectPath) -> bool {
        self.id == other.id && crate::text::text_of(self.stem) == crate::text::text_of(other.stem)
    }

    /// A copy.
    pub fn copied(&self) -> (copy: ProjectPath)
        ensures
            copy == *self,
    {
        ProjectPath {
            id: self.id,
            stem: match &self.stem {
                Some(stem) => Some(stem.clone()),
                None => None,
            },
        }
    }
}

/// Where a project is kept.
#[derive(Debug, Clone, Copy, PartialEq, Eq, Structural)]
pub enum ProjectPersistence {
    /// Nowhere, or on disk.
    Native,
    /// In the browser's storage, under this id.
    BrowserRecord(u64),
}

/// An open project.
pub struct OpenProject {
    /// Identifies the open project for as long as it is open.
    pub runtime_id: u32,
    /// Identifies the project in storage.
    pub id: u64,
    pub path: Option<ProjectPath>,
    pub name: String,
    /// Where the name stands in natural order among all names.
    pub name_rank: u64,
    /// Where the path stands in order among all paths, none being first.
    pub path_rank: u64,
    pub persistence: ProjectPersistence,
    pub lossy_save_warnings: Vec<String>,
    pub lossy_save_confirmed: bool,
    /// The document or its surroundings changed since they were saved.
    pub unsaved: bool,
    /// Counts the changes to the project's contents.
    pub content_epoch: u64,
    pub savepoint_revision: u64,
    /// Layers that changed since they were saved.
    pub dirty_layers: Vec<u64>,
    pub document: Document,
    pub folders: Folders,
}

impl OpenProject {
    /// The project with nothing in it unsaved.
    pub open spec fn as_saved(self, saved: OpenProject) -> bool {
        &&& saved.dirty_layers@ == Seq::<u64>::empty()
        &&& saved == (OpenProject {
            unsaved: false,
            savepoint_revision: self.document.revision,
            dirty_layers: saved.dirty_layers,
            ..self
        })
    }

    /// Counts everything in the project as saved.
    pub fn mark_saved(&mut self)
        ensures
            (*old(self)).as_saved(*final(self)),
    {
        self.unsaved = false;
        self.savepoint_revision = self.document.revision;
        self.dirty_layers = Vec::new();
    }
}

/// The open projects and the active one among them.
pub struct ProjectStore {
    pub projects: Vec<OpenProject>,
    pub active_index: Option<usize>,
    /// The runtime id that the next project gets.
    pub next_runtime_id: u32,
}

impl ProjectStore {
    /// The active project.
    pub open spec fn active(&self) -> Option<OpenProject> {
        match self.active_index {
            Some(i) if i < self.projects@.len() => Some(self.projects@[i as int]),
            _ => None,
        }
    }

    /// No projects. Runtime ids start at one.
    pub fn new() -> (store: ProjectStore)
        ensures
            store.projects@ == Seq::<OpenProject>::empty(),
            store.active_index is None,
            store.next_runtime_id == 1,
    {
        ProjectStore { projects: Vec::new(), active_index: None, next_runtime_id: 1 }
    }

    /// The active project.
    pub fn active_project(&self) -> (project: Option<&OpenProject>)
        ensures
            project == (match self.active() {
                Some(p) => Some(&p),
                None => None::<&OpenProject>,
            }),
    {
        match self.active_index {
            Some(i) => if i < self.projects.len() {
                Some(&self.projects[i])
            } else {
                None
            },
            None => None,
        }
    }

    /// Whether a project is active.
    pub fn has_active_project(&self) -> (yes: bool)
        ensures
            yes == self.active() is Some,
    {
        self.active_project().is_some()
    }

    /// Adds a project, gives it the next runtime id and makes it the active one.
    pub fn add_and_activate(&mut self, project: OpenProject) -> (index: usize)
        ensures
            index == old(self).projects@.len(),
            final(self).projects@ == old(self).projects@.push(
                OpenProject { runtime_id: old(self).next_runtime_id, ..project },
            ),
            final(self).active_index == Some(index),
            final(self).next_runtime_id == old(self).next_runtime_id.wrapping_add(1),
    {
        let mut project: OpenProject = project;
        project.runtime_id = self.next_runtime_id;
        self.next_runtime_id = self.next_runtime_id.wrapping_add(1);
        let index: usize = self.projects.len();
        self.projects.push(project);
        self.active_index = Some(index);
        index
    }

    /// The first open project with the runtime id.
    pub fn project_index_for_runtime_id(&self, runtime_id: u32) -> (index: Option<usize>)
        ensures
            index is Some ==> {
                &&& index->0 < self.projects@.len()
                &&& self.projects@[index->0 as int].runtime_id == runtime_id
                &&& forall|j: int|
                    0 <= j < index->0 ==> (#[trigger] self.projects@[j]).runtime_id != runtime_id
            },
            index is None ==> forall|j: int|
                0 <= j < self.projects@.len() ==> (#[trigger] self.projects@[j]).runtime_id
                    != runtime_id,
    {
        let mut i: usize = 0;
        while i < self.projects.len()
            invariant
                i <= self.projects@.len(),
                forall|j: int|
                    0 <= j < i ==> (#[trigger] self.projects@[j]).runtime_id != runtime_id,
            decreases self.projects.len() - i,
        {
            if self.projects[i].runtime_id == runtime_id {
                return Some(i);
            }
            i += 1;
        }
        None
    }

    /// The first open project whose document has the object.
    pub fn project_index_for_object(&self, object_id: u64) -> (index: Option<usize>)
        ensures
            index is Some ==> {
                &&& index->0 < self.projects@.len()
                &&& first_object(
                    self.projects@[index->0 as int].document.objects@,
                    object_id,
                ) is Some
                &&& forall|j: int|
                    0 <= j < index->0 ==> first_object(
                        (#[trigger] self.projects@[j]).document.objects@,
                        object_id,
                    ) is None
            },
            index is None ==> forall|j: int|
                0 <= j < self.projects@.len() ==> first_object(
                    (#[trigger] self.projects@[j]).document.objects@,
                    object_id,
                ) is None,
    {
        let mut i: usize = 0;
        while i < self.projects.len()
            invariant
                i <= self.projects@.len(),
                forall|j: int|
                    0 <= j < i ==> first_object(
                        (#[trigger] self.projects@[j]).document.objects@,
                        object_id,
                    ) is None,
            decreases self.projects.len() - i,
        {
            if self.projects[i].document.get_object(object_id).is_some() {
                return Some(i);
            }
            i += 1;
        }
        None
    }

    /// The first open project whose document has the layer.
    pub fn project_index_for_layer(&self, layer_id: u64) -> (index: Option<usize>)
        ensures
            index is Some ==> {
                &&& index->0 < self.projects@.len()
                &&& first_layer(self.projects@[index->0 as int].document.layers@, layer_id) is Some
                &&& forall|j: int|
                    0 <= j < index->0 ==> first_layer(
                        (#[trigger] self.projects@[j]).document.layers@,
                        layer_id,
                    ) is None
            },
            index is None ==> forall|j: int|
                0 <= j < self.projects@.len() ==> first_layer(
                    (#[trigger] self.projects@[j]).document.layers@,
                    layer_id,
                ) is None,
    {
        let mut i: usize = 0;
        while i < self.projects.len()
            invariant
                i <= self.projects@.len(),
                forall|j: int|
                    0 <= j < i ==> first_layer(
                        (#[trigger] self.projects@[j]).document.layers@,
                        layer_id,
                    ) is None,
            decreases self.projects.len() - i,
        {
            if self.projects[i].document.layer(layer_id).is_some() {
                return Some(i);
            }
            i += 1;
        }
        None
    }

    /// What the composite of the documents depends on: which project is
    /// active, and the id and revision of each.
    pub open spec fn composite_writes(&self) -> Seq<Seq<u8>> {
        composite_rows(self.projects@).push(
            word(
                match self.active_index {
                    Some(i) => (i as u64),
                    None => u64::MAX,
                },
            ),
        )
    }

    /// A fingerprint of the documents that the scene is made of.
    pub fn composite_key(&self) -> (key: u64)
        ensures
            key == DefaultHasher::spec_finish(self.composite_writes()),
    {
        let mut hasher: DefaultHasher = DefaultHasher::new();
        let mut i: usize = 0;
        while i < self.projects.len()
            invariant
                i <= self.projects@.len(),
                hasher@ == composite_rows(self.projects@.take(i as int)),
            decreases self.projects.len() - i,
        {
            write_word(&mut hasher, self.projects[i].runtime_id as u64);
            write_word(&mut hasher, self.projects[i].document.revision);
            proof {
                assert(self.projects@.take(i + 1).drop_last() =~= self.projects@.take(i as int));
            }
            i += 1;
        }
        proof {
            assert(self.projects@.take(i as int) =~= self.projects@);
        }
        match self.active_index {
            Some(active) => write_word(&mut hasher, active as u64),
            None => write_word(&mut hasher, u64::MAX),
        }
        hasher.finish()
    }
}

/// The id and revision of each project, as bytes.
pub open spec fn composite_rows(projects: Seq<OpenProject>) -> Seq<Seq<u8>>
    decreases projects.len(),
{
    if projects.len() == 0 {
        Seq::empty()
    } else {
        composite_rows(projects.drop_last()).push(
            word(projects.last().runtime_id as u64),
        ).push(word(projects.last().document.revision))
    }
}

} // verus!

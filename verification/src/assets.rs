//! The asset manager: which files were loaded, when, and as what.

use vstd::prelude::*;

verus! {

/// What an asset is, once loaded.
#[derive(Clone, Copy, Debug, PartialEq, Eq, Structural)]
pub enum AssetKind {
    /// A model, with its place among the manager's models.
    Model(usize),
    /// A settings file.
    Settings,
}

/// One file that the manager knows of.
#[derive(Clone, Debug, PartialEq, Eq)]
pub struct Asset {
    pub file_name: String,
    pub path: String,
    pub loaded_at_time: u64,
    pub asset_kind: AssetKind,
}

/// An asset, with its texts as sequences of characters.
pub struct AssetView {
    pub file_name: Seq<char>,
    pub path: Seq<char>,
    pub loaded_at_time: u64,
    pub asset_kind: AssetKind,
}

impl View for Asset {
    type V = AssetView;

    open spec fn view(&self) -> AssetView {
        AssetView {
            file_name: self.file_name@,
            path: self.path@,
            loaded_at_time: self.loaded_at_time,
            asset_kind: self.asset_kind,
        }
    }
}

/// Where the manager's files are.
#[derive(Clone, Debug, PartialEq, Eq)]
pub struct PathSettings {
    pub extensions_settings_path: String,
    pub models_path: String,
    pub display_settings_path: String,
}

/// The file extensions that the manager takes for each kind of asset.
#[derive(Clone, Debug, PartialEq, Eq)]
pub struct Extensions {
    pub models: Vec<String>,
}

/// What is to be done about a model file.
#[derive(Clone, Copy, Debug, PartialEq, Eq, Structural)]
pub enum ModelLoad {
    /// The file is not among the assets: load it as a new model.
    New,
    /// The file is a model that has changed since it was loaded: load it
    /// again, into the same place.
    Reload(usize),
    /// The file is loaded and has not changed since, or is not a model.
    Current,
}

/// A file that was found below the models path.
#[derive(Clone, Debug, PartialEq, Eq)]
pub struct ModelFile {
    pub path: String,
    pub file_name: String,
    pub extension: String,
    pub modified: u64,
}

/// A found file, with its texts as sequences of characters.
pub struct ModelFileView {
    pub path: Seq<char>,
    pub file_name: Seq<char>,
    pub extension: Seq<char>,
    pub modified: u64,
}

impl View for ModelFile {
    type V = ModelFileView;

    open spec fn view(&self) -> ModelFileView {
        ModelFileView {
            path: self.path@,
            file_name: self.file_name@,
            extension: self.extension@,
            modified: self.modified,
        }
    }
}

/// The found files, each by its view.
pub open spec fn views_of(files: Seq<ModelFile>) -> Seq<ModelFileView> {
    Seq::new(files.len(), |i: int| files[i]@)
}

/// One of the found files is to be loaded: which one, by its place among
/// the found files, and how.
#[derive(Clone, Copy, Debug, PartialEq, Eq, Structural)]
pub struct PlannedLoad {
    pub file: usize,
    pub load: ModelLoad,
}

/// Keeps track of the files that were loaded, and holds the models made of
/// them. `M` is what the renderer makes of a model file.
pub struct AssetManager<M> {
    assets: Vec<Asset>,
    paths: PathSettings,
    extensions: Extensions,
    pub models: Vec<M>,
}

/// The place of the first asset with the given path.
pub open spec fn position_of_path(assets: Seq<AssetView>, path: Seq<char>) -> Option<int>
    decreases assets.len(),
{
    if assets.len() == 0 {
        None
    } else if assets[0].path == path {
        Some(0)
    } else {
        match position_of_path(assets.drop_first(), path) {
            Some(i) => Some(i + 1),
            None => None,
        }
    }
}

/// The place of the first asset with the given file name.
pub open spec fn position_of_name(assets: Seq<AssetView>, name: Seq<char>) -> Option<int>
    decreases assets.len(),
{
    if assets.len() == 0 {
        None
    } else if assets[0].file_name == name {
        Some(0)
    } else {
        match position_of_name(assets.drop_first(), name) {
            Some(i) => Some(i + 1),
            None => None,
        }
    }
}

/// The assets once one is registered: it takes the place of the asset with
/// its path, or comes last where no asset has its path.
pub open spec fn registered(assets: Seq<AssetView>, asset: AssetView) -> Seq<AssetView> {
    match position_of_path(assets, asset.path) {
        Some(i) => assets.update(i, asset),
        None => assets.push(asset),
    }
}

/// No two assets share a path.
pub open spec fn paths_differ(assets: Seq<AssetView>) -> bool {
    forall|i: int, j: int|
        0 <= i < assets.len() && 0 <= j < assets.len() && i != j ==> assets[i].path
            != assets[j].path
}

/// What `position_of_path` finds is the first asset with the path, and it
/// finds nothing only where no asset has the path.
pub proof fn lemma_position_of_path(assets: Seq<AssetView>, path: Seq<char>)
    ensures
        match position_of_path(assets, path) {
            Some(i) => 0 <= i < assets.len() && assets[i].path == path && forall|j: int|
                0 <= j < i ==> (#[trigger] assets[j]).path != path,
            None => forall|j: int| 0 <= j < assets.len() ==> (#[trigger] assets[j]).path != path,
        },
    decreases assets.len(),
{
    if assets.len() > 0 && assets[0].path != path {
        let rest = assets.drop_first();
        lemma_position_of_path(rest, path);
        assert forall|j: int| 0 <= j < rest.len() implies rest[j] == assets[j + 1] by {}
        match position_of_path(rest, path) {
            Some(i) => {
                assert forall|j: int| 0 <= j < i + 1 implies (#[trigger] assets[j]).path
                    != path by {
                    if j > 0 {
                        assert(rest[j - 1] == assets[j]);
                    }
                }
            },
            None => {
                assert forall|j: int| 0 <= j < assets.len() implies (#[trigger] assets[j]).path
                    != path by {
                    if j > 0 {
                        assert(rest[j - 1] == assets[j]);
                    }
                }
            },
        }
    }
}

/// What `position_of_name` finds is the first asset with the file name, and
/// it finds nothing only where no asset has the name.
pub proof fn lemma_position_of_name(assets: Seq<AssetView>, name: Seq<char>)
    ensures
        match position_of_name(assets, name) {
            Some(i) => 0 <= i < assets.len() && assets[i].file_name == name && forall|j: int|
                0 <= j < i ==> (#[trigger] assets[j]).file_name != name,
            None => forall|j: int|
                0 <= j < assets.len() ==> (#[trigger] assets[j]).file_name != name,
        },
    decreases assets.len(),
{
    if assets.len() > 0 && assets[0].file_name != name {
        let rest = assets.drop_first();
        lemma_position_of_name(rest, name);
        assert forall|j: int| 0 <= j < rest.len() implies rest[j] == assets[j + 1] by {}
        match position_of_name(rest, name) {
            Some(i) => {
                assert forall|j: int| 0 <= j < i + 1 implies (#[trigger] assets[j]).file_name
                    != name by {
                    if j > 0 {
                        assert(rest[j - 1] == assets[j]);
                    }
                }
            },
            None => {
                assert forall|j: int| 0 <= j < assets.len() implies (#[trigger] assets[j])
                    .file_name != name by {
                    if j > 0 {
                        assert(rest[j - 1] == assets[j]);
                    }
                }
            },
        }
    }
}

/// Registering an asset keeps the paths apart, and makes the asset the one
/// that its path finds.
pub proof fn registering_keeps_paths_apart(assets: Seq<AssetView>, asset: AssetView)
    requires
        paths_differ(assets),
    ensures
        paths_differ(registered(assets, asset)),
        position_of_path(registered(assets, asset), asset.path) matches Some(i) && registered(
            assets,
            asset,
        )[i] == asset,
{
    let after = registered(assets, asset);
    lemma_position_of_path(assets, asset.path);
    lemma_position_of_path(after, asset.path);
    let place = match position_of_path(assets, asset.path) {
        Some(i) => i,
        None => assets.len() as int,
    };
    assert(after[place] == asset);
    assert forall|j: int| 0 <= j < after.len() && j != place implies #[trigger] after[j]
        == assets[j] by {}
    match position_of_path(after, asset.path) {
        Some(k) => {
            if k < place {
                assert(after[k] == assets[k]);
            }
        },
        None => {},
    }
    assert forall|i: int, j: int|
        0 <= i < after.len() && 0 <= j < after.len() && i != j implies after[i].path
        != after[j].path by {
        if i != place {
            assert(after[i] == assets[i]);
        }
        if j != place {
            assert(after[j] == assets[j]);
        }
    }
}

impl<M> AssetManager<M> {
    /// The assets, in the order in which their paths were first registered.
    pub closed spec fn assets(self) -> Seq<AssetView> {
        self.assets@.map_values(|asset: Asset| asset@)
    }

    /// The models, each at its place.
    pub closed spec fn held_models(self) -> Seq<M> {
        self.models@
    }

    /// The settings that the manager was made with.
    pub closed spec fn paths(self) -> PathSettings {
        self.paths
    }

    /// The extensions that the manager was made with.
    pub closed spec fn extensions(self) -> Extensions {
        self.extensions
    }

    /// The model index that a file name stands for: that of the first asset
    /// with the name, where that asset is a model.
    pub open spec fn model_index(self, name: Seq<char>) -> Option<usize> {
        match position_of_name(self.assets(), name) {
            Some(i) => match self.assets()[i].asset_kind {
                AssetKind::Model(index) => Some(index),
                AssetKind::Settings => None,
            },
            None => None,
        }
    }

    /// What is to be done about a model file at `path` that was last
    /// modified at `modified`.
    pub open spec fn model_load(self, path: Seq<char>, modified: u64) -> ModelLoad {
        match position_of_path(self.assets(), path) {
            Some(i) => match self.assets()[i].asset_kind {
                AssetKind::Model(index) => if modified > self.assets()[i].loaded_at_time && index
                    < self.held_models().len() {
                    ModelLoad::Reload(index)
                } else {
                    ModelLoad::Current
                },
                AssetKind::Settings => ModelLoad::Current,
            },
            None => ModelLoad::New,
        }
    }

    /// Files with this extension are models.
    pub open spec fn takes_extension(self, extension: Seq<char>) -> bool {
        exists|i: int|
            0 <= i < self.extensions().models@.len() && (#[trigger] self.extensions().models@[i])@
                == extension
    }

    /// What is to be done about a found file: a file whose extension is
    /// not that of a model is left alone.
    pub open spec fn planned_load(self, file: ModelFileView) -> ModelLoad {
        if self.takes_extension(file.extension) {
            self.model_load(file.path, file.modified)
        } else {
            ModelLoad::Current
        }
    }

    /// The found files that are to be loaded, in the order in which they
    /// were found.
    pub open spec fn planned_loads(self, files: Seq<ModelFileView>) -> Seq<PlannedLoad>
        decreases files.len(),
    {
        if files.len() == 0 {
            Seq::empty()
        } else {
            let before = self.planned_loads(files.drop_last());
            let load = self.planned_load(files.last());
            if load == ModelLoad::Current {
                before
            } else {
                before.push(PlannedLoad { file: (files.len() - 1) as usize, load })
            }
        }
    }

    /// The place that a loaded model goes to: the place of the model it
    /// renews, or the end.
    pub open spec fn target(load: ModelLoad, models: nat) -> nat {
        match load {
            ModelLoad::Reload(slot) => if slot < models {
                slot as nat
            } else {
                models
            },
            _ => models,
        }
    }

    /// A manager that knows of no asset and holds no model.
    pub fn new(paths: PathSettings, extensions: Extensions) -> (r: Self)
        ensures
            r.assets() == Seq::<AssetView>::empty(),
            r.held_models() == Seq::<M>::empty(),
            r.paths() == paths,
            r.extensions() == extensions,
    {
        let r = AssetManager { assets: Vec::new(), paths, extensions, models: Vec::new() };
        assert(r.assets() =~= Seq::<AssetView>::empty());
        r
    }

    /// Where the models are looked for.
    pub fn models_path(&self) -> (r: &String)
        ensures
            *r == self.paths().models_path,
    {
        &self.paths.models_path
    }

    /// Where the display settings are looked for.
    pub fn display_settings_path(&self) -> (r: &String)
        ensures
            *r == self.paths().display_settings_path,
    {
        &self.paths.display_settings_path
    }

    /// The number of assets that the manager knows of.
    pub fn asset_count(&self) -> (r: usize)
        ensures
            r == self.assets().len(),
    {
        self.assets.len()
    }

    /// The asset at a place.
    pub fn asset(&self, i: usize) -> (r: Option<&Asset>)
        ensures
            r.is_some() == (i < self.assets().len()),
            r matches Some(asset) ==> asset@ == self.assets()[i as int],
    {
        if i < self.assets.len() {
            Some(&self.assets[i])
        } else {
            None
        }
    }

    fn find_path(&self, path: &String) -> (r: Option<usize>)
        ensures
            match r {
                Some(i) => i < self.assets().len() && position_of_path(self.assets(), path@)
                    == Some(i as int),
                None => position_of_path(self.assets(), path@).is_none(),
            },
    {
        let mut i: usize = 0;
        while i < self.assets.len()
            invariant
                0 <= i <= self.assets.len(),
                forall|j: int| 0 <= j < i ==> (#[trigger] self.assets()[j]).path != path@,
            decreases self.assets.len() - i,
        {
            assert(self.assets()[i as int] == self.assets@[i as int]@);
            if self.assets[i].path == *path {
                proof {
                    lemma_position_of_path(self.assets(), path@);
                }
                return Some(i);
            }
            i += 1;
        }
        proof {
            lemma_position_of_path(self.assets(), path@);
        }
        None
    }

    /// Whether files with this extension are models.
    pub fn is_model_extension(&self, extension: &str) -> (r: bool)
        ensures
            r == self.takes_extension(extension@),
    {
        let wanted: String = extension.to_owned();
        let mut i: usize = 0;
        while i < self.extensions.models.len()
            invariant
                0 <= i <= self.extensions.models.len(),
                wanted@ == extension@,
                forall|j: int| 0 <= j < i ==> (#[trigger] self.extensions.models@[j])@ != wanted@,
            decreases self.extensions.models.len() - i,
        {
            if self.extensions.models[i] == wanted {
                assert(self.extensions().models@[i as int]@ == extension@);
                return true;
            }
            i += 1;
        }
        false
    }

    /// Looks a model up by the name of its file. Where several assets have
    /// the name, the one registered first counts.
    pub fn get_model_index(&self, name: &str) -> (r: Option<usize>)
        ensures
            r == self.model_index(name@),
    {
        let wanted: String = name.to_owned();
        let mut i: usize = 0;
        while i < self.assets.len()
            invariant
                0 <= i <= self.assets.len(),
                wanted@ == name@,
                forall|j: int| 0 <= j < i ==> (#[trigger] self.assets()[j]).file_name != name@,
            decreases self.assets.len() - i,
        {
            assert(self.assets()[i as int] == self.assets@[i as int]@);
            if self.assets[i].file_name == wanted {
                proof {
                    lemma_position_of_name(self.assets(), name@);
                }
                return match self.assets[i].asset_kind {
                    AssetKind::Model(index) => Some(index),
                    AssetKind::Settings => None,
                };
            }
            i += 1;
        }
        proof {
            lemma_position_of_name(self.assets(), name@);
        }
        None
    }

    /// Takes a model that was built from vertex lists and not from a file,
    /// and returns its place among the models.
    pub fn allocate_graphics_model_from_vertex_lists(&mut self, model: M) -> (index: usize)
        ensures
            index == old(self).held_models().len(),
            final(self).held_models() == old(self).held_models().push(model),
            final(self).assets() == old(self).assets(),
            final(self).paths() == old(self).paths(),
            final(self).extensions() == old(self).extensions(),
    {
        let index: usize = self.models.len();
        self.models.push(model);
        index
    }

    /// Records that the file at `path` was loaded at `loaded_at_time` as an
    /// asset of the given kind. An asset with the same path is replaced;
    /// otherwise the new asset comes last.
    pub fn register_asset(
        &mut self,
        path: &str,
        file_name: &str,
        loaded_at_time: u64,
        asset_kind: AssetKind,
    )
        ensures
            final(self).assets() == registered(
                old(self).assets(),
                (AssetView { file_name: file_name@, path: path@, loaded_at_time, asset_kind }),
            ),
            final(self).held_models() == old(self).held_models(),
            final(self).paths() == old(self).paths(),
            final(self).extensions() == old(self).extensions(),
    {
        let asset = Asset {
            file_name: file_name.to_owned(),
            path: path.to_owned(),
            loaded_at_time,
            asset_kind,
        };
        let ghost before = self.assets();
        match self.find_path(&asset.path) {
            Some(i) => {
                self.assets.set(i, asset);
                assert(self.assets() =~= before.update(i as int, asset@));
            },
            None => {
                self.assets.push(asset);
                assert(self.assets() =~= before.push(asset@));
            },
        }
    }

    /// Decides what is to be done about a model file: nothing where it is
    /// loaded and has not been modified since, a reload where it has, and a
    /// first load where the manager does not know the file.
    pub fn plan_model_load(&self, path: &str, modified: u64) -> (r: ModelLoad)
        ensures
            r == self.model_load(path@, modified),
    {
        let wanted: String = path.to_owned();
        match self.find_path(&wanted) {
            Some(i) => {
                assert(self.assets()[i as int] == self.assets@[i as int]@);
                match self.assets[i].asset_kind {
                    AssetKind::Model(index) => if modified > self.assets[i].loaded_at_time && index
                        < self.models.len() {
                        ModelLoad::Reload(index)
                    } else {
                        ModelLoad::Current
                    },
                    AssetKind::Settings => ModelLoad::Current,
                }
            },
            None => ModelLoad::New,
        }
    }

    /// Goes through the files that were found below the models path and
    /// says which of them are to be loaded: those with the extension of a
    /// model that the manager does not know yet, or that were modified since
    /// they were loaded. Each is to be built and handed to `load_model`.
    pub fn load_models(&self, files: &Vec<ModelFile>) -> (plans: Vec<PlannedLoad>)
        ensures
            plans@ == self.planned_loads(views_of(files@)),
    {
        let mut plans: Vec<PlannedLoad> = Vec::new();
        let mut i: usize = 0;
        assert(views_of(files@).take(0) =~= Seq::<ModelFileView>::empty());
        while i < files.len()
            invariant
                0 <= i <= files.len(),
                plans@ == self.planned_loads(views_of(files@).take(i as int)),
            decreases files.len() - i,
        {
            let ghost found = views_of(files@);
            assert(found.take(i as int + 1).drop_last() == found.take(i as int));
            assert(found.take(i as int + 1).last() == files@[i as int]@);
            let file = &files[i];
            let load = if self.is_model_extension(file.extension.as_str()) {
                self.plan_model_load(file.path.as_str(), file.modified)
            } else {
                ModelLoad::Current
            };
            match load {
                ModelLoad::Current => {},
                _ => {
                    plans.push(PlannedLoad { file: i, load });
                },
            }
            i += 1;
        }
        assert(views_of(files@).take(files.len() as int) == views_of(files@));
        plans
    }

    /// Takes the model that was loaded from the file at `path`. A reload
    /// puts it in the place of the model it renews; a first load puts it
    /// last. Either way the file is registered as a model loaded at `now`.
    /// Returns the model's place.
    pub fn load_model(
        &mut self,
        path: &str,
        file_name: &str,
        load: ModelLoad,
        model: M,
        now: u64,
    ) -> (index: usize)
        ensures
            index == Self::target(load, old(self).held_models().len()),
            final(self).held_models() == (if index < old(self).held_models().len() {
                old(self).held_models().update(index as int, model)
            } else {
                old(self).held_models().push(model)
            }),
            final(self).assets() == registered(
                old(self).assets(),
                (AssetView {
                    file_name: file_name@,
                    path: path@,
                    loaded_at_time: now,
                    asset_kind: AssetKind::Model(index),
                }),
            ),
            final(self).paths() == old(self).paths(),
            final(self).extensions() == old(self).extensions(),
    {
        let index: usize = match load {
            ModelLoad::Reload(slot) => if slot < self.models.len() {
                self.models.set(slot, model);
                slot
            } else {
                self.models.push(model);
                self.models.len() - 1
            },
            _ => {
                self.models.push(model);
                self.models.len() - 1
            },
        };
        self.register_asset(path, file_name, now, AssetKind::Model(index));
        index
    }
}

/// A model that was just loaded needs no loading: once `load_model` has
/// registered a file as loaded at some time, a file that was not modified
/// after that time is current.
pub proof fn loaded_model_is_current<M>(
    manager: AssetManager<M>,
    asset: AssetView,
    modified: u64,
)
    requires
        position_of_path(manager.assets(), asset.path) matches Some(i) && manager.assets()[i]
            == asset,
        modified <= asset.loaded_at_time,
    ensures
        manager.model_load(asset.path, modified) == ModelLoad::Current,
{
}

} // verus!

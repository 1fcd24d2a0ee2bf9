//! Applications of the gallery and the state of their catalogue.

use crate::text::{copy_option, option_view, views, views_push};
use vstd::prelude::*;
use vstd::string::*;

verus! {

/// What is known of one Flatpak application.
#[derive(Debug, Clone, PartialEq, Eq)]
pub struct FlatpakMetadata {
    pub app_id: String,
    pub name: String,
    pub summary: String,
    pub description: String,
    pub version: Option<String>,
    pub branch: Option<String>,
    pub architecture: Option<String>,
    pub origin: Option<String>,
    pub runtime: Option<String>,
    pub license: Option<String>,
    pub homepage: Option<String>,
    pub icon: Option<String>,
    pub categories: Vec<String>,
    pub size_bytes: Option<u64>,
}

#[verifier::ext_equal]
pub struct MetadataModel {
    pub app_id: Seq<char>,
    pub name: Seq<char>,
    pub summary: Seq<char>,
    pub description: Seq<char>,
    pub version: Option<Seq<char>>,
    pub branch: Option<Seq<char>>,
    pub architecture: Option<Seq<char>>,
    pub origin: Option<Seq<char>>,
    pub runtime: Option<Seq<char>>,
    pub license: Option<Seq<char>>,
    pub homepage: Option<Seq<char>>,
    pub icon: Option<Seq<char>>,
    pub categories: Seq<Seq<char>>,
    pub size_bytes: Option<u64>,
}

impl View for FlatpakMetadata {
    type V = MetadataModel;

    open spec fn view(&self) -> MetadataModel {
        MetadataModel {
            app_id: self.app_id@,
            name: self.name@,
            summary: self.summary@,
            description: self.description@,
            version: option_view(self.version),
            branch: option_view(self.branch),
            architecture: option_view(self.architecture),
            origin: option_view(self.origin),
            runtime: option_view(self.runtime),
            license: option_view(self.license),
            homepage: option_view(self.homepage),
            icon: option_view(self.icon),
            categories: views(self.categories@),
            size_bytes: self.size_bytes,
        }
    }
}

impl MetadataModel {
    /// Metadata of which only the identifier, name and summary are known.
    pub open spec fn minimal(app_id: Seq<char>, name: Seq<char>, summary: Seq<char>) -> Self {
        MetadataModel {
            app_id,
            name,
            summary,
            description: Seq::empty(),
            version: None,
            branch: None,
            architecture: None,
            origin: None,
            runtime: None,
            license: None,
            homepage: None,
            icon: None,
            categories: Seq::empty(),
            size_bytes: None,
        }
    }
}

pub fn copy_texts(list: &Vec<String>) -> (copy: Vec<String>)
    ensures
        views(copy@) == views(list@),
{
    let mut copy: Vec<String> = Vec::new();
    let mut i: usize = 0;
    assert(views(copy@) =~= views(list@).subrange(0, 0));
    while i < list.len()
        invariant
            i <= list.len(),
            views(copy@) == views(list@).subrange(0, i as int),
        decreases list.len() - i,
    {
        let next = list[i].clone();
        proof {
            views_push(copy@, next);
            assert(views(list@).subrange(0, i + 1) =~= views(list@).subrange(0, i as int).push(
                next@,
            ));
        }
        copy.push(next);
        i += 1;
    }
    assert(views(list@).subrange(0, i as int) =~= views(list@));
    copy
}

impl FlatpakMetadata {
    pub fn new(app_id: String, name: String, summary: String) -> (metadata: Self)
        ensures
            metadata@ == MetadataModel::minimal(app_id@, name@, summary@),
    {
        let description = String::new();
        let categories: Vec<String> = Vec::new();
        assert(description@ =~= Seq::empty());
        assert(views(categories@) =~= Seq::empty());
        FlatpakMetadata {
            app_id,
            name,
            summary,
            description,
            version: None,
            branch: None,
            architecture: None,
            origin: None,
            runtime: None,
            license: None,
            homepage: None,
            icon: None,
            categories,
            size_bytes: None,
        }
    }

    /// A second record that says the same.
    pub fn duplicate(&self) -> (copy: Self)
        ensures
            copy@ == self@,
    {
        FlatpakMetadata {
            app_id: self.app_id.clone(),
            name: self.name.clone(),
            summary: self.summary.clone(),
            description: self.description.clone(),
            version: copy_option(&self.version),
            branch: copy_option(&self.branch),
            architecture: copy_option(&self.architecture),
            origin: copy_option(&self.origin),
            runtime: copy_option(&self.runtime),
            license: copy_option(&self.license),
            homepage: copy_option(&self.homepage),
            icon: copy_option(&self.icon),
            categories: copy_texts(&self.categories),
            size_bytes: self.size_bytes,
        }
    }
}

/// What the gallery's button does with an application.
#[derive(Debug, Clone, Copy, PartialEq, Eq, Structural)]
pub enum AppAction {
    Install,
    Update,
    Open,
}

/// One application of the gallery.
#[derive(Debug, Clone, PartialEq, Eq)]
pub struct FlatpakApp {
    pub metadata: FlatpakMetadata,
    pub installed: bool,
    pub update_available: bool,
}

#[verifier::ext_equal]
pub struct AppModel {
    pub metadata: MetadataModel,
    pub installed: bool,
    pub update_available: bool,
}

impl View for FlatpakApp {
    type V = AppModel;

    open spec fn view(&self) -> AppModel {
        AppModel {
            metadata: self.metadata@,
            installed: self.installed,
            update_available: self.update_available,
        }
    }
}

pub open spec fn app_views(list: Seq<FlatpakApp>) -> Seq<AppModel> {
    Seq::new(list.len(), |i: int| list[i]@)
}

pub proof fn app_views_push(list: Seq<FlatpakApp>, item: FlatpakApp)
    ensures
        app_views(list.push(item)) == app_views(list).push(item@),
{
    assert(app_views(list.push(item)) =~= app_views(list).push(item@));
}

impl AppModel {
    pub open spec fn action(self) -> AppAction {
        if !self.installed {
            AppAction::Install
        } else if self.update_available {
            AppAction::Update
        } else {
            AppAction::Open
        }
    }
}

impl FlatpakApp {
    /// An application that is not installed.
    pub fn from_metadata(metadata: FlatpakMetadata) -> (app: Self)
        ensures
            app@ == (AppModel {
                metadata: metadata@,
                installed: false,
                update_available: false,
            }),
    {
        FlatpakApp { metadata, installed: false, update_available: false }
    }

    pub fn new(app_id: &str, name: &str, summary: &str) -> (app: Self)
        ensures
            app@ == (AppModel {
                metadata: MetadataModel::minimal(app_id@, name@, summary@),
                installed: false,
                update_available: false,
            }),
    {
        FlatpakApp::from_metadata(
            FlatpakMetadata::new(app_id.to_owned(), name.to_owned(), summary.to_owned()),
        )
    }

    /// A second record that says the same.
    pub fn duplicate(&self) -> (copy: Self)
        ensures
            copy@ == self@,
    {
        FlatpakApp {
            metadata: self.metadata.duplicate(),
            installed: self.installed,
            update_available: self.update_available,
        }
    }

    pub fn app_id(&self) -> (id: &str)
        ensures
            id@ == self@.metadata.app_id,
    {
        self.metadata.app_id.as_str()
    }

    pub fn name(&self) -> (name: &str)
        ensures
            name@ == self@.metadata.name,
    {
        self.metadata.name.as_str()
    }

    pub fn summary(&self) -> (summary: &str)
        ensures
            summary@ == self@.metadata.summary,
    {
        self.metadata.summary.as_str()
    }

    /// What the gallery's button does.
    pub fn primary_action(&self) -> (action: AppAction)
        ensures
            action == self@.action(),
    {
        if !self.installed {
            AppAction::Install
        } else if self.update_available {
            AppAction::Update
        } else {
            AppAction::Open
        }
    }
}

pub fn copy_apps(list: &Vec<FlatpakApp>) -> (copy: Vec<FlatpakApp>)
    ensures
        app_views(copy@) == app_views(list@),
{
    let mut copy: Vec<FlatpakApp> = Vec::new();
    let mut i: usize = 0;
    assert(app_views(copy@) =~= app_views(list@).subrange(0, 0));
    while i < list.len()
        invariant
            i <= list.len(),
            app_views(copy@) == app_views(list@).subrange(0, i as int),
        decreases list.len() - i,
    {
        let next = list[i].duplicate();
        proof {
            app_views_push(copy@, next);
            assert(app_views(list@).subrange(0, i + 1) =~= app_views(list@).subrange(
                0,
                i as int,
            ).push(next@));
        }
        copy.push(next);
        i += 1;
    }
    assert(app_views(list@).subrange(0, i as int) =~= app_views(list@));
    copy
}

/// What the gallery shows of its catalogue.
#[derive(Debug, Clone, PartialEq, Eq)]
pub enum CatalogState {
    Loading,
    Ready,
    Empty,
    Offline,
    Error(String),
}

/// Where the entries of a catalogue came from.
#[derive(Debug, Clone, Copy, PartialEq, Eq, Structural)]
pub enum CatalogSource {
    Live,
    Cache,
    Local,
}

// ---- laws ------------------------------------------------------------------------------

/// What is offered for an application: to install it where it is not installed,
/// to update it where it is and an update is known, and else to open it.
pub proof fn actions_follow_the_installed_state(app: FlatpakApp)
    ensures
        app@.action() == AppAction::Install <==> !app.installed,
        app@.action() == AppAction::Update <==> app.installed && app.update_available,
        app@.action() == AppAction::Open <==> app.installed && !app.update_available,
{
}

/// The views of an application tell each of its values.
pub proof fn applications_are_told_as_they_are(app: FlatpakApp)
    ensures
        app@.installed == app.installed && app@.update_available == app.update_available,
        app@.metadata.app_id == app.metadata.app_id@ && app@.metadata.name == app.metadata.name@
            && app@.metadata.summary == app.metadata.summary@ && app@.metadata.description
            == app.metadata.description@,
        app@.metadata.version == option_view(app.metadata.version) && app@.metadata.branch
            == option_view(app.metadata.branch) && app@.metadata.architecture == option_view(
            app.metadata.architecture,
        ) && app@.metadata.origin == option_view(app.metadata.origin),
        app@.metadata.runtime == option_view(app.metadata.runtime) && app@.metadata.license
            == option_view(app.metadata.license) && app@.metadata.homepage == option_view(
            app.metadata.homepage,
        ) && app@.metadata.icon == option_view(app.metadata.icon),
        app@.metadata.categories == views(app.metadata.categories@),
        app@.metadata.size_bytes == app.metadata.size_bytes,
{
}

} // verus!

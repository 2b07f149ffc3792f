//! The life of the Foundry Local service: finding it, loading and unloading models, and
//! what is shown of that meanwhile.
//!
//! Three jobs talk to the service: [`Task::initialize`], [`Task::load_model`] and
//! [`Task::unload_model`]. Each is a sequence of stages. A stage says what is to be asked of
//! the service; [`Task::step`] takes the reply, notes in the [`Foundry`] what follows from
//! it, and goes on to the next stage. Asking is up to the caller, and so is what other jobs
//! do to the same [`Foundry`] between two steps.

use vstd::prelude::*;

use crate::config::Config;
use crate::json::model_ids;
#[allow(unused_imports)]
use crate::json::ids_in;
#[allow(unused_imports)]
use crate::proxy::{
    no_model, nothing_is_forwarded_without_url, AdmissionView, ProxyStateView, RequestHeadView,
};
use crate::text::{chars_of, contains, decimal_text, join, trim_end_slashes};
#[allow(unused_imports)]
use crate::text::{
    decimal, end_slashes_gone, has_part, opt_text, part_is_found, texts, without_end_slashes,
};

verus! {

// ── State ────────────────────────────────────────────────────────────────────

/// How far the connection to the service has come.
#[derive(Debug, PartialEq)]
pub enum SdkStatus {
    Uninitialized,
    Initializing,
    Ready,
    Error(String),
}

/// The status as mathematical values.
pub enum SdkStatusView {
    Uninitialized,
    Initializing,
    Ready,
    Error(Seq<char>),
}

impl View for SdkStatus {
    type V = SdkStatusView;

    open spec fn view(&self) -> SdkStatusView {
        match self {
            SdkStatus::Uninitialized => SdkStatusView::Uninitialized,
            SdkStatus::Initializing => SdkStatusView::Initializing,
            SdkStatus::Ready => SdkStatusView::Ready,
            SdkStatus::Error(e) => SdkStatusView::Error(e@),
        }
    }
}

impl Default for SdkStatus {
    fn default() -> (r: Self)
        ensures
            r@ == SdkStatusView::Uninitialized,
    {
        SdkStatus::Uninitialized
    }
}

impl Clone for SdkStatus {
    fn clone(&self) -> (r: Self)
        ensures
            r@ == self@,
    {
        match self {
            SdkStatus::Uninitialized => SdkStatus::Uninitialized,
            SdkStatus::Initializing => SdkStatus::Initializing,
            SdkStatus::Ready => SdkStatus::Ready,
            SdkStatus::Error(e) => SdkStatus::Error(e.clone()),
        }
    }
}

/// A model in the list that is shown.
#[derive(Debug)]
pub struct ModelEntry {
    pub alias: String,
    pub id: String,
    /// The hardware that the model is made for.
    pub device: String,
    pub is_cached: bool,
    pub is_loaded: bool,
}

/// A model in the list, as mathematical values.
pub struct ModelEntryView {
    pub alias: Seq<char>,
    pub id: Seq<char>,
    pub device: Seq<char>,
    pub is_cached: bool,
    pub is_loaded: bool,
}

impl View for ModelEntry {
    type V = ModelEntryView;

    open spec fn view(&self) -> ModelEntryView {
        ModelEntryView {
            alias: self.alias@,
            id: self.id@,
            device: self.device@,
            is_cached: self.is_cached,
            is_loaded: self.is_loaded,
        }
    }
}

impl Default for ModelEntry {
    fn default() -> (r: Self)
        ensures
            r.alias@.len() == 0,
            r.id@.len() == 0,
            r.device@.len() == 0,
            !r.is_cached,
            !r.is_loaded,
    {
        ModelEntry {
            alias: String::new(),
            id: String::new(),
            device: String::new(),
            is_cached: false,
            is_loaded: false,
        }
    }
}

impl Clone for ModelEntry {
    fn clone(&self) -> (r: Self)
        ensures
            r@ == self@,
    {
        ModelEntry {
            alias: self.alias.clone(),
            id: self.id.clone(),
            device: self.device.clone(),
            is_cached: self.is_cached,
            is_loaded: self.is_loaded,
        }
    }
}

/// The models that a list holds.
pub open spec fn entries(list: Seq<ModelEntry>) -> Seq<ModelEntryView> {
    list.map_values(|m: ModelEntry| m@)
}

/// What is known of the service, and shown.
#[derive(Debug)]
pub struct FoundryState {
    pub status: SdkStatus,
    pub models: Vec<ModelEntry>,
    /// The URL of the service, where it serves.
    pub service_url: Option<String>,
    /// What is being done at the moment.
    pub progress_label: Option<String>,
    /// How far it has come, in percent: the bits of a double-precision number.
    pub progress_pct: u64,
    pub last_message: Option<String>,
}

impl Default for FoundryState {
    fn default() -> (r: Self)
        ensures
            r.status@ == SdkStatusView::Uninitialized,
            r.models@.len() == 0,
            r.service_url is None,
            r.progress_label is None,
            r.progress_pct == 0,
            r.last_message is None,
    {
        FoundryState {
            status: SdkStatus::Uninitialized,
            models: Vec::new(),
            service_url: None,
            progress_label: None,
            progress_pct: 0,
            last_message: None,
        }
    }
}

/// The state that is shown, and the URL that the proxy forwards to.
#[derive(Debug)]
pub struct Foundry {
    pub state: FoundryState,
    /// The URL that the proxy forwards to; empty where no model is served.
    pub upstream: String,
}

/// The state and the URL as mathematical values.
pub struct FoundryView {
    pub status: SdkStatusView,
    pub models: Seq<ModelEntryView>,
    pub service_url: Option<Seq<char>>,
    pub progress_label: Option<Seq<char>>,
    pub progress_pct: u64,
    pub last_message: Option<Seq<char>>,
    pub upstream: Seq<char>,
}

impl View for Foundry {
    type V = FoundryView;

    open spec fn view(&self) -> FoundryView {
        FoundryView {
            status: self.state.status@,
            models: entries(self.state.models@),
            service_url: opt_text(self.state.service_url),
            progress_label: opt_text(self.state.progress_label),
            progress_pct: self.state.progress_pct,
            last_message: opt_text(self.state.last_message),
            upstream: self.upstream@,
        }
    }
}

// ── Single changes ───────────────────────────────────────────────────────────

/// A model as the catalog of the service describes it. What the service could not tell is
/// `None`.
#[derive(Debug)]
pub struct CatalogModel {
    pub alias: String,
    pub id: String,
    pub device: Option<String>,
    pub is_cached: Option<bool>,
    pub is_loaded: Option<bool>,
}

/// A model in the catalog, as mathematical values.
pub struct CatalogModelView {
    pub alias: Seq<char>,
    pub id: Seq<char>,
    pub device: Option<Seq<char>>,
    pub is_cached: Option<bool>,
    pub is_loaded: Option<bool>,
}

impl View for CatalogModel {
    type V = CatalogModelView;

    open spec fn view(&self) -> CatalogModelView {
        CatalogModelView {
            alias: self.alias@,
            id: self.id@,
            device: opt_text(self.device),
            is_cached: self.is_cached,
            is_loaded: self.is_loaded,
        }
    }
}

impl CatalogModelView {
    /// The model as it is listed: for the CPU where no device is given, and neither cached
    /// nor loaded where that is not known.
    pub open spec fn listed(self) -> ModelEntryView {
        ModelEntryView {
            alias: self.alias,
            id: self.id,
            device: match self.device {
                Some(d) => d,
                None => "CPU"@,
            },
            is_cached: self.is_cached == Some(true),
            is_loaded: self.is_loaded == Some(true),
        }
    }
}

/// The models that a catalog holds.
pub open spec fn catalog(list: Seq<CatalogModel>) -> Seq<CatalogModelView> {
    list.map_values(|m: CatalogModel| m@)
}

/// The models of a catalog as they are listed.
pub open spec fn listed(list: Seq<CatalogModelView>) -> Seq<ModelEntryView> {
    list.map_values(|m: CatalogModelView| m.listed())
}

/// Whether one of the ids names a model of that alias.
pub open spec fn names_alias(ids: Seq<Seq<char>>, alias: Seq<char>) -> bool {
    exists|i: int| 0 <= i < ids.len() && has_part(#[trigger] ids[i], alias)
}

/// The models, each marked as loaded exactly where one of the ids names it.
pub open spec fn marked(list: Seq<ModelEntryView>, ids: Seq<Seq<char>>) -> Seq<ModelEntryView> {
    list.map_values(
        |m: ModelEntryView| ModelEntryView { is_loaded: names_alias(ids, m.alias), ..m },
    )
}

/// The URL of the model list of a service.
pub open spec fn model_list_url(base: Seq<char>) -> Seq<char> {
    without_end_slashes(base) + "/v1/models"@
}

impl FoundryView {
    pub open spec fn with_progress(self, label: Seq<char>, pct: u64) -> FoundryView {
        FoundryView { progress_label: Some(label), progress_pct: pct, ..self }
    }

    pub open spec fn without_progress(self) -> FoundryView {
        FoundryView { progress_label: None, progress_pct: 0, ..self }
    }

    pub open spec fn with_message(self, message: Seq<char>) -> FoundryView {
        FoundryView { last_message: Some(message), ..self }
    }

    pub open spec fn with_status(self, status: SdkStatusView) -> FoundryView {
        FoundryView { status, ..self }
    }

    /// With a message where there is an error, and unchanged where there is none.
    pub open spec fn with_warning(self, label: Seq<char>, error: Option<Seq<char>>) -> FoundryView {
        match error {
            Some(e) => self.with_message(label + e),
            None => self,
        }
    }

    /// With the first of the URLs as that of the service, where there is one.
    pub open spec fn with_url(self, urls: Option<Seq<Seq<char>>>) -> FoundryView {
        match urls {
            Some(list) => if list.len() > 0 {
                FoundryView { service_url: Some(list[0]), upstream: list[0], ..self }
            } else {
                self
            },
            None => self,
        }
    }

    /// With the search for the service begun.
    pub open spec fn searched(self) -> FoundryView {
        FoundryView { status: SdkStatusView::Initializing, last_message: None, ..self }
    }

    /// With no URL to forward to.
    pub open spec fn without_url(self) -> FoundryView {
        FoundryView { service_url: None, upstream: Seq::empty(), ..self }
    }

    /// With the ids of the loaded models: without a URL where there are none, and with the
    /// models marked otherwise.
    pub open spec fn with_loaded(self, ids: Seq<Seq<char>>) -> FoundryView {
        if ids.len() == 0 {
            self.without_url()
        } else {
            FoundryView { models: marked(self.models, ids), ..self }
        }
    }

    /// With the models of a catalog, or with a message where it could not be read.
    pub open spec fn with_catalog(
        self,
        read: Result<Seq<CatalogModelView>, Seq<char>>,
    ) -> FoundryView {
        match read {
            Ok(list) => FoundryView { models: listed(list), ..self },
            Err(e) => self.with_message("Catalog error: "@ + e),
        }
    }
}

/// The models that a catalog is reported with; none where it could not be read.
pub open spec fn reported(read: Result<Seq<CatalogModelView>, Seq<char>>) -> Seq<ModelEntryView> {
    match read {
        Ok(list) => listed(list),
        Err(_) => Seq::empty(),
    }
}

impl CatalogModel {
    /// The model as it is listed.
    pub fn to_entry(self) -> (r: ModelEntry)
        ensures
            r@ == self@.listed(),
    {
        ModelEntry {
            alias: self.alias,
            id: self.id,
            device: match self.device {
                Some(d) => d,
                None => "CPU".to_owned(),
            },
            is_cached: match self.is_cached {
                Some(b) => b,
                None => false,
            },
            is_loaded: match self.is_loaded {
                Some(b) => b,
                None => false,
            },
        }
    }
}

/// The models of a catalog as they are listed.
fn list_models(models: Vec<CatalogModel>) -> (r: Vec<ModelEntry>)
    ensures
        entries(r@) == listed(catalog(models@)),
{
    let mut r: Vec<ModelEntry> = Vec::new();
    for m in it: models
        invariant
            it.seq() == models@,
            r@.len() == it.index(),
            forall|j: int| 0 <= j < r@.len() ==> (#[trigger] r@[j])@ == models@[j]@.listed(),
    {
        r.push(m.to_entry());
    }
    proof {
        assert(entries(r@) =~= listed(catalog(models@)));
    }
    r
}

fn copy_entries(models: &Vec<ModelEntry>) -> (r: Vec<ModelEntry>)
    ensures
        entries(r@) == entries(models@),
{
    let mut r: Vec<ModelEntry> = Vec::new();
    let mut i: usize = 0;
    while i < models.len()
        invariant
            i <= models@.len(),
            r@.len() == i,
            forall|j: int| 0 <= j < i ==> (#[trigger] r@[j])@ == models@[j]@,
        decreases models@.len() - i,
    {
        r.push(models[i].clone());
        i = i + 1;
    }
    proof {
        assert(entries(r@) =~= entries(models@));
    }
    r
}

/// Whether one of the ids names a model of that alias.
pub fn any_names(ids: &Vec<String>, alias: &str) -> (r: bool)
    ensures
        r == names_alias(texts(ids@), alias@),
{
    let mut i: usize = 0;
    while i < ids.len()
        invariant
            i <= ids@.len(),
            forall|j: int| 0 <= j < i ==> !has_part(#[trigger] texts(ids@)[j], alias@),
        decreases ids@.len() - i,
    {
        if contains(ids[i].as_str(), alias) {
            proof {
                assert(has_part(texts(ids@)[i as int], alias@));
            }
            return true;
        }
        i = i + 1;
    }
    false
}

/// Where to ask a service for its models.
pub fn models_url(base: &str) -> (r: String)
    ensures
        r@ == model_list_url(base@),
{
    let base = trim_end_slashes(base);
    join(base.as_str(), "/v1/models")
}

/// The ids of the loaded models in the reply of a service; none where there was no reply.
pub fn loaded_model_ids(reply: Option<Vec<u8>>) -> (r: Vec<String>)
    ensures
        texts(r@) == (match reply {
            Some(body) => ids_in(body@),
            None => Seq::empty(),
        }),
{
    match reply {
        Some(body) => model_ids(body.as_slice()),
        None => {
            let r: Vec<String> = Vec::new();
            proof {
                assert(texts(r@) =~= Seq::empty());
            }
            r
        },
    }
}

impl Foundry {
    /// Notes what is being done and how far it has come.
    pub fn set_progress(&mut self, label: String, pct: u64)
        ensures
            final(self)@ == old(self)@.with_progress(label@, pct),
    {
        self.state.progress_label = Some(label);
        self.state.progress_pct = pct;
    }

    /// Notes that nothing is being done.
    pub fn clear_progress(&mut self)
        ensures
            final(self)@ == old(self)@.without_progress(),
    {
        self.state.progress_label = None;
        self.state.progress_pct = 0;
    }

    /// Leaves a message.
    pub fn set_message(&mut self, message: String)
        ensures
            final(self)@ == old(self)@.with_message(message@),
    {
        self.state.last_message = Some(message);
    }

    /// Leaves a message where there is an error.
    fn warn(&mut self, label: &str, error: Option<String>)
        ensures
            final(self)@ == old(self)@.with_warning(label@, opt_text(error)),
    {
        if let Some(e) = error {
            self.set_message(join(label, e.as_str()));
        }
    }

    fn set_status(&mut self, status: SdkStatus)
        ensures
            final(self)@ == old(self)@.with_status(status@),
    {
        self.state.status = status;
    }

    /// Takes over the first URL of the service.
    pub fn capture_url(&mut self, urls: Option<Vec<String>>)
        ensures
            final(self)@ == old(self)@.with_url(
                match urls {
                    Some(list) => Some(texts(list@)),
                    None => None,
                },
            ),
    {
        if let Some(list) = urls {
            if list.len() > 0 {
                self.upstream = list[0].clone();
                self.state.service_url = Some(list[0].clone());
            }
        }
    }

    fn clear_url(&mut self)
        ensures
            final(self)@ == old(self)@.without_url(),
    {
        self.upstream = String::new();
        self.state.service_url = None;
        proof {
            assert(self@.upstream =~= Seq::empty());
        }
    }

    /// Takes over which models are loaded: marks them, or forgets the URL where none is.
    pub fn mark_loaded(&mut self, ids: &Vec<String>)
        ensures
            final(self)@ == old(self)@.with_loaded(texts(ids@)),
    {
        if ids.len() == 0 {
            self.clear_url();
            return;
        }
        let mut models: Vec<ModelEntry> = Vec::new();
        let mut i: usize = 0;
        while i < self.state.models.len()
            invariant
                self@ == old(self)@,
                i <= self.state.models@.len(),
                models@.len() == i,
                forall|j: int|
                    0 <= j < i ==> (#[trigger] models@[j])@ == marked(
                        entries(self.state.models@),
                        texts(ids@),
                    )[j],
            decreases self.state.models@.len() - i,
        {
            let mut m = self.state.models[i].clone();
            m.is_loaded = any_names(ids, m.alias.as_str());
            models.push(m);
            i = i + 1;
        }
        proof {
            assert(entries(models@) =~= marked(entries(self.state.models@), texts(ids@)));
        }
        self.state.models = models;
    }

    /// Takes over a catalog, and gives the models to report.
    pub fn refresh_catalog(&mut self, read: Result<Vec<CatalogModel>, String>) -> (r: Vec<
        ModelEntry,
    >)
        ensures
            final(self)@ == old(self)@.with_catalog(read_view(read)),
            entries(r@) == reported(read_view(read)),
    {
        match read {
            Ok(list) => {
                let models = list_models(list);
                let r = copy_entries(&models);
                self.state.models = models;
                r
            },
            Err(e) => {
                self.set_message(join("Catalog error: ", e.as_str()));
                let r: Vec<ModelEntry> = Vec::new();
                proof {
                    assert(entries(r@) =~= Seq::empty());
                }
                r
            },
        }
    }
}

/// A catalog that was read, or the error, as mathematical values.
pub open spec fn read_view(read: Result<Vec<CatalogModel>, String>) -> Result<
    Seq<CatalogModelView>,
    Seq<char>,
> {
    match read {
        Ok(list) => Ok(catalog(list@)),
        Err(e) => Err(e@),
    }
}

/// What the service is connected to with.
#[derive(Debug)]
pub struct ManagerOptions {
    pub app_name: &'static str,
    /// Where the models are kept; empty where the home directory is not known.
    pub model_cache_dir: String,
    /// The name of the setting for the size of the context.
    pub context_setting: &'static str,
    pub context_length: String,
}

/// The path of `part` in the directory `base`: a separator comes between the two, unless
/// `base` is empty or ends in a separator. A slash always is one.
pub open spec fn path_in(base: Seq<char>, separator: char, part: Seq<char>) -> Seq<char> {
    if base.len() == 0 || base.last() == separator || base.last() == '/' {
        base + part
    } else {
        base + seq![separator] + part
    }
}

/// The directory under a home directory in which the service keeps its models,
/// `.foundry/cache`. The command line of the service uses the same.
pub open spec fn model_cache(home: Seq<char>, separator: char) -> Seq<char> {
    path_in(home, separator, ".foundry"@ + seq![separator] + "cache"@)
}

/// The directory in which the service keeps its models, for the home directory and the
/// separator of the platform. It is `home`, `.foundry` and `cache` with a separator between
/// each two, where `home` does not end in one already.
pub fn cache_dir(home: &str, separator: char) -> (r: String)
    ensures
        r@ == model_cache(home@, separator),
        home@.len() > 0 && home@.last() != separator && home@.last() != '/' ==> r@ == home@
            + seq![separator] + ".foundry"@ + seq![separator] + "cache"@,
{
    let mut r = home.to_owned();
    let chars = chars_of(home);
    let n: usize = chars.len();
    if n > 0 && chars[n - 1] != separator && chars[n - 1] != '/' {
        r.push(separator);
    }
    r.append(".foundry");
    r.push(separator);
    r.append("cache");
    proof {
        assert(r@ =~= model_cache(home@, separator));
        assert(model_cache(home@, separator) =~= (if home@.len() == 0 || home@.last() == separator
            || home@.last() == '/' {
            home@ + ".foundry"@ + seq![separator] + "cache"@
        } else {
            home@ + seq![separator] + ".foundry"@ + seq![separator] + "cache"@
        }));
    }
    r
}

/// The options for a connection with a context of that many tokens, from the home directory
/// and the separator of the platform.
pub fn manager_options(home: Option<&str>, separator: char, context_size: u32) -> (r:
    ManagerOptions)
    ensures
        r.app_name@ == "npulama"@,
        r.model_cache_dir@ == (match home {
            Some(h) => model_cache(h@, separator),
            None => Seq::empty(),
        }),
        r.context_setting@ == "context_length"@,
        r.context_length@ == decimal(context_size as nat),
{
    ManagerOptions {
        app_name: "npulama",
        model_cache_dir: match home {
            Some(h) => cache_dir(h, separator),
            None => String::new(),
        },
        context_setting: "context_length",
        context_length: decimal_text(context_size as u64),
    }
}

// ── Jobs ─────────────────────────────────────────────────────────────────────

/// What is to be achieved.
#[derive(Debug)]
pub enum Job {
    /// Find the service and list its models.
    Initialize,
    /// Download a model if it is not there, load it and serve it.
    Load(String),
    /// Unload a model, and stop serving if it was the last.
    Unload(String),
}

/// What is to be achieved, as mathematical values.
pub enum JobView {
    Initialize,
    Load(Seq<char>),
    Unload(Seq<char>),
}

impl View for Job {
    type V = JobView;

    open spec fn view(&self) -> JobView {
        match self {
            Job::Initialize => JobView::Initialize,
            Job::Load(alias) => JobView::Load(alias@),
            Job::Unload(alias) => JobView::Unload(alias@),
        }
    }
}

impl JobView {
    /// The model that the job is about.
    pub open spec fn alias(self) -> Seq<char> {
        match self {
            JobView::Initialize => Seq::empty(),
            JobView::Load(alias) => alias,
            JobView::Unload(alias) => alias,
        }
    }
}

/// What is to be asked of the service next.
#[derive(Debug)]
pub enum Stage {
    /// Connect to the service.
    Manager,
    /// Register the execution providers.
    Providers,
    /// Find the model in the catalog.
    Find,
    /// Is the model cached?
    Cached,
    /// Download the model.
    Download,
    /// Is the model loaded?
    Loaded,
    /// Load the model.
    Load,
    /// Unload the model.
    Unload,
    /// How many models are still loaded?
    StillLoaded,
    /// Stop serving.
    StopService,
    /// Start serving.
    StartService,
    /// Under which URLs does the service serve?
    Urls,
    /// Fetch the model list from this URL.
    Query(String),
    /// Read the catalog.
    Catalog,
    /// Hand these models to whoever asked for the job.
    Report(Vec<ModelEntry>),
    /// Nothing: the job is over.
    Done,
}

/// What is to be asked of the service next, as mathematical values.
pub enum StageView {
    Manager,
    Providers,
    Find,
    Cached,
    Download,
    Loaded,
    Load,
    Unload,
    StillLoaded,
    StopService,
    StartService,
    Urls,
    Query(Seq<char>),
    Catalog,
    Report(Seq<ModelEntryView>),
    Done,
}

impl View for Stage {
    type V = StageView;

    open spec fn view(&self) -> StageView {
        match self {
            Stage::Manager => StageView::Manager,
            Stage::Providers => StageView::Providers,
            Stage::Find => StageView::Find,
            Stage::Cached => StageView::Cached,
            Stage::Download => StageView::Download,
            Stage::Loaded => StageView::Loaded,
            Stage::Load => StageView::Load,
            Stage::Unload => StageView::Unload,
            Stage::StillLoaded => StageView::StillLoaded,
            Stage::StopService => StageView::StopService,
            Stage::StartService => StageView::StartService,
            Stage::Urls => StageView::Urls,
            Stage::Query(url) => StageView::Query(url@),
            Stage::Catalog => StageView::Catalog,
            Stage::Report(models) => StageView::Report(entries(models@)),
            Stage::Done => StageView::Done,
        }
    }
}

/// What came back from the service. An error is given by its text.
#[derive(Debug)]
pub enum Reply {
    /// The connection stands, or why not.
    Connected(Option<String>),
    /// The attempt to connect was lost.
    ConnectionLost(String),
    /// It was done, or why not.
    Outcome(Option<String>),
    /// Yes or no, where the service could tell.
    Flag(Option<bool>),
    /// How many, where the service could tell.
    Count(Option<usize>),
    /// The URLs, where there are any to be had.
    Urls(Option<Vec<String>>),
    /// The body of the model list, where it could be fetched.
    ModelList(Option<Vec<u8>>),
    /// The catalog, or why it could not be read.
    Catalog(Result<Vec<CatalogModel>, String>),
    /// It was done, well or not.
    Finished,
}

/// What came back from the service, as mathematical values.
pub enum ReplyView {
    Connected(Option<Seq<char>>),
    ConnectionLost(Seq<char>),
    Outcome(Option<Seq<char>>),
    Flag(Option<bool>),
    Count(Option<usize>),
    Urls(Option<Seq<Seq<char>>>),
    ModelList(Seq<Seq<char>>),
    Catalog(Result<Seq<CatalogModelView>, Seq<char>>),
    Finished,
}

impl View for Reply {
    type V = ReplyView;

    /// A model list is taken as the ids that stand in it.
    open spec fn view(&self) -> ReplyView {
        match self {
            Reply::Connected(e) => ReplyView::Connected(opt_text(*e)),
            Reply::ConnectionLost(e) => ReplyView::ConnectionLost(e@),
            Reply::Outcome(e) => ReplyView::Outcome(opt_text(*e)),
            Reply::Flag(b) => ReplyView::Flag(*b),
            Reply::Count(n) => ReplyView::Count(*n),
            Reply::Urls(u) => ReplyView::Urls(
                match u {
                    Some(list) => Some(texts(list@)),
                    None => None,
                },
            ),
            Reply::ModelList(b) => ReplyView::ModelList(
                match b {
                    Some(body) => ids_in(body@),
                    None => Seq::empty(),
                },
            ),
            Reply::Catalog(c) => ReplyView::Catalog(read_view(*c)),
            Reply::Finished => ReplyView::Finished,
        }
    }
}

/// A job on its way.
#[derive(Debug)]
pub struct Task {
    pub job: Job,
    pub stage: Stage,
}

/// A job on its way, as mathematical values.
pub struct TaskView {
    pub job: JobView,
    pub stage: StageView,
}

impl View for Task {
    type V = TaskView;

    open spec fn view(&self) -> TaskView {
        TaskView { job: self.job@, stage: self.stage@ }
    }
}

/// Whether a reply is one to what is asked for in a stage.
pub open spec fn answers(stage: StageView, reply: ReplyView) -> bool {
    match stage {
        StageView::Manager => reply is Connected || reply is ConnectionLost,
        StageView::Providers => reply is Outcome,
        StageView::Find => reply is Outcome,
        StageView::Cached => reply is Flag,
        StageView::Download => reply is Outcome,
        StageView::Loaded => reply is Flag,
        StageView::Load => reply is Outcome,
        StageView::Unload => reply is Outcome,
        StageView::StillLoaded => reply is Count,
        StageView::StopService => reply is Finished,
        StageView::StartService => reply is Outcome,
        StageView::Urls => reply is Urls,
        StageView::Query(_) => reply is ModelList,
        StageView::Catalog => reply is Catalog,
        StageView::Report(_) => reply is Finished,
        StageView::Done => false,
    }
}

/// Whether a stage belongs to a job.
pub open spec fn belongs(job: JobView, stage: StageView) -> bool {
    match stage {
        StageView::Manager => true,
        StageView::Providers => job is Initialize,
        StageView::Find => job is Load || job is Unload,
        StageView::Cached => job is Load,
        StageView::Download => job is Load,
        StageView::Loaded => job is Load,
        StageView::Load => job is Load,
        StageView::Unload => job is Unload,
        StageView::StillLoaded => job is Unload,
        StageView::StopService => job is Unload,
        StageView::StartService => job is Initialize || job is Load,
        StageView::Urls => job is Initialize || job is Load,
        StageView::Query(_) => job is Initialize,
        StageView::Catalog => true,
        StageView::Report(_) => true,
        StageView::Done => true,
    }
}

impl TaskView {
    pub open spec fn at(self, stage: StageView) -> TaskView {
        TaskView { stage, ..self }
    }

    /// Whether the stage is one of the job.
    pub open spec fn wf(self) -> bool {
        belongs(self.job, self.stage)
    }

    /// What is known of the service once it was noted how far the registration of an execution
    /// provider, or a download, has come.
    pub open spec fn noted(self, f: FoundryView, provider: Seq<char>, pct: u64) -> FoundryView {
        match self.stage {
            StageView::Providers => f.with_progress("Registering EP: "@ + provider, pct),
            StageView::Download => f.with_progress(
                "Downloading "@ + self.job.alias() + "\u{2026}"@,
                pct,
            ),
            _ => f,
        }
    }

    /// On to the catalog. While the service is found, that is shown as progress.
    pub open spec fn to_catalog(self, f: FoundryView) -> (TaskView, FoundryView) {
        (
            self.at(StageView::Catalog),
            if self.job is Initialize {
                f.with_progress("Loading catalog\u{2026}"@, 0)
            } else {
                f
            },
        )
    }

    /// After the attempt to connect.
    pub open spec fn after_connecting(self, f: FoundryView, reply: ReplyView) -> (
        TaskView,
        FoundryView,
    ) {
        match reply {
            ReplyView::Connected(None) => (
                self.at(
                    if self.job is Initialize {
                        StageView::Providers
                    } else {
                        StageView::Find
                    },
                ),
                f,
            ),
            ReplyView::Connected(Some(e)) => (
                self.at(StageView::Done),
                if self.job is Initialize {
                    f.with_status(SdkStatusView::Error("Foundry Local not available: "@ + e))
                } else {
                    f.with_message("SDK error: "@ + e)
                },
            ),
            ReplyView::ConnectionLost(e) => (
                self.at(StageView::Done),
                if self.job is Initialize {
                    f.with_status(SdkStatusView::Error("Spawn error: "@ + e))
                } else {
                    f
                },
            ),
            _ => (self, f),
        }
    }

    /// After something that ends the job where it fails.
    pub open spec fn after_trying(
        self,
        f: FoundryView,
        label: Seq<char>,
        error: Option<Seq<char>>,
        next: StageView,
    ) -> (TaskView, FoundryView) {
        match error {
            Some(e) => (self.at(StageView::Done), f.with_message(label + e)),
            None => (self.at(next), f),
        }
    }

    /// The job that follows this one at its end: once the service was found, the preferred
    /// model is loaded.
    pub open spec fn next_job(self, f: FoundryView, preferred: Option<Seq<char>>) -> Option<
        TaskView,
    > {
        match preferred {
            Some(alias) => if self.job is Initialize && self.stage is Done && f.status is Ready {
                Some(TaskView { job: JobView::Load(alias), stage: StageView::Manager })
            } else {
                None
            },
            None => None,
        }
    }

    /// After the models were reported.
    pub open spec fn after_reporting(self, f: FoundryView) -> (TaskView, FoundryView) {
        (
            self.at(StageView::Done),
            match self.job {
                JobView::Initialize => f.with_status(SdkStatusView::Ready),
                JobView::Load(alias) => f.with_message(
                    "\u{2713} "@ + alias + " loaded and serving"@,
                ),
                JobView::Unload(alias) => f.with_message("\u{2713} "@ + alias + " unloaded"@),
            },
        )
    }

    /// Where the job and what is known of the service are after a reply.
    pub open spec fn after(self, f: FoundryView, reply: ReplyView) -> (TaskView, FoundryView) {
        let error = match reply {
            ReplyView::Outcome(e) => e,
            _ => None,
        };
        let yes = reply == ReplyView::Flag(Some(true));
        match self.stage {
            StageView::Manager => self.after_connecting(f, reply),
            StageView::Providers => (
                self.at(StageView::StartService),
                f.without_progress().with_warning("EP warning: "@, error),
            ),
            StageView::Find => self.after_trying(
                f,
                "Model '"@ + self.job.alias() + "' not found: "@,
                error,
                if self.job is Load {
                    StageView::Cached
                } else {
                    StageView::Unload
                },
            ),
            StageView::Cached => (
                self.at(
                    if yes {
                        StageView::Loaded
                    } else {
                        StageView::Download
                    },
                ),
                f,
            ),
            StageView::Download => self.after_trying(
                f.without_progress(),
                "Download failed: "@,
                error,
                StageView::Loaded,
            ),
            StageView::Loaded => if yes {
                (self.at(StageView::StartService), f)
            } else {
                (
                    self.at(StageView::Load),
                    f.with_progress("Loading "@ + self.job.alias() + "\u{2026}"@, 0),
                )
            },
            StageView::Load => self.after_trying(
                f.without_progress(),
                "Load failed: "@,
                error,
                StageView::StartService,
            ),
            StageView::Unload => self.after_trying(
                f,
                "Unload failed: "@,
                error,
                StageView::StillLoaded,
            ),
            StageView::StillLoaded => match reply {
                ReplyView::Count(Some(n)) => if n > 0 {
                    self.to_catalog(f)
                } else {
                    (self.at(StageView::StopService), f)
                },
                _ => (self.at(StageView::StopService), f),
            },
            StageView::StopService => self.to_catalog(f.without_url()),
            StageView::StartService => (
                self.at(StageView::Urls),
                f.with_warning(
                    if self.job is Initialize {
                        "Service start warning: "@
                    } else {
                        "Service start failed: "@
                    },
                    error,
                ),
            ),
            StageView::Urls => {
                let g = match reply {
                    ReplyView::Urls(urls) => f.with_url(urls),
                    _ => f,
                };
                if self.job is Initialize && g.upstream.len() > 0 {
                    (self.at(StageView::Query(model_list_url(g.upstream))), g)
                } else {
                    self.to_catalog(g)
                }
            },
            StageView::Query(_) => match reply {
                ReplyView::ModelList(ids) => self.to_catalog(f.with_loaded(ids)),
                _ => self.to_catalog(f),
            },
            StageView::Catalog => match reply {
                ReplyView::Catalog(read) => (
                    self.at(StageView::Report(reported(read))),
                    if self.job is Initialize {
                        f.with_catalog(read).without_progress()
                    } else {
                        f.with_catalog(read)
                    },
                ),
                _ => (self, f),
            },
            StageView::Report(_) => self.after_reporting(f),
            StageView::Done => (self, f),
        }
    }
}

impl Task {
    /// Begins to find the service.
    pub fn initialize(f: &mut Foundry) -> (r: Task)
        ensures
            r@.job is Initialize,
            r@.stage is Manager,
            final(f)@ == old(f)@.searched(),
    {
        f.state.status = SdkStatus::Initializing;
        f.state.last_message = None;
        Task { job: Job::Initialize, stage: Stage::Manager }
    }

    /// Begins to load a model.
    pub fn load_model(alias: String) -> (r: Task)
        ensures
            r@.job == JobView::Load(alias@),
            r@.stage is Manager,
    {
        Task { job: Job::Load(alias), stage: Stage::Manager }
    }

    /// Begins to unload a model.
    pub fn unload_model(alias: String) -> (r: Task)
        ensures
            r@.job == JobView::Unload(alias@),
            r@.stage is Manager,
    {
        Task { job: Job::Unload(alias), stage: Stage::Manager }
    }

    fn is_initialize(&self) -> (r: bool)
        ensures
            r == (self@.job is Initialize),
    {
        match &self.job {
            Job::Initialize => true,
            _ => false,
        }
    }

    fn is_load(&self) -> (r: bool)
        ensures
            r == (self@.job is Load),
    {
        match &self.job {
            Job::Load(_) => true,
            _ => false,
        }
    }

    /// The model that the job is about; empty where it is about none.
    pub fn alias(&self) -> (r: String)
        ensures
            r@ == self@.job.alias(),
    {
        match &self.job {
            Job::Initialize => {
                let r = String::new();
                proof {
                    assert(r@ =~= Seq::empty());
                }
                r
            },
            Job::Load(alias) => alias.clone(),
            Job::Unload(alias) => alias.clone(),
        }
    }

    /// Notes how far the registration of an execution provider, or a download, has come.
    pub fn note_progress(&self, provider: &str, pct: u64, f: &mut Foundry)
        ensures
            final(f)@ == self@.noted(old(f)@, provider@, pct),
    {
        match &self.stage {
            Stage::Providers => {
                f.set_progress(join("Registering EP: ", provider), pct);
            },
            Stage::Download => {
                let mut label = join("Downloading ", self.alias().as_str());
                label.append("\u{2026}");
                f.set_progress(label, pct);
            },
            _ => {},
        }
    }

    fn to_catalog(&mut self, f: &mut Foundry)
        ensures
            (final(self)@, final(f)@) == old(self)@.to_catalog(old(f)@),
    {
        self.stage = Stage::Catalog;
        if self.is_initialize() {
            f.set_progress("Loading catalog\u{2026}".to_owned(), 0);
        }
    }

    fn after_connecting(&mut self, f: &mut Foundry, reply: Reply)
        requires
            reply@ is Connected || reply@ is ConnectionLost,
        ensures
            (final(self)@, final(f)@) == old(self)@.after_connecting(old(f)@, reply@),
    {
        let initialize = self.is_initialize();
        match reply {
            Reply::Connected(None) => {
                self.stage = if initialize {
                    Stage::Providers
                } else {
                    Stage::Find
                };
            },
            Reply::Connected(Some(e)) => {
                self.stage = Stage::Done;
                if initialize {
                    f.set_status(
                        SdkStatus::Error(join("Foundry Local not available: ", e.as_str())),
                    );
                } else {
                    f.set_message(join("SDK error: ", e.as_str()));
                }
            },
            Reply::ConnectionLost(e) => {
                self.stage = Stage::Done;
                if initialize {
                    f.set_status(SdkStatus::Error(join("Spawn error: ", e.as_str())));
                }
            },
            _ => {},
        }
    }

    fn after_trying(&mut self, f: &mut Foundry, label: &str, error: Option<String>, next: Stage)
        ensures
            (final(self)@, final(f)@) == old(self)@.after_trying(
                old(f)@,
                label@,
                opt_text(error),
                next@,
            ),
    {
        match error {
            Some(e) => {
                self.stage = Stage::Done;
                f.set_message(join(label, e.as_str()));
            },
            None => {
                self.stage = next;
            },
        }
    }

    fn after_reporting(&mut self, f: &mut Foundry)
        ensures
            (final(self)@, final(f)@) == old(self)@.after_reporting(old(f)@),
    {
        match &self.job {
            Job::Initialize => {
                f.set_status(SdkStatus::Ready);
            },
            Job::Load(alias) => {
                let mut message = join("\u{2713} ", alias.as_str());
                message.append(" loaded and serving");
                f.set_message(message);
            },
            Job::Unload(alias) => {
                let mut message = join("\u{2713} ", alias.as_str());
                message.append(" unloaded");
                f.set_message(message);
            },
        }
        self.stage = Stage::Done;
    }

    /// The job that follows this one at its end, with these settings: once the service was
    /// found, the preferred model is loaded.
    pub fn next_job(&self, f: &Foundry, config: &Config) -> (r: Option<Task>)
        ensures
            (match r {
                Some(t) => Some(t@),
                None => None,
            }) == self@.next_job(f@, config@.preferred_model),
    {
        match (&self.job, &self.stage, &f.state.status, &config.preferred_model) {
            (Job::Initialize, Stage::Done, SdkStatus::Ready, Some(alias)) => Some(
                Task::load_model(alias.clone()),
            ),
            _ => None,
        }
    }

    /// Whether a reply is one to what is asked for.
    pub fn awaits(&self, reply: &Reply) -> (r: bool)
        ensures
            r == answers(self@.stage, reply@),
    {
        match (&self.stage, reply) {
            (Stage::Manager, Reply::Connected(_)) => true,
            (Stage::Manager, Reply::ConnectionLost(_)) => true,
            (Stage::Providers, Reply::Outcome(_)) => true,
            (Stage::Find, Reply::Outcome(_)) => true,
            (Stage::Cached, Reply::Flag(_)) => true,
            (Stage::Download, Reply::Outcome(_)) => true,
            (Stage::Loaded, Reply::Flag(_)) => true,
            (Stage::Load, Reply::Outcome(_)) => true,
            (Stage::Unload, Reply::Outcome(_)) => true,
            (Stage::StillLoaded, Reply::Count(_)) => true,
            (Stage::StopService, Reply::Finished) => true,
            (Stage::StartService, Reply::Outcome(_)) => true,
            (Stage::Urls, Reply::Urls(_)) => true,
            (Stage::Query(_), Reply::ModelList(_)) => true,
            (Stage::Catalog, Reply::Catalog(_)) => true,
            (Stage::Report(_), Reply::Finished) => true,
            _ => false,
        }
    }

    /// Takes the reply to what was asked for: notes what follows from it, and goes on to
    /// what is to be asked for next.
    pub fn step(&mut self, f: &mut Foundry, reply: Reply)
        requires
            answers(old(self)@.stage, reply@),
        ensures
            (final(self)@, final(f)@) == old(self)@.after(old(f)@, reply@),
    {
        let load = self.is_load();
        match (&self.stage, reply) {
            (Stage::Providers, Reply::Outcome(error)) => {
                f.clear_progress();
                f.warn("EP warning: ", error);
                self.stage = Stage::StartService;
            },
            (Stage::Find, Reply::Outcome(error)) => {
                let mut label = join("Model '", self.alias().as_str());
                label.append("' not found: ");
                let next = if load {
                    Stage::Cached
                } else {
                    Stage::Unload
                };
                self.after_trying(f, label.as_str(), error, next);
            },
            (Stage::Cached, Reply::Flag(flag)) => {
                self.stage = if flag == Some(true) {
                    Stage::Loaded
                } else {
                    Stage::Download
                };
            },
            (Stage::Download, Reply::Outcome(error)) => {
                f.clear_progress();
                self.after_trying(f, "Download failed: ", error, Stage::Loaded);
            },
            (Stage::Loaded, Reply::Flag(flag)) => {
                if flag == Some(true) {
                    self.stage = Stage::StartService;
                } else {
                    let mut label = join("Loading ", self.alias().as_str());
                    label.append("\u{2026}");
                    f.set_progress(label, 0);
                    self.stage = Stage::Load;
                }
            },
            (Stage::Load, Reply::Outcome(error)) => {
                f.clear_progress();
                self.after_trying(f, "Load failed: ", error, Stage::StartService);
            },
            (Stage::Unload, Reply::Outcome(error)) => {
                self.after_trying(f, "Unload failed: ", error, Stage::StillLoaded);
            },
            (Stage::StillLoaded, Reply::Count(count)) => {
                let some = match count {
                    Some(n) => n > 0,
                    None => false,
                };
                if some {
                    self.to_catalog(f);
                } else {
                    self.stage = Stage::StopService;
                }
            },
            (Stage::StopService, Reply::Finished) => {
                f.clear_url();
                self.to_catalog(f);
            },
            (Stage::StartService, Reply::Outcome(error)) => {
                if self.is_initialize() {
                    f.warn("Service start warning: ", error);
                } else {
                    f.warn("Service start failed: ", error);
                }
                self.stage = Stage::Urls;
            },
            (Stage::Urls, Reply::Urls(urls)) => {
                f.capture_url(urls);
                if self.is_initialize() && !f.upstream.as_str().is_empty() {
                    self.stage = Stage::Query(models_url(f.upstream.as_str()));
                } else {
                    self.to_catalog(f);
                }
            },
            (Stage::Query(_), Reply::ModelList(body)) => {
                let ids = loaded_model_ids(body);
                f.mark_loaded(&ids);
                self.to_catalog(f);
            },
            (Stage::Catalog, Reply::Catalog(read)) => {
                let models = f.refresh_catalog(read);
                if self.is_initialize() {
                    f.clear_progress();
                }
                self.stage = Stage::Report(models);
            },
            (Stage::Report(_), Reply::Finished) => {
                self.after_reporting(f);
            },
            (Stage::Manager, reply) => {
                self.after_connecting(f, reply);
            },
            _ => {},
        }
    }
}

// ── Laws ─────────────────────────────────────────────────────────────────────

/// How many stages may still follow.
pub open spec fn stages_left(stage: StageView) -> nat {
    match stage {
        StageView::Manager => 12,
        StageView::Find => 11,
        StageView::Cached => 10,
        StageView::Download => 9,
        StageView::Loaded => 8,
        StageView::Load => 7,
        StageView::Providers => 7,
        StageView::StartService => 6,
        StageView::Unload => 6,
        StageView::Urls => 5,
        StageView::StillLoaded => 5,
        StageView::Query(_) => 4,
        StageView::StopService => 4,
        StageView::Catalog => 3,
        StageView::Report(_) => 2,
        StageView::Done => 0,
    }
}

/// Every reply brings a job nearer to its end, whatever the service replies.
pub proof fn every_job_ends(task: TaskView, f: FoundryView, reply: ReplyView)
    requires
        answers(task.stage, reply),
    ensures
        stages_left(task.after(f, reply).0.stage) < stages_left(task.stage),
{
}

/// A job stays the job that it is, and goes through its own stages only.
pub proof fn job_keeps_its_stages(task: TaskView, f: FoundryView, reply: ReplyView)
    requires
        task.wf(),
        answers(task.stage, reply),
    ensures
        task.after(f, reply).0.job == task.job,
        task.after(f, reply).0.wf(),
{
}

/// When the search for the service is over, it is known to be ready, or what is wrong.
pub proof fn initialization_settles_status(task: TaskView, f: FoundryView, reply: ReplyView)
    requires
        task.wf(),
        task.job is Initialize,
        answers(task.stage, reply),
        task.after(f, reply).0.stage is Done,
    ensures
        task.after(f, reply).1.status is Ready || task.after(f, reply).1.status is Error,
{
}

/// Loading or unloading a model never changes the status of the service.
pub proof fn models_leave_status_alone(task: TaskView, f: FoundryView, reply: ReplyView)
    requires
        task.wf(),
        !(task.job is Initialize),
        answers(task.stage, reply),
    ensures
        task.after(f, reply).1.status == f.status,
{
}

/// The proxy forwards to the URL that is shown for the service.
pub open spec fn url_is_shown(f: FoundryView) -> bool {
    f.service_url matches Some(url) ==> f.upstream == url
}

/// Where the proxy forwards to the URL that is shown, it still does after every reply.
pub proof fn shown_url_is_forwarded_to(task: TaskView, f: FoundryView, reply: ReplyView)
    requires
        url_is_shown(f),
        answers(task.stage, reply),
    ensures
        url_is_shown(task.after(f, reply).1),
{
}

/// Once serving was stopped because no model is loaded, there is nothing to forward to.
pub proof fn stopped_service_is_not_forwarded_to(task: TaskView, f: FoundryView)
    requires
        task.stage is StopService,
    ensures
        task.after(f, ReplyView::Finished).1.upstream.len() == 0,
        task.after(f, ReplyView::Finished).1.service_url is None,
{
}

/// Once serving was stopped because no model is loaded, or was found to have no model loaded,
/// a proxy that forwards to where the jobs say answers 503 to what it would forward.
pub proof fn no_model_is_told(
    task: TaskView,
    f: FoundryView,
    reply: ReplyView,
    state: ProxyStateView,
    head: RequestHeadView,
)
    requires
        task.stage is StopService && reply is Finished || task.stage is Query && reply
            == ReplyView::ModelList(Seq::empty()),
        state.upstream_url == task.after(f, reply).1.upstream,
        head.method != "OPTIONS"@,
        state.authorizes(head.headers),
    ensures
        state.admission(head) == AdmissionView::Answer(no_model()),
        no_model().status == 503,
{
    nothing_is_forwarded_without_url(state, head);
}

/// When the service was found, the preferred model is loaded next, where there is one;
/// nothing follows a failed search, nor the loading or unloading of a model.
pub proof fn preferred_model_is_loaded(
    task: TaskView,
    f: FoundryView,
    reply: ReplyView,
    preferred: Option<Seq<char>>,
)
    requires
        task.wf(),
        answers(task.stage, reply),
        task.after(f, reply).0.stage is Done,
    ensures
        ({
            let end = task.after(f, reply);
            let next = end.0.next_job(end.1, preferred);
            &&& task.job is Initialize && end.1.status is Ready ==> match preferred {
                Some(alias) => next matches Some(t) && t.job == JobView::Load(alias)
                    && t.stage is Manager && t.wf(),
                None => next is None,
            }
            &&& end.1.status is Error ==> next is None
            &&& !(task.job is Initialize) ==> next is None
        }),
{
}

/// A model is marked as loaded exactly where the service lists an id that holds its alias;
/// where it lists none, there is nothing to forward to.
pub proof fn model_list_marks_models(
    task: TaskView,
    f: FoundryView,
    ids: Seq<Seq<char>>,
    i: int,
)
    requires
        task.stage is Query,
        0 <= i < f.models.len(),
    ensures
        ({
            let g = task.after(f, ReplyView::ModelList(ids)).1;
            &&& ids.len() > 0 ==> g.models.len() == f.models.len() && g.models[i].alias
                == f.models[i].alias && g.models[i].is_loaded == names_alias(
                ids,
                f.models[i].alias,
            ) && g.upstream == f.upstream
            &&& ids.len() == 0 ==> g.models == f.models && g.upstream.len() == 0
        }),
{
}

/// Whether progress is shown only while there is something to show progress of.
pub open spec fn progress_is_current(task: TaskView, f: FoundryView) -> bool {
    f.progress_label is Some ==> {
        ||| task.stage is Providers
        ||| task.stage is Download
        ||| task.stage is Load
        ||| task.stage is Catalog && task.job is Initialize
    }
}

/// A job that has the state to itself leaves no progress behind: it is shown only while
/// providers are registered, a model is downloaded or loaded, or the catalog is read for the
/// first time.
pub proof fn progress_is_cleared(task: TaskView, f: FoundryView, reply: ReplyView)
    requires
        task.wf(),
        answers(task.stage, reply),
        progress_is_current(task, f),
    ensures
        progress_is_current(task.after(f, reply).0, task.after(f, reply).1),
        task.after(f, reply).0.stage is Done ==> task.after(f, reply).1.progress_label is None,
{
}

/// The models that are reported are those that are listed, where the catalog could be read.
pub proof fn reported_models_are_listed(
    task: TaskView,
    f: FoundryView,
    list: Seq<CatalogModelView>,
)
    requires
        task.stage is Catalog,
    ensures
        task.after(f, ReplyView::Catalog(Ok(list))).0.stage == StageView::Report(
            task.after(f, ReplyView::Catalog(Ok(list))).1.models,
        ),
        task.after(f, ReplyView::Catalog(Ok(list))).1.models == listed(list),
{
}

/// Whether each reply is one to what the job asks for when it comes.
pub open spec fn fits(task: TaskView, f: FoundryView, replies: Seq<ReplyView>) -> bool
    decreases replies.len(),
{
    replies.len() > 0 ==> {
        let next = task.after(f, replies[0]);
        answers(task.stage, replies[0]) && fits(next.0, next.1, replies.drop_first())
    }
}

/// Where a job that has the state to itself is after a number of replies.
pub open spec fn run(task: TaskView, f: FoundryView, replies: Seq<ReplyView>) -> (
    TaskView,
    FoundryView,
)
    decreases replies.len(),
{
    if replies.len() == 0 {
        (task, f)
    } else {
        let next = task.after(f, replies[0]);
        run(next.0, next.1, replies.drop_first())
    }
}

/// A job is over after at most twelve replies. It then shows no progress, the proxy
/// forwards to the URL that is shown, and the search for the service has settled the status.
pub proof fn finished_job(task: TaskView, f: FoundryView, replies: Seq<ReplyView>)
    requires
        task.wf(),
        fits(task, f, replies),
        progress_is_current(task, f),
        url_is_shown(f),
    ensures
        replies.len() <= stages_left(task.stage) <= 12,
        url_is_shown(run(task, f, replies).1),
        run(task, f, replies).0.job == task.job,
        run(task, f, replies).0.stage is Done && replies.len() > 0 ==> {
            &&& run(task, f, replies).1.progress_label is None
            &&& task.job is Initialize ==> (run(task, f, replies).1.status is Ready || run(
                task,
                f,
                replies,
            ).1.status is Error)
        },
    decreases replies.len(),
{
    if replies.len() > 0 {
        let next = task.after(f, replies[0]);
        every_job_ends(task, f, replies[0]);
        job_keeps_its_stages(task, f, replies[0]);
        shown_url_is_forwarded_to(task, f, replies[0]);
        progress_is_cleared(task, f, replies[0]);
        finished_job(next.0, next.1, replies.drop_first());
        if replies.len() == 1 && next.0.stage is Done && task.job is Initialize {
            initialization_settles_status(task, f, replies[0]);
        }
    }
}

/// Connecting leads the search on to the providers and the other jobs on to their model. Where
/// it fails, the job is over: the search has an error for its status, the others leave a
/// message, or nothing where the attempt was lost.
pub proof fn connecting(task: TaskView, f: FoundryView, e: Seq<char>)
    requires
        task.stage is Manager,
    ensures
        task.job is Initialize ==> {
            &&& task.after(f, ReplyView::Connected(None)) == (
                TaskView { stage: StageView::Providers, ..task },
                f,
            )
            &&& task.after(f, ReplyView::Connected(Some(e))) == (
                TaskView { stage: StageView::Done, ..task },
                FoundryView {
                    status: SdkStatusView::Error("Foundry Local not available: "@ + e),
                    ..f
                },
            )
            &&& task.after(f, ReplyView::ConnectionLost(e)) == (
                TaskView { stage: StageView::Done, ..task },
                FoundryView { status: SdkStatusView::Error("Spawn error: "@ + e), ..f },
            )
        },
        !(task.job is Initialize) ==> {
            &&& task.after(f, ReplyView::Connected(None)) == (
                TaskView { stage: StageView::Find, ..task },
                f,
            )
            &&& task.after(f, ReplyView::Connected(Some(e))) == (
                TaskView { stage: StageView::Done, ..task },
                FoundryView { last_message: Some("SDK error: "@ + e), ..f },
            )
            &&& task.after(f, ReplyView::ConnectionLost(e)) == (
                TaskView { stage: StageView::Done, ..task },
                f,
            )
        },
{
}

/// Providers that cannot be registered are no reason to stop: a warning is left, and serving is
/// started all the same.
pub proof fn providers_are_not_needed(task: TaskView, f: FoundryView, e: Seq<char>)
    requires
        task.stage is Providers,
    ensures
        task.after(f, ReplyView::Outcome(None)) == (
            TaskView { stage: StageView::StartService, ..task },
            FoundryView { progress_label: None, progress_pct: 0, ..f },
        ),
        task.after(f, ReplyView::Outcome(Some(e))) == (
            TaskView { stage: StageView::StartService, ..task },
            FoundryView {
                progress_label: None,
                progress_pct: 0,
                last_message: Some("EP warning: "@ + e),
                ..f
            },
        ),
{
}

/// A model that is found is loaded or unloaded; one that is not found ends the job with a
/// message that names it.
pub proof fn model_is_looked_up(task: TaskView, f: FoundryView, alias: Seq<char>, e: Seq<char>)
    requires
        task.stage is Find,
        task.job == JobView::Load(alias) || task.job == JobView::Unload(alias),
    ensures
        task.job is Load ==> task.after(f, ReplyView::Outcome(None)) == (
            TaskView { stage: StageView::Cached, ..task },
            f,
        ),
        task.job is Unload ==> task.after(f, ReplyView::Outcome(None)) == (
            TaskView { stage: StageView::Unload, ..task },
            f,
        ),
        task.after(f, ReplyView::Outcome(Some(e))) == (
            TaskView { stage: StageView::Done, ..task },
            FoundryView {
                last_message: Some("Model '"@ + alias + "' not found: "@ + e),
                ..f
            },
        ),
        task.job.alias() == alias,
{
}

/// A model is downloaded unless it is known to be there. A download that failed ends the job.
pub proof fn model_is_downloaded_if_needed(task: TaskView, f: FoundryView, e: Seq<char>)
    ensures
        task.stage is Cached ==> {
            &&& task.after(f, ReplyView::Flag(Some(true))) == (
                TaskView { stage: StageView::Loaded, ..task },
                f,
            )
            &&& task.after(f, ReplyView::Flag(Some(false))) == (
                TaskView { stage: StageView::Download, ..task },
                f,
            )
            &&& task.after(f, ReplyView::Flag(None)) == (
                TaskView { stage: StageView::Download, ..task },
                f,
            )
        },
        task.stage is Download ==> {
            &&& task.after(f, ReplyView::Outcome(None)) == (
                TaskView { stage: StageView::Loaded, ..task },
                FoundryView { progress_label: None, progress_pct: 0, ..f },
            )
            &&& task.after(f, ReplyView::Outcome(Some(e))) == (
                TaskView { stage: StageView::Done, ..task },
                FoundryView {
                    progress_label: None,
                    progress_pct: 0,
                    last_message: Some("Download failed: "@ + e),
                    ..f
                },
            )
        },
{
}

/// A model is loaded unless it is known to be; meanwhile that is shown, by its name. Where that
/// fails, the job is over; else serving is started.
pub proof fn model_is_loaded_if_needed(
    task: TaskView,
    f: FoundryView,
    alias: Seq<char>,
    known: Option<bool>,
    e: Seq<char>,
)
    requires
        task.job == JobView::Load(alias),
    ensures
        task.stage is Loaded && known == Some(true) ==> task.after(f, ReplyView::Flag(known)) == (
            TaskView { stage: StageView::StartService, ..task },
            f,
        ),
        task.stage is Loaded && known != Some(true) ==> task.after(f, ReplyView::Flag(known)) == (
            TaskView { stage: StageView::Load, ..task },
            FoundryView {
                progress_label: Some("Loading "@ + alias + "\u{2026}"@),
                progress_pct: 0,
                ..f
            },
        ),
        task.stage is Load ==> task.after(f, ReplyView::Outcome(None)) == (
            TaskView { stage: StageView::StartService, ..task },
            FoundryView { progress_label: None, progress_pct: 0, ..f },
        ),
        task.stage is Load ==> task.after(f, ReplyView::Outcome(Some(e))) == (
            TaskView { stage: StageView::Done, ..task },
            FoundryView {
                progress_label: None,
                progress_pct: 0,
                last_message: Some("Load failed: "@ + e),
                ..f
            },
        ),
{
}

/// A model that could not be unloaded ends the job; else it is asked what is still loaded.
pub proof fn unloading(task: TaskView, f: FoundryView, e: Seq<char>)
    requires
        task.stage is Unload,
    ensures
        task.after(f, ReplyView::Outcome(None)) == (
            TaskView { stage: StageView::StillLoaded, ..task },
            f,
        ),
        task.after(f, ReplyView::Outcome(Some(e))) == (
            TaskView { stage: StageView::Done, ..task },
            FoundryView { last_message: Some("Unload failed: "@ + e), ..f },
        ),
{
}

/// After a model was unloaded, serving is stopped exactly where no other is loaded, or none is
/// known to be. Where one is, the service goes on, and is forwarded to as before.
pub proof fn service_goes_on_for_loaded_models(
    task: TaskView,
    f: FoundryView,
    count: Option<usize>,
)
    requires
        task.stage is StillLoaded,
        task.wf(),
    ensures
        ({
            let next = task.after(f, ReplyView::Count(count));
            &&& next.0.stage is StopService <==> count is None || count == Some(0usize)
            &&& next.0.stage is Catalog <==> (count matches Some(n) && n >= 1)
            &&& next.0.job == task.job
            &&& next.1 == f
        }),
{
}

/// Stopping clears the URL that is shown and the one that is forwarded to, and nothing else;
/// then the catalog is read.
pub proof fn stopping_clears_the_url(task: TaskView, f: FoundryView)
    requires
        task.stage is StopService,
        task.wf(),
    ensures
        task.after(f, ReplyView::Finished) == (
            TaskView { stage: StageView::Catalog, ..task },
            FoundryView { service_url: None, upstream: Seq::empty(), ..f },
        ),
{
}

/// A service that could not be started leaves a message, and its URLs are asked for all the
/// same.
pub proof fn starting_leaves_a_warning(task: TaskView, f: FoundryView, e: Seq<char>)
    requires
        task.stage is StartService,
    ensures
        task.after(f, ReplyView::Outcome(None)) == (
            TaskView { stage: StageView::Urls, ..task },
            f,
        ),
        task.job is Initialize ==> task.after(f, ReplyView::Outcome(Some(e))) == (
            TaskView { stage: StageView::Urls, ..task },
            FoundryView { last_message: Some("Service start warning: "@ + e), ..f },
        ),
        !(task.job is Initialize) ==> task.after(f, ReplyView::Outcome(Some(e))) == (
            TaskView { stage: StageView::Urls, ..task },
            FoundryView { last_message: Some("Service start failed: "@ + e), ..f },
        ),
{
}

/// The first URL of the service is shown and forwarded to; where there is none, what was known
/// stays. The search then asks that URL for its models, where it has one; the other jobs go on
/// to the catalog.
pub proof fn first_url_is_captured(
    task: TaskView,
    f: FoundryView,
    urls: Option<Seq<Seq<char>>>,
)
    requires
        task.stage is Urls,
    ensures
        ({
            let next = task.after(f, ReplyView::Urls(urls));
            let there = urls matches Some(list) && list.len() > 0;
            let known = FoundryView {
                progress_label: f.progress_label,
                progress_pct: f.progress_pct,
                ..next.1
            };
            &&& there ==> known == FoundryView {
                service_url: Some(urls.unwrap()[0]),
                upstream: urls.unwrap()[0],
                ..f
            }
            &&& !there ==> known == f
            &&& next.0.job == task.job
            &&& task.job is Initialize && next.1.upstream.len() > 0 ==> next.0.stage
                == StageView::Query(model_list_url(next.1.upstream)) && next.1.progress_label
                == f.progress_label && next.1.progress_pct == f.progress_pct
            &&& !(task.job is Initialize) ==> next.0.stage is Catalog && next.1.progress_label
                == f.progress_label && next.1.progress_pct == f.progress_pct
            &&& task.job is Initialize && next.1.upstream.len() == 0 ==> next.0.stage is Catalog
                && next.1.progress_label == Some("Loading catalog\u{2026}"@)
                && next.1.progress_pct == 0
        }),
        f.with_url(urls) == (if urls matches Some(list) && list.len() > 0 {
            FoundryView {
                service_url: Some(urls.unwrap()[0]),
                upstream: urls.unwrap()[0],
                ..f
            }
        } else {
            f
        }),
{
}

/// The model list of a service is under `/v1/models`; slashes at the end of its URL make no
/// difference.
pub proof fn model_list_is_under_the_url(base: Seq<char>)
    ensures
        ({
            let url = model_list_url(base);
            let n = url.len() - 10;
            &&& 0 <= n <= base.len()
            &&& url.skip(n) == "/v1/models"@
            &&& url.take(n) == base.take(n)
            &&& n > 0 ==> url[n - 1] != '/'
            &&& forall|k: int| n <= k < base.len() ==> (#[trigger] base[k]) == '/'
        }),
{
    reveal_strlit("/v1/models");
    end_slashes_gone(base);
    let front = without_end_slashes(base);
    let url = model_list_url(base);
    assert(url.skip(front.len() as int) =~= "/v1/models"@);
    assert(url.take(front.len() as int) =~= front);
    if front.len() > 0 {
        assert(url[front.len() - 1] == front.last());
    }
}

/// The reply to a model list leads on to the catalog. Where it lists models, these are marked
/// and nothing else changes; where it lists none, only the URLs are cleared.
pub proof fn model_list_is_taken_over(task: TaskView, f: FoundryView, ids: Seq<Seq<char>>)
    requires
        task.stage is Query,
        task.job is Initialize,
    ensures
        ({
            let next = task.after(f, ReplyView::ModelList(ids));
            &&& next.0.stage is Catalog
            &&& next.0.job == task.job
            &&& ids.len() == 0 ==> next.1 == FoundryView {
                service_url: None,
                upstream: Seq::empty(),
                progress_label: Some("Loading catalog\u{2026}"@),
                progress_pct: 0,
                ..f
            }
            &&& ids.len() > 0 ==> next.1 == FoundryView {
                models: next.1.models,
                progress_label: Some("Loading catalog\u{2026}"@),
                progress_pct: 0,
                ..f
            }
        }),
        ids.len() == 0 ==> f.with_loaded(ids) == (FoundryView {
            service_url: None,
            upstream: Seq::empty(),
            ..f
        }),
        ids.len() > 0 ==> f.with_loaded(ids) == (FoundryView {
            models: f.with_loaded(ids).models,
            ..f
        }) && f.with_loaded(ids).models == task.after(f, ReplyView::ModelList(ids)).1.models,
{
}

/// A model is loaded where its alias stands somewhere in one of the ids that the service lists,
/// and only there; its other parts stay, and so does the order.
pub proof fn listed_models_are_loaded(
    f: FoundryView,
    ids: Seq<Seq<char>>,
    i: int,
    j: int,
    before: Seq<char>,
    after: Seq<char>,
)
    requires
        0 <= i < f.models.len(),
        ids.len() > 0,
    ensures
        ({
            let m = f.with_loaded(ids).models[i];
            let alias = f.models[i].alias;
            &&& f.with_loaded(ids).models.len() == f.models.len()
            &&& m.alias == alias
            &&& m.id == f.models[i].id
            &&& m.device == f.models[i].device
            &&& m.is_cached == f.models[i].is_cached
            &&& 0 <= j < ids.len() && ids[j] == before + alias + after ==> m.is_loaded
            &&& m.is_loaded ==> exists|k: int|
                0 <= k < ids.len() && has_part(#[trigger] ids[k], alias)
        }),
        0 <= j < ids.len() && ids[j] == before + f.models[i].alias + after ==> names_alias(
            ids,
            f.models[i].alias,
        ),
{
    part_is_found(before, f.models[i].alias, after);
}

/// The catalog, once read, is what is listed and what is reported; where it could not be read,
/// a message is left, nothing is reported, and the list stays. Progress is cleared by the search
/// only.
pub proof fn catalog_is_taken_over(
    task: TaskView,
    f: FoundryView,
    list: Seq<CatalogModelView>,
    e: Seq<char>,
)
    requires
        task.stage is Catalog,
    ensures
        ({
            let read = task.after(f, ReplyView::Catalog(Ok(list)));
            let failed = task.after(f, ReplyView::Catalog(Err(e)));
            let label = if task.job is Initialize {
                None
            } else {
                f.progress_label
            };
            let pct = if task.job is Initialize {
                0
            } else {
                f.progress_pct
            };
            &&& read.0 == TaskView { stage: StageView::Report(read.1.models), ..task }
            &&& read.1 == FoundryView {
                models: read.1.models,
                progress_label: label,
                progress_pct: pct,
                ..f
            }
            &&& read.1.models == listed(list)
            &&& failed.0 == TaskView { stage: StageView::Report(Seq::empty()), ..task }
            &&& failed.1 == FoundryView {
                last_message: Some("Catalog error: "@ + e),
                progress_label: label,
                progress_pct: pct,
                ..f
            }
        }),
        f.with_catalog(Ok(list)) == (FoundryView { models: listed(list), ..f }),
        f.with_catalog(Err(e)) == (FoundryView {
            last_message: Some("Catalog error: "@ + e),
            ..f
        }),
        reported(Ok(list)) == listed(list),
        reported(Err(e)).len() == 0,
{
}

/// Every model of the catalog is listed, in its order, under its alias and id; for the device
/// that it names, or the CPU; and as cached or loaded only where that is known.
pub proof fn models_are_listed_as_they_are(list: Seq<CatalogModelView>, i: int)
    requires
        0 <= i < list.len(),
    ensures
        listed(list).len() == list.len(),
        listed(list)[i].alias == list[i].alias,
        listed(list)[i].id == list[i].id,
        list[i].device matches Some(d) ==> listed(list)[i].device == d,
        list[i].device is None ==> listed(list)[i].device == "CPU"@,
        listed(list)[i].is_cached <==> list[i].is_cached == Some(true),
        listed(list)[i].is_loaded <==> list[i].is_loaded == Some(true),
        list[i].listed() == listed(list)[i],
{
}

/// Once the models were reported, the job is over: the search has found the service, and the
/// other jobs leave a message that names their model.
pub proof fn reporting_ends_the_job(task: TaskView, f: FoundryView, alias: Seq<char>)
    requires
        task.stage is Report,
    ensures
        ({
            let next = task.after(f, ReplyView::Finished);
            &&& next.0 == TaskView { stage: StageView::Done, ..task }
            &&& task.job is Initialize ==> next.1 == FoundryView {
                status: SdkStatusView::Ready,
                ..f
            }
            &&& task.job == JobView::Load(alias) ==> next.1 == FoundryView {
                last_message: Some("\u{2713} "@ + alias + " loaded and serving"@),
                ..f
            }
            &&& task.job == JobView::Unload(alias) ==> next.1 == FoundryView {
                last_message: Some("\u{2713} "@ + alias + " unloaded"@),
                ..f
            }
        }),
{
}

/// Noting progress, ending it, and leaving a message each change only what they are about.
pub proof fn single_changes(
    f: FoundryView,
    label: Seq<char>,
    pct: u64,
    message: Seq<char>,
    status: SdkStatusView,
)
    ensures
        f.with_progress(label, pct) == (FoundryView {
            progress_label: Some(label),
            progress_pct: pct,
            ..f
        }),
        f.without_progress() == (FoundryView { progress_label: None, progress_pct: 0, ..f }),
        f.with_message(message) == (FoundryView { last_message: Some(message), ..f }),
        f.with_status(status) == (FoundryView { status, ..f }),
        f.without_url() == (FoundryView { service_url: None, upstream: Seq::empty(), ..f }),
        f.with_warning(label, Some(message)) == (FoundryView {
            last_message: Some(label + message),
            ..f
        }),
        f.with_warning(label, None) == f,
{
}

/// What fits as a reply to each stage: an answer of its kind, whatever it says. A job that is
/// over awaits none.
pub proof fn every_answer_is_awaited(stage: StageView, reply: ReplyView)
    ensures
        stage is Manager ==> (answers(stage, reply) <==> reply is Connected
            || reply is ConnectionLost),
        stage is Providers || stage is Find || stage is Download || stage is Load || stage is Unload
            || stage is StartService ==> (answers(stage, reply) <==> reply is Outcome),
        stage is Cached || stage is Loaded ==> (answers(stage, reply) <==> reply is Flag),
        stage is StillLoaded ==> (answers(stage, reply) <==> reply is Count),
        stage is StopService || stage is Report ==> (answers(stage, reply) <==> reply is Finished),
        stage is Urls ==> (answers(stage, reply) <==> reply is Urls),
        stage is Query ==> (answers(stage, reply) <==> reply is ModelList),
        stage is Catalog ==> (answers(stage, reply) <==> reply is Catalog),
        stage is Done ==> !answers(stage, reply),
{
}

/// A job follows only at the end of a search that found the service, and only where a model is
/// preferred; it loads that model.
pub proof fn only_the_preferred_model_follows(
    task: TaskView,
    f: FoundryView,
    preferred: Option<Seq<char>>,
)
    ensures
        task.next_job(f, preferred) is Some <==> task.job is Initialize && task.stage is Done
            && f.status is Ready && preferred is Some,
        task.next_job(f, preferred) matches Some(next) ==> next.stage is Manager && (
        preferred matches Some(alias) && next.job == JobView::Load(alias)),
        task.job is Initialize ==> task.job.alias().len() == 0,
{
}

/// The models of the service are kept in `.foundry`, and there in `cache`, in the home
/// directory, whether or not that is written with a separator at its end.
pub proof fn cache_is_in_the_home_directory(home: Seq<char>, separator: char)
    requires
        home.len() > 0,
        home.last() != separator,
        home.last() != '/',
    ensures
        model_cache(home, separator) == home + seq![separator] + ".foundry"@ + seq![separator]
            + "cache"@,
        model_cache(home.push(separator), separator) == model_cache(home, separator),
        model_cache(home.push('/'), separator) == home + seq!['/'] + ".foundry"@ + seq![separator]
            + "cache"@,
        model_cache(Seq::empty(), separator) == ".foundry"@ + seq![separator] + "cache"@,
{
    let dir = ".foundry"@ + seq![separator] + "cache"@;
    assert(model_cache(home, separator) =~= home + seq![separator] + ".foundry"@ + seq![separator]
        + "cache"@);
    assert(home.push(separator).last() == separator);
    assert(home.push('/').last() == '/');
    assert(model_cache(home.push(separator), separator) =~= model_cache(home, separator));
    assert(model_cache(home.push('/'), separator) =~= home + seq!['/'] + ".foundry"@
        + seq![separator] + "cache"@);
    assert(model_cache(Seq::empty(), separator) =~= dir);
}

/// The views of the state, of its lists and of the catalog have every part as it is.
pub proof fn state_is_whole(
    f: Foundry,
    m: ModelEntry,
    list: Seq<ModelEntry>,
    c: CatalogModel,
    models: Seq<CatalogModel>,
    i: int,
)
    ensures
        f@.status == f.state.status@,
        f@.models == entries(f.state.models@),
        f@.service_url == opt_text(f.state.service_url),
        f@.progress_label == opt_text(f.state.progress_label),
        f@.progress_pct == f.state.progress_pct,
        f@.last_message == opt_text(f.state.last_message),
        f@.upstream == f.upstream@,
        m@.alias == m.alias@,
        m@.id == m.id@,
        m@.device == m.device@,
        m@.is_cached == m.is_cached,
        m@.is_loaded == m.is_loaded,
        entries(list).len() == list.len(),
        0 <= i < list.len() ==> entries(list)[i] == list[i]@,
        c@.alias == c.alias@,
        c@.id == c.id@,
        c@.device == opt_text(c.device),
        c@.is_cached == c.is_cached,
        c@.is_loaded == c.is_loaded,
        catalog(models).len() == models.len(),
        0 <= i < models.len() ==> catalog(models)[i] == models[i]@,
{
}

/// The views of the status, of jobs and of stages are these themselves.
pub proof fn jobs_are_whole(text: String, list: Vec<ModelEntry>, job: Job, stage: Stage)
    ensures
        SdkStatus::Uninitialized@ is Uninitialized,
        SdkStatus::Initializing@ is Initializing,
        SdkStatus::Ready@ is Ready,
        SdkStatus::Error(text)@ == SdkStatusView::Error(text@),
        Job::Initialize@ is Initialize,
        Job::Load(text)@ == JobView::Load(text@),
        Job::Unload(text)@ == JobView::Unload(text@),
        Stage::Manager@ is Manager,
        Stage::Providers@ is Providers,
        Stage::Find@ is Find,
        Stage::Cached@ is Cached,
        Stage::Download@ is Download,
        Stage::Loaded@ is Loaded,
        Stage::Load@ is Load,
        Stage::Unload@ is Unload,
        Stage::StillLoaded@ is StillLoaded,
        Stage::StopService@ is StopService,
        Stage::StartService@ is StartService,
        Stage::Urls@ is Urls,
        Stage::Query(text)@ == StageView::Query(text@),
        Stage::Catalog@ is Catalog,
        Stage::Report(list)@ == StageView::Report(entries(list@)),
        Stage::Done@ is Done,
        (Task { job, stage })@.job == job@,
        (Task { job, stage })@.stage == stage@,
{
}

/// The views of replies are the replies themselves; of a model list, the ids in it.
pub proof fn replies_are_whole(
    error: Option<String>,
    text: String,
    flag: Option<bool>,
    count: Option<usize>,
    list: Vec<String>,
    body: Vec<u8>,
    models: Vec<CatalogModel>,
)
    ensures
        Reply::Connected(error)@ == ReplyView::Connected(opt_text(error)),
        Reply::ConnectionLost(text)@ == ReplyView::ConnectionLost(text@),
        Reply::Outcome(error)@ == ReplyView::Outcome(opt_text(error)),
        Reply::Flag(flag)@ == ReplyView::Flag(flag),
        Reply::Count(count)@ == ReplyView::Count(count),
        Reply::Urls(Some(list))@ == ReplyView::Urls(Some(texts(list@))),
        Reply::Urls(None)@ == ReplyView::Urls(None),
        Reply::ModelList(Some(body))@ == ReplyView::ModelList(ids_in(body@)),
        Reply::ModelList(None)@ == ReplyView::ModelList(Seq::empty()),
        Reply::Catalog(Ok(models))@ == ReplyView::Catalog(Ok(catalog(models@))),
        Reply::Catalog(Err(text))@ == ReplyView::Catalog(Err(text@)),
        Reply::Finished@ is Finished,
{
}

/// While a provider is registered or a model is downloaded, its name and how far it has come are
/// shown; progress of anything else is not.
pub proof fn progress_names_what_is_done(
    task: TaskView,
    f: FoundryView,
    provider: Seq<char>,
    alias: Seq<char>,
    pct: u64,
)
    ensures
        task.stage is Providers ==> task.noted(f, provider, pct) == (FoundryView {
            progress_label: Some("Registering EP: "@ + provider),
            progress_pct: pct,
            ..f
        }),
        task.stage is Download && task.job == JobView::Load(alias) ==> task.noted(f, provider, pct)
            == (FoundryView {
            progress_label: Some("Downloading "@ + alias + "\u{2026}"@),
            progress_pct: pct,
            ..f
        }),
        !(task.stage is Providers || task.stage is Download) ==> task.noted(f, provider, pct) == f,
{
}

/// The search begins with a status that says so and without an old message; all else that is
/// known stays.
pub proof fn search_begins_afresh(f: FoundryView)
    ensures
        f.searched().status is Initializing,
        f.searched().last_message is None,
        f.searched().models == f.models,
        f.searched().service_url == f.service_url,
        f.searched().progress_label == f.progress_label,
        f.searched().progress_pct == f.progress_pct,
        f.searched().upstream == f.upstream,
{
}

} // verus!

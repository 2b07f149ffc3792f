use npulama::foundry::{
    any_names, cache_dir, loaded_model_ids, manager_options, models_url, CatalogModel, Foundry,
    FoundryState, Job, ModelEntry, Reply, SdkStatus, Stage, Task,
};
use npulama::config::Config;
use npulama::proxy::{Admission, ProxyState, RequestHead};

fn fresh() -> Foundry {
    Foundry { state: FoundryState::default(), upstream: String::new() }
}

fn model(alias: &str) -> CatalogModel {
    CatalogModel {
        alias: alias.to_string(),
        id: format!("{}-id", alias),
        device: None,
        is_cached: Some(true),
        is_loaded: None,
    }
}

fn entry(alias: &str) -> ModelEntry {
    let mut e = ModelEntry::default();
    e.alias = alias.to_string();
    e
}

fn send(task: &mut Task, f: &mut Foundry, reply: Reply) {
    assert!(task.awaits(&reply), "{:?} at {:?}", reply, task.stage);
    task.step(f, reply);
}

fn ok() -> Reply {
    Reply::Outcome(None)
}

fn failed(e: &str) -> Reply {
    Reply::Outcome(Some(e.to_string()))
}

fn urls(url: &str) -> Reply {
    Reply::Urls(Some(vec![url.to_string(), "http://second".to_string()]))
}

fn message(f: &Foundry) -> &str {
    f.state.last_message.as_deref().unwrap_or("")
}

#[test]
fn state_starts_empty() {
    let f = fresh();
    assert_eq!(f.state.status, SdkStatus::Uninitialized);
    assert_eq!(f.state.status.clone(), SdkStatus::default());
    assert!(f.state.models.is_empty());
    assert_eq!(f.state.service_url, None);
    assert_eq!(f.state.progress_label, None);
    assert_eq!(f.state.progress_pct, 0.0f64.to_bits());
    assert_eq!(f.state.last_message, None);
}

#[test]
fn service_is_found() {
    let mut f = fresh();
    f.state.models = vec![entry("phi-4-mini"), entry("mistral-7b")];
    f.state.last_message = Some("old".to_string());
    let mut task = Task::initialize(&mut f);
    assert_eq!(f.state.status, SdkStatus::Initializing);
    assert_eq!(f.state.last_message, None);

    send(&mut task, &mut f, Reply::Connected(None));
    assert!(matches!(task.stage, Stage::Providers));
    task.note_progress("OpenVINO", 42.5f64.to_bits(), &mut f);
    assert_eq!(f.state.progress_label.as_deref(), Some("Registering EP: OpenVINO"));
    assert_eq!(f64::from_bits(f.state.progress_pct), 42.5);
    send(&mut task, &mut f, failed("no NPU"));
    assert_eq!(f.state.progress_label, None);
    assert_eq!(f.state.progress_pct, 0);
    assert_eq!(message(&f), "EP warning: no NPU");

    send(&mut task, &mut f, failed("runs already"));
    assert_eq!(message(&f), "Service start warning: runs already");
    send(&mut task, &mut f, urls("http://127.0.0.1:5000/"));
    assert_eq!(f.upstream, "http://127.0.0.1:5000/");
    assert_eq!(f.state.service_url.as_deref(), Some("http://127.0.0.1:5000/"));
    match &task.stage {
        Stage::Query(url) => assert_eq!(url, "http://127.0.0.1:5000/v1/models"),
        other => panic!("{:?}", other),
    }
    let body = b"{\"data\":[{\"id\":\"phi-4-mini-instruct-npu\"}]}".to_vec();
    send(&mut task, &mut f, Reply::ModelList(Some(body)));
    assert!(f.state.models[0].is_loaded);
    assert!(!f.state.models[1].is_loaded);
    assert_eq!(f.state.progress_label.as_deref(), Some("Loading catalog\u{2026}"));

    let mut found = model("phi-4-mini");
    found.device = Some("NPU".to_string());
    found.is_loaded = Some(true);
    send(&mut task, &mut f, Reply::Catalog(Ok(vec![found, model("x")])));
    assert_eq!(f.state.progress_label, None);
    assert_eq!(f.state.status, SdkStatus::Initializing);
    match &task.stage {
        Stage::Report(models) => {
            assert_eq!(models.len(), 2);
            assert_eq!(models[0].device, "NPU");
            assert!(models[0].is_cached && models[0].is_loaded);
            assert_eq!(models[1].device, "CPU");
            assert!(models[1].is_cached && !models[1].is_loaded);
            assert_eq!(models[1].id, "x-id");
        }
        other => panic!("{:?}", other),
    }
    assert_eq!(f.state.models.len(), 2);
    send(&mut task, &mut f, Reply::Finished);
    assert_eq!(f.state.status, SdkStatus::Ready);
    assert!(matches!(task.stage, Stage::Done));
    assert!(!task.awaits(&Reply::Finished));
}

#[test]
fn service_without_models_is_not_forwarded_to() {
    let mut f = fresh();
    let mut task = Task::initialize(&mut f);
    send(&mut task, &mut f, Reply::Connected(None));
    send(&mut task, &mut f, ok());
    send(&mut task, &mut f, ok());
    send(&mut task, &mut f, urls("http://a"));
    send(&mut task, &mut f, Reply::ModelList(None));
    assert_eq!(f.upstream, "");
    assert_eq!(f.state.service_url, None);
    send(&mut task, &mut f, Reply::Catalog(Err("offline".to_string())));
    assert_eq!(message(&f), "Catalog error: offline");
    match &task.stage {
        Stage::Report(models) => assert!(models.is_empty()),
        other => panic!("{:?}", other),
    }
}

#[test]
fn service_without_url_is_not_asked_for_models() {
    for reply in [Reply::Urls(None), Reply::Urls(Some(vec![]))] {
        let mut f = fresh();
        let mut task = Task::initialize(&mut f);
        send(&mut task, &mut f, Reply::Connected(None));
        send(&mut task, &mut f, ok());
        send(&mut task, &mut f, ok());
        send(&mut task, &mut f, reply);
        assert!(matches!(task.stage, Stage::Catalog));
    }
}

#[test]
fn missing_service_is_told() {
    let mut f = fresh();
    let mut task = Task::initialize(&mut f);
    send(&mut task, &mut f, Reply::Connected(Some("no library".to_string())));
    assert_eq!(
        f.state.status,
        SdkStatus::Error("Foundry Local not available: no library".to_string())
    );
    assert!(matches!(task.stage, Stage::Done));

    let mut task = Task::initialize(&mut f);
    send(&mut task, &mut f, Reply::ConnectionLost("panic".to_string()));
    assert_eq!(f.state.status, SdkStatus::Error("Spawn error: panic".to_string()));
}

#[test]
fn model_is_downloaded_loaded_and_served() {
    let mut f = fresh();
    let mut task = Task::load_model("phi".to_string());
    send(&mut task, &mut f, Reply::Connected(None));
    send(&mut task, &mut f, ok());
    send(&mut task, &mut f, Reply::Flag(None));
    assert!(matches!(task.stage, Stage::Download));
    task.note_progress("", 10.0f64.to_bits(), &mut f);
    assert_eq!(f.state.progress_label.as_deref(), Some("Downloading phi\u{2026}"));
    send(&mut task, &mut f, ok());
    assert_eq!(f.state.progress_label, None);
    send(&mut task, &mut f, Reply::Flag(Some(false)));
    assert_eq!(f.state.progress_label.as_deref(), Some("Loading phi\u{2026}"));
    send(&mut task, &mut f, ok());
    assert_eq!(f.state.progress_label, None);
    send(&mut task, &mut f, failed("busy"));
    assert_eq!(message(&f), "Service start failed: busy");
    send(&mut task, &mut f, urls("http://a"));
    assert_eq!(f.upstream, "http://a");
    send(&mut task, &mut f, Reply::Catalog(Ok(vec![model("phi")])));
    assert_eq!(f.state.models.len(), 1);
    send(&mut task, &mut f, Reply::Finished);
    assert_eq!(message(&f), "\u{2713} phi loaded and serving");
    assert!(matches!(task.stage, Stage::Done));
    assert_eq!(f.state.status, SdkStatus::Uninitialized);
}

#[test]
fn model_that_is_there_is_neither_downloaded_nor_loaded() {
    let mut f = fresh();
    let mut task = Task::load_model("phi".to_string());
    send(&mut task, &mut f, Reply::Connected(None));
    send(&mut task, &mut f, ok());
    send(&mut task, &mut f, Reply::Flag(Some(true)));
    assert!(matches!(task.stage, Stage::Loaded));
    send(&mut task, &mut f, Reply::Flag(Some(true)));
    assert!(matches!(task.stage, Stage::StartService));
}

#[test]
fn failures_to_load_end_the_job() {
    let to_find = vec![Reply::Connected(Some("x".to_string()))];
    let mut f = fresh();
    let mut task = Task::load_model("phi".to_string());
    for r in to_find {
        send(&mut task, &mut f, r);
    }
    assert_eq!(message(&f), "SDK error: x");
    assert!(matches!(task.stage, Stage::Done));

    let mut task = Task::load_model("phi".to_string());
    send(&mut task, &mut f, Reply::Connected(None));
    send(&mut task, &mut f, failed("gone"));
    assert_eq!(message(&f), "Model 'phi' not found: gone");
    assert!(matches!(task.stage, Stage::Done));

    let mut task = Task::load_model("phi".to_string());
    send(&mut task, &mut f, Reply::Connected(None));
    send(&mut task, &mut f, ok());
    send(&mut task, &mut f, Reply::Flag(Some(false)));
    send(&mut task, &mut f, failed("disk full"));
    assert_eq!(message(&f), "Download failed: disk full");
    assert!(matches!(task.stage, Stage::Done));

    let mut task = Task::load_model("phi".to_string());
    send(&mut task, &mut f, Reply::Connected(None));
    send(&mut task, &mut f, ok());
    send(&mut task, &mut f, Reply::Flag(Some(true)));
    send(&mut task, &mut f, Reply::Flag(None));
    send(&mut task, &mut f, failed("memory"));
    assert_eq!(message(&f), "Load failed: memory");
    assert_eq!(f.state.progress_label, None);
    assert!(matches!(task.stage, Stage::Done));

    let mut f = fresh();
    let mut task = Task::load_model("phi".to_string());
    send(&mut task, &mut f, Reply::ConnectionLost("x".to_string()));
    assert_eq!(message(&f), "");
    assert!(matches!(task.stage, Stage::Done));
}

#[test]
fn last_model_is_unloaded() {
    for count in [Some(0), None] {
        let mut f = fresh();
        f.upstream = "http://a".to_string();
        f.state.service_url = Some("http://a".to_string());
        let mut task = Task::unload_model("phi".to_string());
        send(&mut task, &mut f, Reply::Connected(None));
        send(&mut task, &mut f, ok());
        send(&mut task, &mut f, ok());
        send(&mut task, &mut f, Reply::Count(count));
        assert!(matches!(task.stage, Stage::StopService));
        assert_eq!(f.upstream, "http://a");
        send(&mut task, &mut f, Reply::Finished);
        assert_eq!(f.upstream, "");
        assert_eq!(f.state.service_url, None);
        send(&mut task, &mut f, Reply::Catalog(Ok(vec![])));
        send(&mut task, &mut f, Reply::Finished);
        assert_eq!(message(&f), "\u{2713} phi unloaded");
    }
}

#[test]
fn service_goes_on_for_other_models() {
    let mut f = fresh();
    f.upstream = "http://a".to_string();
    let mut task = Task::unload_model("phi".to_string());
    send(&mut task, &mut f, Reply::Connected(None));
    send(&mut task, &mut f, ok());
    send(&mut task, &mut f, ok());
    send(&mut task, &mut f, Reply::Count(Some(2)));
    assert!(matches!(task.stage, Stage::Catalog));
    assert_eq!(f.upstream, "http://a");
    assert_eq!(f.state.progress_label, None);

    let mut task = Task::unload_model("phi".to_string());
    send(&mut task, &mut f, Reply::Connected(None));
    send(&mut task, &mut f, ok());
    send(&mut task, &mut f, failed("in use"));
    assert_eq!(message(&f), "Unload failed: in use");
    assert!(matches!(task.stage, Stage::Done));
}

#[test]
fn names_and_addresses() {
    assert_eq!(models_url("http://a"), "http://a/v1/models");
    assert_eq!(models_url("http://a//"), "http://a/v1/models");
    assert!(any_names(&vec!["x".to_string(), "phi-4-mini-npu".to_string()], "phi-4-mini"));
    assert!(!any_names(&vec!["phi-4".to_string()], "phi-4-mini"));
    assert!(!any_names(&vec![], ""));
    assert!(loaded_model_ids(None).is_empty());
    assert_eq!(loaded_model_ids(Some(b"{\"data\":[{\"id\":\"m\"}]}".to_vec())), vec!["m"]);
}

#[test]
fn options_for_the_service() {
    let o = manager_options(Some("/home/me"), '/', 4096);
    assert_eq!(o.app_name, "npulama");
    assert_eq!(o.model_cache_dir, "/home/me/.foundry/cache");
    assert_eq!(o.context_setting, "context_length");
    assert_eq!(o.context_length, "4096");
    assert_eq!(manager_options(None, '/', 0).model_cache_dir, "");
}

#[test]
fn loaded_models_are_marked() {
    let mut f = fresh();
    f.upstream = "http://service".to_string();
    f.state.service_url = Some("http://service".to_string());
    f.state.models = vec![entry("phi-4-mini"), entry("mistral-7b")];
    f.mark_loaded(&vec!["Phi-4-mini-cpu".to_string(), "phi-4-mini-npu:1".to_string()]);
    assert!(f.state.models[0].is_loaded);
    assert!(!f.state.models[1].is_loaded);
    assert_eq!(f.upstream, "http://service");
    f.mark_loaded(&vec![]);
    assert_eq!(f.upstream, "");
    assert_eq!(f.state.service_url, None);
    assert!(f.state.models[0].is_loaded);
}

#[test]
fn models_are_kept_under_the_home_directory() {
    assert_eq!(cache_dir("/home/me", '/'), "/home/me/.foundry/cache");
    assert_eq!(cache_dir("C:\\Users\\me", '\\'), "C:\\Users\\me\\.foundry\\cache");
    assert_eq!(cache_dir("/", '/'), "/.foundry/cache");
    assert_eq!(cache_dir("C:\\", '\\'), "C:\\.foundry\\cache");
    assert_eq!(cache_dir("", '/'), ".foundry/cache");
    for home in ["/home/me", "/home/me/", "/", ""] {
        let joined = std::path::Path::new(home).join(".foundry").join("cache");
        assert_eq!(cache_dir(home, '/'), joined.to_string_lossy());
    }
}

#[test]
fn preferred_model_is_loaded_once_the_service_is_found() {
    let mut f = fresh();
    f.state.status = SdkStatus::Ready;
    let mut config = Config::default();
    let found = Task { job: Job::Initialize, stage: Stage::Done };
    assert!(found.next_job(&f, &config).is_none());
    config.preferred_model = Some("phi-4-mini".to_string());
    let next = found.next_job(&f, &config).unwrap();
    assert_eq!(next.alias(), "phi-4-mini");
    assert!(matches!(next.job, Job::Load(_)));
    assert!(matches!(next.stage, Stage::Manager));
    assert!(next.next_job(&f, &config).is_none());
    let loaded = Task { job: Job::Load("a".to_string()), stage: Stage::Done };
    assert!(loaded.next_job(&f, &config).is_none());
    let searching = Task { job: Job::Initialize, stage: Stage::Catalog };
    assert!(searching.next_job(&f, &config).is_none());
    f.state.status = SdkStatus::Error("gone".to_string());
    assert!(found.next_job(&f, &config).is_none());
}

#[test]
fn stopped_service_is_answered_with_503() {
    let mut f = fresh();
    f.upstream = "http://service".to_string();
    let mut task = Task { job: Job::Unload("a".to_string()), stage: Stage::StopService };
    send(&mut task, &mut f, Reply::Finished);
    let mut config = Config::default();
    config.upstream_url = f.upstream.clone();
    let head = RequestHead {
        method: "GET".to_string(),
        path_and_query: Some("/v1/models".to_string()),
        headers: vec![],
    };
    match ProxyState::new(&config).receive(head) {
        Admission::Answer(reply) => assert_eq!(reply.status, 503),
        Admission::Forward(route) => panic!("{:?}", route),
    }
}

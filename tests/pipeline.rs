use hypersonic::actions::Action;
use hypersonic::pipeline::{Pipeline, PipelineError};
use hypersonic::plugins::{
    DefaultHTMLTransformer, DefaultJSTransformer, DefaultNoopTransformer, Plugin,
};
use hypersonic::transformer_container::TransformerContainer;
use hypersonic::transformer_context::TransformerContext;
use hypersonic::transformer_result::TransformerResult;
use hypersonic::log_level::LogLevel;

fn registry() -> TransformerContainer {
    let mut r = TransformerContainer::new();
    r.add("*.html", Plugin::Html(DefaultHTMLTransformer::new()));
    r.add("*.js", Plugin::Js(DefaultJSTransformer::new(false, false)));
    r.add("*.jsx", Plugin::Js(DefaultJSTransformer::new(true, false)));
    r.add("*.ts", Plugin::Js(DefaultJSTransformer::new(false, true)));
    r.add("*.tsx", Plugin::Js(DefaultJSTransformer::new(true, true)));
    r.add("*.css", Plugin::Noop(DefaultNoopTransformer::new()));
    r
}

/// A file system and plugin stand-in: file texts, and the dependencies each
/// file's plugin reports (or `None` when its plugin fails).
struct World {
    files: Vec<(String, String)>,
    deps: Vec<(String, Option<Vec<String>>)>,
}

impl World {
    fn text(&self, path: &str) -> String {
        self.files.iter().find(|f| f.0 == path).map(|f| f.1.clone()).unwrap()
    }
    fn deps(&self, path: &str) -> Option<Vec<String>> {
        self.deps.iter().find(|d| d.0 == path).map(|d| d.1.clone()).unwrap_or(Some(vec![]))
    }
}

/// Drives a run to its end on one thread; returns the pipeline, the number
/// of `Done` actions processed, and the error that aborted the run, if any.
fn run(entry: &str, world: &World, capacity: usize) -> (Pipeline, usize, Option<PipelineError>) {
    let reg = registry();
    let mut p = Pipeline::new(capacity, entry.to_string());
    let mut dones = 0;
    while !p.is_complete() {
        let action = p.next_action().expect("pending action");
        let res = match action {
            Action::EntryAsset(path) => p.entry_asset(path).map(|_| ()),
            Action::CreateAsset(path) => p.create_asset(path).map(|_| ()),
            Action::ReadContents(id) => {
                let path = p.asset(id).unwrap().file_path.clone();
                p.read_contents(id, world.text(&path))
            }
            Action::AssignTransformers(id) => p.assign_transformers(id, &reg),
            Action::TransformContents(id, index) => match p.transform_contents(id, index, &reg) {
                Err(e) => Err(e),
                Ok(None) => Ok(()),
                Ok(Some(plugin)) => {
                    let asset = p.asset(id).unwrap();
                    let path = asset.file_path.clone();
                    let content = asset.content.clone();
                    let mut ctx = TransformerContext::new(LogLevel::Info);
                    let outcome = match (plugin, world.deps(&path)) {
                        (_, None) => TransformerResult::Error("unresolved".to_string()),
                        (Plugin::Html(h), Some(srcs)) => {
                            for d in h.dependencies(&path, &srcs) {
                                ctx.add_dependency(d);
                            }
                            TransformerResult::Continue
                        }
                        (_, Some(list)) => {
                            for d in list {
                                ctx.add_dependency(d);
                            }
                            TransformerResult::Continue
                        }
                    };
                    p.plugin_finished(id, index, &reg, ctx, content, outcome)
                }
            },
            Action::Done(id) => {
                dones += 1;
                p.done(id)
            }
        };
        if let Err(e) = res {
            return (p, dones, Some(e));
        }
    }
    (p, dones, None)
}

#[test]
fn html_entry_with_one_script() {
    let world = World {
        files: vec![
            ("/site/index.html".to_string(), "<script src=\"app.js\"></script>".to_string()),
            ("/site/app.js".to_string(), "console.log(1);".to_string()),
        ],
        deps: vec![("/site/index.html".to_string(), Some(vec!["app.js".to_string()]))],
    };
    let (p, dones, err) = run("/site/index.html", &world, 16);
    assert!(err.is_none());
    assert_eq!(p.asset_count(), 2);
    assert_eq!(p.in_flight_count(), 0);
    assert_eq!(dones, 2);
    assert_eq!(p.asset(1).unwrap().file_path, "/site/app.js");
    assert_eq!(p.asset(1).unwrap().transformer_pattern, "*.js");
    assert_eq!(p.asset(0).unwrap().transformer_pattern, "*.html");
    assert_eq!(p.asset(1).unwrap().content, "console.log(1);");
}

#[test]
fn unresolvable_import_aborts() {
    let world = World {
        files: vec![("/src/main.js".to_string(), "import './missing_module'".to_string())],
        deps: vec![("/src/main.js".to_string(), None)],
    };
    let (p, dones, err) = run("/src/main.js", &world, 16);
    assert!(matches!(err, Some(PipelineError::PluginFailed(_))));
    assert_eq!(dones, 0);
    assert_eq!(p.in_flight_count(), 1);
}

#[test]
fn same_dependency_from_two_assets_created_once() {
    let world = World {
        files: vec![
            ("/a/index.js".to_string(), "".to_string()),
            ("/a/left.js".to_string(), "".to_string()),
            ("/a/right.js".to_string(), "".to_string()),
            ("/a/shared.js".to_string(), "".to_string()),
        ],
        deps: vec![
            ("/a/index.js".to_string(), Some(vec!["/a/left.js".to_string(), "/a/right.js".to_string()])),
            ("/a/left.js".to_string(), Some(vec!["/a/shared.js".to_string()])),
            ("/a/right.js".to_string(), Some(vec!["/a/shared.js".to_string()])),
        ],
    };
    let (p, dones, err) = run("/a/index.js", &world, 16);
    assert!(err.is_none());
    assert_eq!(p.asset_count(), 4);
    assert_eq!(dones, 4);
    let shared = (0..4).filter(|i| p.asset(*i).unwrap().file_path == "/a/shared.js").count();
    assert_eq!(shared, 1);
}

#[test]
fn cycle_is_created_once_and_terminates() {
    let world = World {
        files: vec![
            ("/c/a.js".to_string(), "".to_string()),
            ("/c/b.js".to_string(), "".to_string()),
        ],
        deps: vec![
            ("/c/a.js".to_string(), Some(vec!["/c/b.js".to_string()])),
            ("/c/b.js".to_string(), Some(vec!["/c/a.js".to_string()])),
        ],
    };
    let (p, dones, err) = run("/c/a.js", &world, 16);
    assert!(err.is_none());
    assert_eq!(p.asset_count(), 2);
    assert_eq!(dones, 2);
    assert!(p.is_complete());
}

#[test]
fn direct_race_second_create_dropped() {
    let mut p = Pipeline::new(8, "/r/entry.js".to_string());
    assert!(matches!(p.next_action(), Some(Action::EntryAsset(_))));
    assert_eq!(p.entry_asset("/r/entry.js".to_string()).unwrap(), 0);
    assert_eq!(p.create_asset("/r/dep.js".to_string()).unwrap(), Some(1));
    assert_eq!(p.create_asset("/r/dep.js".to_string()).unwrap(), None);
    assert_eq!(p.create_asset("/r/entry.js".to_string()).unwrap(), None);
    assert_eq!(p.asset_count(), 2);
    assert_eq!(p.in_flight_count(), 2);
}

#[test]
fn ids_increase_and_arena_full_is_fatal() {
    let mut p = Pipeline::new(2, "/x/0.js".to_string());
    p.next_action();
    assert_eq!(p.entry_asset("/x/0.js".to_string()).unwrap(), 0);
    assert_eq!(p.create_asset("/x/1.js".to_string()).unwrap(), Some(1));
    assert!(matches!(p.create_asset("/x/2.js".to_string()), Err(PipelineError::ArenaFull)));
    assert_eq!(p.asset_count(), 2);
    assert_eq!(p.in_flight_count(), 2);
}

#[test]
fn chain_order_break_and_error() {
    let mut reg = TransformerContainer::new();
    reg.add("*.css", Plugin::Noop(DefaultNoopTransformer::new()));
    reg.add("*.css", Plugin::Html(DefaultHTMLTransformer::new()));
    reg.add("*.css", Plugin::Js(DefaultJSTransformer::new(false, false)));
    let mut p = Pipeline::new(4, "/s/a.css".to_string());
    p.next_action();
    p.entry_asset("/s/a.css".to_string()).unwrap();
    assert!(matches!(p.next_action(), Some(Action::ReadContents(0))));
    p.read_contents(0, "body{}".to_string()).unwrap();
    assert!(matches!(p.next_action(), Some(Action::AssignTransformers(0))));
    p.assign_transformers(0, &reg).unwrap();
    assert!(matches!(p.next_action(), Some(Action::TransformContents(0, 0))));
    assert!(matches!(
        p.transform_contents(0, 0, &reg).unwrap(),
        Some(Plugin::Noop(_))
    ));
    let ctx = TransformerContext::new(LogLevel::Info);
    p.plugin_finished(0, 0, &reg, ctx, "a".to_string(), TransformerResult::Continue).unwrap();
    assert!(matches!(p.next_action(), Some(Action::TransformContents(0, 1))));
    assert!(matches!(
        p.transform_contents(0, 1, &reg).unwrap(),
        Some(Plugin::Html(_))
    ));
    let ctx = TransformerContext::new(LogLevel::Info);
    p.plugin_finished(0, 1, &reg, ctx, "b".to_string(), TransformerResult::Break).unwrap();
    assert!(matches!(p.next_action(), Some(Action::Done(0))));
    assert_eq!(p.asset(0).unwrap().content, "b");
    let ctx = TransformerContext::new(LogLevel::Info);
    let r = p.plugin_finished(0, 2, &reg, ctx, "c".to_string(), TransformerResult::Error("bad".to_string()));
    assert!(matches!(r, Err(PipelineError::PluginFailed(m)) if m == "bad"));
    assert_eq!(p.asset(0).unwrap().content, "b");
    p.done(0).unwrap();
    assert!(matches!(p.done(0), Err(PipelineError::AlreadyDone(0))));
    assert!(matches!(p.done(5), Err(PipelineError::UnknownAsset(5))));
    assert!(p.is_complete());
}

#[test]
fn last_plugin_continue_gives_done() {
    let reg = registry();
    let mut p = Pipeline::new(4, "/s/a.css".to_string());
    p.next_action();
    p.entry_asset("/s/a.css".to_string()).unwrap();
    p.next_action();
    p.read_contents(0, "x".to_string()).unwrap();
    p.next_action();
    p.assign_transformers(0, &reg).unwrap();
    p.next_action();
    let mut ctx = TransformerContext::new(LogLevel::Verbose);
    ctx.add_dependency("/s/b.css".to_string());
    p.plugin_finished(0, 0, &reg, ctx, "x".to_string(), TransformerResult::Continue).unwrap();
    assert!(matches!(p.next_action(), Some(Action::CreateAsset(s)) if s == "/s/b.css"));
    assert!(matches!(p.next_action(), Some(Action::Done(0))));
    assert!(p.transform_contents(0, 1, &reg).unwrap().is_none());
    assert!(matches!(p.next_action(), Some(Action::Done(0))));
}

#[test]
fn no_matching_pattern_is_fatal() {
    let reg = registry();
    let mut p = Pipeline::new(4, "/s/readme.md".to_string());
    p.next_action();
    p.entry_asset("/s/readme.md".to_string()).unwrap();
    p.read_contents(0, "# hi".to_string()).unwrap();
    assert!(matches!(p.assign_transformers(0, &reg), Err(PipelineError::NoTransformer(0))));
    assert!(matches!(p.read_contents(3, String::new()), Err(PipelineError::UnknownAsset(3))));
}

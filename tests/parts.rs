use hypersonic::args::{entry_from, log_level_from, threads_from, Args, ArgsError};
use hypersonic::container::{CapacityExhausted, ContainerEntry, StaticContainer};
use hypersonic::hash::hash_path_buff_sha_256;
use hypersonic::log_level::LogLevel;
use hypersonic::paths::{file_name_of, join, parent_of};
use hypersonic::plugins::{
    DefaultHTMLTransformer, DefaultJSTransformer, DefaultNoopTransformer, Plugin, Transformer,
};
use hypersonic::profiler::StandardProfiler;
use hypersonic::queue::Queue;
use hypersonic::transformer_container::TransformerContainer;
use hypersonic::transformer_result::TransformerResult;

#[test]
fn queue_is_fifo_and_disconnect_is_idempotent() {
    let mut q = Queue::new();
    q.push(1);
    q.push(2);
    q.push(3);
    assert_eq!(q.recv(), Some(1));
    assert_eq!(q.len(), 2);
    q.disconnect_all();
    q.disconnect_all();
    assert!(q.disconnected());
    assert_eq!(q.recv(), Some(2));
    assert_eq!(q.recv(), Some(3));
    assert_eq!(q.recv(), None);
}

#[test]
fn static_container_fills_in_order() {
    let mut c = StaticContainer::new(2);
    assert_eq!(c.len(), 0);
    assert!(matches!(c.index(0), ContainerEntry::Undefined));
    assert_eq!(c.push("a"), Ok(0));
    assert_eq!(c.push("b"), Ok(1));
    assert_eq!(c.push("c"), Err(CapacityExhausted));
    assert_eq!(c.len(), 2);
    assert!(matches!(c.index(1), ContainerEntry::Value("b")));
}

#[test]
fn container_entry_value_mut() {
    let mut e = ContainerEntry::Value(5);
    if let Some(v) = e.get_value_mut() {
        *v = 7;
    }
    assert!(matches!(e, ContainerEntry::Value(7)));
    let mut u: ContainerEntry<i32> = ContainerEntry::Undefined;
    assert!(u.get_value_mut().is_none());
}

#[test]
fn path_digest_is_sha256_hex() {
    let h = hash_path_buff_sha_256("/a/b.js");
    assert_eq!(h.len(), 64);
    assert_eq!(h, hash_path_buff_sha_256("/a/b.js"));
    assert_ne!(h, hash_path_buff_sha_256("/a/c.js"));
    assert_eq!(
        hash_path_buff_sha_256("abc"),
        "ba7816bf8f01cfea414140de5dae2223b00361a396177a9cb410ff61f20015ad"
    );
}

#[test]
fn log_levels() {
    assert_eq!(log_level_from(None), Ok(LogLevel::Info));
    assert_eq!(log_level_from(Some("1")), Ok(LogLevel::Info));
    assert_eq!(log_level_from(Some("2")), Ok(LogLevel::Profiling));
    assert_eq!(log_level_from(Some("3")), Ok(LogLevel::Verbose));
    assert_eq!(log_level_from(Some("4")), Err(ArgsError::BadLogLevel));
    assert_eq!(log_level_from(Some("")), Err(ArgsError::BadLogLevel));
    assert!(LogLevel::Profiling.is_profiling());
    assert!(!LogLevel::Info.is_profiling());
    assert!(LogLevel::Verbose.is_verbose());
    assert!(!LogLevel::Profiling.is_verbose());
}

#[test]
fn thread_counts() {
    assert_eq!(threads_from(8, None), Ok(8));
    assert_eq!(threads_from(8, Some("3")), Ok(3));
    assert_eq!(threads_from(8, Some("+12")), Ok(12));
    assert_eq!(threads_from(8, Some("0")), Err(ArgsError::ZeroThreads));
    assert_eq!(threads_from(8, Some("x")), Err(ArgsError::ThreadsNotANumber));
    assert_eq!(threads_from(8, Some("-1")), Err(ArgsError::ThreadsNotANumber));
    assert_eq!(threads_from(8, Some("")), Err(ArgsError::ThreadsNotANumber));
    assert_eq!(
        threads_from(8, Some("99999999999999999999999")),
        Err(ArgsError::ThreadsNotANumber)
    );
}

#[test]
fn args_from_parts() {
    let a = Args::new(Some("src/index.html"), "/home/u", 4, None, Some("2")).unwrap();
    assert_eq!(a.entry, "/home/u/src/index.html");
    assert_eq!(a.threads, 4);
    assert_eq!(a.log_level, LogLevel::Profiling);
    assert!(a.profiling);
    let b = Args::new(Some("/abs/x.js"), "/home/u", 4, Some("2"), None).unwrap();
    assert_eq!(b.entry, "/abs/x.js");
    assert_eq!(b.threads, 2);
    assert!(!b.profiling);
    assert_eq!(Args::new(None, "/", 4, None, None).unwrap_err(), ArgsError::NoEntry);
    assert_eq!(Args::new(Some("a"), "/", 4, None, Some("9")).unwrap_err(), ArgsError::BadLogLevel);
    assert_eq!(Args::new(Some("a"), "/", 4, Some("0"), None).unwrap_err(), ArgsError::ZeroThreads);
}

#[test]
fn path_parts() {
    assert_eq!(parent_of("/a/b/c.html"), "/a/b");
    assert_eq!(parent_of("/c.html"), "/");
    assert_eq!(parent_of("c.html"), "");
    assert_eq!(file_name_of("/a/b/c.html"), "c.html");
    assert_eq!(file_name_of("c.html"), "c.html");
    assert_eq!(join("/a/b", "c.js"), "/a/b/c.js");
    assert_eq!(join("/", "c.js"), "/c.js");
    assert_eq!(join("/a", "/x/y.js"), "/x/y.js");
    assert_eq!(join("", "c.js"), "c.js");
    assert_eq!(entry_from("x.js", "/w"), "/w/x.js");
    assert_eq!(entry_from("/x.js", "/w"), "/x.js");
}

#[test]
fn registry_matches_and_indexes() {
    let mut r = TransformerContainer::new();
    r.add("*.html", Plugin::Html(DefaultHTMLTransformer::new()));
    r.add("*.js", Plugin::Js(DefaultJSTransformer::new(false, false)));
    r.add("*.js", Plugin::Noop(DefaultNoopTransformer::new()));
    assert_eq!(r.match_pattern("/p/index.html"), Ok("*.html".to_string()));
    assert_eq!(r.match_pattern("/p/app.js"), Ok("*.js".to_string()));
    assert_eq!(r.match_pattern("/p/app.rs"), Err(()));
    assert_eq!(r.chain_len("*.js"), 2);
    assert!(matches!(r.index("*.js", 0), Some(Plugin::Js(_))));
    assert!(matches!(r.index("*.js", 1), Some(Plugin::Noop(_))));
    assert!(r.index("*.js", 2).is_none());
    assert!(r.index("*.css", 0).is_none());
}

#[test]
fn plugin_names() {
    assert_eq!(DefaultHTMLTransformer::new().get_name(), "DefaultHTMLTransformer");
    assert_eq!(DefaultNoopTransformer::new().get_name(), "DefaultNoopTransformer");
    assert_eq!(DefaultJSTransformer::new(true, true).get_name(), "DefaultJSTransformer typescript");
    assert_eq!(DefaultJSTransformer::new(true, false).get_name(), "DefaultJSTransformer javascript");
}

#[test]
fn html_dependencies_are_relative_to_the_file() {
    let h = DefaultHTMLTransformer::new();
    let deps = h.dependencies("/site/index.html", &vec!["app.js".to_string(), "/abs.js".to_string()]);
    assert_eq!(deps, vec!["/site/app.js".to_string(), "/abs.js".to_string()]);
}

#[test]
fn js_candidates_and_first_resolved() {
    let c = DefaultJSTransformer::candidates("./m");
    assert_eq!(c.len(), 13);
    assert_eq!(c[0], "./m");
    assert_eq!(c[1], "./m.js");
    assert_eq!(c[5], "./m/index.js");
    assert_eq!(c[12], "./m/src/index.tsx");
    let none: Vec<Option<String>> = vec![None, None];
    assert_eq!(DefaultJSTransformer::pick_resolved(&none), None);
    let some = vec![None, Some("/p/m.ts".to_string()), Some("/p/m/index.js".to_string())];
    assert_eq!(DefaultJSTransformer::pick_resolved(&some), Some("/p/m.ts".to_string()));
}

#[test]
fn transformer_result_error() {
    let e = TransformerResult::Error("boom".to_string());
    assert!(e.is_err());
    assert_eq!(e.err(), "boom");
    assert!(!TransformerResult::Continue.is_err());
    assert!(!TransformerResult::Break.is_err());
}

#[test]
fn profiler_means() {
    let mut p = StandardProfiler::new();
    assert_eq!(p.get_nanos("ReadContents"), 0);
    p.record("ReadContents", 3000);
    p.record("ReadContents", 4001);
    p.record("CreateAsset", 10);
    assert_eq!(p.get_nanos("ReadContents"), 3500);
    assert_eq!(p.get_micro("ReadContents"), 3);
    assert_eq!(p.get_nanos("CreateAsset"), 10);
    assert_eq!(p.get_micro("CreateAsset"), 0);
    assert_eq!(p.get_profiles(), vec!["ReadContents".to_string(), "CreateAsset".to_string()]);
    p.record("big", u128::MAX);
    p.record("big", 5);
    assert_eq!(p.get_nanos("big"), u128::MAX / 2);
}

#[test]
fn missing_module_is_fatal_for_its_asset() {
    let results = vec![
        vec![Some("/p/a.js".to_string())],
        vec![None; 13],
        vec![None, Some("/p/c.ts".to_string())],
    ];
    assert_eq!(DefaultJSTransformer::resolve_dependencies(&results), Err(1));
    let ok = vec![
        vec![Some("/p/a.js".to_string())],
        vec![None, None, Some("/p/c.tsx".to_string())],
    ];
    assert_eq!(
        DefaultJSTransformer::resolve_dependencies(&ok),
        Ok(vec!["/p/a.js".to_string(), "/p/c.tsx".to_string()])
    );
    assert_eq!(DefaultJSTransformer::resolve_dependencies(&vec![]), Ok(vec![]));
}

#[test]
fn chain_keeps_registration_order_across_patterns() {
    let mut r = TransformerContainer::new();
    r.add("*.js", Plugin::Noop(DefaultNoopTransformer::new()));
    r.add("*.css", Plugin::Noop(DefaultNoopTransformer::new()));
    r.add("*.js", Plugin::Html(DefaultHTMLTransformer::new()));
    r.add("*.js", Plugin::Js(DefaultJSTransformer::new(true, true)));
    assert!(matches!(r.index("*.js", 0), Some(Plugin::Noop(_))));
    assert!(matches!(r.index("*.js", 1), Some(Plugin::Html(_))));
    assert!(matches!(r.index("*.js", 2), Some(Plugin::Js(_))));
    assert!(r.index("*.js", 3).is_none());
    assert_eq!(r.chain_len("*.css"), 1);
}
